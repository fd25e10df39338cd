//! Streaming spectrum pipeline for a software-defined radio receiver:
//! sample decoding, the hand-off between ingestion and transform, frame
//! assembly, the latest-frame slot, and the retuning state machine.

pub mod codec;
pub mod control;
pub mod frame;
pub mod queue;
pub mod ring;
