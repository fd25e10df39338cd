//! The ring-buffer hand-off between ingestion and transform.
//!
//! The ring itself is `spsc_bip_buffer`'s: a writer end for the ingestion
//! thread and a reader end for the transform thread. This module states what
//! the library relies on of the two ends, and builds the producer's and the
//! consumer's steps on that.

use crate::codec::complex_from_rtlsdr;
use crate::codec::decoded;
use crate::codec::IqSample;
use crate::control::DEFAULT_N_SAMPLES;
use crate::frame::frame_of;
use crate::frame::SpectrumFrame;
use spsc_bip_buffer::BipBufferReader;
use spsc_bip_buffer::BipBufferWriter;
use vstd::prelude::*;

verus! {

/// The writer end of the ring, `spsc_bip_buffer::BipBufferWriter`.
#[verifier::external_type_specification]
#[verifier::external_body]
pub struct ExBipBufferWriter(spsc_bip_buffer::BipBufferWriter);

/// The reader end of the ring, `spsc_bip_buffer::BipBufferReader`.
#[verifier::external_type_specification]
#[verifier::external_body]
pub struct ExBipBufferReader(spsc_bip_buffer::BipBufferReader);

/// The length in bytes of the storage that the writer's ring was made with.
pub uninterp spec fn writer_capacity(writer: BipBufferWriter) -> nat;

/// The bytes that the reader may consume by its own cursors: from its read
/// cursor to the end of what its last look at the ring found committed.
pub uninterp spec fn reader_span(reader: BipBufferReader) -> Seq<u8>;

/// `spsc_bip_buffer::bip_buffer_with_len`: makes a ring over `len` zeroed
/// bytes and hands out its two ends. The writer's ring has that length, and
/// the reader has nothing to consume yet.
#[verifier::external_body]
fn ring_with_len(len: usize) -> (ends: (BipBufferWriter, BipBufferReader))
    requires
        len <= isize::MAX,
    ensures
        writer_capacity(ends.0) == len,
        reader_span(ends.1) == Seq::<u8>::empty(),
{
    spsc_bip_buffer::bip_buffer_with_len(len)
}

/// `BipBufferWriter::reserve`, then `copy_from_slice` into the reservation and
/// `BipBufferWriterReservation::send`: commits `chunk` to the ring if the ring
/// has that much contiguous room, and says whether it did. Room depends on how
/// far the reader has come, so success is not promised; it is ruled out where
/// the chunk is longer than the ring. A reservation of no bytes panics.
#[verifier::external_body]
fn reserve_and_send(writer: &mut BipBufferWriter, chunk: &[u8]) -> (sent: bool)
    requires
        chunk@.len() > 0,
    ensures
        sent ==> chunk@.len() <= writer_capacity(*old(writer)),
        writer_capacity(*final(writer)) == writer_capacity(*old(writer)),
{
    match writer.reserve(chunk.len()) {
        Some(mut reservation) => {
            reservation.copy_from_slice(chunk);
            reservation.send();
            true
        },
        None => false,
    }
}

/// `BipBufferReader::valid`, copied out: looks at the ring and returns the
/// contiguous committed bytes at the read cursor. They are what the reader may
/// consume from then on, and they begin with what it could consume before the
/// look: bytes only arrive, in the order in which they were committed.
#[verifier::external_body]
fn valid_copy(reader: &mut BipBufferReader) -> (bytes: Vec<u8>)
    ensures
        bytes@ == reader_span(*final(reader)),
        reader_span(*old(reader)).is_prefix_of(reader_span(*final(reader))),
{
    reader.valid().to_vec()
}

/// `BipBufferReader::consume`: releases the first `len` bytes of what the
/// reader may consume, and refuses, changing nothing, where it holds fewer.
/// What is left stays at the front.
#[verifier::external_body]
fn consume(reader: &mut BipBufferReader, len: usize) -> (done: bool)
    ensures
        done == (len <= reader_span(*old(reader)).len()),
        done ==> reader_span(*old(reader)).skip(len as int).is_prefix_of(
            reader_span(*final(reader)),
        ),
        !done ==> reader_span(*final(reader)) == reader_span(*old(reader)),
{
    reader.consume(len)
}

/// The capacity of the ring for a transform window of `window` bytes: two full
/// windows.
pub open spec fn ring_capacity(window: usize) -> int {
    2 * window
}

/// Makes the ring for a transform window of `window` bytes. There is none for
/// an empty window, nor where two windows are more than can be allocated.
pub fn stream_buffer(window: usize) -> (ends: Option<(BipBufferWriter, BipBufferReader)>)
    ensures
        ends.is_some() <==> 0 < window && ring_capacity(window) <= isize::MAX,
        ends.is_some() ==> writer_capacity(ends.unwrap().0) == ring_capacity(window)
            && reader_span(ends.unwrap().1).len() == 0,
{
    if window == 0 || window > (isize::MAX as usize) / 2 {
        None
    } else {
        Some(ring_with_len(2 * window))
    }
}

/// Counters of one pipeline stage. They only grow, and stop at the largest
/// number they can hold.
#[derive(Clone, Copy, Debug, PartialEq, Eq, Structural)]
pub struct WorkerStats {
    /// Chunks that the stage was handed.
    pub count_in: u64,
    /// Chunks that the stage passed on.
    pub count_out: u64,
    /// Chunks that found no room and were dropped.
    pub dropped: u64,
    /// Bytes that the stage passed on.
    pub bytes_out: u64,
}

/// A counter after `by` more events.
pub open spec fn raised(counter: u64, by: nat) -> u64 {
    if counter + by <= u64::MAX {
        (counter + by) as u64
    } else {
        u64::MAX
    }
}

/// A counter after one more event.
pub open spec fn bumped(counter: u64) -> u64 {
    raised(counter, 1)
}

impl WorkerStats {
    /// The counters after one chunk of `len` bytes was offered, and passed on
    /// or dropped.
    pub open spec fn after_offer(self, sent: bool, len: nat) -> WorkerStats {
        WorkerStats {
            count_in: bumped(self.count_in),
            count_out: if sent {
                bumped(self.count_out)
            } else {
                self.count_out
            },
            dropped: if sent {
                self.dropped
            } else {
                bumped(self.dropped)
            },
            bytes_out: if sent {
                raised(self.bytes_out, len)
            } else {
                self.bytes_out
            },
        }
    }

    /// All counters at zero.
    pub fn new() -> (stats: WorkerStats)
        ensures
            stats == (WorkerStats { count_in: 0, count_out: 0, dropped: 0, bytes_out: 0 }),
    {
        WorkerStats { count_in: 0, count_out: 0, dropped: 0, bytes_out: 0 }
    }

    /// Counts one offered chunk of `len` bytes.
    pub fn record_offer(&mut self, sent: bool, len: usize)
        ensures
            *final(self) == old(self).after_offer(sent, len as nat),
    {
        self.count_in = self.count_in.saturating_add(1);
        if sent {
            self.count_out = self.count_out.saturating_add(1);
            self.bytes_out = self.bytes_out.saturating_add(len as u64);
        } else {
            self.dropped = self.dropped.saturating_add(1);
        }
    }
}

/// Offers one chunk from the device to the ring and counts it. A chunk that
/// finds no room is dropped and counted as such; nothing is retried. An empty
/// chunk, and one longer than the ring, is always dropped.
pub fn offer_chunk(writer: &mut BipBufferWriter, stats: &mut WorkerStats, chunk: &[u8]) -> (sent:
    bool)
    ensures
        writer_capacity(*final(writer)) == writer_capacity(*old(writer)),
        chunk@.len() == 0 || chunk@.len() > writer_capacity(*old(writer)) ==> !sent,
        *final(stats) == old(stats).after_offer(sent, chunk@.len()),
{
    let sent = if chunk.len() == 0 {
        false
    } else {
        reserve_and_send(writer, chunk)
    };
    stats.record_offer(sent, chunk.len());
    sent
}

/// What the consumer finds when it looks for a full window.
#[derive(Debug)]
pub enum WindowPoll {
    /// A full window, decoded.
    Ready(Vec<IqSample>),
    /// Less than a window so far; more may come.
    Pending,
    /// Less than a window, and the producer has stopped: none will come.
    Closed,
    /// Less than a window, and the worker has waited as long as it may.
    TimedOut,
}

/// The number of polls in a row that may find less than a window before a
/// worker gives up, unless it is told otherwise.
pub const DEFAULT_PATIENCE: u32 = 5000;

/// What a poll decides when it finds less than a window.
pub ghost enum ShortPoll {
    Pending,
    Closed,
    TimedOut,
}

/// The decision of a poll that finds less than a window, and the number of
/// such polls in a row after it: a closed stream has ended; an open one is
/// waited for until `patience` polls in a row have found too little.
pub open spec fn short_poll(closed: bool, idle: u32, patience: u32) -> (ShortPoll, u32) {
    if closed {
        (ShortPoll::Closed, idle)
    } else if idle >= patience {
        (ShortPoll::TimedOut, idle)
    } else {
        (ShortPoll::Pending, (idle + 1) as u32)
    }
}

/// The idle count after `polls` polls in a row that found less than a window
/// in an open stream.
pub open spec fn idle_after(idle: u32, patience: u32, polls: nat) -> u32
    decreases polls,
{
    if polls == 0 {
        idle
    } else {
        short_poll(false, idle_after(idle, patience, (polls - 1) as nat), patience).1
    }
}

impl WindowPoll {
    /// Whether the poll's answer is the given decision.
    pub open spec fn is_short(&self, decision: ShortPoll) -> bool {
        match decision {
            ShortPoll::Pending => self is Pending,
            ShortPoll::Closed => self is Closed,
            ShortPoll::TimedOut => self is TimedOut,
        }
    }
}

/// The transform stage's end of the ring.
pub struct FFTWorker {
    /// The reader end of the ring.
    pub input_queue: BipBufferReader,
    /// Bytes per transform window.
    pub window: usize,
    /// Bins produced so far.
    pub count: u64,
    /// Polls in a row that may find less than a window.
    pub patience: u32,
    /// Polls in a row that have found less than a window.
    pub idle: u32,
}

impl FFTWorker {
    /// The bytes that the worker may consume.
    pub open spec fn span(&self) -> Seq<u8> {
        reader_span(self.input_queue)
    }

    /// A worker on the default window.
    pub fn new(input_queue: BipBufferReader) -> (worker: FFTWorker)
        ensures
            worker.input_queue == input_queue,
            worker.window == DEFAULT_N_SAMPLES,
            worker.count == 0,
            worker.patience == DEFAULT_PATIENCE,
            worker.idle == 0,
    {
        FFTWorker {
            input_queue,
            window: DEFAULT_N_SAMPLES as usize,
            count: 0,
            patience: DEFAULT_PATIENCE,
            idle: 0,
        }
    }

    /// Looks for a full window of bytes. With one there, hands out its samples,
    /// half as many as the window has bytes, and leaves the bytes in the ring.
    /// With less: the producer having stopped, the stream has ended; else the
    /// worker is to wait and poll again, until it has found less than a window
    /// `patience` times in a row, after which it has timed out.
    pub fn next_window(&mut self, closed: bool) -> (poll: WindowPoll)
        ensures
            final(self).window == old(self).window,
            final(self).count == old(self).count,
            final(self).patience == old(self).patience,
            old(self).span().is_prefix_of(final(self).span()),
            final(self).span().len() >= old(self).window ==> final(self).idle == 0 && (
            poll matches WindowPoll::Ready(samples) && samples@ == decoded(
                final(self).span().take(old(self).window as int),
            )),
            final(self).span().len() < old(self).window ==> poll.is_short(
                short_poll(closed, old(self).idle, old(self).patience).0,
            ) && final(self).idle == short_poll(closed, old(self).idle, old(self).patience).1,
    {
        let mut bytes = valid_copy(&mut self.input_queue);
        if bytes.len() >= self.window {
            bytes.truncate(self.window);
            self.idle = 0;
            WindowPoll::Ready(complex_from_rtlsdr(bytes.as_slice()))
        } else if closed {
            WindowPoll::Closed
        } else if self.idle >= self.patience {
            WindowPoll::TimedOut
        } else {
            self.idle = self.idle + 1;
            WindowPoll::Pending
        }
    }

    /// Completes one transform: builds the frame from the magnitudes of the
    /// window's bins, counts them, and releases the window's bytes. Where the
    /// ring holds no full window for the worker, nothing is released or
    /// counted and no frame is built.
    pub fn compute_fft(&mut self, magnitudes: &[i32]) -> (frame: Option<SpectrumFrame>)
        requires
            magnitudes@.len() == old(self).window / 2,
        ensures
            final(self).window == old(self).window,
            final(self).patience == old(self).patience,
            final(self).idle == old(self).idle,
            frame.is_some() == (old(self).window <= old(self).span().len()),
            frame.is_some() ==> {
                &&& frame.unwrap()@ == frame_of(magnitudes@)
                &&& frame.unwrap()@.len() == old(self).window / 2
                &&& old(self).span().skip(old(self).window as int).is_prefix_of(final(self).span())
                &&& final(self).count == raised(old(self).count, magnitudes@.len())
            },
            frame.is_none() ==> final(self).span() == old(self).span() && final(self).count == old(
                self,
            ).count,
    {
        if consume(&mut self.input_queue, self.window) {
            self.count = self.count.saturating_add(magnitudes.len() as u64);
            Some(SpectrumFrame::assemble(magnitudes))
        } else {
            None
        }
    }
}

/// A frame has half as many bins as its window has bytes: the window decodes
/// to half as many samples, the transform returns one value for each sample,
/// and the frame has one bin for each value.
pub proof fn lemma_frame_is_half_window(window: Seq<u8>, magnitudes: Seq<i32>)
    requires
        magnitudes.len() == decoded(window).len(),
    ensures
        decoded(window).len() == window.len() / 2,
        frame_of(magnitudes).len() == window.len() / 2,
{
}

/// Once the stream is closed, a poll that finds less than a window ends the
/// worker's loop: it neither waits nor times out.
pub proof fn lemma_closed_stops_the_worker(idle: u32, patience: u32)
    ensures
        short_poll(true, idle, patience) == (ShortPoll::Closed, idle),
{
}

/// Waiting is bounded: in an open stream that stays short of a window, a
/// worker that starts within its patience is told to wait exactly until it has
/// polled `patience` times in a row, and from then on every poll times out.
pub proof fn lemma_wait_is_bounded(idle: u32, patience: u32, polls: nat)
    requires
        idle <= patience,
    ensures
        idle_after(idle, patience, polls) == if idle + polls <= patience {
            (idle + polls) as u32
        } else {
            patience
        },
        short_poll(false, idle_after(idle, patience, polls), patience).0 == if idle + polls
            < patience {
            ShortPoll::Pending
        } else {
            ShortPoll::TimedOut
        },
    decreases polls,
{
    if polls > 0 {
        lemma_wait_is_bounded(idle, patience, (polls - 1) as nat);
    }
}

/// No counter ever falls: whatever is offered, and whether it is passed on or
/// dropped, each counter afterwards is at least what it was, and every offer
/// is counted once, as passed on or as dropped.
pub proof fn lemma_counters_only_grow(stats: WorkerStats, sent: bool, len: nat)
    ensures
        stats.after_offer(sent, len).count_in >= stats.count_in,
        stats.after_offer(sent, len).count_out >= stats.count_out,
        stats.after_offer(sent, len).dropped >= stats.dropped,
        stats.after_offer(sent, len).bytes_out >= stats.bytes_out,
        sent ==> stats.after_offer(sent, len).dropped == stats.dropped,
        !sent ==> stats.after_offer(sent, len).count_out == stats.count_out && stats.after_offer(
            sent,
            len,
        ).bytes_out == stats.bytes_out,
{
}

} // verus!
