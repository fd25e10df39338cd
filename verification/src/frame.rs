//! Spectrum frames, the single-slot holder of the latest frame, and the state
//! that the presentation layer draws from.
//!
//! Magnitudes are kept in thousandths of a decibel, as integers.

use crate::control::TuningState;
use crate::control::RTLSDR_MAX_BANDWIDTH;
use vstd::prelude::*;

verus! {

/// The lowest magnitude a frame holds, in thousandths of a decibel (-140 dB).
/// Whatever the transform reports below it, a zero magnitude included, is
/// raised to it.
pub const DB_FLOOR_MILLI: i32 = -140_000;

/// One point of a spectrum: the bin's index and its magnitude in thousandths
/// of a decibel.
#[derive(Clone, Copy, Debug, PartialEq, Eq, Structural)]
pub struct Bin {
    pub index: usize,
    pub magnitude: i32,
}

/// One completed spectrum: its bins, by ascending index from zero.
#[derive(Debug, PartialEq, Eq)]
pub struct SpectrumFrame {
    pub bins: Vec<Bin>,
}

/// A magnitude with the floor applied.
pub open spec fn floored(magnitude: i32) -> i32 {
    if magnitude < DB_FLOOR_MILLI {
        DB_FLOOR_MILLI
    } else {
        magnitude
    }
}

/// The bins made of a sequence of magnitudes.
pub open spec fn frame_of(magnitudes: Seq<i32>) -> Seq<Bin> {
    Seq::new(
        magnitudes.len(),
        |i: int| Bin { index: i as usize, magnitude: floored(magnitudes[i]) },
    )
}

/// `m` is the least magnitude among `bins`.
pub open spec fn is_min_of(bins: Seq<Bin>, m: i32) -> bool {
    &&& exists|i: int| 0 <= i < bins.len() && (#[trigger] bins[i]).magnitude == m
    &&& forall|i: int| 0 <= i < bins.len() ==> m <= (#[trigger] bins[i]).magnitude
}

/// `m` is the greatest magnitude among `bins`.
pub open spec fn is_max_of(bins: Seq<Bin>, m: i32) -> bool {
    &&& exists|i: int| 0 <= i < bins.len() && (#[trigger] bins[i]).magnitude == m
    &&& forall|i: int| 0 <= i < bins.len() ==> m >= (#[trigger] bins[i]).magnitude
}

impl SpectrumFrame {
    pub open spec fn view(&self) -> Seq<Bin> {
        self.bins@
    }

    /// A frame without bins.
    pub fn empty() -> (frame: SpectrumFrame)
        ensures
            frame@ == Seq::<Bin>::empty(),
    {
        SpectrumFrame { bins: Vec::new() }
    }

    /// Builds a frame from the transform's magnitudes, one bin for each, in
    /// order, with the floor applied to each.
    pub fn assemble(magnitudes: &[i32]) -> (frame: SpectrumFrame)
        ensures
            frame@ == frame_of(magnitudes@),
            frame@.len() == magnitudes@.len(),
    {
        let mut bins: Vec<Bin> = Vec::new();
        let mut i: usize = 0;
        while i < magnitudes.len()
            invariant
                i <= magnitudes@.len(),
                bins@.len() == i,
                forall|j: int| 0 <= j < i ==> #[trigger] bins@[j] == frame_of(magnitudes@)[j],
            decreases magnitudes@.len() - i,
        {
            let m: i32 = magnitudes[i];
            let magnitude: i32 = if m < DB_FLOOR_MILLI {
                DB_FLOOR_MILLI
            } else {
                m
            };
            bins.push(Bin { index: i, magnitude });
            i += 1;
        }
        assert(bins@ =~= frame_of(magnitudes@));
        SpectrumFrame { bins }
    }

    /// The least and the greatest magnitude of the frame; neither where the
    /// frame has no bins.
    pub fn magnitude_range(&self) -> (r: Option<(i32, i32)>)
        ensures
            r.is_some() <==> self@.len() > 0,
            r.is_some() ==> is_min_of(self@, r.unwrap().0) && is_max_of(self@, r.unwrap().1),
    {
        if self.bins.len() == 0 {
            return None;
        }
        let mut low: i32 = self.bins[0].magnitude;
        let mut high: i32 = self.bins[0].magnitude;
        let mut i: usize = 1;
        assert(self@.take(1)[0] == self@[0]);
        while i < self.bins.len()
            invariant
                1 <= i <= self@.len(),
                is_min_of(self@.take(i as int), low),
                is_max_of(self@.take(i as int), high),
            decreases self@.len() - i,
        {
            let m: i32 = self.bins[i].magnitude;
            proof {
                let before = self@.take(i as int);
                let after = self@.take(i + 1);
                let lo_at = choose|j: int| 0 <= j < before.len() && (#[trigger] before[j]).magnitude == low;
                let hi_at = choose|j: int| 0 <= j < before.len() && (#[trigger] before[j]).magnitude == high;
                assert(after[lo_at] == before[lo_at]);
                assert(after[hi_at] == before[hi_at]);
                assert(after[i as int].magnitude == m);
                assert forall|j: int| 0 <= j < i implies after[j] == before[j] by {}
            }
            if m < low {
                low = m;
            }
            if m > high {
                high = m;
            }
            i += 1;
        }
        assert(self@.take(i as int) =~= self@);
        Some((low, high))
    }
}

/// No magnitude of an assembled frame lies below the floor, the index of each
/// bin is its position (as a machine word), and there are as many bins as
/// magnitudes.
pub proof fn lemma_frame_shape(magnitudes: Seq<i32>)
    ensures
        frame_of(magnitudes).len() == magnitudes.len(),
        forall|i: int|
            0 <= i < magnitudes.len() ==> (#[trigger] frame_of(magnitudes)[i]).index
                == i as usize && frame_of(magnitudes)[i].magnitude >= DB_FLOOR_MILLI,
{
}

/// Where the transform reports nothing above the floor, as for a window of
/// silence, every bin of the frame sits exactly at the floor.
pub proof fn lemma_silence_at_floor(magnitudes: Seq<i32>)
    requires
        forall|i: int| 0 <= i < magnitudes.len() ==> #[trigger] magnitudes[i] <= DB_FLOOR_MILLI,
    ensures
        forall|i: int|
            0 <= i < magnitudes.len() ==> (#[trigger] frame_of(magnitudes)[i]).magnitude
                == DB_FLOOR_MILLI,
{
}

/// Holds at most one frame: the latest that was published and not yet taken.
pub struct LatestFrame {
    slot: Option<SpectrumFrame>,
}

/// What a slot holds after a frame was published into it: that frame, whatever
/// it held before.
pub open spec fn published(slot: Option<Seq<Bin>>, frame: Seq<Bin>) -> Option<Seq<Bin>> {
    Some(frame)
}

/// What taking from a slot hands out, and what the slot holds afterwards.
pub open spec fn taken(slot: Option<Seq<Bin>>) -> (Option<Seq<Bin>>, Option<Seq<Bin>>) {
    (slot, None)
}

impl LatestFrame {
    /// The frame that waits to be taken, if one does.
    pub closed spec fn view(&self) -> Option<Seq<Bin>> {
        match self.slot {
            Some(frame) => Some(frame@),
            None => None,
        }
    }

    /// An empty slot.
    pub fn new() -> (r: LatestFrame)
        ensures
            r@.is_none(),
    {
        LatestFrame { slot: None }
    }

    /// Puts a completed frame into the slot. A frame that nobody took is
    /// overwritten.
    pub fn publish(&mut self, frame: SpectrumFrame)
        ensures
            final(self)@ == published(old(self)@, frame@),
    {
        self.slot = Some(frame);
    }

    /// Hands out the frame that arrived since the last call, if one did, and
    /// leaves the slot empty. Never waits.
    pub fn try_take_latest(&mut self) -> (r: Option<SpectrumFrame>)
        ensures
            r.is_some() == taken(old(self)@).0.is_some(),
            r.is_some() ==> r.unwrap()@ == taken(old(self)@).0.unwrap(),
            final(self)@ == taken(old(self)@).1,
    {
        self.slot.take()
    }
}

/// Taking twice with nothing published in between: the second take finds
/// nothing.
pub proof fn lemma_second_take_is_empty(slot: Option<Seq<Bin>>)
    ensures
        taken(taken(slot).1).0.is_none(),
{
}

/// After a frame was published, the next take hands out exactly that frame,
/// and the take after it finds nothing: no frame is handed out twice.
pub proof fn lemma_published_frame_taken_once(slot: Option<Seq<Bin>>, frame: Seq<Bin>)
    ensures
        taken(published(slot, frame)).0 == Some(frame),
        taken(taken(published(slot, frame)).1).0.is_none(),
{
}

/// Of several frames published without a take in between, only the last is
/// ever handed out.
pub proof fn lemma_latest_overwrites(slot: Option<Seq<Bin>>, first: Seq<Bin>, second: Seq<Bin>)
    ensures
        taken(published(published(slot, first), second)).0 == Some(second),
{
}

/// What the presentation layer draws: the last frame it took, the axis bounds
/// and the number of frames it has taken.
pub struct FFTApp {
    pub tuning: TuningState,
    pub data: SpectrumFrame,
    pub x_min: u64,
    pub x_max: u64,
    pub y_min: Option<i32>,
    pub y_max: Option<i32>,
    pub in_count: u64,
}

impl FFTApp {
    /// Whether the bounds are those of the held frame and tuning.
    pub open spec fn bounds_current(&self) -> bool {
        &&& self.x_min == self.tuning.center_frequency
        &&& self.x_max == self.tuning.center_frequency + RTLSDR_MAX_BANDWIDTH
        &&& self.y_min.is_some() == (self.data@.len() > 0)
        &&& self.y_max.is_some() == (self.data@.len() > 0)
        &&& self.data@.len() > 0 ==> is_min_of(self.data@, self.y_min.unwrap()) && is_max_of(
            self.data@,
            self.y_max.unwrap(),
        )
    }

    /// A presentation state without a frame.
    pub fn new(tuning: TuningState) -> (app: FFTApp)
        ensures
            app.tuning == tuning,
            app.data@.len() == 0,
            app.in_count == 0,
            app.bounds_current(),
    {
        let axis = tuning.frequency_axis();
        FFTApp {
            tuning,
            data: SpectrumFrame::empty(),
            x_min: axis.0,
            x_max: axis.1,
            y_min: None,
            y_max: None,
            in_count: 0,
        }
    }

    /// One tick: takes the latest frame if one arrived, counts it, and brings
    /// the axis bounds up to date. Without a new frame the held one stays.
    pub fn update(&mut self, latest: &mut LatestFrame) -> (fresh: bool)
        ensures
            fresh == old(latest)@.is_some(),
            final(latest)@.is_none(),
            fresh ==> final(self).data@ == old(latest)@.unwrap(),
            !fresh ==> final(self).data@ == old(self).data@,
            final(self).in_count == if fresh && old(self).in_count < u64::MAX {
                old(self).in_count + 1
            } else {
                old(self).in_count as int
            },
            final(self).tuning == old(self).tuning,
            final(self).bounds_current(),
    {
        let fresh = match latest.try_take_latest() {
            Some(frame) => {
                self.in_count = self.in_count.saturating_add(1);
                self.data = frame;
                true
            },
            None => false,
        };
        let axis = self.tuning.frequency_axis();
        self.x_min = axis.0;
        self.x_max = axis.1;
        match self.data.magnitude_range() {
            Some((low, high)) => {
                self.y_min = Some(low);
                self.y_max = Some(high);
            },
            None => {
                self.y_min = None;
                self.y_max = None;
            },
        }
        fresh
    }
}

} // verus!
