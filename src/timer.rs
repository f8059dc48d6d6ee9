use vstd::prelude::*;

verus! {

/// Number of recent frame durations that the timer averages over.
pub const FRAME_WINDOW: usize = 10;

/// Frame duration the window is seeded with before any frame is recorded (1/60 s).
pub const DEFAULT_FRAME_NANOS: u64 = 16_666_666;

/// Sum of a sequence of durations, as an unbounded integer.
pub open spec fn total_nanos(s: Seq<u64>) -> int
    decreases s.len(),
{
    if s.len() == 0 {
        0
    } else {
        total_nanos(s.drop_last()) + s.last()
    }
}

/// Rolling window of the last `FRAME_WINDOW` frame durations, in nanoseconds.
pub struct FrameTimer {
    durations: Vec<u64>,
}

impl FrameTimer {
    /// The recorded durations, oldest first.
    pub closed spec fn view(&self) -> Seq<u64> {
        self.durations@
    }

    /// The window holds exactly `FRAME_WINDOW` durations.
    pub open spec fn wf(&self) -> bool {
        self.view().len() == FRAME_WINDOW
    }

    /// Mean of the window, rounded down to whole nanoseconds.
    pub open spec fn spec_smoothed(&self) -> int {
        total_nanos(self.view()) / (FRAME_WINDOW as int)
    }

    /// A window filled with the 1/60 s default.
    pub fn new() -> (r: FrameTimer)
        ensures
            r.wf(),
            r.view() == Seq::new(FRAME_WINDOW as nat, |i: int| DEFAULT_FRAME_NANOS),
    {
        let mut durations: Vec<u64> = Vec::new();
        let mut i: usize = 0;
        while i < FRAME_WINDOW
            invariant
                i <= FRAME_WINDOW,
                durations@ == Seq::new(i as nat, |k: int| DEFAULT_FRAME_NANOS),
            decreases FRAME_WINDOW - i,
        {
            durations.push(DEFAULT_FRAME_NANOS);
            i = i + 1;
            assert(durations@ =~= Seq::new(i as nat, |k: int| DEFAULT_FRAME_NANOS));
        }
        FrameTimer { durations }
    }

    /// Records the duration of the frame that just ended, dropping the oldest one.
    pub fn record(&mut self, elapsed_nanos: u64)
        requires
            old(self).wf(),
        ensures
            final(self).wf(),
            final(self).view() == old(self).view().drop_first().push(elapsed_nanos),
    {
        self.durations.remove(0);
        self.durations.push(elapsed_nanos);
        assert(self.durations@ =~= old(self).view().drop_first().push(elapsed_nanos));
    }

    /// The smoothed frame time: the arithmetic mean of the window, in whole nanoseconds.
    pub fn smoothed_nanos(&self) -> (r: u64)
        requires
            self.wf(),
        ensures
            r == self.spec_smoothed(),
    {
        let mut sum: u128 = 0;
        let mut i: usize = 0;
        while i < self.durations.len()
            invariant
                self.wf(),
                i <= FRAME_WINDOW,
                sum == total_nanos(self.view().subrange(0, i as int)),
                sum <= i * (u64::MAX as int),
            decreases FRAME_WINDOW - i,
        {
            assert(self.view().subrange(0, i + 1).drop_last() =~= self.view().subrange(0, i as int));
            sum = sum + self.durations[i] as u128;
            i = i + 1;
        }
        assert(self.view().subrange(0, FRAME_WINDOW as int) =~= self.view());
        (sum / (FRAME_WINDOW as u128)) as u64
    }
}

} // verus!
