//! The frame clock: converts elapsed wall time into a whole number of frames
//! to advance, carrying the sub-frame remainder forward so that the long-run
//! frame rate is exact (no drift).
//!
//! The clock works in integer units of `micros * fps_num`. One full frame is
//! `fps_den * MICROS_PER_SEC` such units, so the accumulator never loses a
//! fraction: after any sequence of ticks, the total number of emitted frames
//! times the frame unit plus the remainder equals the total elapsed time
//! exactly.

use vstd::prelude::*;
use vstd::arithmetic::div_mod::{lemma_fundamental_div_mod, lemma_fundamental_div_mod_converse};

use crate::MICROS_PER_SEC;

verus! {

/// Largest elapsed time a single tick may report: one hour. The event loop
/// polls every few milliseconds, so this is a machine limit, not a policy;
/// it keeps `elapsed_micros * fps_num` far below `u64::MAX`.
pub const MAX_TICK_MICROS: u64 = 3_600_000_000;

/// Largest numerator / denominator accepted for a frame rate.
pub const MAX_FPS_PART: u32 = 1_000_000;

/// How many units of the accumulator make one whole frame for the given
/// frame-rate denominator: a frame lasts `fps_den * MICROS_PER_SEC / fps_num`
/// microseconds, i.e. `fps_den * MICROS_PER_SEC` units of `micros * fps_num`.
pub open spec fn frame_unit(fps_den: int) -> int {
    fps_den * MICROS_PER_SEC
}

/// Drift-free accumulator turning elapsed microseconds into whole frames.
pub struct FrameClock {
    /// Frame-rate numerator (frames), at least 1.
    pub fps_num: u32,
    /// Frame-rate denominator (seconds), at least 1.
    pub fps_den: u32,
    /// Sub-frame remainder, in units of `micros * fps_num`;
    /// always below `frame_unit(fps_den)`.
    pub acc: u64,
}

impl FrameClock {
    /// The clock's invariant: a positive, bounded rational rate and a
    /// remainder strictly below one frame's worth of time.
    pub open spec fn wf(self) -> bool {
        &&& 1 <= self.fps_num <= MAX_FPS_PART
        &&& 1 <= self.fps_den <= MAX_FPS_PART
        &&& self.acc < frame_unit(self.fps_den as int)
    }

    pub fn new(fps_num: u32, fps_den: u32) -> (clock: FrameClock)
        requires
            1 <= fps_num <= MAX_FPS_PART,
            1 <= fps_den <= MAX_FPS_PART,
        ensures
            clock.wf(),
            clock.fps_num == fps_num,
            clock.fps_den == fps_den,
            clock.acc == 0,
    {
        proof {
            assert(0 < fps_den * MICROS_PER_SEC) by (nonlinear_arith)
                requires 1 <= fps_den;
        }
        FrameClock { fps_num, fps_den, acc: 0 }
    }

    /// Advance the clock by `elapsed_micros` and return how many whole frames
    /// are now due. The returned count and the new remainder partition the
    /// total accumulated time exactly, so no time is ever lost or invented:
    /// this is the leap-frame compensation of the design, stated as an
    /// identity instead of a correction step.
    pub fn advance(&mut self, elapsed_micros: u64) -> (whole: u64)
        requires
            old(self).wf(),
            elapsed_micros <= MAX_TICK_MICROS,
        ensures
            final(self).wf(),
            final(self).fps_num == old(self).fps_num,
            final(self).fps_den == old(self).fps_den,
            whole == (old(self).acc + elapsed_micros * old(self).fps_num)
                / frame_unit(old(self).fps_den as int),
            final(self).acc == (old(self).acc + elapsed_micros * old(self).fps_num)
                % frame_unit(old(self).fps_den as int),
            whole * frame_unit(old(self).fps_den as int) + final(self).acc
                == old(self).acc + elapsed_micros * old(self).fps_num,
    {
        let num: u64 = self.fps_num as u64;
        let den: u64 = self.fps_den as u64;
        proof {
            assert(elapsed_micros * num
                <= MAX_TICK_MICROS * (MAX_FPS_PART as u64)) by (nonlinear_arith)
                requires
                    elapsed_micros <= MAX_TICK_MICROS,
                    num <= MAX_FPS_PART;
            assert(den * MICROS_PER_SEC
                <= (MAX_FPS_PART as int) * MICROS_PER_SEC) by (nonlinear_arith)
                requires den <= MAX_FPS_PART;
            assert(0 < den * MICROS_PER_SEC) by (nonlinear_arith)
                requires 1 <= den;
        }
        let unit: u64 = den * MICROS_PER_SEC;
        let total: u64 = self.acc + elapsed_micros * num;
        let whole: u64 = total / unit;
        self.acc = total % unit;
        proof {
            lemma_fundamental_div_mod(total as int, unit as int);
        }
        whole
    }
}

/// The elapsed time of a sequence of ticks, summed.
pub open spec fn ticks_sum(ticks: Seq<int>) -> int
    decreases ticks.len(),
{
    if ticks.len() == 0 {
        0
    } else {
        ticks_sum(ticks.drop_last()) + ticks.last()
    }
}

/// The remainder held by a clock that started empty and saw these ticks.
pub open spec fn acc_after(ticks: Seq<int>, fps_num: int, unit: int) -> int
    decreases ticks.len(),
{
    if ticks.len() == 0 {
        0
    } else {
        (acc_after(ticks.drop_last(), fps_num, unit) + ticks.last() * fps_num) % unit
    }
}

/// The total number of frames emitted by a clock that started empty and saw
/// these ticks, one `advance` per tick.
pub open spec fn frames_emitted(ticks: Seq<int>, fps_num: int, unit: int) -> int
    decreases ticks.len(),
{
    if ticks.len() == 0 {
        0
    } else {
        frames_emitted(ticks.drop_last(), fps_num, unit)
            + (acc_after(ticks.drop_last(), fps_num, unit) + ticks.last() * fps_num) / unit
    }
}

/// The clock never drifts: over any sequence of ticks, the frames emitted are
/// exactly the elapsed time times the frame rate, rounded down — the long-run
/// ratio of frames to wall time is the frame rate — and the remainder always
/// stays within `[0, frame_unit)`.
pub proof fn lemma_clock_drift_free(ticks: Seq<int>, fps_num: int, unit: int)
    requires
        1 <= fps_num,
        1 <= unit,
        forall|i: int| 0 <= i < ticks.len() ==> 0 <= #[trigger] ticks[i],
    ensures
        0 <= acc_after(ticks, fps_num, unit) < unit,
        frames_emitted(ticks, fps_num, unit) * unit + acc_after(ticks, fps_num, unit)
            == ticks_sum(ticks) * fps_num,
        frames_emitted(ticks, fps_num, unit) == (ticks_sum(ticks) * fps_num) / unit,
    decreases ticks.len(),
{
    if ticks.len() == 0 {
        assert(ticks_sum(ticks) * fps_num == 0) by (nonlinear_arith)
            requires ticks_sum(ticks) == 0;
        assert(0int / unit == 0) by (nonlinear_arith)
            requires 1 <= unit;
    } else {
        let prefix = ticks.drop_last();
        let last = ticks.last();
        assert(forall|i: int| 0 <= i < prefix.len() ==> 0 <= #[trigger] prefix[i]);
        lemma_clock_drift_free(prefix, fps_num, unit);
        let acc0 = acc_after(prefix, fps_num, unit);
        let carried = acc0 + last * fps_num;
        assert(0 <= last * fps_num) by (nonlinear_arith)
            requires 0 <= last, 1 <= fps_num;
        lemma_fundamental_div_mod(carried, unit);
        // remainder bounds for a nonnegative dividend
        assert(0 <= carried % unit < unit) by (nonlinear_arith)
            requires 1 <= unit, 0 <= carried;
        assert(ticks_sum(ticks) == ticks_sum(prefix) + last);
        assert((ticks_sum(prefix) + last) * fps_num
            == ticks_sum(prefix) * fps_num + last * fps_num) by (nonlinear_arith);
        let frames = frames_emitted(ticks, fps_num, unit);
        let acc1 = acc_after(ticks, fps_num, unit);
        assert(frames == frames_emitted(prefix, fps_num, unit) + carried / unit);
        assert(acc1 == carried % unit);
        assert((frames_emitted(prefix, fps_num, unit) + carried / unit) * unit
            == frames_emitted(prefix, fps_num, unit) * unit + (carried / unit) * unit)
            by (nonlinear_arith);
        assert(frames * unit + acc1 == ticks_sum(ticks) * fps_num);
        lemma_fundamental_div_mod_converse(
            ticks_sum(ticks) * fps_num, unit, frames, acc1);
    }
}

} // verus!
