//! Timing arithmetic: how long a frame took, and how long to wait after it.
//!
//! Time is measured with a hardware counter that counts up to a bound and
//! then starts again from zero. A frame that took less than its budget is
//! followed by a stall for the rest of the budget.

use vstd::prelude::*;

use crate::timestamp::TimestampProperties;
use crate::{MICROS_PER_FRAME, MICROS_PER_SECOND};

verus! {

/// Whether two readings can come from a counter that wraps at `wrap_bound`:
/// either the counter did not wrap between them, or the first reading lies
/// within the counter's range.
pub open spec fn spec_ticks_in_range(start_tick: u64, end_tick: u64, wrap_bound: u64) -> bool {
    end_tick >= start_tick || start_tick <= wrap_bound
}

/// Ticks that passed between two readings of a counter that wraps at
/// `wrap_bound`. A second reading below the first means that the counter
/// wrapped once in between.
pub open spec fn spec_elapsed_ticks(start_tick: u64, end_tick: u64, wrap_bound: u64) -> int {
    if end_tick >= start_tick {
        end_tick - start_tick
    } else {
        (wrap_bound - start_tick) + end_tick
    }
}

/// Whole microseconds in `ticks` ticks of a counter that runs at `frequency`
/// ticks per second.
pub open spec fn spec_ticks_to_micros(ticks: int, frequency: int) -> int
    recommends
        frequency > 0,
{
    ticks * MICROS_PER_SECOND / frequency
}

/// Microseconds that the frame between the two readings took.
pub open spec fn spec_frame_micros(
    timing: TimestampProperties,
    start_tick: u64,
    end_tick: u64,
) -> int
    recommends
        timing.spec_is_available(),
{
    spec_ticks_to_micros(
        spec_elapsed_ticks(start_tick, end_tick, timing.spec_end_value()),
        timing.spec_frequency() as int,
    )
}

/// The stall that keeps the frame rate after a frame of `elapsed_micros`
/// microseconds: the rest of the budget, or nothing where the budget is used
/// up.
pub open spec fn spec_stall_micros(target_frame_micros: u64, elapsed_micros: int) -> Option<u64> {
    if target_frame_micros > elapsed_micros {
        Some((target_frame_micros - elapsed_micros) as u64)
    } else {
        None
    }
}

/// The stall after the frame between the two readings. Without a counter
/// there is never one.
pub open spec fn spec_frame_stall(
    timing: TimestampProperties,
    start_tick: u64,
    end_tick: u64,
) -> Option<u64> {
    if timing.spec_is_available() {
        spec_stall_micros(MICROS_PER_FRAME as u64, spec_frame_micros(timing, start_tick, end_tick))
    } else {
        None
    }
}

#[verifier::when_used_as_spec(spec_ticks_in_range)]
pub fn ticks_in_range(start_tick: u64, end_tick: u64, wrap_bound: u64) -> (in_range: bool)
    ensures
        in_range == spec_ticks_in_range(start_tick, end_tick, wrap_bound),
{
    end_tick >= start_tick || start_tick <= wrap_bound
}

/// Ticks between two readings of a counter that wraps at `wrap_bound`.
pub fn elapsed_ticks(start_tick: u64, end_tick: u64, wrap_bound: u64) -> (elapsed: u64)
    requires
        spec_ticks_in_range(start_tick, end_tick, wrap_bound),
    ensures
        elapsed == spec_elapsed_ticks(start_tick, end_tick, wrap_bound),
{
    if end_tick >= start_tick {
        end_tick - start_tick
    } else {
        (wrap_bound - start_tick) + end_tick
    }
}

/// Converts ticks to whole microseconds, rounding down. A frequency of zero
/// means that timing is switched off, and nothing is returned.
pub fn ticks_to_micros(ticks: u64, frequency: u64) -> (micros: Option<u128>)
    ensures
        micros is None <==> frequency == 0,
        micros matches Some(m) ==> m == spec_ticks_to_micros(ticks as int, frequency as int),
{
    if frequency == 0 {
        None
    } else {
        assert(ticks * MICROS_PER_SECOND <= 0xffff_ffff_ffff_ffff * 1_000_000) by (nonlinear_arith)
            requires
                0 <= ticks <= 0xffff_ffff_ffff_ffff,
                MICROS_PER_SECOND == 1_000_000,
        ;
        let scaled: u128 = (ticks as u128) * (MICROS_PER_SECOND as u128);
        Some(scaled / (frequency as u128))
    }
}

/// How long to stall after a frame that took `elapsed_micros` microseconds,
/// where each frame has a budget of `target_frame_micros`.
pub fn stall_micros(target_frame_micros: u64, elapsed_micros: u128) -> (stall: Option<u64>)
    ensures
        stall == spec_stall_micros(target_frame_micros, elapsed_micros as int),
        stall is Some <==> target_frame_micros > elapsed_micros,
        stall matches Some(d) ==> d + elapsed_micros == target_frame_micros,
{
    if (target_frame_micros as u128) > elapsed_micros {
        Some(((target_frame_micros as u128) - elapsed_micros) as u64)
    } else {
        None
    }
}

/// How long to stall after the frame that was shown between the two
/// readings, so that frames follow each other at the frame rate.
pub fn frame_stall(timing: &TimestampProperties, start_tick: u64, end_tick: u64) -> (stall: Option<
    u64,
>)
    requires
        timing.spec_is_available() ==> spec_ticks_in_range(
            start_tick,
            end_tick,
            timing.spec_end_value(),
        ),
    ensures
        stall == spec_frame_stall(*timing, start_tick, end_tick),
        !timing.spec_is_available() ==> stall is None,
        stall matches Some(d) ==> 0 < d <= MICROS_PER_FRAME && d + spec_frame_micros(
            *timing,
            start_tick,
            end_tick,
        ) == MICROS_PER_FRAME,
{
    if !timing.is_available() {
        return None;
    }
    let elapsed = elapsed_ticks(start_tick, end_tick, timing.end_value());
    match ticks_to_micros(elapsed, timing.frequency()) {
        Some(elapsed_micros) => stall_micros(MICROS_PER_FRAME as u64, elapsed_micros),
        None => None,
    }
}

/// A counter that stays within its range never measures more than one full
/// round.
pub proof fn lemma_elapsed_within_one_round(start_tick: u64, end_tick: u64, wrap_bound: u64)
    requires
        start_tick <= wrap_bound,
        end_tick <= wrap_bound,
    ensures
        0 <= spec_elapsed_ticks(start_tick, end_tick, wrap_bound) <= wrap_bound,
{
}

} // verus!
