//! The playback loop as a state machine.
//!
//! Playback starts in `Init`, shows every whole frame of the asset once while
//! `Playing`, and ends in `Halted`, from which nothing leads away. The
//! machine decides; the program around it reads, blits and waits, and tells
//! the machine what happened.

use vstd::prelude::*;

use crate::frame::spec_frame_count;
use crate::frame::FrameAsset;
use crate::pacing::{frame_stall, spec_frame_stall, spec_ticks_in_range, ticks_in_range};
use crate::timestamp::TimestampProperties;

verus! {

#[derive(Clone, Copy, Debug, PartialEq, Eq, Structural)]
pub enum Phase {
    /// The mode is being chosen and the asset opened.
    Init,
    /// Frames are being shown.
    Playing,
    /// Playback is over, after the last frame or after a failure.
    Halted,
}

/// What the program reports to the machine.
#[derive(Clone, Copy, Debug, PartialEq, Eq, Structural)]
pub enum Event {
    /// The display is set up and the asset is open; it holds `asset_size`
    /// bytes.
    Ready { asset_size: u64 },
    /// A frame has been read and blitted. The counter was read before the
    /// read and after the blit.
    FrameShown { start_tick: u64, end_tick: u64 },
    /// Something failed that playback cannot recover from.
    Failed,
}

/// What the program does after a stall.
#[derive(Clone, Copy, Debug, PartialEq, Eq, Structural)]
pub enum Next {
    /// Read the next frame and blit it.
    ShowFrame,
    /// Park the processor for good.
    Halt,
}

/// The machine's answer to an event: an optional stall, in microseconds, and
/// what follows it.
#[derive(Clone, Copy, Debug, PartialEq, Eq)]
pub struct Step {
    pub stall_micros: Option<u64>,
    pub next: Next,
}

/// The state of playback as contracts see it.
pub struct PlaybackState {
    pub phase: Phase,
    pub timing: TimestampProperties,
    /// Whole frames in the asset; zero until the asset is known.
    pub frame_count: nat,
    /// Frames that have been shown.
    pub frames_shown: nat,
}

impl PlaybackState {
    /// The states that playback can be in: no frame is shown before the
    /// asset is known or beyond its end, and while frames are being shown at
    /// least one is still to come.
    pub open spec fn wf(self) -> bool {
        &&& self.frames_shown <= self.frame_count
        &&& self.phase == Phase::Init ==> self.frame_count == 0
        &&& self.phase == Phase::Playing ==> self.frames_shown < self.frame_count
    }

    pub open spec fn halted(self) -> PlaybackState {
        PlaybackState { phase: Phase::Halted, ..self }
    }

    /// Whether the two readings of a shown frame can be taken as a
    /// measurement. Without a counter nothing is measured.
    pub open spec fn accepts_ticks(self, start_tick: u64, end_tick: u64) -> bool {
        self.timing.spec_is_available() ==> spec_ticks_in_range(
            start_tick,
            end_tick,
            self.timing.spec_end_value(),
        )
    }
}

/// The transition function of playback.
///
/// * `Init` takes `Ready`: with at least one whole frame in the asset
///   playback goes to `Playing` and the first frame is shown; with none it
///   is over at once.
/// * `Playing` takes `FrameShown`: the frame is counted, the rest of its time
///   budget is stalled, and after the last frame playback halts.
/// * Everything else halts playback without a stall: a failure, an event
///   that the phase does not expect, and readings that cannot come from the
///   counter.
pub open spec fn spec_step(state: PlaybackState, event: Event) -> (PlaybackState, Step) {
    let halt = (state.halted(), Step { stall_micros: None, next: Next::Halt });
    match (state.phase, event) {
        (Phase::Init, Event::Ready { asset_size }) => {
            let frame_count = spec_frame_count(asset_size) as nat;
            if frame_count > 0 {
                (
                    PlaybackState {
                        phase: Phase::Playing,
                        timing: state.timing,
                        frame_count,
                        frames_shown: 0,
                    },
                    Step { stall_micros: None, next: Next::ShowFrame },
                )
            } else {
                halt
            }
        },
        (Phase::Playing, Event::FrameShown { start_tick, end_tick }) => {
            if state.accepts_ticks(start_tick, end_tick) {
                let frames_shown = state.frames_shown + 1;
                let stall_micros = spec_frame_stall(state.timing, start_tick, end_tick);
                if frames_shown < state.frame_count {
                    (
                        PlaybackState { frames_shown, ..state },
                        Step { stall_micros, next: Next::ShowFrame },
                    )
                } else {
                    (
                        PlaybackState { phase: Phase::Halted, frames_shown, ..state },
                        Step { stall_micros, next: Next::Halt },
                    )
                }
            } else {
                halt
            }
        },
        _ => halt,
    }
}

/// The state after a run of shown frames, each given by its two readings.
pub open spec fn spec_after_frames(state: PlaybackState, readings: Seq<(u64, u64)>) -> PlaybackState
    decreases readings.len(),
{
    if readings.len() == 0 {
        state
    } else {
        let (start_tick, end_tick) = readings.last();
        spec_step(
            spec_after_frames(state, readings.drop_last()),
            Event::FrameShown { start_tick, end_tick },
        ).0
    }
}

/// Every step leads from a state that playback can be in to another one, and
/// the asset, once known, stays the same.
pub proof fn lemma_step_keeps_wf(state: PlaybackState, event: Event)
    requires
        state.wf(),
    ensures
        spec_step(state, event).0.wf(),
        spec_step(state, event).0.timing == state.timing,
        state.phase != Phase::Init ==> spec_step(state, event).0.frame_count == state.frame_count,
        spec_step(state, event).0.frames_shown >= state.frames_shown,
{
}

/// Nothing leads away from `Halted`: the state stays as it is, and the answer
/// is to halt without a stall.
pub proof fn lemma_halted_is_terminal(state: PlaybackState, event: Event)
    requires
        state.phase == Phase::Halted,
    ensures
        spec_step(state, event).0 == state,
        spec_step(state, event).1 == (Step { stall_micros: None, next: Next::Halt }),
{
}

/// The machine asks for another frame exactly when it is `Playing` after the
/// step, and to halt exactly when it is `Halted`.
pub proof fn lemma_next_follows_phase(state: PlaybackState, event: Event)
    ensures
        spec_step(state, event).1.next == Next::ShowFrame <==> spec_step(state, event).0.phase
            == Phase::Playing,
        spec_step(state, event).1.next == Next::Halt <==> spec_step(state, event).0.phase
            == Phase::Halted,
{
}

/// Without a counter the machine never asks for a stall.
pub proof fn lemma_untimed_never_stalls(state: PlaybackState, event: Event)
    requires
        !state.timing.spec_is_available(),
    ensures
        spec_step(state, event).1.stall_micros is None,
{
}

/// A stall is never longer than the budget of one frame, and together with
/// the time the frame took it makes up exactly that budget.
pub proof fn lemma_stall_fills_budget(state: PlaybackState, event: Event)
    ensures
        spec_step(state, event).1.stall_micros matches Some(stall) ==> {
            &&& state.phase == Phase::Playing
            &&& state.timing.spec_is_available()
            &&& event matches Event::FrameShown { start_tick, end_tick }
            &&& 0 < stall <= crate::MICROS_PER_FRAME
            &&& stall + crate::pacing::spec_frame_micros(state.timing, start_tick, end_tick)
                == crate::MICROS_PER_FRAME
        },
{
}

/// Playback shows every frame: while the readings are accepted, each shown
/// frame is counted, and playback halts exactly after the last frame of the
/// asset. Without a counter all readings are accepted.
pub proof fn lemma_plays_every_frame(state: PlaybackState, readings: Seq<(u64, u64)>)
    requires
        state.wf(),
        state.phase == Phase::Playing,
        state.frames_shown + readings.len() <= state.frame_count,
        forall|i: int|
            0 <= i < readings.len() ==> state.accepts_ticks(
                (#[trigger] readings[i]).0,
                readings[i].1,
            ),
    ensures
        spec_after_frames(state, readings).frames_shown == state.frames_shown + readings.len(),
        spec_after_frames(state, readings).frame_count == state.frame_count,
        spec_after_frames(state, readings).timing == state.timing,
        spec_after_frames(state, readings).phase == if state.frames_shown + readings.len()
            == state.frame_count {
            Phase::Halted
        } else {
            Phase::Playing
        },
    decreases readings.len(),
{
    if readings.len() > 0 {
        let earlier = readings.drop_last();
        assert forall|i: int| 0 <= i < earlier.len() implies state.accepts_ticks(
            (#[trigger] earlier[i]).0,
            earlier[i].1,
        ) by {
            assert(earlier[i] == readings[i]);
        }
        lemma_plays_every_frame(state, earlier);
        let last = readings.last();
        assert(last == readings[readings.len() - 1]);
        assert(state.accepts_ticks(last.0, last.1));
    }
}

/// Without a counter playback still shows every frame of the asset, whatever
/// the readings are, and never stalls on the way.
pub proof fn lemma_untimed_playback_completes(state: PlaybackState, readings: Seq<(u64, u64)>)
    requires
        state.wf(),
        state.phase == Phase::Playing,
        state.frames_shown == 0,
        !state.timing.spec_is_available(),
        readings.len() == state.frame_count,
    ensures
        spec_after_frames(state, readings).phase == Phase::Halted,
        spec_after_frames(state, readings).frames_shown == state.frame_count,
        forall|i: int|
            0 <= i < readings.len() ==> spec_step(
                #[trigger] spec_after_frames(state, readings.take(i)),
                Event::FrameShown { start_tick: readings[i].0, end_tick: readings[i].1 },
            ).1.stall_micros is None,
{
    lemma_plays_every_frame(state, readings);
    assert forall|i: int| 0 <= i < readings.len() implies spec_step(
        #[trigger] spec_after_frames(state, readings.take(i)),
        Event::FrameShown { start_tick: readings[i].0, end_tick: readings[i].1 },
    ).1.stall_micros is None by {
        lemma_plays_every_frame(state, readings.take(i));
    }
}

/// Playback of one asset.
#[derive(Debug)]
pub struct Playback {
    phase: Phase,
    timing: TimestampProperties,
    frame_count: u64,
    frames_shown: u64,
}

impl View for Playback {
    type V = PlaybackState;

    closed spec fn view(&self) -> PlaybackState {
        PlaybackState {
            phase: self.phase,
            timing: self.timing,
            frame_count: self.frame_count as nat,
            frames_shown: self.frames_shown as nat,
        }
    }
}

impl Playback {
    #[verifier::type_invariant]
    closed spec fn inv(self) -> bool {
        self@.wf()
    }

    /// Playback before anything is set up.
    pub fn new(timing: TimestampProperties) -> (playback: Self)
        ensures
            playback@ == (PlaybackState {
                phase: Phase::Init,
                timing,
                frame_count: 0,
                frames_shown: 0,
            }),
            playback@.wf(),
    {
        Playback { phase: Phase::Init, timing, frame_count: 0, frames_shown: 0 }
    }

    pub fn phase(&self) -> (phase: Phase)
        ensures
            phase == self@.phase,
            self@.wf(),
    {
        proof {
            use_type_invariant(self);
        }
        self.phase
    }

    pub fn timing(&self) -> (timing: TimestampProperties)
        ensures
            timing == self@.timing,
    {
        self.timing
    }

    /// Whole frames in the asset; zero until the asset is known.
    pub fn frame_count(&self) -> (frame_count: u64)
        ensures
            frame_count == self@.frame_count,
    {
        self.frame_count
    }

    /// Frames that have been shown.
    pub fn frames_shown(&self) -> (frames_shown: u64)
        ensures
            frames_shown == self@.frames_shown,
            self@.wf(),
    {
        proof {
            use_type_invariant(self);
        }
        self.frames_shown
    }

    /// Takes in what happened and says what to do next.
    pub fn step(&mut self, event: Event) -> (step: Step)
        ensures
            final(self)@.wf(),
            final(self)@ == spec_step(old(self)@, event).0,
            step == spec_step(old(self)@, event).1,
    {
        proof {
            use_type_invariant(&*self);
        }
        let timing = self.timing;
        match (self.phase, event) {
            (Phase::Init, Event::Ready { asset_size }) => {
                let frame_count = FrameAsset::new(asset_size).frame_count();
                if frame_count > 0 {
                    *self = Playback { phase: Phase::Playing, timing, frame_count, frames_shown: 0 };
                    Step { stall_micros: None, next: Next::ShowFrame }
                } else {
                    self.halt()
                }
            },
            (Phase::Playing, Event::FrameShown { start_tick, end_tick }) => {
                if !timing.is_available() || ticks_in_range(
                    start_tick,
                    end_tick,
                    timing.end_value(),
                ) {
                    let stall_micros = frame_stall(&timing, start_tick, end_tick);
                    let frame_count = self.frame_count;
                    let frames_shown = self.frames_shown + 1;
                    if frames_shown < frame_count {
                        *self = Playback { phase: Phase::Playing, timing, frame_count, frames_shown };
                        Step { stall_micros, next: Next::ShowFrame }
                    } else {
                        *self = Playback { phase: Phase::Halted, timing, frame_count, frames_shown };
                        Step { stall_micros, next: Next::Halt }
                    }
                } else {
                    self.halt()
                }
            },
            _ => self.halt(),
        }
    }

    fn halt(&mut self) -> (step: Step)
        ensures
            final(self)@ == old(self)@.halted(),
            step == (Step { stall_micros: None, next: Next::Halt }),
    {
        proof {
            use_type_invariant(&*self);
        }
        *self = Playback {
            phase: Phase::Halted,
            timing: self.timing,
            frame_count: self.frame_count,
            frames_shown: self.frames_shown,
        };
        Step { stall_micros: None, next: Next::Halt }
    }
}

} // verus!
