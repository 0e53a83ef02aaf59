use boot_video::playback::{Event, Next, Phase, Playback, Step};
use boot_video::timestamp::TimestampProperties;
use boot_video::FRAME_SIZE;

const HALT: Step = Step { stall_micros: None, next: Next::Halt };
const SHOW: Step = Step { stall_micros: None, next: Next::ShowFrame };

fn shown(start_tick: u64, end_tick: u64) -> Event {
    Event::FrameShown { start_tick, end_tick }
}

fn megahertz() -> TimestampProperties {
    TimestampProperties::new(1_000_000, 0xffff_ffff)
}

#[test]
fn playback_starts_in_init() {
    let playback = Playback::new(megahertz());
    assert_eq!(playback.phase(), Phase::Init);
    assert_eq!(playback.frame_count(), 0);
    assert_eq!(playback.frames_shown(), 0);
    assert_eq!(playback.timing().frequency(), 1_000_000);
    assert_eq!(playback.timing().end_value(), 0xffff_ffff);
}

#[test]
fn ready_starts_playing() {
    let mut playback = Playback::new(megahertz());
    let asset_size = 7 * FRAME_SIZE as u64 + 100;
    assert_eq!(playback.step(Event::Ready { asset_size }), SHOW);
    assert_eq!(playback.phase(), Phase::Playing);
    assert_eq!(playback.frame_count(), 7);
    assert_eq!(playback.frames_shown(), 0);
}

#[test]
fn asset_without_a_whole_frame_halts_at_once() {
    for asset_size in [0, 1, FRAME_SIZE as u64 - 1] {
        let mut playback = Playback::new(megahertz());
        assert_eq!(playback.step(Event::Ready { asset_size }), HALT);
        assert_eq!(playback.phase(), Phase::Halted);
        assert_eq!(playback.frames_shown(), 0);
    }
}

#[test]
fn short_frame_stalls_for_the_rest_of_the_budget() {
    let mut playback = Playback::new(megahertz());
    playback.step(Event::Ready { asset_size: 3 * FRAME_SIZE as u64 });
    let step = playback.step(shown(1_000, 11_000));
    assert_eq!(step, Step { stall_micros: Some(23_333), next: Next::ShowFrame });
    assert_eq!(playback.frames_shown(), 1);
}

#[test]
fn long_frame_does_not_stall() {
    let mut playback = Playback::new(megahertz());
    playback.step(Event::Ready { asset_size: 3 * FRAME_SIZE as u64 });
    let step = playback.step(shown(1_000, 41_000));
    assert_eq!(step, SHOW);
    assert_eq!(playback.frames_shown(), 1);
}

#[test]
fn frame_across_a_wrap_is_measured() {
    let timing = TimestampProperties::new(1_000_000, 1_000_000);
    let mut playback = Playback::new(timing);
    playback.step(Event::Ready { asset_size: 2 * FRAME_SIZE as u64 });
    let step = playback.step(shown(990_000, 50));
    assert_eq!(step.stall_micros, Some(33_333 - 10_050));
    assert_eq!(step.next, Next::ShowFrame);
}

#[test]
fn playback_halts_after_the_last_frame() {
    let mut playback = Playback::new(megahertz());
    let mut step = playback.step(Event::Ready { asset_size: 5 * FRAME_SIZE as u64 + 1 });
    let mut frames = 0u64;
    let mut stalls = 0u64;
    let mut tick = 0u64;
    while step.next == Next::ShowFrame {
        assert_eq!(playback.phase(), Phase::Playing);
        frames += 1;
        step = playback.step(shown(tick, tick + 10_000));
        tick += 33_333;
        if let Some(micros) = step.stall_micros {
            assert_eq!(micros, 23_333);
            stalls += 1;
        }
        assert_eq!(playback.frames_shown(), frames);
    }
    assert_eq!(frames, 5);
    assert_eq!(stalls, 5);
    assert_eq!(step.next, Next::Halt);
    assert_eq!(playback.phase(), Phase::Halted);
    assert_eq!(playback.frames_shown(), 5);
    assert_eq!(playback.frame_count(), 5);
}

#[test]
fn last_frame_is_paced_too() {
    let mut playback = Playback::new(megahertz());
    playback.step(Event::Ready { asset_size: FRAME_SIZE as u64 });
    let step = playback.step(shown(0, 10_000));
    assert_eq!(step, Step { stall_micros: Some(23_333), next: Next::Halt });
    assert_eq!(playback.phase(), Phase::Halted);
}

#[test]
fn without_a_counter_playback_never_stalls_and_shows_every_frame() {
    let mut playback = Playback::new(TimestampProperties::unavailable());
    let mut step = playback.step(Event::Ready { asset_size: 4 * FRAME_SIZE as u64 });
    let mut frames = 0u64;
    while step.next == Next::ShowFrame {
        frames += 1;
        step = playback.step(shown(0, 0));
        assert_eq!(step.stall_micros, None);
    }
    assert_eq!(frames, 4);
    assert_eq!(playback.phase(), Phase::Halted);
    assert_eq!(playback.frames_shown(), 4);
}

#[test]
fn without_a_counter_any_readings_are_taken() {
    let mut playback = Playback::new(TimestampProperties::new(0, 10));
    playback.step(Event::Ready { asset_size: 2 * FRAME_SIZE as u64 });
    assert_eq!(playback.step(shown(500, 3)), SHOW);
    assert_eq!(playback.step(shown(u64::MAX, 0)), HALT);
    assert_eq!(playback.frames_shown(), 2);
}

#[test]
fn failure_halts_playback() {
    let mut at_init = Playback::new(megahertz());
    assert_eq!(at_init.step(Event::Failed), HALT);
    assert_eq!(at_init.phase(), Phase::Halted);

    let mut at_runtime = Playback::new(megahertz());
    at_runtime.step(Event::Ready { asset_size: 3 * FRAME_SIZE as u64 });
    at_runtime.step(shown(0, 10));
    assert_eq!(at_runtime.step(Event::Failed), HALT);
    assert_eq!(at_runtime.phase(), Phase::Halted);
    assert_eq!(at_runtime.frames_shown(), 1);
    assert_eq!(at_runtime.frame_count(), 3);
}

#[test]
fn halted_is_terminal() {
    let mut playback = Playback::new(megahertz());
    playback.step(Event::Ready { asset_size: FRAME_SIZE as u64 });
    playback.step(shown(0, 10));
    assert_eq!(playback.phase(), Phase::Halted);
    for event in [
        Event::Ready { asset_size: 10 * FRAME_SIZE as u64 },
        shown(0, 10),
        Event::Failed,
    ] {
        assert_eq!(playback.step(event), HALT);
        assert_eq!(playback.phase(), Phase::Halted);
        assert_eq!(playback.frames_shown(), 1);
        assert_eq!(playback.frame_count(), 1);
    }
}

#[test]
fn events_out_of_order_halt_playback() {
    let mut early = Playback::new(megahertz());
    assert_eq!(early.step(shown(0, 10)), HALT);
    assert_eq!(early.phase(), Phase::Halted);
    assert_eq!(early.frames_shown(), 0);

    let mut twice = Playback::new(megahertz());
    twice.step(Event::Ready { asset_size: 3 * FRAME_SIZE as u64 });
    assert_eq!(twice.step(Event::Ready { asset_size: 3 * FRAME_SIZE as u64 }), HALT);
    assert_eq!(twice.phase(), Phase::Halted);
}

#[test]
fn readings_outside_the_counter_range_halt_playback() {
    let timing = TimestampProperties::new(1_000_000, 1_000);
    let mut playback = Playback::new(timing);
    playback.step(Event::Ready { asset_size: 3 * FRAME_SIZE as u64 });
    assert_eq!(playback.step(shown(2_000, 5)), HALT);
    assert_eq!(playback.phase(), Phase::Halted);
    assert_eq!(playback.frames_shown(), 0);
}
