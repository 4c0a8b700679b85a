use yunxi_agent::frame::{RedrawPriority, RedrawReason, RedrawScheduler, DEFAULT_MIN_FRAME_INTERVAL_MICROS};

const MILLI: u64 = 1_000;

#[test]
fn default_interval_is_strictly_bounded_to_30_fps() {
    let scheduler = RedrawScheduler::default_interval();

    assert_eq!(scheduler.min_frame_interval(), 33_334);
    assert!(scheduler.min_frame_interval() * 1_000 > 1_000_000_000 / 30);
    assert_eq!(DEFAULT_MIN_FRAME_INTERVAL_MICROS, 33_334);
}

#[test]
fn throttles_1000_stream_deltas_below_30_fps_limit() {
    let mut scheduler = RedrawScheduler::default_interval();
    let started_at = 5_000_000_u64;
    let test_window_secs = 1_u64;

    for millisecond in 0..1_000_u64 {
        let now = started_at + millisecond * MILLI;
        scheduler.request(RedrawReason::StreamDelta);
        if scheduler.should_draw(now) {
            scheduler.record_draw(now);
        }
    }

    let draw_count = scheduler.draw_count();
    let max_draws_at_30_fps = test_window_secs * 30;
    assert!(draw_count <= max_draws_at_30_fps, "draw_count={draw_count}");
    assert!(draw_count < 100, "draw_count={draw_count}");
    assert_eq!(scheduler.pending_count(), 1);
}

#[test]
fn coalesces_high_rate_stream_deltas_until_interval_elapses() {
    let mut scheduler = RedrawScheduler::new(40 * MILLI);
    let t0 = 7_000_000_u64;

    scheduler.request(RedrawReason::StreamDelta);
    assert!(scheduler.should_draw(t0));
    scheduler.record_draw(t0);

    for _ in 0..100 {
        scheduler.request(RedrawReason::StreamDelta);
    }
    assert_eq!(scheduler.pending_count(), 1);
    assert!(!scheduler.should_draw(t0 + 20 * MILLI));
    assert!(scheduler.should_draw(t0 + 40 * MILLI));
}

#[test]
fn immediate_reasons_bypass_stream_throttle() {
    let mut scheduler = RedrawScheduler::new(40 * MILLI);
    let t0 = 9_000_000_u64;

    scheduler.request(RedrawReason::StreamDelta);
    assert!(scheduler.should_draw(t0));
    scheduler.record_draw(t0);

    for (millisecond, reason) in [
        RedrawReason::InputChanged,
        RedrawReason::ScrollChanged,
        RedrawReason::Resize,
        RedrawReason::Error,
        RedrawReason::CancelCurrentTurn,
    ]
    .into_iter()
    .enumerate()
    {
        let now = t0 + (millisecond as u64 + 1) * MILLI;
        assert_eq!(scheduler.request(reason), RedrawPriority::Immediate);
        assert!(scheduler.should_draw(now), "reason={reason:?}");
        scheduler.record_draw(now);
    }
}

#[test]
fn final_and_control_state_draw_on_next_tick_and_clear_pending_reasons() {
    let mut scheduler = RedrawScheduler::new(40 * MILLI);
    let t0 = 11_000_000_u64;
    scheduler.request(RedrawReason::StreamDelta);
    scheduler.record_draw(t0);

    assert_eq!(
        scheduler.request(RedrawReason::StreamFinalized),
        RedrawPriority::NextFrame
    );
    scheduler.request(RedrawReason::ControlChanged);
    assert!(scheduler.should_draw(t0 + MILLI));
    scheduler.record_draw(t0 + MILLI);
    assert_eq!(scheduler.pending_count(), 0);
}

#[test]
fn nothing_pending_draws_nothing_and_first_request_draws() {
    let mut scheduler = RedrawScheduler::new(40 * MILLI);
    assert!(!scheduler.should_draw(0));
    assert_eq!(scheduler.request(RedrawReason::StatusChanged), RedrawPriority::Coalesced);
    assert!(scheduler.should_draw(0));
    scheduler.request(RedrawReason::StatusChanged);
    scheduler.request(RedrawReason::StreamDelta);
    assert_eq!(scheduler.pending_count(), 2);
    scheduler.record_draw(10);
    assert_eq!(scheduler.draw_count(), 1);
    assert!(!scheduler.should_draw(1_000_000));
}
