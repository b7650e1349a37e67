use hailux_tui::timing::{duration_since, TimingStats};

#[test]
fn duration_since_saturates_at_zero() {
    assert_eq!(duration_since(1500, 1000), 500);
    assert_eq!(duration_since(1000, 1500), 0);
}

#[test]
fn pause_is_not_counted() {
    let mut t = TimingStats::new();
    t.start_request(1_000);
    t.pause(3_000);
    assert_eq!(t.effective_elapsed_ms(5_000), Some(2_000));
    t.resume(8_000);
    assert_eq!(t.paused_total, 5_000);
    assert_eq!(t.effective_sent_at(9_000), Some(6_000));
    assert_eq!(t.effective_elapsed_ms(9_000), Some(3_000));
    t.finish(10_000);
    assert_eq!(t.last_total_ms, Some(4_000));
    assert_eq!(t.user_msg_sent_at, None);
    assert_eq!(t.paused_at, None);
    assert_eq!(t.paused_total, 0);
}

#[test]
fn pause_without_request_or_twice_does_nothing() {
    let mut t = TimingStats::default();
    t.pause(10);
    assert_eq!(t.paused_at, None);
    t.start_request(100);
    t.pause(200);
    t.pause(300);
    assert_eq!(t.paused_at, Some(200));
    t.resume(250);
    t.resume(400);
    assert_eq!(t.paused_total, 50);
}

#[test]
fn abort_keeps_no_time() {
    let mut t = TimingStats::new();
    t.start_request(5);
    t.pause(6);
    t.abort();
    assert_eq!(t.user_msg_sent_at, None);
    assert_eq!(t.last_total_ms, None);
    assert_eq!(t.effective_elapsed_ms(100), None);
}

#[test]
fn start_request_clears_previous_total() {
    let mut t = TimingStats::new();
    t.start_request(0);
    t.finish(700);
    assert_eq!(t.last_total_ms, Some(700));
    t.start_request(1_000);
    assert_eq!(t.last_total_ms, None);
    assert_eq!(t.user_msg_sent_at, Some(1_000));
}

#[test]
fn elapsed_stands_still_while_paused() {
    let mut t = TimingStats::new();
    t.start_request(1000);
    t.pause(1500);
    assert_eq!(t.effective_elapsed_ms(1600), Some(500));
    assert_eq!(t.effective_elapsed_ms(9000), Some(500));
    t.resume(2000);
    assert_eq!(t.effective_elapsed_ms(2100), Some(600));
    let idle = TimingStats::new();
    assert_eq!(idle.effective_elapsed_ms(5000), None);
}
