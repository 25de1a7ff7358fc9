use timer::countdown::CountdownState;
use timer::render::TextLine;
use timer::scheduler::ScheduleError;
use timer::scheduler::TaskCall;
use timer::system::Action;
use timer::system::System;

fn render_of(hour: &[u8], minute: &[u8], second: &[u8]) -> Action {
    Action::Render(vec![
        TextLine { y: 0, text: hour.to_vec() },
        TextLine { y: 16, text: minute.to_vec() },
        TextLine { y: 32, text: second.to_vec() },
    ])
}

#[test]
fn blink_toggles_once_per_firing_and_never_stops() {
    let mut sys = System::new(4, 200, 1000, true);
    sys.schedule_now(TaskCall::Blink).unwrap();
    let mut expect_low = true;
    let mut t: u64 = 0;
    for _ in 0..10_000u32 {
        let acts = sys.tick(t);
        assert_eq!(acts.len(), 1, "exactly one firing per interval");
        let expected = if expect_low { Action::SetHigh } else { Action::SetLow };
        assert_eq!(acts[0], expected);
        expect_low = !expect_low;
        assert_eq!(sys.led_low, expect_low);
        // The task re-armed itself: one request pending, due next interval.
        assert_eq!(sys.scheduler.pending_len(), 1);
        assert_eq!(sys.scheduler.pending_entry(0).fire_at, t + 200);
        t += 200;
    }
}

#[test]
fn countdown_renders_then_decrements_then_rearms() {
    let mut sys = System::new(4, 200, 1000, true);
    sys.schedule_now(TaskCall::Countdown(CountdownState { hour: 1111, minute: 11, second: 11 }))
        .unwrap();
    let acts = sys.tick(0);
    assert_eq!(acts, vec![render_of(b"1111", b"11", b"11")]);
    let acts = sys.tick(1000);
    assert_eq!(acts, vec![render_of(b"1111", b"11", b"10")]);
    let acts = sys.tick(2000);
    assert_eq!(acts, vec![render_of(b"1111", b"11", b"9")]);
}

#[test]
fn countdown_borrow_shows_on_the_display() {
    let mut sys = System::new(4, 200, 1000, true);
    sys.schedule_now(TaskCall::Countdown(CountdownState { hour: 5, minute: 3, second: 0 }))
        .unwrap();
    let acts = sys.tick(0);
    assert_eq!(acts, vec![render_of(b"5", b"3", b"0")]);
    let acts = sys.tick(1000);
    assert_eq!(acts, vec![render_of(b"5", b"2", b"59")]);
}

#[test]
fn same_tick_firings_keep_request_order() {
    let mut sys = System::new(4, 1000, 1000, true);
    sys.schedule_now(TaskCall::Blink).unwrap();
    sys.schedule_now(TaskCall::Countdown(CountdownState { hour: 0, minute: 0, second: 1 }))
        .unwrap();
    let acts = sys.tick(0);
    assert_eq!(acts.len(), 2);
    assert_eq!(acts[0], Action::SetHigh);
    assert_eq!(acts[1], render_of(b"0", b"0", b"1"));
}

#[test]
fn startup_schedule_fires_countdown_then_blink() {
    // Countdown immediately, blink one second later, both on a one-second
    // interval.
    let mut sys = System::new(8, 1000, 1000, true);
    sys.schedule_now(TaskCall::Countdown(CountdownState { hour: 1111, minute: 11, second: 11 }))
        .unwrap();
    sys.schedule(TaskCall::Blink, 1000).unwrap();
    let acts = sys.tick(0);
    assert_eq!(acts, vec![render_of(b"1111", b"11", b"11")]);
    let acts = sys.tick(1000);
    // The blink request (made first) fires before the re-armed countdown.
    assert_eq!(acts.len(), 2);
    assert_eq!(acts[0], Action::SetHigh);
    assert_eq!(acts[1], render_of(b"1111", b"11", b"10"));
}

#[test]
fn a_full_pending_set_reports_capacity_exceeded() {
    let mut sys = System::new(1, 200, 1000, true);
    sys.schedule_now(TaskCall::Blink).unwrap();
    let refused = sys.schedule_now(TaskCall::Blink);
    assert_eq!(refused, Err(ScheduleError::CapacityExceeded));
    assert_eq!(sys.scheduler.pending_len(), 1);
}

#[test]
fn fire_reports_its_actions_directly() {
    let mut sys = System::new(4, 200, 1000, false);
    let acts = sys.fire(TaskCall::Blink);
    assert_eq!(acts, vec![Action::SetLow]);
    assert!(sys.led_low);
    let acts = sys.fire(TaskCall::Blink);
    assert_eq!(acts, vec![Action::SetHigh]);
    assert!(!sys.led_low);
}
