use timer::countdown::CountdownState;
use timer::scheduler::ScheduleError;
use timer::scheduler::Scheduler;
use timer::scheduler::TaskCall;

#[test]
fn nothing_fires_before_its_deadline() {
    let mut sch = Scheduler::new(4);
    sch.schedule_after(TaskCall::Blink, 5).unwrap();
    sch.advance_to(4);
    assert!(sch.pop_due().is_none());
    sch.advance_to(5);
    let fired = sch.pop_due().expect("due at its deadline");
    assert_eq!(fired.fire_at, 5);
}

#[test]
fn equal_deadlines_fire_in_request_order() {
    let mut sch = Scheduler::new(4);
    let first = sch.schedule_after(TaskCall::Blink, 5).unwrap();
    let second = sch
        .schedule_after(TaskCall::Countdown(CountdownState { hour: 1, minute: 2, second: 3 }), 5)
        .unwrap();
    assert!(first.seq < second.seq);
    sch.advance_to(5);
    assert_eq!(sch.pop_due().unwrap().seq, first.seq);
    assert_eq!(sch.pop_due().unwrap().seq, second.seq);
    assert!(sch.pop_due().is_none());
}

#[test]
fn earlier_deadline_fires_first_whatever_the_request_order() {
    let mut sch = Scheduler::new(4);
    let late = sch.schedule_after(TaskCall::Blink, 10).unwrap();
    let early = sch.schedule_after(TaskCall::Blink, 5).unwrap();
    sch.advance_to(10);
    assert_eq!(sch.pop_due().unwrap().seq, early.seq);
    assert_eq!(sch.pop_due().unwrap().seq, late.seq);
}

#[test]
fn capacity_exceeded_leaves_the_scheduler_untouched() {
    let mut sch = Scheduler::new(1);
    let accepted = sch.schedule_after(TaskCall::Blink, 3).unwrap();
    let refused = sch.schedule_after(TaskCall::Blink, 7);
    assert_eq!(refused, Err(ScheduleError::CapacityExceeded));
    // No silent drop and no overwrite: the accepted request is still the
    // one and only pending entry.
    assert_eq!(sch.pending_len(), 1);
    let kept = sch.pending_entry(0);
    assert_eq!(kept.seq, accepted.seq);
    assert_eq!(kept.fire_at, 3);
    assert_eq!(sch.time(), 0);
    // The kept request still fires normally.
    sch.advance_to(3);
    assert_eq!(sch.pop_due().unwrap().seq, accepted.seq);
}

#[test]
fn zero_capacity_refuses_every_request() {
    let mut sch = Scheduler::new(0);
    assert_eq!(sch.schedule_after(TaskCall::Blink, 0), Err(ScheduleError::CapacityExceeded));
    assert_eq!(sch.pending_len(), 0);
}

#[test]
fn schedule_now_is_due_at_the_current_tick() {
    let mut sch = Scheduler::new(4);
    sch.advance_to(42);
    let handle = sch.schedule_now(TaskCall::Blink).unwrap();
    let fired = sch.pop_due().expect("due immediately");
    assert_eq!(fired.seq, handle.seq);
    assert_eq!(fired.fire_at, 42);
}

#[test]
fn capacity_and_length_are_observable() {
    let mut sch = Scheduler::new(3);
    assert_eq!(sch.capacity(), 3);
    assert_eq!(sch.pending_len(), 0);
    sch.schedule_after(TaskCall::Blink, 1).unwrap();
    assert_eq!(sch.pending_len(), 1);
}
