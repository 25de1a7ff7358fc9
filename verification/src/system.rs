//! The task system: the scheduler wired to the two task bodies.  Each
//! firing is a pure step from the current state to the actions a host
//! loop must carry out (drive the output pin, draw the display) and the
//! request that re-arms the task.

use vstd::prelude::*;
use crate::countdown::CountdownState;
use crate::render::TextLine;
use crate::render::renders;
use crate::render::render_lines;
use crate::scheduler::PendingTask;
use crate::scheduler::ScheduleError;
use crate::scheduler::Scheduler;
use crate::scheduler::TaskCall;
use crate::scheduler::TaskHandle;
use crate::scheduler::call_wf;
use crate::scheduler::due_count;
use crate::scheduler::is_due;
use crate::scheduler::lemma_due_count_le_len;
use crate::scheduler::lemma_due_count_none_due;
use crate::scheduler::lemma_due_count_push;
use crate::scheduler::lemma_due_count_remove;

verus! {

/// An effect a firing asks the host to perform.
#[derive(Debug, PartialEq, Eq)]
pub enum Action {
    /// Drive the digital output high.
    SetHigh,
    /// Drive the digital output low.
    SetLow,
    /// Clear the display and draw these text lines, then flush.
    Render(Vec<TextLine>),
}

/// The level a toggling output shows after a number of firings.
pub open spec fn level_after(initial_low: bool, firings: nat) -> bool
    decreases firings,
{
    if firings == 0 {
        initial_low
    } else {
        !level_after(initial_low, (firings - 1) as nat)
    }
}

/// The blink task toggles exactly once per firing: after any number of
/// firings the output is back at its initial level exactly when that
/// number is even.
pub proof fn lemma_blink_alternates(initial_low: bool, firings: nat)
    ensures
        level_after(initial_low, firings) == (if firings % 2 == 0 {
            initial_low
        } else {
            !initial_low
        }),
    decreases firings,
{
    if firings > 0 {
        lemma_blink_alternates(initial_low, (firings - 1) as nat);
    }
}

/// The scheduler together with the state the two tasks own: the modeled
/// output level and the fixed re-arm intervals.
pub struct System {
    pub scheduler: Scheduler,
    /// Whether the digital output currently sits low.
    pub led_low: bool,
    /// Ticks between two blink firings.
    pub blink_interval: u64,
    /// Ticks between two countdown firings.
    pub countdown_interval: u64,
}

impl System {
    /// The system's invariant: a well-formed pending set and re-arm
    /// intervals of at least one tick, so a re-armed task is never due
    /// within the firing that armed it.
    pub open spec fn wf(self) -> bool {
        &&& self.scheduler.wf()
        &&& self.blink_interval >= 1
        &&& self.countdown_interval >= 1
    }

    /// A fresh system: an empty scheduler and the initial output level.
    pub fn new(capacity: usize, blink_interval: u64, countdown_interval: u64, led_low: bool) -> (s:
        Self)
        requires
            blink_interval >= 1,
            countdown_interval >= 1,
        ensures
            s.wf(),
            s.scheduler@.pending.len() == 0,
            s.scheduler@.capacity == capacity,
            s.scheduler@.now == 0,
            s.scheduler@.next_seq == 0,
            s.led_low == led_low,
            s.blink_interval == blink_interval,
            s.countdown_interval == countdown_interval,
    {
        System { scheduler: Scheduler::new(capacity), led_low, blink_interval, countdown_interval }
    }

    /// Requests that a task fire `delay` ticks from now; fails with
    /// `CapacityExceeded`, touching nothing, when the pending set is full.
    pub fn schedule(&mut self, call: TaskCall, delay: u64) -> (r: Result<
        TaskHandle,
        ScheduleError,
    >)
        requires
            old(self).wf(),
            call_wf(call),
            old(self).scheduler@.pending.len() < old(self).scheduler@.capacity ==> old(
                self,
            ).scheduler@.now + delay <= u64::MAX && old(self).scheduler@.next_seq < u64::MAX,
        ensures
            final(self).wf(),
            final(self).led_low == old(self).led_low,
            final(self).blink_interval == old(self).blink_interval,
            final(self).countdown_interval == old(self).countdown_interval,
            old(self).scheduler@.pending.len() < old(self).scheduler@.capacity ==> {
                &&& r == Ok::<TaskHandle, ScheduleError>(
                    TaskHandle { seq: old(self).scheduler@.next_seq },
                )
                &&& final(self).scheduler@.pending == old(self).scheduler@.pending.push(
                    PendingTask {
                        call,
                        fire_at: (old(self).scheduler@.now + delay) as u64,
                        seq: old(self).scheduler@.next_seq,
                    },
                )
                &&& final(self).scheduler@.next_seq == old(self).scheduler@.next_seq + 1
                &&& final(self).scheduler@.now == old(self).scheduler@.now
                &&& final(self).scheduler@.capacity == old(self).scheduler@.capacity
            },
            old(self).scheduler@.pending.len() >= old(self).scheduler@.capacity ==> {
                &&& r == Err::<TaskHandle, ScheduleError>(ScheduleError::CapacityExceeded)
                &&& final(self).scheduler@ == old(self).scheduler@
            },
    {
        self.scheduler.schedule_after(call, delay)
    }

    /// Requests that a task fire at the current tick.
    pub fn schedule_now(&mut self, call: TaskCall) -> (r: Result<TaskHandle, ScheduleError>)
        requires
            old(self).wf(),
            call_wf(call),
            old(self).scheduler@.pending.len() < old(self).scheduler@.capacity ==> old(
                self,
            ).scheduler@.next_seq < u64::MAX,
        ensures
            final(self).wf(),
            final(self).led_low == old(self).led_low,
            final(self).blink_interval == old(self).blink_interval,
            final(self).countdown_interval == old(self).countdown_interval,
            old(self).scheduler@.pending.len() < old(self).scheduler@.capacity ==> {
                &&& r == Ok::<TaskHandle, ScheduleError>(
                    TaskHandle { seq: old(self).scheduler@.next_seq },
                )
                &&& final(self).scheduler@.pending == old(self).scheduler@.pending.push(
                    PendingTask {
                        call,
                        fire_at: old(self).scheduler@.now,
                        seq: old(self).scheduler@.next_seq,
                    },
                )
                &&& final(self).scheduler@.next_seq == old(self).scheduler@.next_seq + 1
                &&& final(self).scheduler@.now == old(self).scheduler@.now
                &&& final(self).scheduler@.capacity == old(self).scheduler@.capacity
            },
            old(self).scheduler@.pending.len() >= old(self).scheduler@.capacity ==> {
                &&& r == Err::<TaskHandle, ScheduleError>(ScheduleError::CapacityExceeded)
                &&& final(self).scheduler@ == old(self).scheduler@
            },
    {
        self.scheduler.schedule_now(call)
    }

    /// Runs one task body.  A blink firing toggles the output exactly once
    /// and re-arms the blink task after its interval; a countdown firing
    /// renders the triple, advances it by one second, and re-arms the
    /// countdown with the new triple after its interval.  The actions the
    /// host must perform come back as plain values.
    pub fn fire(&mut self, call: TaskCall) -> (acts: Vec<Action>)
        requires
            old(self).wf(),
            call_wf(call),
            old(self).scheduler@.pending.len() < old(self).scheduler@.capacity,
            old(self).scheduler@.next_seq < u64::MAX,
            old(self).scheduler@.now + old(self).blink_interval <= u64::MAX,
            old(self).scheduler@.now + old(self).countdown_interval <= u64::MAX,
        ensures
            final(self).wf(),
            final(self).blink_interval == old(self).blink_interval,
            final(self).countdown_interval == old(self).countdown_interval,
            final(self).scheduler@.now == old(self).scheduler@.now,
            final(self).scheduler@.capacity == old(self).scheduler@.capacity,
            final(self).scheduler@.next_seq == old(self).scheduler@.next_seq + 1,
            match call {
                TaskCall::Blink => {
                    &&& final(self).led_low == !old(self).led_low
                    &&& final(self).scheduler@.pending == old(self).scheduler@.pending.push(
                        PendingTask {
                            call: TaskCall::Blink,
                            fire_at: (old(self).scheduler@.now + old(self).blink_interval) as u64,
                            seq: old(self).scheduler@.next_seq,
                        },
                    )
                    &&& acts@.len() == 1
                    &&& acts@[0] == (if old(self).led_low {
                        Action::SetHigh
                    } else {
                        Action::SetLow
                    })
                },
                TaskCall::Countdown(s) => {
                    &&& final(self).led_low == old(self).led_low
                    &&& final(self).scheduler@.pending == old(self).scheduler@.pending.push(
                        PendingTask {
                            call: TaskCall::Countdown(s.spec_decrement()),
                            fire_at: (old(self).scheduler@.now + old(
                                self,
                            ).countdown_interval) as u64,
                            seq: old(self).scheduler@.next_seq,
                        },
                    )
                    &&& acts@.len() == 1
                    &&& acts@[0] matches Action::Render(lines) && renders(lines@, s)
                },
            },
    {
        let mut acts: Vec<Action> = Vec::new();
        match call {
            TaskCall::Blink => {
                // Read the current level, drive the opposite one.
                if self.led_low {
                    acts.push(Action::SetHigh);
                } else {
                    acts.push(Action::SetLow);
                }
                self.led_low = !self.led_low;
                let interval = self.blink_interval;
                let r = self.scheduler.schedule_after(TaskCall::Blink, interval);
                proof {
                    assert(r is Ok);
                }
            },
            TaskCall::Countdown(s) => {
                acts.push(Action::Render(render_lines(&s)));
                let next = s.decrement();
                let interval = self.countdown_interval;
                let r = self.scheduler.schedule_after(TaskCall::Countdown(next), interval);
                proof {
                    assert(r is Ok);
                }
            },
        }
        acts
    }

    /// Processes one clock tick: moves the clock to `t`, then fires every
    /// pending task whose deadline has been reached, each one exactly
    /// once, in deadline order with ties broken by request order, and
    /// never before its deadline.  When it returns, every remaining
    /// pending deadline lies strictly in the future; the actions of all
    /// firings come back in firing order.
    pub fn tick(&mut self, t: u64) -> (acts: Vec<Action>)
        requires
            old(self).wf(),
            old(self).scheduler@.now <= t,
            t + old(self).blink_interval <= u64::MAX,
            t + old(self).countdown_interval <= u64::MAX,
            old(self).scheduler@.next_seq + old(self).scheduler@.capacity <= u64::MAX,
        ensures
            final(self).wf(),
            final(self).blink_interval == old(self).blink_interval,
            final(self).countdown_interval == old(self).countdown_interval,
            final(self).scheduler@.now == t,
            final(self).scheduler@.capacity == old(self).scheduler@.capacity,
            forall|i: int|
                0 <= i < final(self).scheduler@.pending.len() ==> !is_due(
                    #[trigger] final(self).scheduler@.pending[i],
                    t,
                ),
            acts@.len() == due_count(old(self).scheduler@.pending, t),
            final(self).scheduler@.pending.len() == old(self).scheduler@.pending.len(),
            final(self).scheduler@.next_seq == old(self).scheduler@.next_seq + due_count(
                old(self).scheduler@.pending,
                t,
            ),
    {
        self.scheduler.advance_to(t);
        proof {
            lemma_due_count_le_len(self.scheduler@.pending, t);
        }
        let mut acts: Vec<Action> = Vec::new();
        loop
            invariant
                self.wf(),
                self.scheduler@.now == t,
                self.blink_interval == old(self).blink_interval,
                self.countdown_interval == old(self).countdown_interval,
                self.scheduler@.capacity == old(self).scheduler@.capacity,
                t + self.blink_interval <= u64::MAX,
                t + self.countdown_interval <= u64::MAX,
                self.scheduler@.next_seq + due_count(self.scheduler@.pending, t) <= u64::MAX,
                acts@.len() + due_count(self.scheduler@.pending, t) == due_count(
                    old(self).scheduler@.pending,
                    t,
                ),
                self.scheduler@.pending.len() == old(self).scheduler@.pending.len(),
                self.scheduler@.next_seq == old(self).scheduler@.next_seq + acts@.len(),
            ensures
                forall|i: int|
                    0 <= i < self.scheduler@.pending.len() ==> !is_due(
                        #[trigger] self.scheduler@.pending[i],
                        t,
                    ),
            decreases due_count(self.scheduler@.pending, t),
        {
            let ghost before = self.scheduler@.pending;
            match self.scheduler.pop_due() {
                None => {
                    break ;
                },
                Some(p) => {
                    proof {
                        let k = choose|k: int|
                            0 <= k < before.len() && before[k] == p && self.scheduler@.pending
                                == before.remove(k);
                        lemma_due_count_remove(before, t, k);
                    }
                    let ghost after_pop = self.scheduler@.pending;
                    let mut a = self.fire(p.call);
                    acts.append(&mut a);
                    proof {
                        let armed = self.scheduler@.pending.last();
                        lemma_due_count_push(after_pop, t, armed);
                    }
                },
            }
        }
        proof {
            lemma_due_count_none_due(self.scheduler@.pending, t);
        }
        acts
    }
}

} // verus!
