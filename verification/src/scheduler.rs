//! A cooperative, single-threaded deadline scheduler: a fixed-capacity
//! pending set of named task requests, each with an absolute fire time.
//! Due requests are handed out in increasing deadline order, ties broken
//! by request order (first scheduled fires first), and never before their
//! deadline.

use vstd::prelude::*;
use crate::countdown::CountdownState;

verus! {

/// A task the dispatcher can run, with its payload.
#[derive(Clone, Copy, Debug, PartialEq, Eq, Structural)]
pub enum TaskCall {
    Blink,
    Countdown(CountdownState),
}

/// A payload is well formed when its counters are within bounds.
pub open spec fn call_wf(c: TaskCall) -> bool {
    match c {
        TaskCall::Blink => true,
        TaskCall::Countdown(s) => s.wf(),
    }
}

/// One entry of the pending set: the call, its absolute deadline, and the
/// sequence number of the request that created it.
#[derive(Clone, Copy, Debug, PartialEq, Eq, Structural)]
pub struct PendingTask {
    pub call: TaskCall,
    pub fire_at: u64,
    pub seq: u64,
}

/// The receipt handed back for an accepted scheduling request.
#[derive(Clone, Copy, Debug, PartialEq, Eq, Structural)]
pub struct TaskHandle {
    pub seq: u64,
}

/// Scheduling failure: the fixed-capacity pending set has no free slot.
#[derive(Clone, Copy, Debug, PartialEq, Eq, Structural)]
pub enum ScheduleError {
    CapacityExceeded,
}

/// `a` outranks `b`: a strictly earlier deadline, or the same deadline and
/// the earlier request.
pub open spec fn earlier(a: PendingTask, b: PendingTask) -> bool {
    a.fire_at < b.fire_at || (a.fire_at == b.fire_at && a.seq < b.seq)
}

/// Whether the entry's deadline has been reached at time `now`.
pub open spec fn is_due(t: PendingTask, now: u64) -> bool {
    t.fire_at <= now
}

/// How many entries of `s` are due at `now`.
pub open spec fn due_count(s: Seq<PendingTask>, now: u64) -> nat
    decreases s.len(),
{
    if s.len() == 0 {
        0
    } else {
        due_count(s.drop_last(), now) + (if is_due(s.last(), now) {
            1nat
        } else {
            0nat
        })
    }
}

/// No more entries can be due than there are entries.
pub proof fn lemma_due_count_le_len(s: Seq<PendingTask>, now: u64)
    ensures
        due_count(s, now) <= s.len(),
    decreases s.len(),
{
    if s.len() > 0 {
        lemma_due_count_le_len(s.drop_last(), now);
    }
}

/// Removing one entry removes its own contribution to the due count.
pub proof fn lemma_due_count_remove(s: Seq<PendingTask>, now: u64, k: int)
    requires
        0 <= k < s.len(),
    ensures
        due_count(s.remove(k), now) + (if is_due(s[k], now) {
            1nat
        } else {
            0nat
        }) == due_count(s, now),
    decreases s.len(),
{
    if k == s.len() - 1 {
        assert(s.remove(k) =~= s.drop_last());
    } else {
        assert(s.remove(k).drop_last() =~= s.drop_last().remove(k));
        assert(s.remove(k).last() == s.last());
        lemma_due_count_remove(s.drop_last(), now, k);
    }
}

/// Appending one entry adds its own contribution to the due count.
pub proof fn lemma_due_count_push(s: Seq<PendingTask>, now: u64, t: PendingTask)
    ensures
        due_count(s.push(t), now) == due_count(s, now) + (if is_due(t, now) {
            1nat
        } else {
            0nat
        }),
{
    assert(s.push(t).drop_last() =~= s);
    assert(s.push(t).last() == t);
}

/// A pending set with no due entry has a due count of zero.
pub proof fn lemma_due_count_none_due(s: Seq<PendingTask>, now: u64)
    requires
        forall|i: int| 0 <= i < s.len() ==> !is_due(#[trigger] s[i], now),
    ensures
        due_count(s, now) == 0,
    decreases s.len(),
{
    if s.len() > 0 {
        lemma_due_count_none_due(s.drop_last(), now);
    }
}

/// Two requests due at the same deadline rank by request order: the one
/// scheduled first outranks the other, never the other way round.
pub proof fn lemma_fifo_tie_break(a: PendingTask, b: PendingTask)
    requires
        a.fire_at == b.fire_at,
        a.seq < b.seq,
    ensures
        earlier(a, b),
        !earlier(b, a),
{
}

/// Firings come out in rank order: once the pick `a` at position `k` is
/// taken out of the pending set, every entry still due — in particular
/// whichever is picked next — either is `a`'s double or ranks behind it,
/// so with equal deadlines the requests fire oldest first.
pub proof fn lemma_pop_order(s: Seq<PendingTask>, now: u64, k: int, b: int)
    requires
        0 <= k < s.len(),
        is_due(s[k], now),
        forall|i: int|
            0 <= i < s.len() && is_due(#[trigger] s[i], now) && s[i] != s[k] ==> earlier(s[k], s[i]),
        0 <= b < s.remove(k).len(),
        is_due(s.remove(k)[b], now),
    ensures
        s.remove(k)[b] == s[k] || earlier(s[k], s.remove(k)[b]),
{
    if b < k {
        assert(s.remove(k)[b] == s[b]);
    } else {
        assert(s.remove(k)[b] == s[b + 1]);
    }
}

/// The scheduler's mathematical state: the pending entries in request
/// order, the slot budget, the current tick, and the next request number.
pub struct SchedulerView {
    pub pending: Seq<PendingTask>,
    pub capacity: nat,
    pub now: u64,
    pub next_seq: u64,
}

impl SchedulerView {
    /// The pending set never exceeds its capacity; sequence numbers grow
    /// with request order, stay below the next one to be handed out, and
    /// every pending payload is well formed.
    pub open spec fn wf(self) -> bool {
        &&& self.pending.len() <= self.capacity
        &&& forall|i: int|
            0 <= i < self.pending.len() ==> #[trigger] self.pending[i].seq < self.next_seq
        &&& forall|i: int, j: int|
            0 <= i < j < self.pending.len() ==> #[trigger] self.pending[i].seq
                < #[trigger] self.pending[j].seq
        &&& forall|i: int| 0 <= i < self.pending.len() ==> call_wf(#[trigger] self.pending[i].call)
    }
}

/// The fixed-capacity, timer-driven pending set.
pub struct Scheduler {
    pending: Vec<PendingTask>,
    capacity: usize,
    now: u64,
    next_seq: u64,
}

impl View for Scheduler {
    type V = SchedulerView;

    closed spec fn view(&self) -> SchedulerView {
        SchedulerView {
            pending: self.pending@,
            capacity: self.capacity as nat,
            now: self.now,
            next_seq: self.next_seq,
        }
    }
}

impl Scheduler {
    /// The scheduler's invariant.
    pub open spec fn wf(self) -> bool {
        self@.wf()
    }

    /// An empty scheduler with the given slot budget, at tick zero.
    pub fn new(capacity: usize) -> (s: Self)
        ensures
            s.wf(),
            s@.pending.len() == 0,
            s@.capacity == capacity,
            s@.now == 0,
            s@.next_seq == 0,
    {
        Scheduler { pending: Vec::new(), capacity, now: 0, next_seq: 0 }
    }

    /// The current tick of the monotonic clock.
    pub fn time(&self) -> (t: u64)
        ensures
            t == self@.now,
    {
        self.now
    }

    /// How many requests are pending.
    pub fn pending_len(&self) -> (n: usize)
        ensures
            n == self@.pending.len(),
    {
        self.pending.len()
    }

    /// The fixed slot budget.
    pub fn capacity(&self) -> (c: usize)
        ensures
            c == self@.capacity,
    {
        self.capacity
    }

    /// The pending entry at a position, in request order.
    pub fn pending_entry(&self, i: usize) -> (t: PendingTask)
        requires
            i < self@.pending.len(),
        ensures
            t == self@.pending[i as int],
    {
        self.pending[i]
    }

    /// Moves the clock forward; the clock is monotonic and never moves back.
    pub fn advance_to(&mut self, t: u64)
        requires
            old(self)@.now <= t,
        ensures
            final(self)@.pending == old(self)@.pending,
            final(self)@.capacity == old(self)@.capacity,
            final(self)@.next_seq == old(self)@.next_seq,
            final(self)@.now == t,
            old(self).wf() ==> final(self).wf(),
    {
        self.now = t;
    }

    /// Requests that `call` fire `delay` ticks from now.  With a free slot
    /// the request is appended to the pending set and numbered; with none,
    /// the request fails with `CapacityExceeded` and the scheduler is left
    /// exactly as it was.
    pub fn schedule_after(&mut self, call: TaskCall, delay: u64) -> (r: Result<
        TaskHandle,
        ScheduleError,
    >)
        requires
            old(self).wf(),
            call_wf(call),
            old(self)@.pending.len() < old(self)@.capacity ==> old(self)@.now + delay
                <= u64::MAX && old(self)@.next_seq < u64::MAX,
        ensures
            final(self).wf(),
            old(self)@.pending.len() < old(self)@.capacity ==> {
                &&& r == Ok::<TaskHandle, ScheduleError>(TaskHandle { seq: old(self)@.next_seq })
                &&& final(self)@.pending == old(self)@.pending.push(
                    PendingTask {
                        call,
                        fire_at: (old(self)@.now + delay) as u64,
                        seq: old(self)@.next_seq,
                    },
                )
                &&& final(self)@.next_seq == old(self)@.next_seq + 1
                &&& final(self)@.now == old(self)@.now
                &&& final(self)@.capacity == old(self)@.capacity
            },
            old(self)@.pending.len() >= old(self)@.capacity ==> {
                &&& r == Err::<TaskHandle, ScheduleError>(ScheduleError::CapacityExceeded)
                &&& final(self)@ == old(self)@
            },
    {
        if self.pending.len() < self.capacity {
            let handle = TaskHandle { seq: self.next_seq };
            let entry = PendingTask { call, fire_at: self.now + delay, seq: self.next_seq };
            self.pending.push(entry);
            self.next_seq = self.next_seq + 1;
            Ok(handle)
        } else {
            Err(ScheduleError::CapacityExceeded)
        }
    }

    /// Requests that `call` fire at the current tick: the same as
    /// requesting it with no delay.
    pub fn schedule_now(&mut self, call: TaskCall) -> (r: Result<TaskHandle, ScheduleError>)
        requires
            old(self).wf(),
            call_wf(call),
            old(self)@.pending.len() < old(self)@.capacity ==> old(self)@.next_seq < u64::MAX,
        ensures
            final(self).wf(),
            old(self)@.pending.len() < old(self)@.capacity ==> {
                &&& r == Ok::<TaskHandle, ScheduleError>(TaskHandle { seq: old(self)@.next_seq })
                &&& final(self)@.pending == old(self)@.pending.push(
                    PendingTask { call, fire_at: old(self)@.now, seq: old(self)@.next_seq },
                )
                &&& final(self)@.next_seq == old(self)@.next_seq + 1
                &&& final(self)@.now == old(self)@.now
                &&& final(self)@.capacity == old(self)@.capacity
            },
            old(self)@.pending.len() >= old(self)@.capacity ==> {
                &&& r == Err::<TaskHandle, ScheduleError>(ScheduleError::CapacityExceeded)
                &&& final(self)@ == old(self)@
            },
    {
        self.schedule_after(call, 0)
    }

    /// Looks for the request to fire next: among the entries due at the
    /// current tick, the one with the earliest deadline, ties broken by
    /// request order.
    fn find_due(&self) -> (r: Option<usize>)
        requires
            self.wf(),
        ensures
            match r {
                Option::None => forall|i: int|
                    0 <= i < self@.pending.len() ==> !is_due(#[trigger] self@.pending[i], self@.now),
                Option::Some(k) => {
                    &&& k < self@.pending.len()
                    &&& is_due(self@.pending[k as int], self@.now)
                    &&& forall|i: int|
                        0 <= i < self@.pending.len() && is_due(
                            #[trigger] self@.pending[i],
                            self@.now,
                        ) && i != k ==> earlier(self@.pending[k as int], self@.pending[i])
                },
            },
    {
        let n = self.pending.len();
        let mut best: usize = 0;
        let mut have: bool = false;
        let mut i: usize = 0;
        while i < n
            invariant
                self.wf(),
                n == self@.pending.len(),
                i <= n,
                have ==> best < i,
                have ==> is_due(self@.pending[best as int], self@.now),
                have ==> forall|j: int|
                    0 <= j < i && is_due(#[trigger] self@.pending[j], self@.now) && j != best
                        ==> earlier(self@.pending[best as int], self@.pending[j]),
                !have ==> forall|j: int|
                    0 <= j < i ==> !is_due(#[trigger] self@.pending[j], self@.now),
            decreases n - i,
        {
            // A later index always carries a later sequence number, so on an
            // equal deadline the entry found first keeps its rank.
            if self.pending[i].fire_at <= self.now {
                if !have {
                    best = i;
                    have = true;
                } else if self.pending[i].fire_at < self.pending[best].fire_at {
                    best = i;
                }
            }
            i = i + 1;
        }
        if have {
            Some(best)
        } else {
            None
        }
    }

    /// Takes the next due request out of the pending set, if any: never one
    /// whose deadline lies in the future, always one that every other due
    /// entry ranks behind.  With nothing due the scheduler is untouched.
    pub fn pop_due(&mut self) -> (r: Option<PendingTask>)
        requires
            old(self).wf(),
        ensures
            final(self).wf(),
            final(self)@.now == old(self)@.now,
            final(self)@.capacity == old(self)@.capacity,
            final(self)@.next_seq == old(self)@.next_seq,
            match r {
                Option::None => {
                    &&& final(self)@ == old(self)@
                    &&& forall|i: int|
                        0 <= i < old(self)@.pending.len() ==> !is_due(
                            #[trigger] old(self)@.pending[i],
                            old(self)@.now,
                        )
                },
                Option::Some(t) => {
                    &&& is_due(t, old(self)@.now)
                    &&& call_wf(t.call)
                    &&& exists|k: int|
                        0 <= k < old(self)@.pending.len() && old(self)@.pending[k] == t
                            && final(self)@.pending == old(self)@.pending.remove(k)
                    &&& forall|i: int|
                        0 <= i < old(self)@.pending.len() && is_due(
                            #[trigger] old(self)@.pending[i],
                            old(self)@.now,
                        ) && old(self)@.pending[i] != t ==> earlier(t, old(self)@.pending[i])
                },
            },
    {
        match self.find_due() {
            None => None,
            Some(k) => {
                let t = self.pending.remove(k);
                proof {
                    assert(0 <= k < old(self)@.pending.len() && old(self)@.pending[k as int] == t
                        && self@.pending == old(self)@.pending.remove(k as int));
                }
                Some(t)
            },
        }
    }
}

} // verus!
