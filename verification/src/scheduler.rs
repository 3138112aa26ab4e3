//! Delayed tasks: each task falls due a number of seconds after it was
//! added and is marked completed by a periodic tick.
//!
//! Time is read from the monotonic clock (`std::time::Instant`) and kept
//! as nanoseconds since the scheduler was made.
//!
//! The task list is a plain value; [`Scheduler::tick`] is the work of one
//! tick, and whoever owns the scheduler decides when to tick it (the game
//! ticks it from a background thread every second).

use std::time::Instant;
use vstd::prelude::*;

verus! {

/// `std::time::Instant`, a reading of the monotonic clock.
#[verifier::external_type_specification]
#[verifier::external_body]
pub struct ExInstant(Instant);

/// `Instant::now()`: a reading of the monotonic clock.  Nothing is promised
/// of it.
#[verifier::external_body]
fn instant_now() -> Instant {
    Instant::now()
}

/// `Instant::elapsed` of `origin`, in whole nanoseconds
/// (`Duration::as_nanos`): the time since `origin` by the monotonic clock.
/// Nothing is promised of the value: it is the clock's.
#[verifier::external_body]
fn nanos_since(origin: &Instant) -> u128 {
    origin.elapsed().as_nanos()
}

/// Nanoseconds in a second.
pub const NANOS_PER_SEC: u128 = 1_000_000_000;

/// A task that falls due at `due_at` (nanoseconds since its scheduler was
/// made).
pub struct ScheduledTask {
    pub id: u64,
    pub description: String,
    pub due_at: u128,
    pub completed: bool,
}

/// The task list, the next id to hand out, and the clock reading that time
/// is measured from.
pub struct Scheduler {
    tasks: Vec<ScheduledTask>,
    next_id: u64,
    origin: Instant,
}

impl Scheduler {
    /// The tasks, in the order they were added.
    pub closed spec fn tasks_view(&self) -> Seq<ScheduledTask> {
        self.tasks@
    }

    /// The id the next task will get.
    pub closed spec fn next_id_view(&self) -> u64 {
        self.next_id
    }

    /// Ids are distinct, positive and below the next id.
    pub open spec fn wf(&self) -> bool {
        &&& forall|i: int|
            0 <= i < self.tasks_view().len() ==> 0 < #[trigger] self.tasks_view()[i].id
                < self.next_id_view()
        &&& forall|i: int, j: int|
            0 <= i < j < self.tasks_view().len() ==> self.tasks_view()[i].id != self.tasks_view()[j].id
        &&& self.next_id_view() >= 1
    }

    /// An empty scheduler whose first task gets id 1.
    pub fn new() -> (r: Scheduler)
        ensures
            r.tasks_view() == Seq::<ScheduledTask>::empty(),
            r.next_id_view() == 1,
            r.wf(),
    {
        Scheduler { tasks: Vec::new(), next_id: 1, origin: instant_now() }
    }

    /// Add a task due `delay_secs` seconds after the time `now` (nanoseconds
    /// since the scheduler was made); returns its id.
    pub fn add_task_at(&mut self, description: String, delay_secs: u64, now: u128) -> (id: u64)
        requires
            old(self).wf(),
            old(self).next_id_view() < u64::MAX,
        ensures
            final(self).wf(),
            added(*old(self), *final(self), description, due_time(now, delay_secs), id),
    {
        let id = self.next_id;
        self.next_id = self.next_id + 1;
        let due_at = now.saturating_add((delay_secs as u128) * NANOS_PER_SEC);
        self.tasks.push(ScheduledTask { id, description, due_at, completed: false });
        proof {
            let ot = old(self).tasks_view();
            assert forall|i: int| 0 <= i < self.tasks_view().len() implies 0
                < #[trigger] self.tasks_view()[i].id < self.next_id_view() by {
                if i < ot.len() {
                    assert(self.tasks_view()[i] == ot[i]);
                    assert(0 < ot[i].id < old(self).next_id_view());
                }
            }
            assert forall|a: int, b: int| 0 <= a < b < self.tasks_view().len() implies self.tasks_view()[a].id
                != self.tasks_view()[b].id by {
                assert(self.tasks_view()[a] == ot[a]);
                assert(0 < ot[a].id < old(self).next_id_view());
                if b < ot.len() {
                    assert(self.tasks_view()[b] == ot[b]);
                }
            }
        }
        id
    }

    /// Add a task due `delay_secs` seconds from now (by the clock); returns its id.
    pub fn add_task(&mut self, description: String, delay_secs: u64) -> (id: u64)
        requires
            old(self).wf(),
            old(self).next_id_view() < u64::MAX,
        ensures
            final(self).wf(),
            exists|t: u128| added(*old(self), *final(self), description, #[trigger] due_time(t, delay_secs), id),
    {
        let now = nanos_since(&self.origin);
        let id = self.add_task_at(description, delay_secs, now);
        assert(added(*old(self), *self, description, due_time(now, delay_secs), id));
        id
    }

    /// Mark every task whose due time is at or before `now` (nanoseconds
    /// since the scheduler was made) as completed.
    pub fn tick(&mut self, now: u128)
        requires
            old(self).wf(),
        ensures
            final(self).wf(),
            final(self).next_id_view() == old(self).next_id_view(),
            ticked(old(self).tasks_view(), final(self).tasks_view(), now),
    {
        let n = self.tasks.len();
        let mut i: usize = 0;
        while i < n
            invariant
                n == self.tasks@.len(),
                n == old(self).tasks@.len(),
                i <= n,
                self.next_id == old(self).next_id,
                forall|j: int|
                    0 <= j < n ==> {
                        let t = old(self).tasks@[j];
                        #[trigger] self.tasks@[j] == if j < i {
                            ScheduledTask { completed: t.completed || now >= t.due_at, ..t }
                        } else {
                            t
                        }
                    },
            decreases n - i,
        {
            if !self.tasks[i].completed && now >= self.tasks[i].due_at {
                let t = &self.tasks[i];
                let nt = ScheduledTask {
                    id: t.id,
                    description: t.description.clone(),
                    due_at: t.due_at,
                    completed: true,
                };
                self.tasks.set(i, nt);
            }
            i = i + 1;
        }
        proof {
            assert forall|a: int, b: int| 0 <= a < b < self.tasks@.len() implies self.tasks@[a].id
                != self.tasks@[b].id by {
                assert(self.tasks@[a].id == old(self).tasks@[a].id);
                assert(self.tasks@[b].id == old(self).tasks@[b].id);
                assert(old(self).tasks_view()[a].id != old(self).tasks_view()[b].id);
            }
            assert forall|a: int| 0 <= a < self.tasks@.len() implies 0 < #[trigger] self.tasks@[a].id
                < self.next_id by {
                assert(self.tasks@[a].id == old(self).tasks@[a].id);
                assert(0 < old(self).tasks_view()[a].id < old(self).next_id_view());
            }
        }
    }

    /// The id the next task will get.
    pub fn next_id(&self) -> (r: u64)
        ensures
            r == self.next_id_view(),
    {
        self.next_id
    }

    /// One tick at the present time by the monotonic clock.
    pub fn tick_now(&mut self)
        requires
            old(self).wf(),
        ensures
            final(self).wf(),
            final(self).next_id_view() == old(self).next_id_view(),
            exists|t: u128| ticked(old(self).tasks_view(), final(self).tasks_view(), t),
    {
        let now = nanos_since(&self.origin);
        self.tick(now);
    }

    /// Whether the task with this id exists and is completed.
    pub fn is_task_completed(&self, id: u64) -> (r: bool)
        requires
            self.wf(),
        ensures
            r == exists|i: int|
                0 <= i < self.tasks_view().len() && #[trigger] self.tasks_view()[i].id == id
                    && self.tasks_view()[i].completed,
    {
        let mut i: usize = 0;
        while i < self.tasks.len()
            invariant
                self.wf(),
                i <= self.tasks@.len(),
                forall|j: int| 0 <= j < i ==> #[trigger] self.tasks@[j].id != id,
            decreases self.tasks@.len() - i,
        {
            if self.tasks[i].id == id {
                proof {
                    assert forall|j: int|
                        0 <= j < self.tasks_view().len() && #[trigger] self.tasks_view()[j].id == id implies j
                        == i by {
                        if j < i {
                            assert(self.tasks_view()[j].id != self.tasks_view()[i as int].id);
                        } else if j > i {
                            assert(self.tasks_view()[i as int].id != self.tasks_view()[j].id);
                        }
                    }
                }
                return self.tasks[i].completed;
            }
            i = i + 1;
        }
        false
    }

    /// Remove every task with this id.
    pub fn remove_task(&mut self, id: u64)
        requires
            old(self).wf(),
        ensures
            final(self).wf(),
            final(self).next_id_view() == old(self).next_id_view(),
            final(self).tasks_view() == without_id(old(self).tasks_view(), id),
    {
        let ghost orig = self.tasks@;
        let n = self.tasks.len();
        let mut kept: Vec<ScheduledTask> = Vec::new();
        let mut i: usize = 0;
        assert(orig.take(0) =~= Seq::<ScheduledTask>::empty());
        while i < n
            invariant
                n == self.tasks@.len(),
                self.tasks@ == orig,
                old(self).wf(),
                orig == old(self).tasks_view(),
                i <= n,
                kept@ == without_id(orig.take(i as int), id),
                forall|k: int|
                    0 <= k < kept@.len() ==> exists|j: int|
                        0 <= j < i && #[trigger] orig[j] == #[trigger] kept@[k],
                forall|a: int, b: int| 0 <= a < b < kept@.len() ==> kept@[a].id != kept@[b].id,
            decreases n - i,
        {
            let t = &self.tasks[i];
            assert(orig.take(i + 1).drop_last() =~= orig.take(i as int));
            assert(orig.take(i + 1).last() == orig[i as int]);
            if t.id != id {
                let nt = ScheduledTask {
                    id: t.id,
                    description: t.description.clone(),
                    due_at: t.due_at,
                    completed: t.completed,
                };
                let ghost prev = kept@;
                kept.push(nt);
                proof {
                    assert forall|k: int| 0 <= k < kept@.len() implies exists|j: int|
                        0 <= j < i + 1 && #[trigger] orig[j] == #[trigger] kept@[k] by {
                        if k < prev.len() {
                            assert(kept@[k] == prev[k]);
                        } else {
                            assert(orig[i as int] == kept@[k]);
                        }
                    }
                    assert forall|a: int, b: int| 0 <= a < b < kept@.len() implies kept@[a].id
                        != kept@[b].id by {
                        if b == kept@.len() - 1 {
                            assert(kept@[a] == prev[a]);
                            let j = choose|j: int| 0 <= j < i && #[trigger] orig[j] == prev[a];
                            assert(orig[j].id != orig[i as int].id);
                        } else {
                            assert(kept@[a] == prev[a]);
                            assert(kept@[b] == prev[b]);
                        }
                    }
                }
            }
            i = i + 1;
        }
        assert(orig.take(n as int) =~= orig);
        self.tasks = kept;
        proof {
            assert forall|k: int| 0 <= k < self.tasks@.len() implies 0 < #[trigger] self.tasks@[k].id
                < self.next_id by {
                let j = choose|j: int| 0 <= j < n && #[trigger] orig[j] == self.tasks@[k];
                assert(orig[j] == old(self).tasks_view()[j]);
            }
        }
    }

    /// The ids of the completed tasks, in order.
    pub fn get_completed_tasks(&self) -> (r: Vec<u64>)
        ensures
            r@ == completed_ids(self.tasks_view()),
    {
        let mut r: Vec<u64> = Vec::new();
        let mut i: usize = 0;
        while i < self.tasks.len()
            invariant
                i <= self.tasks@.len(),
                r@ == completed_ids(self.tasks@.take(i as int)),
            decreases self.tasks@.len() - i,
        {
            assert(self.tasks@.take(i + 1).drop_last() =~= self.tasks@.take(i as int));
            if self.tasks[i].completed {
                r.push(self.tasks[i].id);
            }
            i = i + 1;
        }
        assert(self.tasks@.take(self.tasks@.len() as int) =~= self.tasks@);
        r
    }
}

/// `ts` without the tasks whose id is `id`.
pub open spec fn without_id(ts: Seq<ScheduledTask>, id: u64) -> Seq<ScheduledTask>
    decreases ts.len(),
{
    if ts.len() == 0 {
        ts
    } else if ts.last().id == id {
        without_id(ts.drop_last(), id)
    } else {
        without_id(ts.drop_last(), id).push(ts.last())
    }
}

/// The ids of the completed tasks of `ts`, in order.
pub open spec fn completed_ids(ts: Seq<ScheduledTask>) -> Seq<u64>
    decreases ts.len(),
{
    if ts.len() == 0 {
        Seq::empty()
    } else if ts.last().completed {
        completed_ids(ts.drop_last()).push(ts.last().id)
    } else {
        completed_ids(ts.drop_last())
    }
}


/// The task with this id exists and is completed.
pub open spec fn task_done(ts: Seq<ScheduledTask>, id: u64) -> bool {
    exists|i: int| 0 <= i < ts.len() && #[trigger] ts[i].id == id && ts[i].completed
}

/// The due time of a task added at `now` (nanoseconds) with a delay of
/// `delay` seconds: `delay` seconds later, or `u128::MAX` when that does not
/// fit.
pub open spec fn due_time(now: u128, delay: u64) -> u128 {
    if now + delay * NANOS_PER_SEC <= u128::MAX {
        (now + delay * NANOS_PER_SEC) as u128
    } else {
        u128::MAX
    }
}

/// `s1` is `s0` after adding the task `id` with this description and due
/// time: the id is the next one, and the task goes last, not completed.
pub open spec fn added(s0: Scheduler, s1: Scheduler, description: String, due_at: u128, id: u64) -> bool {
    &&& id == s0.next_id_view()
    &&& s1.next_id_view() == id + 1
    &&& s1.tasks_view() == s0.tasks_view().push(ScheduledTask { id, description, due_at, completed: false })
}

/// `ts1` is `ts0` after a tick at `now`: every task whose due time has come
/// is completed, and nothing else changes.
pub open spec fn ticked(ts0: Seq<ScheduledTask>, ts1: Seq<ScheduledTask>, now: u128) -> bool {
    &&& ts1.len() == ts0.len()
    &&& forall|i: int|
        0 <= i < ts0.len() ==> #[trigger] ts1[i] == ScheduledTask {
            completed: ts0[i].completed || now >= ts0[i].due_at,
            ..ts0[i]
        }
}

/// A task that was just added is not completed.
pub proof fn law_added_task_pending(s0: Scheduler, s1: Scheduler, desc: String, due_at: u128, id: u64)
    requires
        s0.wf(),
        added(s0, s1, desc, due_at, id),
    ensures
        !task_done(s1.tasks_view(), id),
{
    let ts = s1.tasks_view();
    if task_done(ts, id) {
        let i = choose|i: int| 0 <= i < ts.len() && #[trigger] ts[i].id == id && ts[i].completed;
        if i < s0.tasks_view().len() {
            assert(ts[i] == s0.tasks_view()[i]);
            assert(s0.tasks_view()[i].id < s0.next_id_view());
        }
    }
}

/// Ids are handed out in order: a new scheduler's first task gets 1, and
/// each later task gets the previous task's id plus one.
pub proof fn law_ids_count_up(
    s0: Scheduler,
    s1: Scheduler,
    s2: Scheduler,
    d1: String,
    d2: String,
    due1: u128,
    due2: u128,
    id1: u64,
    id2: u64,
)
    requires
        added(s0, s1, d1, due1, id1),
        added(s1, s2, d2, due2, id2),
    ensures
        s0.tasks_view().len() == 0 && s0.next_id_view() == 1 ==> id1 == 1,
        id2 == id1 + 1,
{
}

/// A tick before a task's due time leaves that task pending.
pub proof fn law_pending_until_due(s0: Scheduler, s1: Scheduler, now: u128, id: u64)
    requires
        s0.wf(),
        ticked(s0.tasks_view(), s1.tasks_view(), now),
        forall|i: int|
            0 <= i < s0.tasks_view().len() && #[trigger] s0.tasks_view()[i].id == id ==> !s0.tasks_view()[i].completed
                && now < s0.tasks_view()[i].due_at,
    ensures
        !task_done(s1.tasks_view(), id),
{
    let ts = s1.tasks_view();
    if task_done(ts, id) {
        let i = choose|i: int| 0 <= i < ts.len() && #[trigger] ts[i].id == id && ts[i].completed;
        assert(ts[i].id == s0.tasks_view()[i].id);
    }
}

/// The completed tasks are exactly those that `task_done` names.
pub proof fn lemma_completed_ids(ts: Seq<ScheduledTask>, id: u64)
    ensures
        completed_ids(ts).contains(id) <==> task_done(ts, id),
    decreases ts.len(),
{
    if ts.len() > 0 {
        let init = ts.drop_last();
        let ci = completed_ids(init);
        let c = completed_ids(ts);
        lemma_completed_ids(init, id);
        if task_done(ts, id) {
            let i = choose|i: int| 0 <= i < ts.len() && #[trigger] ts[i].id == id && ts[i].completed;
            if i < init.len() {
                assert(init[i] == ts[i]);
                assert(task_done(init, id));
                let k = choose|k: int| 0 <= k < ci.len() && ci[k] == id;
                if ts.last().completed {
                    assert(c == ci.push(ts.last().id));
                    assert(c[k] == id);
                } else {
                    assert(c == ci);
                }
                assert(c.contains(id));
            } else {
                assert(c == ci.push(id));
                assert(c[ci.len() as int] == id);
            }
        }
        if c.contains(id) {
            let k = choose|k: int| 0 <= k < c.len() && c[k] == id;
            if ts.last().completed {
                assert(c == ci.push(ts.last().id));
                if k == ci.len() {
                    assert(ts[ts.len() - 1].id == id && ts[ts.len() - 1].completed);
                } else {
                    assert(ci[k] == id);
                    let i = choose|i: int| 0 <= i < init.len() && #[trigger] init[i].id == id && init[i].completed;
                    assert(ts[i] == init[i]);
                }
            } else {
                assert(c == ci);
                assert(ci[k] == id);
                let i = choose|i: int| 0 <= i < init.len() && #[trigger] init[i].id == id && init[i].completed;
                assert(ts[i] == init[i]);
            }
        }
    }
}

/// Tasks whose id is not `id` keep their place in `without_id(ts, id)`.
proof fn lemma_without_id_keeps(ts: Seq<ScheduledTask>, id: u64, i: int)
    requires
        0 <= i < ts.len(),
        ts[i].id != id,
    ensures
        exists|j: int| 0 <= j < without_id(ts, id).len() && #[trigger] without_id(ts, id)[j] == ts[i],
    decreases ts.len(),
{
    let init = ts.drop_last();
    let w0 = without_id(init, id);
    if i < ts.len() - 1 {
        assert(init[i] == ts[i]);
        lemma_without_id_keeps(init, id, i);
        let j = choose|j: int| 0 <= j < w0.len() && #[trigger] w0[j] == init[i];
        if ts.last().id != id {
            assert(without_id(ts, id) == w0.push(ts.last()));
            assert(without_id(ts, id)[j] == w0[j]);
        } else {
            assert(without_id(ts, id) == w0);
        }
        assert(without_id(ts, id)[j] == ts[i]);
    } else {
        assert(without_id(ts, id) == w0.push(ts.last()));
        assert(without_id(ts, id)[w0.len() as int] == ts[i]);
    }
}

/// Completion is never undone: a task reported completed is still reported
/// completed after a tick, and after another task is removed.
pub proof fn law_completion_persists(ts0: Seq<ScheduledTask>, ts1: Seq<ScheduledTask>, now: u128, id: u64, other: u64)
    requires
        completed_ids(ts0).contains(id),
    ensures
        ticked(ts0, ts1, now) ==> completed_ids(ts1).contains(id),
        other != id ==> completed_ids(without_id(ts0, other)).contains(id),
{
    lemma_completed_ids(ts0, id);
    let i = choose|i: int| 0 <= i < ts0.len() && #[trigger] ts0[i].id == id && ts0[i].completed;
    if ticked(ts0, ts1, now) {
        assert(ts1[i].id == id && ts1[i].completed);
        lemma_completed_ids(ts1, id);
    }
    if other != id {
        lemma_without_id_keeps(ts0, other, i);
        let w = without_id(ts0, other);
        let j = choose|j: int| 0 <= j < w.len() && #[trigger] w[j] == ts0[i];
        assert(w[j].id == id && w[j].completed);
        lemma_completed_ids(w, id);
    }
}

/// A task added at `now` with a delay of `delay` seconds is completed by
/// any tick at or after its due time.
pub proof fn law_tick_completes_due(
    s0: Scheduler,
    s1: Scheduler,
    ts2: Seq<ScheduledTask>,
    desc: String,
    delay: u64,
    now: u128,
    id: u64,
    later: u128,
)
    requires
        added(s0, s1, desc, due_time(now, delay), id),
        later >= now + delay * NANOS_PER_SEC,
        ticked(s1.tasks_view(), ts2, later),
    ensures
        task_done(ts2, id),
{
    let k = s0.tasks_view().len() as int;
    assert(s1.tasks_view()[k].id == id);
    assert(ts2[k].completed);
    assert(ts2[k].id == id);
}

/// A removed task is no longer there, so it is not completed.
pub proof fn law_removed_task_gone(ts: Seq<ScheduledTask>, id: u64)
    ensures
        !task_done(without_id(ts, id), id),
    decreases ts.len(),
{
    if ts.len() > 0 {
        law_removed_task_gone(ts.drop_last(), id);
        let w = without_id(ts, id);
        let w0 = without_id(ts.drop_last(), id);
        if ts.last().id != id {
            assert forall|i: int| 0 <= i < w.len() && #[trigger] w[i].id == id implies !w[i].completed by {
                if i < w0.len() {
                    assert(w[i] == w0[i]);
                }
            }
        }
    }
}

/// A call that changes a scheduler.
pub enum Call {
    /// `add_task_at(description, delay_secs, now)`.
    Add { description: String, delay_secs: u64, now: u128 },
    /// `tick(now)`.
    Tick { now: u128 },
    /// `remove_task(id)`.
    Remove { id: u64 },
}

/// `s1` is `s0` after the call `c`, as the call's contract states it.
pub open spec fn call_outcome(s0: Scheduler, s1: Scheduler, c: Call) -> bool {
    &&& s1.wf()
    &&& match c {
        Call::Add { description, delay_secs, now } => added(
            s0,
            s1,
            description,
            due_time(now, delay_secs),
            s0.next_id_view(),
        ),
        Call::Tick { now } => s1.next_id_view() == s0.next_id_view() && ticked(
            s0.tasks_view(),
            s1.tasks_view(),
            now,
        ),
        Call::Remove { id } => s1.next_id_view() == s0.next_id_view() && s1.tasks_view() == without_id(
            s0.tasks_view(),
            id,
        ),
    }
}

/// `ss` are the states of a scheduler through the calls `calls`: `ss[i + 1]`
/// is `ss[i]` after `calls[i]`.
pub open spec fn is_run(ss: Seq<Scheduler>, calls: Seq<Call>) -> bool {
    &&& ss.len() == calls.len() + 1
    &&& forall|i: int| 0 <= i < calls.len() ==> #[trigger] call_outcome(ss[i], ss[i + 1], calls[i])
}

/// The number of `Add` calls in `calls`.
pub open spec fn add_count(calls: Seq<Call>) -> nat
    decreases calls.len(),
{
    if calls.len() == 0 {
        0
    } else if calls.last() is Add {
        add_count(calls.drop_last()) + 1
    } else {
        add_count(calls.drop_last())
    }
}

/// Call `c` removes the task `id`.
pub open spec fn removes(c: Call, id: u64) -> bool {
    c matches Call::Remove { id: x } && x == id
}

/// Over any run that starts from a new scheduler, ids are handed out in
/// call order: before call `i` the next id is one more than the number of
/// tasks added so far, so the `k`-th task added (counting from 1) gets id
/// `k`, and no id is handed out twice.
pub proof fn law_ids_in_call_order(ss: Seq<Scheduler>, calls: Seq<Call>, i: int)
    requires
        is_run(ss, calls),
        ss[0].next_id_view() == 1,
        0 <= i <= calls.len(),
    ensures
        ss[i].next_id_view() == 1 + add_count(calls.take(i)),
        i < calls.len() && calls[i] is Add ==> ss[i + 1].tasks_view().last().id == 1 + add_count(calls.take(i)),
    decreases i,
{
    if i == 0 {
        assert(calls.take(0) =~= Seq::<Call>::empty());
    } else {
        law_ids_in_call_order(ss, calls, i - 1);
        let k = i - 1;
        assert(call_outcome(ss[k], ss[k + 1], calls[k]));
        assert(calls.take(i).drop_last() =~= calls.take(i - 1));
        assert(calls.take(i).last() == calls[i - 1]);
    }
    if i < calls.len() && calls[i] is Add {
        assert(call_outcome(ss[i], ss[i + 1], calls[i]));
    }
}

/// A task stays in `ts.push(t)` as it was.
proof fn lemma_done_after_push(ts: Seq<ScheduledTask>, t: ScheduledTask, id: u64)
    requires
        task_done(ts, id),
    ensures
        task_done(ts.push(t), id),
{
    let i = choose|i: int| 0 <= i < ts.len() && #[trigger] ts[i].id == id && ts[i].completed;
    assert(ts.push(t)[i] == ts[i]);
}

/// Over any run, a task that is completed stays completed, through adds,
/// ticks and the removal of other tasks, until it is removed itself.
pub proof fn law_completed_until_removed(ss: Seq<Scheduler>, calls: Seq<Call>, i: int, j: int, id: u64)
    requires
        is_run(ss, calls),
        0 <= i <= j <= calls.len(),
        completed_ids(ss[i].tasks_view()).contains(id),
        forall|k: int| i <= k < j ==> !removes(#[trigger] calls[k], id),
    ensures
        completed_ids(ss[j].tasks_view()).contains(id),
    decreases j - i,
{
    if i < j {
        let k = i;
        assert(call_outcome(ss[k], ss[k + 1], calls[k]));
        assert(!removes(calls[k], id));
        let ts0 = ss[k].tasks_view();
        let ts1 = ss[k + 1].tasks_view();
        match calls[k] {
            Call::Add { description, delay_secs, now } => {
                lemma_completed_ids(ts0, id);
                lemma_done_after_push(
                    ts0,
                    ScheduledTask { id: ss[k].next_id_view(), description, due_at: due_time(now, delay_secs), completed: false },
                    id,
                );
                lemma_completed_ids(ts1, id);
            },
            Call::Tick { now } => {
                law_completion_persists(ts0, ts1, now, id, id);
            },
            Call::Remove { id: other } => {
                law_completion_persists(ts0, ts1, 0, id, other);
            },
        }
        law_completed_until_removed(ss, calls, i + 1, j, id);
    }
}

/// The tasks of `without_id(ts, x)` all come from `ts`.
proof fn lemma_without_id_from(ts: Seq<ScheduledTask>, x: u64, j: int)
    requires
        0 <= j < without_id(ts, x).len(),
    ensures
        exists|i: int| 0 <= i < ts.len() && #[trigger] ts[i] == without_id(ts, x)[j],
    decreases ts.len(),
{
    let init = ts.drop_last();
    let w0 = without_id(init, x);
    if ts.last().id == x {
        assert(without_id(ts, x) == w0);
        lemma_without_id_from(init, x, j);
        let i = choose|i: int| 0 <= i < init.len() && #[trigger] init[i] == w0[j];
        assert(ts[i] == init[i]);
    } else {
        assert(without_id(ts, x) == w0.push(ts.last()));
        if j < w0.len() {
            lemma_without_id_from(init, x, j);
            let i = choose|i: int| 0 <= i < init.len() && #[trigger] init[i] == w0[j];
            assert(ts[i] == init[i]);
        } else {
            assert(ts[ts.len() - 1] == without_id(ts, x)[j]);
        }
    }
}

/// The task `id`, due at `due`, is as it was added: every task with that id
/// is pending and due at `due`, all later ids are larger, and while it has
/// not been removed it is there.
pub open spec fn still_pending(s: Scheduler, id: u64, due: u128, present: bool) -> bool {
    &&& s.next_id_view() > id
    &&& forall|k: int|
        0 <= k < s.tasks_view().len() && #[trigger] s.tasks_view()[k].id == id ==> !s.tasks_view()[k].completed
            && s.tasks_view()[k].due_at == due
    &&& present ==> exists|k: int| 0 <= k < s.tasks_view().len() && #[trigger] s.tasks_view()[k].id == id
}

proof fn lemma_still_pending(ss: Seq<Scheduler>, calls: Seq<Call>, i: int, j: int, due: u128, present: bool)
    requires
        is_run(ss, calls),
        ss[i].wf(),
        0 <= i < j <= calls.len(),
        calls[i] matches Call::Add { delay_secs, now, .. } && due == due_time(now, delay_secs),
        forall|k: int| i < k < j ==> (#[trigger] calls[k] matches Call::Tick { now: t } ==> t < due),
        present ==> forall|k: int| i < k < j ==> !removes(#[trigger] calls[k], ss[i].next_id_view()),
    ensures
        still_pending(ss[j], ss[i].next_id_view(), due, present),
    decreases j - i,
{
    let id = ss[i].next_id_view();
    if j == i + 1 {
        assert(call_outcome(ss[i], ss[i + 1], calls[i]));
        let ts0 = ss[i].tasks_view();
        let ts1 = ss[j].tasks_view();
        assert forall|k: int| 0 <= k < ts1.len() && #[trigger] ts1[k].id == id implies !ts1[k].completed
            && ts1[k].due_at == due by {
            if k < ts0.len() {
                assert(ts1[k] == ts0[k]);
                assert(ts0[k].id < id);
            }
        }
        assert(ts1[ts0.len() as int].id == id);
    } else {
        lemma_still_pending(ss, calls, i, j - 1, due, present);
        let m = j - 1;
        assert(call_outcome(ss[m], ss[m + 1], calls[m]));
        let ts0 = ss[m].tasks_view();
        let ts1 = ss[j].tasks_view();
        match calls[m] {
            Call::Add { .. } => {
                assert forall|k: int| 0 <= k < ts1.len() && #[trigger] ts1[k].id == id implies !ts1[k].completed
                    && ts1[k].due_at == due by {
                    if k < ts0.len() {
                        assert(ts1[k] == ts0[k]);
                    }
                }
                if present {
                    let k = choose|k: int| 0 <= k < ts0.len() && #[trigger] ts0[k].id == id;
                    assert(ts1[k] == ts0[k]);
                }
            },
            Call::Tick { now } => {
                assert(now < due);
                assert forall|k: int| 0 <= k < ts1.len() && #[trigger] ts1[k].id == id implies !ts1[k].completed
                    && ts1[k].due_at == due by {
                    assert(ts1[k].id == ts0[k].id);
                }
                if present {
                    let k = choose|k: int| 0 <= k < ts0.len() && #[trigger] ts0[k].id == id;
                    assert(ts1[k].id == ts0[k].id);
                }
            },
            Call::Remove { id: x } => {
                assert forall|k: int| 0 <= k < ts1.len() && #[trigger] ts1[k].id == id implies !ts1[k].completed
                    && ts1[k].due_at == due by {
                    lemma_without_id_from(ts0, x, k);
                    let a = choose|a: int| 0 <= a < ts0.len() && #[trigger] ts0[a] == ts1[k];
                    assert(ts0[a].id == id);
                }
                if present {
                    assert(!removes(calls[m], id));
                    let k = choose|k: int| 0 <= k < ts0.len() && #[trigger] ts0[k].id == id;
                    lemma_without_id_keeps(ts0, x, k);
                    let b = choose|b: int| 0 <= b < ts1.len() && #[trigger] ts1[b] == ts0[k];
                    assert(ts1[b].id == id);
                }
            },
        }
    }
}

/// Over any run, the task added by call `i` keeps the id that call handed
/// out, and it stays pending until a tick at or after its due time (`delay`
/// seconds after the time of the call): every later state reports it not
/// completed while every tick so far came before that time, and while it
/// has not been removed it is there.
pub proof fn law_pending_until_due_over_calls(ss: Seq<Scheduler>, calls: Seq<Call>, i: int, j: int)
    requires
        is_run(ss, calls),
        ss[i].wf(),
        0 <= i < j <= calls.len(),
        calls[i] is Add,
        forall|k: int|
            i < k < j ==> (#[trigger] calls[k] matches Call::Tick { now: t } ==> t < due_time(
                calls[i]->Add_now,
                calls[i]->Add_delay_secs,
            )),
    ensures
        !task_done(ss[j].tasks_view(), ss[i].next_id_view()),
        (forall|k: int| i < k < j ==> !removes(#[trigger] calls[k], ss[i].next_id_view())) ==> exists|k: int|
            0 <= k < ss[j].tasks_view().len() && #[trigger] ss[j].tasks_view()[k].id == ss[i].next_id_view(),
{
    let due = due_time(calls[i]->Add_now, calls[i]->Add_delay_secs);
    lemma_still_pending(ss, calls, i, j, due, false);
    if forall|k: int| i < k < j ==> !removes(#[trigger] calls[k], ss[i].next_id_view()) {
        lemma_still_pending(ss, calls, i, j, due, true);
    }
}
} // verus!
