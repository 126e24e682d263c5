//! The executor: the fixed task table and the scheduling passes over it.

use crate::flag::{SharedFlag, STARTUP_VALUE};
use crate::task::{lemma_step_reduces_backlog, Task, TaskView};
use vstd::prelude::*;

verus! {

/// Why a task was not registered.
#[derive(Clone, Copy, PartialEq, Eq, Structural, Debug)]
pub enum SpawnError {
    /// Every slot of the task table is taken.
    TableFull,
}

/// The executor as plain values: the task table in the order of registration,
/// the number of slots, and the value of the shared flag.
pub struct ExecutorView {
    pub tasks: Seq<TaskView>,
    pub capacity: nat,
    pub flag: bool,
}

impl ExecutorView {
    /// The table holds no more tasks than it has slots, and every task in it
    /// is well formed.
    pub open spec fn wf(self) -> bool {
        &&& self.tasks.len() <= self.capacity
        &&& forall|i: int| 0 <= i < self.tasks.len() ==> (#[trigger] self.tasks[i]).wf()
    }

    /// Whether `now` is a time at which every task can be looked at.
    pub open spec fn in_range(self, now: nat) -> bool {
        forall|i: int| 0 <= i < self.tasks.len() ==> (#[trigger] self.tasks[i]).in_range(now)
    }

    /// Whether a scheduling pass at `now` finds nothing to do: no tick is
    /// due, no edge is pending, and no task is waiting to run.
    pub open spec fn idle(self, now: nat) -> bool {
        forall|i: int| 0 <= i < self.tasks.len() ==> !(#[trigger] self.tasks[i]).ready(now)
    }

    /// The executor with `task` registered in the next free slot.
    pub open spec fn spawned(self, task: TaskView) -> ExecutorView {
        ExecutorView { tasks: self.tasks.push(task), capacity: self.capacity, flag: self.flag }
    }

    /// The executor after a rising edge on the input line of task `id`.
    /// Nothing changes if `id` is not in the table.
    pub open spec fn edge_signalled(self, id: int) -> ExecutorView {
        if 0 <= id < self.tasks.len() {
            ExecutorView {
                tasks: self.tasks.update(id, self.tasks[id].edge_signalled()),
                capacity: self.capacity,
                flag: self.flag,
            }
        } else {
            self
        }
    }

    /// The first half of a scheduling pass: every task that is due at `now`
    /// is resumed.
    pub open spec fn woken(self, now: nat) -> ExecutorView {
        ExecutorView {
            tasks: Seq::new(self.tasks.len(), |i: int| self.tasks[i].woken(now)),
            capacity: self.capacity,
            flag: self.flag,
        }
    }

    /// The value of the shared flag that task `i` finds when the tasks run
    /// one after the other in table order: the value that the task before it
    /// has left.
    pub open spec fn flag_before(self, i: nat) -> bool
        decreases i,
    {
        if i == 0 {
            self.flag
        } else {
            self.tasks[i - 1].ran(self.flag_before((i - 1) as nat)).1
        }
    }

    /// The second half of a scheduling pass: every task that has been
    /// resumed runs up to its next wait, in table order.
    pub open spec fn ran(self) -> ExecutorView {
        ExecutorView {
            tasks: Seq::new(
                self.tasks.len(),
                |i: int| self.tasks[i].ran(self.flag_before(i as nat)).0,
            ),
            capacity: self.capacity,
            flag: self.flag_before(self.tasks.len()),
        }
    }

    /// One scheduling pass at `now`.
    pub open spec fn polled(self, now: nat) -> ExecutorView {
        self.woken(now).ran()
    }

    /// The executor after `passes` scheduling passes at `now`.
    pub open spec fn polled_times(self, now: nat, passes: nat) -> ExecutorView
        decreases passes,
    {
        if passes == 0 {
            self
        } else {
            self.polled_times(now, (passes - 1) as nat).polled(now)
        }
    }

    /// The executor after one scheduling pass at each time of `nows` in
    /// turn.
    pub open spec fn polled_at(self, nows: Seq<nat>) -> ExecutorView
        decreases nows.len(),
    {
        if nows.len() == 0 {
            self
        } else {
            self.polled_at(nows.drop_last()).polled(nows.last())
        }
    }

    /// Whether every button task is suspended with no edge pending.
    pub open spec fn buttons_quiet(self) -> bool {
        forall|i: int|
            0 <= i < self.tasks.len() ==> match #[trigger] self.tasks[i] {
                TaskView::Blink { .. } => true,
                TaskView::Button { button, edge_pending } => button.is_suspended()
                    && !edge_pending,
            }
    }

    /// How many of the first `n` tasks a scheduling pass at `now` runs.
    pub open spec fn ready_count(self, now: nat, n: nat) -> nat
        decreases n,
    {
        if n == 0 {
            0
        } else {
            self.ready_count(now, (n - 1) as nat) + if self.tasks[n - 1].ready(now) {
                1nat
            } else {
                0nat
            }
        }
    }

    /// Whether `time` is the earliest time that any task waits for.
    pub open spec fn is_next_deadline(self, time: nat) -> bool {
        &&& exists|i: int|
            0 <= i < self.tasks.len() && (#[trigger] self.tasks[i]).deadline() == Some(time)
        &&& forall|i: int|
            0 <= i < self.tasks.len() && (#[trigger] self.tasks[i]).deadline().is_some() ==> time
                <= self.tasks[i].deadline().unwrap()
    }

    /// Whether any task waits for a time.
    pub open spec fn has_deadline(self) -> bool {
        exists|i: int| 0 <= i < self.tasks.len() && (#[trigger] self.tasks[i]).deadline().is_some()
    }

    /// A bound on the work that the first `n` tasks still have to do at
    /// `now`.
    pub open spec fn backlog_upto(self, now: nat, n: nat) -> nat
        decreases n,
    {
        if n == 0 {
            0
        } else {
            self.backlog_upto(now, (n - 1) as nat) + self.tasks[n - 1].backlog(now)
        }
    }

    /// A bound on the work that is left to do at `now`.
    pub open spec fn backlog(self, now: nat) -> nat {
        self.backlog_upto(now, self.tasks.len())
    }
}

/// The scheduler: a table of tasks that is filled once at startup, and the
/// shared flag that the tasks are handed when they run.
pub struct Executor {
    tasks: Vec<Task>,
    capacity: usize,
    flag: SharedFlag,
}

impl View for Executor {
    type V = ExecutorView;

    closed spec fn view(&self) -> ExecutorView {
        ExecutorView {
            tasks: Seq::new(self.tasks@.len(), |i: int| self.tasks@[i]@),
            capacity: self.capacity as nat,
            flag: self.flag@,
        }
    }
}

impl Executor {
    /// An executor with an empty table of `capacity` slots and the shared
    /// flag at its startup value.
    pub fn new(capacity: usize) -> (executor: Executor)
        ensures
            executor@ == (ExecutorView {
                tasks: Seq::empty(),
                capacity: capacity as nat,
                flag: STARTUP_VALUE,
            }),
            executor@.wf(),
    {
        let executor = Executor { tasks: Vec::new(), capacity, flag: SharedFlag::new() };
        assert(executor@.tasks =~= Seq::empty());
        executor
    }

    /// Registers `task` in the next free slot and returns the slot's number.
    /// A full table refuses the task and stays as it is.
    pub fn spawn(&mut self, task: Task) -> (slot: Result<usize, SpawnError>)
        requires
            old(self)@.wf(),
            task@.wf(),
        ensures
            final(self)@.wf(),
            old(self)@.tasks.len() < old(self)@.capacity ==> slot == Ok::<usize, SpawnError>(
                old(self)@.tasks.len() as usize,
            ) && final(self)@ == old(self)@.spawned(task@),
            old(self)@.tasks.len() >= old(self)@.capacity ==> slot == Err::<usize, SpawnError>(
                SpawnError::TableFull,
            ) && final(self)@ == old(self)@,
    {
        let slot = self.tasks.len();
        if slot < self.capacity {
            self.tasks.push(task);
            assert(self@.tasks =~= old(self)@.tasks.push(task@));
            Ok(slot)
        } else {
            Err(SpawnError::TableFull)
        }
    }

    /// The number of registered tasks.
    pub fn task_count(&self) -> (count: usize)
        ensures
            count == self@.tasks.len(),
    {
        self.tasks.len()
    }

    /// The number of slots in the task table.
    pub fn capacity(&self) -> (capacity: usize)
        ensures
            capacity == self@.capacity,
    {
        self.capacity
    }

    /// The value of the shared flag.
    pub fn flag(&self) -> (value: bool)
        ensures
            value == self@.flag,
    {
        self.flag.read()
    }

    /// The task in slot `id`, if there is one.
    pub fn task(&self, id: usize) -> (task: Option<&Task>)
        ensures
            id < self@.tasks.len() ==> task.is_some() && task.unwrap()@ == self@.tasks[id as int],
            id >= self@.tasks.len() ==> task.is_none(),
    {
        if id < self.tasks.len() {
            Some(&self.tasks[id])
        } else {
            None
        }
    }

    /// A rising edge on the input line of the task in slot `id`. Returns
    /// whether that slot holds a task with an input line.
    pub fn signal_rising_edge(&mut self, id: usize) -> (accepted: bool)
        ensures
            final(self)@ == old(self)@.edge_signalled(id as int),
            accepted == (id < old(self)@.tasks.len() && old(self)@.tasks[id as int] is Button),
            old(self)@.wf() ==> final(self)@.wf(),
    {
        if id < self.tasks.len() {
            let accepted = self.tasks[id].signal_rising_edge();
            assert(self@.tasks =~= old(self)@.tasks.update(
                id as int,
                old(self)@.tasks[id as int].edge_signalled(),
            ));
            accepted
        } else {
            false
        }
    }

    /// Whether `now` is a time at which the executor can make a pass.
    pub fn is_in_range(&self, now: u64) -> (ok: bool)
        ensures
            ok == self@.in_range(now as nat),
    {
        let n = self.tasks.len();
        let mut i: usize = 0;
        while i < n
            invariant
                i <= n,
                n == self.tasks@.len(),
                forall|j: int| 0 <= j < i ==> (#[trigger] self@.tasks[j]).in_range(now as nat),
            decreases n - i,
        {
            if !self.tasks[i].is_in_range(now) {
                assert(!self@.tasks[i as int].in_range(now as nat));
                return false;
            }
            i = i + 1;
        }
        true
    }

    /// Whether a scheduling pass at `now` would find nothing to do.
    pub fn is_idle(&self, now: u64) -> (idle: bool)
        ensures
            idle == self@.idle(now as nat),
    {
        let n = self.tasks.len();
        let mut i: usize = 0;
        while i < n
            invariant
                i <= n,
                n == self.tasks@.len(),
                forall|j: int| 0 <= j < i ==> !(#[trigger] self@.tasks[j]).ready(now as nat),
            decreases n - i,
        {
            if self.tasks[i].is_due(now) || self.tasks[i].is_runnable() {
                assert(self@.tasks[i as int].ready(now as nat));
                return false;
            }
            i = i + 1;
        }
        true
    }

    /// The earliest deadline that a suspended task waits for: the time up to
    /// which an idle executor can sleep if no edge arrives. `None` if no task
    /// waits for a time.
    pub fn next_deadline(&self) -> (deadline: Option<u64>)
        ensures
            deadline.is_some() == self@.has_deadline(),
            deadline.is_some() ==> self@.is_next_deadline(deadline.unwrap() as nat),
    {
        let n = self.tasks.len();
        let mut earliest: Option<u64> = None;
        let ghost mut at: int = 0;
        let mut i: usize = 0;
        while i < n
            invariant
                i <= n,
                n == self.tasks@.len(),
                earliest.is_none() ==> forall|j: int|
                    0 <= j < i ==> (#[trigger] self@.tasks[j]).deadline().is_none(),
                earliest.is_some() ==> 0 <= at < i && self@.tasks[at].deadline() == Some(
                    earliest.unwrap() as nat,
                ),
                earliest.is_some() ==> forall|j: int|
                    0 <= j < i && (#[trigger] self@.tasks[j]).deadline().is_some()
                        ==> earliest.unwrap() <= self@.tasks[j].deadline().unwrap(),
            decreases n - i,
        {
            let candidate = self.tasks[i].next_deadline();
            assert(candidate.is_some() == self@.tasks[i as int].deadline().is_some());
            match candidate {
                Some(time) => {
                    let better = match earliest {
                        Some(best) => time < best,
                        None => true,
                    };
                    if better {
                        earliest = Some(time);
                        proof {
                            at = i as int;
                        }
                    }
                },
                None => {},
            }
            i = i + 1;
        }
        earliest
    }

    /// One scheduling pass at `now`. First every task whose tick is due or
    /// whose edge is pending is resumed; then every resumed task runs up to
    /// its next wait, in the order of registration. Returns the number of
    /// tasks that ran.
    pub fn poll(&mut self, now: u64) -> (resumed: usize)
        requires
            old(self)@.in_range(now as nat),
        ensures
            final(self)@ == old(self)@.polled(now as nat),
            resumed == old(self)@.ready_count(now as nat, old(self)@.tasks.len()),
            final(self)@.in_range(now as nat),
            old(self)@.wf() ==> final(self)@.wf(),
    {
        let n = self.tasks.len();
        let mut i: usize = 0;
        while i < n
            invariant
                i <= n,
                n == self.tasks@.len(),
                n == old(self).tasks@.len(),
                self.capacity == old(self).capacity,
                self.flag@ == old(self).flag@,
                old(self)@.in_range(now as nat),
                forall|j: int|
                    0 <= j < i ==> (#[trigger] self.tasks@[j])@ == old(self).tasks@[j]@.woken(
                        now as nat,
                    ),
                forall|j: int| i <= j < n ==> (#[trigger] self.tasks@[j])@ == old(self).tasks@[j]@,
            decreases n - i,
        {
            assert(old(self)@.tasks[i as int].in_range(now as nat));
            self.tasks[i].wake(now);
            i = i + 1;
        }
        let ghost woken = self@;
        assert(woken.tasks =~= old(self)@.woken(now as nat).tasks);
        let mut resumed: usize = 0;
        let mut k: usize = 0;
        while k < n
            invariant
                k <= n,
                resumed <= k,
                n == self.tasks@.len(),
                n == old(self).tasks@.len(),
                n == woken.tasks.len(),
                self.capacity == old(self).capacity,
                woken == old(self)@.woken(now as nat),
                self.flag@ == woken.flag_before(k as nat),
                resumed == old(self)@.ready_count(now as nat, k as nat),
                forall|j: int|
                    0 <= j < k ==> (#[trigger] self.tasks@[j])@ == woken.tasks[j].ran(
                        woken.flag_before(j as nat),
                    ).0,
                forall|j: int| k <= j < n ==> (#[trigger] self.tasks@[j])@ == woken.tasks[j],
            decreases n - k,
        {
            let ran = self.tasks[k].run(&mut self.flag);
            assert(ran == old(self)@.tasks[k as int].ready(now as nat));
            if ran {
                resumed = resumed + 1;
            }
            k = k + 1;
        }
        assert(self@.tasks =~= woken.ran().tasks);
        proof {
            lemma_poll_keeps_shape(old(self)@, now as nat);
        }
        resumed
    }

    /// Makes scheduling passes at `now` until a pass would find nothing to
    /// do. Afterwards the executor has nothing to do before the next tick or
    /// edge. The ghost result is the number of passes made.
    pub fn run_until_idle(&mut self, now: u64) -> (passes: Ghost<nat>)
        requires
            old(self)@.wf(),
            old(self)@.in_range(now as nat),
        ensures
            final(self)@ == old(self)@.polled_times(now as nat, passes@),
            final(self)@.idle(now as nat),
            forall|k: nat|
                k < passes@ ==> !(#[trigger] old(self)@.polled_times(now as nat, k)).idle(
                    now as nat,
                ),
            final(self)@.wf(),
            final(self)@.in_range(now as nat),
    {
        let ghost mut passes: nat = 0;
        loop
            invariant_except_break
                self@ == old(self)@.polled_times(now as nat, passes),
                forall|k: nat|
                    k < passes ==> !(#[trigger] old(self)@.polled_times(now as nat, k)).idle(
                        now as nat,
                    ),
                self@.wf(),
                self@.in_range(now as nat),
            ensures
                self@ == old(self)@.polled_times(now as nat, passes),
                forall|k: nat|
                    k < passes ==> !(#[trigger] old(self)@.polled_times(now as nat, k)).idle(
                        now as nat,
                    ),
                self@.wf(),
                self@.in_range(now as nat),
                self@.idle(now as nat),
            decreases self@.backlog(now as nat),
        {
            if self.is_idle(now) {
                break ;
            }
            proof {
                lemma_poll_reduces_backlog(self@, now as nat);
            }
            self.poll(now);
            proof {
                passes = passes + 1;
            }
        }
        Ghost(passes)
    }
}

/// A scheduling pass keeps the table's length and capacity, keeps every task
/// well formed, and keeps `now` in range.
pub proof fn lemma_poll_keeps_shape(executor: ExecutorView, now: nat)
    ensures
        executor.polled(now).tasks.len() == executor.tasks.len(),
        executor.polled(now).capacity == executor.capacity,
        executor.wf() ==> executor.polled(now).wf(),
        executor.in_range(now) ==> executor.polled(now).in_range(now),
        forall|i: int|
            0 <= i < executor.tasks.len() ==> (#[trigger] executor.polled(now).tasks[i])
                == executor.tasks[i].woken(now).ran(executor.woken(now).flag_before(i as nat)).0,
{
    let woken = executor.woken(now);
    assert forall|i: int| 0 <= i < executor.tasks.len() implies (#[trigger] executor.polled(
        now,
    ).tasks[i]) == executor.tasks[i].woken(now).ran(woken.flag_before(i as nat)).0 by {}
    if executor.wf() {
        assert forall|i: int| 0 <= i < executor.polled(now).tasks.len() implies (
        #[trigger] executor.polled(now).tasks[i]).wf() by {
            assert(executor.tasks[i].wf());
        }
    }
    if executor.in_range(now) {
        assert forall|i: int| 0 <= i < executor.polled(now).tasks.len() implies (
        #[trigger] executor.polled(now).tasks[i]).in_range(now) by {
            assert(executor.tasks[i].in_range(now));
        }
    }
}

/// The bound on the work of the first `n` tasks does not grow where no
/// task's bound grows, and shrinks where the bound of task `strict` shrinks.
proof fn lemma_backlog_sum(a: ExecutorView, b: ExecutorView, now: nat, n: nat, strict: int)
    requires
        n <= a.tasks.len(),
        n <= b.tasks.len(),
        forall|i: int| 0 <= i < n ==> b.tasks[i].backlog(now) <= a.tasks[i].backlog(now),
    ensures
        b.backlog_upto(now, n) <= a.backlog_upto(now, n),
        0 <= strict < n && b.tasks[strict].backlog(now) < a.tasks[strict].backlog(now)
            ==> b.backlog_upto(now, n) < a.backlog_upto(now, n),
    decreases n,
{
    if n > 0 {
        lemma_backlog_sum(a, b, now, (n - 1) as nat, strict);
    }
}

/// A scheduling pass that finds something to do leaves less to do: the
/// executor cannot go on making passes at one time for ever.
pub proof fn lemma_poll_reduces_backlog(executor: ExecutorView, now: nat)
    requires
        executor.wf(),
        !executor.idle(now),
    ensures
        executor.polled(now).backlog(now) < executor.backlog(now),
{
    let after = executor.polled(now);
    let woken = executor.woken(now);
    lemma_poll_keeps_shape(executor, now);
    let ready = choose|i: int|
        0 <= i < executor.tasks.len() && (#[trigger] executor.tasks[i]).ready(now);
    assert forall|i: int| 0 <= i < executor.tasks.len() implies after.tasks[i].backlog(now)
        <= executor.tasks[i].backlog(now) && (executor.tasks[i].ready(now)
        ==> after.tasks[i].backlog(now) < executor.tasks[i].backlog(now)) by {
        assert(executor.tasks[i].wf());
        lemma_step_reduces_backlog(executor.tasks[i], woken.flag_before(i as nat), now);
    }
    lemma_backlog_sum(executor, after, now, executor.tasks.len(), ready);
}

} // verus!
