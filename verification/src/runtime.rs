//! The scheduler: a fixed-size table of task descriptors, the index of the
//! task that is currently executing, and strict round-robin selection over
//! `Ready` slots.
//!
//! Control moves between tasks only through [`Runtime::yield_next`]; there is
//! no preemption. The scheduler does all table bookkeeping and returns a
//! [`SwitchAction`] naming the suspended slot and the context to resume; the
//! unverified context-switch layer performs the raw transfer and stores the
//! saved context back through [`Runtime::set_saved_context`].

use vstd::prelude::*;

use crate::task::{Task, TaskState};

verus! {

/// Capacity of the task table; `spawn` never grows it.
pub const MAX_TASKS: usize = 8;

/// `spawn` found no free slot. The table keeps running with the tasks it
/// has; exhaustion is an expected operational condition, not a fault.
#[derive(Clone, Copy, Debug, PartialEq, Eq, Structural)]
pub struct TableFull;

/// What the raw context-switch layer must perform after the scheduler's
/// bookkeeping: save the suspending task's machine state into slot `prev`
/// (via [`Runtime::set_saved_context`]), then resume `resume_context`.
#[derive(Clone, Copy, Debug, PartialEq, Eq, Structural)]
pub struct SwitchAction {
    /// Slot of the task being suspended (the previous `current`).
    pub prev: usize,
    /// Slot of the task being resumed (the new `current`).
    pub next: usize,
    /// The resumed task's saved context handle.
    pub resume_context: u64,
}

/// The slot reached `k` steps forward of `cur`, wrapping at the table size.
/// Meaningful for `0 <= cur < MAX_TASKS` and `0 <= k <= MAX_TASKS`.
pub open spec fn slot(cur: int, k: int) -> int {
    if cur + k < MAX_TASKS { cur + k } else { cur + k - MAX_TASKS }
}

/// How many forward steps lead from `cur` to `i`: the cyclic position of `i`
/// as seen from `cur`. Zero exactly when `i == cur`.
pub open spec fn cpos(cur: int, i: int) -> int {
    if i >= cur { i - cur } else { i - cur + MAX_TASKS }
}

/// The slot the scheduler picks next, scanning forward from `cur + k`:
/// the first `Ready` slot. Finding another slot already `Running` is a
/// scheduler invariant violation (at most one task may run), reported as
/// "no one to switch to"; so is wrapping all the way back to `cur`.
pub open spec fn next_ready_from(t: Seq<Task>, cur: int, k: int) -> Option<int>
    decreases MAX_TASKS - k,
{
    if k >= MAX_TASKS {
        None
    } else if t[slot(cur, k)].state is Ready {
        Some(slot(cur, k))
    } else if t[slot(cur, k)].state is Running {
        None
    } else {
        next_ready_from(t, cur, k + 1)
    }
}

/// The slot the scheduler picks next from `cur`: the first `Ready` slot
/// strictly after `cur` in cyclic order, never `cur` itself.
pub open spec fn next_ready(t: Seq<Task>, cur: int) -> Option<int> {
    next_ready_from(t, cur, 1)
}

/// The slot `spawn` reuses, scanning forward from `cur + k`: the first
/// `Available` slot, never `cur` itself.
pub open spec fn next_available_from(t: Seq<Task>, cur: int, k: int) -> Option<int>
    decreases MAX_TASKS - k,
{
    if k >= MAX_TASKS {
        None
    } else if t[slot(cur, k)].state is Available {
        Some(slot(cur, k))
    } else {
        next_available_from(t, cur, k + 1)
    }
}

/// The slot `spawn` reuses from `cur`: the first `Available` slot strictly
/// after `cur` in cyclic order.
pub open spec fn next_available(t: Seq<Task>, cur: int) -> Option<int> {
    next_available_from(t, cur, 1)
}

/// Well-formedness of a schedule state: the table has its fixed capacity,
/// the current task is the one and only `Running` task, and the kernel
/// slot (slot 0) is never free.
pub open spec fn sched_ok(t: Seq<Task>, cur: int) -> bool {
    &&& t.len() == MAX_TASKS
    &&& 0 <= cur < MAX_TASKS
    &&& t[cur].state is Running
    &&& forall|i: int| 0 <= i < t.len() && i != cur ==> !(t[i].state is Running)
    &&& !(t[0].state is Available)
}

/// The effect of one `yield_next` on a schedule state: if no slot is
/// eligible the state is untouched; otherwise the current task becomes
/// `Ready`, the selected one becomes `Running`, and it is now current.
pub open spec fn yield_transform(t: Seq<Task>, cur: int) -> (Seq<Task>, int) {
    match next_ready(t, cur) {
        None => (t, cur),
        Some(n) => (
            t.update(cur, t[cur].with_state(TaskState::Ready)).update(
                n,
                t[n].with_state(TaskState::Running),
            ),
            n,
        ),
    }
}

/// The state `Runtime::new` boots into: the kernel task occupies slot 0 and
/// is running; every other slot is free.
pub open spec fn is_boot_state(rt: Runtime) -> bool {
    &&& rt.tasks@.len() == MAX_TASKS
    &&& rt.current == 0
    &&& rt.tasks@[0] == (Task { state: TaskState::Running, entry: 0, saved_context: 0 })
    &&& forall|i: int|
        1 <= i < MAX_TASKS ==> rt.tasks@[i] == (Task {
            state: TaskState::Available,
            entry: 0,
            saved_context: 0,
        })
}

/// The runtime: the task table and the index of the executing task.
///
/// The table is mutated only from the currently running task's own
/// scheduling calls; with a single core and no preemption that stands in
/// place of locking.
pub struct Runtime {
    /// The fixed-size task table. Slot 0 always holds the kernel task.
    pub tasks: Vec<Task>,
    /// Index of the task that is currently executing.
    pub current: usize,
}

impl Runtime {
    /// Well-formedness: see [`sched_ok`]. Established by [`Runtime::new`]
    /// and preserved by every operation; with it, exactly one task is
    /// `Running` at any instant.
    pub open spec fn inv(self) -> bool {
        sched_ok(self.tasks@, self.current as int)
    }

    /// Creates and initializes a new runtime: the kernel task running in
    /// slot 0, all other slots free.
    pub fn new() -> (rt: Runtime)
        ensures
            is_boot_state(rt),
            rt.inv(),
    {
        let mut os = Task::new();
        os.mark_running();
        let mut tasks: Vec<Task> = Vec::new();
        tasks.push(os);
        while tasks.len() < MAX_TASKS
            invariant
                1 <= tasks@.len() <= MAX_TASKS,
                tasks@[0] == (Task { state: TaskState::Running, entry: 0, saved_context: 0 }),
                forall|i: int|
                    1 <= i < tasks@.len() ==> tasks@[i] == (Task {
                        state: TaskState::Available,
                        entry: 0,
                        saved_context: 0,
                    }),
            decreases MAX_TASKS - tasks.len(),
        {
            tasks.push(Task::new());
        }
        Runtime { tasks, current: 0 }
    }

    /// The index of the task that is currently executing.
    pub fn current_task(&self) -> (i: usize)
        ensures
            i == self.current,
    {
        self.current
    }

    /// Picks the next task to run: the first `Ready` slot strictly after the
    /// current one in cyclic table order. Returns `None` when no other slot
    /// is `Ready` — and also when the scan meets a second `Running` slot,
    /// which means the table can no longer be trusted and there is no one
    /// safe to switch to.
    pub fn get_next(&self) -> (r: Option<usize>)
        requires
            self.tasks@.len() == MAX_TASKS,
            self.current < MAX_TASKS,
        ensures
            match r {
                Some(n) => n < MAX_TASKS && next_ready(self.tasks@, self.current as int)
                    == Some(n as int),
                None => next_ready(self.tasks@, self.current as int) is None,
            },
    {
        let mut k: usize = 1;
        while k < MAX_TASKS
            invariant
                1 <= k <= MAX_TASKS,
                self.tasks@.len() == MAX_TASKS,
                self.current < MAX_TASKS,
                next_ready(self.tasks@, self.current as int) == next_ready_from(
                    self.tasks@,
                    self.current as int,
                    k as int,
                ),
            decreases MAX_TASKS - k,
        {
            let idx = if self.current + k < MAX_TASKS {
                self.current + k
            } else {
                self.current + k - MAX_TASKS
            };
            match self.tasks[idx].state {
                TaskState::Ready => {
                    return Some(idx);
                },
                TaskState::Running => {
                    return None;
                },
                _ => {},
            }
            k = k + 1;
        }
        None
    }

    /// The scheduler's half of a context switch: marks the current task
    /// `Ready`, the target `Running`, moves `current`, and returns what the
    /// raw switch layer must do. The only path by which control moves.
    fn context_switch(&mut self, next: usize) -> (act: SwitchAction)
        requires
            old(self).tasks@.len() == MAX_TASKS,
            old(self).current < MAX_TASKS,
            next < MAX_TASKS,
        ensures
            final(self).tasks@ == old(self).tasks@.update(
                old(self).current as int,
                old(self).tasks@[old(self).current as int].with_state(TaskState::Ready),
            ).update(next as int, old(self).tasks@[next as int].with_state(TaskState::Running)),
            final(self).current == next,
            act == (SwitchAction {
                prev: old(self).current,
                next,
                resume_context: old(self).tasks@[next as int].saved_context,
            }),
    {
        let prev = self.current;
        self.current = next;
        self.tasks[prev].mark_ready();
        self.tasks[next].mark_running();
        let resume_context = self.tasks[next].current_context();
        SwitchAction { prev, next, resume_context }
    }

    /// Yields to the next `Ready` task, if any. When no other slot is
    /// `Ready` this is a no-op and the caller keeps running; otherwise the
    /// table is updated as by [`yield_transform`] and the returned action
    /// tells the raw switch layer which context to resume.
    pub fn yield_next(&mut self) -> (r: Option<SwitchAction>)
        requires
            old(self).tasks@.len() == MAX_TASKS,
            old(self).current < MAX_TASKS,
        ensures
            (final(self).tasks@, final(self).current as int) == yield_transform(
                old(self).tasks@,
                old(self).current as int,
            ),
            match next_ready(old(self).tasks@, old(self).current as int) {
                None => r is None && *final(self) == *old(self),
                Some(n) => r == Some(SwitchAction {
                    prev: old(self).current,
                    next: n as usize,
                    resume_context: old(self).tasks@[n].saved_context,
                }),
            },
            old(self).inv() ==> final(self).inv(),
    {
        let next = self.get_next();
        match next {
            None => None,
            Some(n) => {
                proof {
                    lemma_next_ready_some(self.tasks@, self.current as int, n as int);
                }
                let act = self.context_switch(n);
                Some(act)
            },
        }
    }

    /// Spawns a new task bound to `entry`: reuses the first free slot
    /// strictly after the current one in cyclic order, never the current
    /// slot itself. With no free slot it reports [`TableFull`] and mutates
    /// nothing — the system keeps running with the tasks it has.
    pub fn spawn(&mut self, entry: u64) -> (r: Result<(), TableFull>)
        requires
            old(self).tasks@.len() == MAX_TASKS,
            old(self).current < MAX_TASKS,
        ensures
            final(self).current == old(self).current,
            match next_available(old(self).tasks@, old(self).current as int) {
                None => r is Err && final(self).tasks@ == old(self).tasks@,
                Some(n) => r is Ok && final(self).tasks@ == old(self).tasks@.update(
                    n,
                    Task::initialized(entry),
                ),
            },
            old(self).inv() ==> final(self).inv(),
    {
        let ghost t0 = self.tasks@;
        let ghost cur = self.current as int;
        let mut k: usize = 1;
        #[verifier::loop_isolation(false)]
        while k < MAX_TASKS
            invariant
                1 <= k <= MAX_TASKS,
                self.tasks@ == t0,
                self.current as int == cur,
                next_available(t0, cur) == next_available_from(t0, cur, k as int),
            decreases MAX_TASKS - k,
        {
            let pos = if self.current + k < MAX_TASKS {
                self.current + k
            } else {
                self.current + k - MAX_TASKS
            };
            if self.tasks[pos].state == TaskState::Available {
                proof {
                    lemma_next_available_some(t0, cur, pos as int);
                }
                self.tasks[pos].initialize(entry);
                return Ok(());
            }
            k = k + 1;
        }
        Err(TableFull)
    }

    /// Forces a non-current, non-kernel slot back to `Available`, abandoning
    /// its stack contents; no cleanup runs for the killed task. A task
    /// cannot kill itself, and the kernel slot cannot be killed: both are
    /// contract violations in the caller, not runtime conditions.
    pub fn kill_task(&mut self, i: usize)
        requires
            old(self).tasks@.len() == MAX_TASKS,
            old(self).current < MAX_TASKS,
            i < MAX_TASKS,
            i != old(self).current,
            i != 0,
        ensures
            final(self).tasks@ == old(self).tasks@.update(
                i as int,
                old(self).tasks@[i as int].with_state(TaskState::Available),
            ),
            final(self).current == old(self).current,
            old(self).inv() ==> final(self).inv(),
    {
        self.tasks[i].state = TaskState::Available;
    }

    /// Records where the task in slot `i` suspended. Called by the raw
    /// switch layer after it saves the suspending task's machine state.
    pub fn set_saved_context(&mut self, i: usize, ctx: u64)
        requires
            old(self).tasks@.len() == MAX_TASKS,
            i < MAX_TASKS,
        ensures
            final(self).tasks@ == old(self).tasks@.update(
                i as int,
                (Task { saved_context: ctx, ..old(self).tasks@[i as int] }),
            ),
            final(self).current == old(self).current,
            old(self).inv() ==> final(self).inv(),
    {
        self.tasks[i].set_saved_context(ctx);
    }
}

impl Default for Runtime {
    /// Same as [`Runtime::new`].
    fn default() -> (rt: Self)
        ensures
            is_boot_state(rt),
            rt.inv(),
    {
        Self::new()
    }
}

/// Number of `Running` descriptors among `t[k..]`.
pub open spec fn running_count_from(t: Seq<Task>, k: int) -> int
    decreases t.len() - k,
{
    if k < 0 || k >= t.len() {
        0
    } else {
        (if t[k].state is Running {
            1int
        } else {
            0int
        }) + running_count_from(t, k + 1)
    }
}

/// Number of `Running` descriptors in the whole table.
pub open spec fn running_count(t: Seq<Task>) -> int {
    running_count_from(t, 0)
}

proof fn lemma_running_count_split(t: Seq<Task>, cur: int, k: int)
    requires
        sched_ok(t, cur),
        0 <= k <= t.len(),
    ensures
        running_count_from(t, k) == if k <= cur {
            1int
        } else {
            0int
        },
    decreases t.len() - k,
{
    if k < t.len() {
        lemma_running_count_split(t, cur, k + 1);
    }
}

/// In every well-formed schedule state, exactly one task is `Running`: the
/// one the scheduler calls current. Every operation of [`Runtime`] keeps
/// states well-formed, so this holds of every reachable state.
pub proof fn lemma_single_runner(t: Seq<Task>, cur: int)
    requires
        sched_ok(t, cur),
    ensures
        running_count(t) == 1,
{
    lemma_running_count_split(t, cur, 0);
}

/// A selected slot is a real, distinct slot holding a `Ready` task.
pub proof fn lemma_next_ready_some(t: Seq<Task>, cur: int, n: int)
    requires
        t.len() == MAX_TASKS,
        0 <= cur < MAX_TASKS,
        next_ready(t, cur) == Some(n),
    ensures
        0 <= n < MAX_TASKS,
        n != cur,
        t[n].state is Ready,
{
    lemma_next_ready_from_some(t, cur, 1, n);
}

/// Unrolls the `Ready` scan: whatever it finds lies at least `k` steps
/// ahead, is `Ready`, and every slot scanned before it was neither `Ready`
/// nor `Running`.
pub proof fn lemma_next_ready_from_some(t: Seq<Task>, cur: int, k: int, n: int)
    requires
        t.len() == MAX_TASKS,
        0 <= cur < MAX_TASKS,
        1 <= k,
        next_ready_from(t, cur, k) == Some(n),
    ensures
        0 <= n < MAX_TASKS,
        n != cur,
        t[n].state is Ready,
        k <= cpos(cur, n) < MAX_TASKS,
        forall|j: int|
            k <= j < cpos(cur, n) ==> !(t[slot(cur, j)].state is Ready) && !(t[slot(
                cur,
                j,
            )].state is Running),
    decreases MAX_TASKS - k,
{
    if k >= MAX_TASKS {
        // the scan has wrapped: contradiction with Some
    } else if t[slot(cur, k)].state is Ready {
        assert(cpos(cur, slot(cur, k)) == k);
    } else if t[slot(cur, k)].state is Running {
        // contradiction with Some
    } else {
        lemma_next_ready_from_some(t, cur, k + 1, n);
    }
}

/// Unrolls the `Ready` scan for the empty outcome: if no slot ahead is
/// `Running`, then none is `Ready` either.
pub proof fn lemma_next_ready_from_none(t: Seq<Task>, cur: int, k: int)
    requires
        t.len() == MAX_TASKS,
        0 <= cur < MAX_TASKS,
        1 <= k,
        next_ready_from(t, cur, k) is None,
        forall|j: int| k <= j < MAX_TASKS ==> !(t[slot(cur, j)].state is Running),
    ensures
        forall|j: int| k <= j < MAX_TASKS ==> !(t[slot(cur, j)].state is Ready),
    decreases MAX_TASKS - k,
{
    if k >= MAX_TASKS {
    } else if t[slot(cur, k)].state is Ready {
        // contradiction with None
    } else if t[slot(cur, k)].state is Running {
        assert(!(t[slot(cur, k)].state is Running));
    } else {
        lemma_next_ready_from_none(t, cur, k + 1);
    }
}

/// In a well-formed state, an empty scan means no other slot is `Ready` at
/// all: yielding is rightly a no-op.
pub proof fn lemma_next_ready_none(t: Seq<Task>, cur: int)
    requires
        t.len() == MAX_TASKS,
        0 <= cur < MAX_TASKS,
        forall|i: int| 0 <= i < t.len() && i != cur ==> !(t[i].state is Running),
        next_ready(t, cur) is None,
    ensures
        forall|i: int| 0 <= i < MAX_TASKS && i != cur ==> !(t[i].state is Ready),
{
    assert forall|j: int| 1 <= j < MAX_TASKS implies !(t[slot(cur, j)].state is Running) by {
        assert(slot(cur, j) != cur);
    }
    lemma_next_ready_from_none(t, cur, 1);
    assert forall|i: int| 0 <= i < MAX_TASKS && i != cur implies !(t[i].state is Ready) by {
        let j = cpos(cur, i);
        assert(slot(cur, j) == i);
        assert(!(t[slot(cur, j)].state is Ready));
    }
}

/// In a well-formed state, the selected slot is the *first* `Ready` slot in
/// cyclic order after the current one: round-robin, no priority, no aging.
pub proof fn lemma_next_ready_min(t: Seq<Task>, cur: int, n: int)
    requires
        t.len() == MAX_TASKS,
        0 <= cur < MAX_TASKS,
        next_ready(t, cur) == Some(n),
    ensures
        0 <= n < MAX_TASKS,
        n != cur,
        t[n].state is Ready,
        forall|m: int|
            0 <= m < MAX_TASKS && m != cur && t[m].state is Ready ==> cpos(cur, n) <= cpos(
                cur,
                m,
            ),
{
    lemma_next_ready_from_some(t, cur, 1, n);
    assert forall|m: int|
        0 <= m < MAX_TASKS && m != cur && t[m].state is Ready implies cpos(cur, n) <= cpos(
        cur,
        m,
    ) by {
        if cpos(cur, m) < cpos(cur, n) {
            let j = cpos(cur, m);
            assert(slot(cur, j) == m);
            assert(!(t[slot(cur, j)].state is Ready));
        }
    }
}

/// Whatever slot the spawn scan settles on was `Available`, distinct from
/// the current slot, and nothing `Available` lies between.
pub proof fn lemma_next_available_from_some(t: Seq<Task>, cur: int, k: int, n: int)
    requires
        t.len() == MAX_TASKS,
        0 <= cur < MAX_TASKS,
        1 <= k,
        next_available_from(t, cur, k) == Some(n),
    ensures
        0 <= n < MAX_TASKS,
        n != cur,
        t[n].state is Available,
        k <= cpos(cur, n) < MAX_TASKS,
        forall|j: int| k <= j < cpos(cur, n) ==> !(t[slot(cur, j)].state is Available),
    decreases MAX_TASKS - k,
{
    if k >= MAX_TASKS {
    } else if t[slot(cur, k)].state is Available {
        assert(cpos(cur, slot(cur, k)) == k);
    } else {
        lemma_next_available_from_some(t, cur, k + 1, n);
    }
}

/// If the spawn scan finds nothing, no slot other than the current one was
/// `Available`: the table really was full.
pub proof fn lemma_next_available_none(t: Seq<Task>, cur: int)
    requires
        t.len() == MAX_TASKS,
        0 <= cur < MAX_TASKS,
        next_available(t, cur) is None,
    ensures
        forall|i: int| 0 <= i < MAX_TASKS && i != cur ==> !(t[i].state is Available),
{
    lemma_next_available_from_none(t, cur, 1);
    assert forall|i: int| 0 <= i < MAX_TASKS && i != cur implies !(t[i].state is Available) by {
        let j = cpos(cur, i);
        assert(slot(cur, j) == i);
        assert(!(t[slot(cur, j)].state is Available));
    }
}

/// Unrolls the spawn scan for the empty outcome.
pub proof fn lemma_next_available_from_none(t: Seq<Task>, cur: int, k: int)
    requires
        t.len() == MAX_TASKS,
        0 <= cur < MAX_TASKS,
        1 <= k,
        next_available_from(t, cur, k) is None,
    ensures
        forall|j: int| k <= j < MAX_TASKS ==> !(t[slot(cur, j)].state is Available),
    decreases MAX_TASKS - k,
{
    if k >= MAX_TASKS {
    } else if t[slot(cur, k)].state is Available {
    } else {
        lemma_next_available_from_none(t, cur, k + 1);
    }
}

/// If some slot other than the current one is `Available`, spawning
/// succeeds: the scan cannot come back empty.
pub proof fn lemma_next_available_exists(t: Seq<Task>, cur: int, m: int)
    requires
        t.len() == MAX_TASKS,
        0 <= cur < MAX_TASKS,
        0 <= m < MAX_TASKS,
        m != cur,
        t[m].state is Available,
    ensures
        next_available(t, cur) is Some,
{
    if next_available(t, cur) is None {
        lemma_next_available_none(t, cur);
    }
}

/// Helper for `spawn`: the slot its scan stopped at is exactly what
/// `next_available` names.
proof fn lemma_next_available_some(t: Seq<Task>, cur: int, n: int)
    requires
        t.len() == MAX_TASKS,
        0 <= cur < MAX_TASKS,
        next_available(t, cur) == Some(n),
    ensures
        0 <= n < MAX_TASKS,
        n != cur,
        t[n].state is Available,
{
    lemma_next_available_from_some(t, cur, 1, n);
}

} // verus!
