//! The lifecycle tick: the permanent body of the kernel task.
//!
//! Each iteration of the kernel loop polls the competition-status oracle,
//! reacts to a mode change by killing every task except the kernel and the
//! one currently executing and respawning the user task at its stored entry
//! point, and then yields unconditionally — the cooperative scheduling point
//! that lets the other `Ready` tasks run.
//!
//! The oracle itself, and the raw switch the returned action calls for, are
//! the host layer's; everything decided here is verified.

use vstd::prelude::*;

use crate::runtime::{
    lemma_next_available_exists, next_available, next_ready, yield_transform, Runtime,
    SwitchAction, MAX_TASKS,
};
use crate::task::{Task, TaskState};

verus! {

/// The external competition mode. The core treats the value as opaque: any
/// change is a transition trigger; the meaning is never interpreted.
#[derive(Clone, Copy, Debug, PartialEq, Eq, Structural)]
pub enum CompetitionMode {
    /// The robot must not move.
    Disabled,
    /// The robot runs without an operator.
    Autonomous,
    /// The robot is driven by an operator.
    DriverControl,
}

/// A corrupted-state condition. Never propagated as a recoverable result:
/// once the execution-context invariants are broken, cooperative scheduling
/// has no safe degraded mode, and the process must halt.
#[derive(Clone, Copy, Debug, PartialEq, Eq, Structural)]
pub enum FatalError {
    /// A task's entry function returned into the stack guard.
    StackGuardTriggered,
    /// More than one slot was observed `Running` during a scan.
    SchedulerInvariantViolation,
}

impl FatalError {
    /// The diagnostic to make observable before halting.
    pub fn message(&self) -> (m: &'static str)
        ensures
            self is StackGuardTriggered ==> m@ == "End of program."@,
            self is SchedulerInvariantViolation ==> m@ == "Scheduler invariant violated."@,
    {
        match self {
            FatalError::StackGuardTriggered => "End of program.",
            FatalError::SchedulerInvariantViolation => "Scheduler invariant violated.",
        }
    }
}

/// The stack guard: the sentinel installed at the base of every task's
/// initial frame, reached only if the task's entry function returns. A
/// returned entry function is always fatal — the slot's context must never
/// be resumed — so the guard classifies the condition and the host layer
/// must print the diagnostic and terminate the process, not schedule on.
pub fn guard() -> (e: FatalError)
    ensures
        e is StackGuardTriggered,
{
    FatalError::StackGuardTriggered
}

/// The table after a mode change's teardown: every slot except the kernel
/// slot and the currently executing one is forced back to `Available`.
pub open spec fn kill_all_others(t: Seq<Task>, cur: int) -> Seq<Task> {
    Seq::new(
        t.len(),
        |i: int|
            if i == 0 || i == cur {
                t[i]
            } else {
                t[i].with_state(TaskState::Available)
            },
    )
}

/// The table after a full restart: teardown, then the user task respawned
/// into the first free slot after the current one.
pub open spec fn restart_transform(t: Seq<Task>, cur: int, entry: u64) -> Seq<Task> {
    let killed = kill_all_others(t, cur);
    match next_available(killed, cur) {
        Some(n) => killed.update(n, Task::initialized(entry)),
        None => killed,
    }
}

/// What one kernel tick did, for the host loop to act on.
#[derive(Clone, Copy, Debug)]
pub struct TickOutcome {
    /// Whether the mode had changed, so the user task was restarted.
    pub restarted: bool,
    /// The switch the raw layer must now perform, if anyone was `Ready`.
    pub switch: Option<SwitchAction>,
}

/// The kernel task's lifecycle state: the last mode it observed, and the
/// user program's entry point, fixed at boot, to which every restart binds
/// the fresh user task.
#[derive(Clone, Copy, Debug, PartialEq, Eq, Structural)]
pub struct Lifecycle {
    /// The mode observed on the previous tick.
    pub last_mode: CompetitionMode,
    /// The stored user entry point.
    pub user_entry: u64,
}

impl Lifecycle {
    /// Lifecycle state as of boot, before any tick has observed a change.
    pub fn new(user_entry: u64, initial_mode: CompetitionMode) -> (lc: Lifecycle)
        ensures
            lc == (Lifecycle { last_mode: initial_mode, user_entry }),
    {
        Lifecycle { last_mode: initial_mode, user_entry }
    }

    /// One iteration of the kernel loop, given the mode the oracle reports.
    ///
    /// On a mode change: records the new mode, kills every task except the
    /// kernel and the currently executing one, and respawns the user task —
    /// which always succeeds, since the teardown just freed a slot. Then,
    /// changed or not, yields exactly once.
    pub fn tick(&mut self, rt: &mut Runtime, mode: CompetitionMode) -> (out: TickOutcome)
        requires
            old(rt).inv(),
        ensures
            final(rt).inv(),
            final(self).user_entry == old(self).user_entry,
            final(self).last_mode == mode,
            out.restarted == (mode != old(self).last_mode),
            ({
                let mid = if mode != old(self).last_mode {
                    restart_transform(old(rt).tasks@, old(rt).current as int, old(self).user_entry)
                } else {
                    old(rt).tasks@
                };
                &&& mode != old(self).last_mode ==> next_available(
                    kill_all_others(old(rt).tasks@, old(rt).current as int),
                    old(rt).current as int,
                ) is Some
                &&& (final(rt).tasks@, final(rt).current as int) == yield_transform(
                    mid,
                    old(rt).current as int,
                )
                &&& match next_ready(mid, old(rt).current as int) {
                    None => out.switch is None,
                    Some(n) => out.switch == Some(SwitchAction {
                        prev: old(rt).current,
                        next: n as usize,
                        resume_context: mid[n].saved_context,
                    }),
                }
            }),
    {
        if mode != self.last_mode {
            self.last_mode = mode;
            let ghost t0 = rt.tasks@;
            let ghost cur = rt.current as int;
            let mut i: usize = 0;
            #[verifier::loop_isolation(false)]
            while i < MAX_TASKS
                invariant
                    i <= MAX_TASKS,
                    rt.tasks@.len() == MAX_TASKS,
                    rt.current as int == cur,
                    forall|ii: int| 0 <= ii < i ==> rt.tasks@[ii] == kill_all_others(t0, cur)[ii],
                    forall|ii: int| i <= ii < MAX_TASKS ==> rt.tasks@[ii] == t0[ii],
                    rt.inv(),
                decreases MAX_TASKS - i,
            {
                if i != 0 && i != rt.current_task() {
                    rt.kill_task(i);
                }
                i = i + 1;
            }
            proof {
                assert(rt.tasks@ =~= kill_all_others(t0, cur));
                // The teardown left a free slot other than the current one,
                // so the respawn cannot fail.
                let killed = kill_all_others(t0, cur);
                let m: int = if cur == 1 {
                    2
                } else {
                    1
                };
                assert(killed[m].state is Available);
                lemma_next_available_exists(killed, cur, m);
            }
            let _ = rt.spawn(self.user_entry);
            let sw = rt.yield_next();
            TickOutcome { restarted: true, switch: sw }
        } else {
            let sw = rt.yield_next();
            TickOutcome { restarted: false, switch: sw }
        }
    }
}

/// The top-level boot contract. The hosting environment calls this once:
/// it builds the runtime — kernel task running in slot 0 — spawns the
/// initial user task, which lands `Ready` in slot 1, and hands back the
/// lifecycle state the kernel loop will tick with. The host then runs
/// [`Lifecycle::tick`] forever; the loop never returns.
pub fn boot(user_entry: u64, initial_mode: CompetitionMode) -> (r: (Runtime, Lifecycle))
    ensures
        r.0.inv(),
        r.0.current == 0,
        r.0.tasks@.len() == MAX_TASKS,
        r.0.tasks@[0].state is Running,
        r.0.tasks@[1] == Task::initialized(user_entry),
        forall|i: int| 2 <= i < MAX_TASKS ==> r.0.tasks@[i].state is Available,
        r.1 == (Lifecycle { last_mode: initial_mode, user_entry }),
{
    let mut rt = Runtime::new();
    proof {
        assert(next_available(rt.tasks@, 0) == Some(1int));
    }
    let _ = rt.spawn(user_entry);
    let lc = Lifecycle::new(user_entry, initial_mode);
    (rt, lc)
}

} // verus!
