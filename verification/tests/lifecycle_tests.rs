use ceros::lifecycle::{boot, guard, CompetitionMode, FatalError, Lifecycle};
use ceros::runtime::MAX_TASKS;
use ceros::task::TaskState;

#[test]
fn boot_spawns_kernel_and_user_task() {
    let (rt, lc) = boot(42, CompetitionMode::Disabled);
    assert_eq!(rt.current_task(), 0);
    assert_eq!(rt.tasks[0].state, TaskState::Running);
    assert_eq!(rt.tasks[1].state, TaskState::Ready);
    assert_eq!(rt.tasks[1].entry, 42);
    for i in 2..MAX_TASKS {
        assert_eq!(rt.tasks[i].state, TaskState::Available);
    }
    assert_eq!(lc, Lifecycle { last_mode: CompetitionMode::Disabled, user_entry: 42 });
}

#[test]
fn tick_without_mode_change_only_yields() {
    let (mut rt, mut lc) = boot(42, CompetitionMode::Disabled);
    let out = lc.tick(&mut rt, CompetitionMode::Disabled);
    assert!(!out.restarted);
    let sw = out.switch.unwrap();
    assert_eq!((sw.prev, sw.next), (0, 1));
    assert_eq!(rt.current_task(), 1);
    assert_eq!(rt.tasks[0].state, TaskState::Ready);
    assert_eq!(rt.tasks[1].state, TaskState::Running);
    assert_eq!(lc.last_mode, CompetitionMode::Disabled);
}

#[test]
fn tick_with_nothing_ready_keeps_the_kernel_running() {
    let (mut rt, mut lc) = boot(42, CompetitionMode::Disabled);
    rt.kill_task(1);
    let out = lc.tick(&mut rt, CompetitionMode::Disabled);
    assert!(!out.restarted);
    assert!(out.switch.is_none());
    assert_eq!(rt.current_task(), 0);
}

#[test]
fn mode_change_kills_and_respawns_the_user_task() {
    // One kernel task and one user task, running under mode Disabled.
    let (mut rt, mut lc) = boot(42, CompetitionMode::Disabled);
    let first = lc.tick(&mut rt, CompetitionMode::Disabled);
    assert_eq!(first.switch.unwrap().next, 1);
    assert_eq!(rt.tasks[1].state, TaskState::Running);
    // The user task yields back to the kernel.
    let back = rt.yield_next().unwrap();
    assert_eq!(back.next, 0);
    // The oracle now reports Autonomous: the next kernel tick must kill
    // the user task and spawn a fresh one bound to the same stored entry.
    let out = lc.tick(&mut rt, CompetitionMode::Autonomous);
    assert!(out.restarted);
    assert_eq!(lc.last_mode, CompetitionMode::Autonomous);
    assert_eq!(lc.user_entry, 42);
    // The fresh task reached Ready in the freed slot, with a fresh context
    // at the stored entry point, and the tick's own yield then resumed it.
    let sw = out.switch.unwrap();
    assert_eq!((sw.prev, sw.next, sw.resume_context), (0, 1, 42));
    assert_eq!(rt.tasks[1].entry, 42);
    assert_eq!(rt.tasks[1].state, TaskState::Running);
    assert_eq!(rt.tasks[0].state, TaskState::Ready);
    assert_eq!(rt.current_task(), 1);
}

#[test]
fn mode_change_spares_only_kernel_and_current() {
    let (mut rt, mut lc) = boot(42, CompetitionMode::Disabled);
    // Fill more slots, then tick through a mode change from the kernel.
    rt.spawn(100).unwrap();
    rt.spawn(101).unwrap();
    assert_eq!(rt.tasks[2].entry, 100);
    assert_eq!(rt.tasks[3].entry, 101);
    let out = lc.tick(&mut rt, CompetitionMode::DriverControl);
    assert!(out.restarted);
    // Every non-kernel task was killed; the respawned user task landed in
    // slot 1 again and was resumed by the tick's yield.
    assert_eq!(rt.tasks[1].entry, 42);
    assert_eq!(rt.tasks[1].state, TaskState::Running);
    for i in 2..MAX_TASKS {
        assert_eq!(rt.tasks[i].state, TaskState::Available);
    }
}

#[test]
fn two_mode_changes_restart_twice() {
    let (mut rt, mut lc) = boot(7, CompetitionMode::Disabled);
    let out1 = lc.tick(&mut rt, CompetitionMode::Autonomous);
    assert!(out1.restarted);
    let out2 = lc.tick(&mut rt, CompetitionMode::Autonomous);
    assert!(!out2.restarted);
    let out3 = lc.tick(&mut rt, CompetitionMode::DriverControl);
    assert!(out3.restarted);
    assert_eq!(lc.last_mode, CompetitionMode::DriverControl);
}

#[test]
fn returning_entry_function_is_fatal() {
    // A task entry function that returns normally lands in the stack
    // guard. The verdict is the fatal classification, never a resumable
    // context: the host layer prints the diagnostic and halts the process
    // instead of scheduling on.
    let e = guard();
    assert_eq!(e, FatalError::StackGuardTriggered);
    assert_eq!(e.message(), "End of program.");
}

#[test]
fn invariant_violation_has_its_own_diagnostic() {
    let e = FatalError::SchedulerInvariantViolation;
    assert_eq!(e.message(), "Scheduler invariant violated.");
    assert_ne!(e, guard());
}
