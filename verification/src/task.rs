//! Task descriptors: the unit of schedulable execution.
//!
//! A descriptor records the slot's lifecycle state, the entry point the task
//! was spawned with, and an opaque saved-context handle (minimally, a stack
//! pointer) that the context-switch layer needs to resume the task. The
//! scheduler only ever does bookkeeping on `state` and `saved_context`; it
//! never interprets the handle.

use vstd::prelude::*;

verus! {

/// The lifecycle state of one task slot.
#[derive(Clone, Copy, Debug, PartialEq, Eq, Structural)]
pub enum TaskState {
    /// The slot is free and may be reused by `spawn`.
    Available,
    /// The task is runnable but not currently executing.
    Ready,
    /// The task is currently executing.
    Running,
    /// The task is being torn down.
    Dead,
}

/// One entry of the fixed-size task table.
#[derive(Clone, Copy, Debug, PartialEq, Eq, Structural)]
pub struct Task {
    /// Lifecycle state of this slot.
    pub state: TaskState,
    /// The entry point the task begins executing at when first resumed;
    /// fixed at spawn time. Entry points are opaque handles: the host layer
    /// maps each value to a real function.
    pub entry: u64,
    /// Opaque handle capturing enough machine state to resume the task where
    /// it last suspended. A fresh, never-run task is modeled by its entry
    /// point, since resuming it begins execution there; after a suspension
    /// the context-switch layer stores the real handle back here.
    pub saved_context: u64,
}

impl Task {
    /// The same descriptor with only the state replaced.
    pub open spec fn with_state(self, s: TaskState) -> Task {
        Task { state: s, ..self }
    }

    /// A fresh, free descriptor.
    pub fn new() -> (t: Task)
        ensures
            t == (Task { state: TaskState::Available, entry: 0, saved_context: 0 }),
    {
        Task { state: TaskState::Available, entry: 0, saved_context: 0 }
    }

    /// The descriptor `spawn` leaves in a slot it has just initialized for
    /// `entry`: runnable, with a fresh context that begins at `entry`.
    pub open spec fn initialized(entry: u64) -> Task {
        Task { state: TaskState::Ready, entry, saved_context: entry }
    }

    /// Re-initializes a free slot to run `entry`: installs the entry point,
    /// a fresh context over the slot's stack, and marks the task runnable.
    /// Only a free slot may be reused; the prior stack contents are abandoned.
    pub fn initialize(&mut self, entry: u64)
        requires
            old(self).state is Available,
        ensures
            *final(self) == Task::initialized(entry),
    {
        self.state = TaskState::Ready;
        self.entry = entry;
        self.saved_context = entry;
    }

    /// Marks the task as the one currently executing; a pure state
    /// transition with no other effect.
    pub fn mark_running(&mut self)
        ensures
            *final(self) == old(self).with_state(TaskState::Running),
    {
        self.state = TaskState::Running;
    }

    /// Marks the task runnable but not executing; a pure state transition
    /// with no other effect.
    pub fn mark_ready(&mut self)
        ensures
            *final(self) == old(self).with_state(TaskState::Ready),
    {
        self.state = TaskState::Ready;
    }

    /// The handle another task needs in order to resume this one.
    pub fn current_context(&self) -> (c: u64)
        ensures
            c == self.saved_context,
    {
        self.saved_context
    }

    /// Stores the handle under which the descriptor's task can be
    /// resumed; the raw switch updates it at each suspension.
    pub fn set_saved_context(&mut self, ctx: u64)
        ensures
            *final(self) == (Task { saved_context: ctx, ..*old(self) }),
    {
        self.saved_context = ctx;
    }
}

} // verus!
