//! A cooperative, single-core multitasking runtime for a competition robot
//! controller.
//!
//! The library owns the verified core of the system: a fixed-size table of
//! task descriptors, a round-robin scheduler over that table, and the
//! competition-mode lifecycle rules that tear down and restart the user task.
//! The raw context-switch mechanism, hardware register access and serial
//! output are not logic; they live with the unverified host layer, which
//! drives the scheduler through the small action values it returns.

pub mod display;
pub mod fairness;
pub mod lifecycle;
pub mod motor;
pub mod runtime;
pub mod task;
