//! Decision core of a minimal process supervisor meant to run as the first
//! user-space process of a system.
//!
//! The library decides and the program around it acts: the program performs
//! the system calls, hands their results in as plain values and carries out
//! the actions that come back.
//!
//! - [`config`] reads the configuration text, [`command`] picks the commands
//!   to launch from it.
//! - [`signals`] lists the signal dispositions to install at start-up.
//! - [`payload`] decodes the kernel's answer to the query for a terminated
//!   child, and [`reaper`] says what the signal handler does with it.
//! - [`supervisor`] keeps the ownership token on the main thread's side.
//! - [`supervision`] is the loop of boot, launch and delay, and [`throttle`]
//!   computes the delay.
//! - [`table`] models the kernel's process table and proves the handoff
//!   between reaper and supervisor safe against it.
//! - [`text`] holds what the configuration reader needs of characters and
//!   lines.

pub mod command;
pub mod config;
pub mod payload;
pub mod reaper;
pub mod signals;
pub mod supervision;
pub mod supervisor;
pub mod table;
pub mod text;
pub mod throttle;
