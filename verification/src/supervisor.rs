//! The main thread's side of the ownership handoff.
//!
//! While the main thread waits for a child that it launched, the ownership
//! token holds that child's identifier, so that the reaper leaves the child
//! alone. At all other times the token holds `NO_OWNER`.

use vstd::prelude::*;

verus! {

/// Value of the ownership token while the main thread waits for no child.
pub const NO_OWNER: i32 = -1;

/// How a launch ended.
#[derive(Clone, Copy, Debug, PartialEq, Eq, Structural)]
pub enum ExitOutcome {
    /// The command ran and exited with this code.
    Exited(i32),
    /// The command ran and ended without an exit code: a signal killed it.
    Signaled,
    /// The command could not be started.
    LaunchFailure,
}

/// The identifier of a child as the token holds it: the same 32 bits, read
/// as a signed number.
pub open spec fn pid_of(child: u32) -> i32 {
    if child <= i32::MAX {
        child as i32
    } else {
        (child - 0x1_0000_0000) as i32
    }
}

/// The outcome that an ended wait reports: the exit code where there is one.
pub open spec fn outcome_of(code: Option<i32>) -> ExitOutcome {
    match code {
        Some(c) => ExitOutcome::Exited(c),
        None => ExitOutcome::Signaled,
    }
}

/// The main thread's record of the ownership token.
#[derive(Clone, Copy, Debug, PartialEq, Eq, Structural)]
pub struct Supervisor {
    token: i32,
}

impl Supervisor {
    /// The value that the ownership token must hold.
    pub closed spec fn owned(self) -> i32 {
        self.token
    }

    /// A supervisor that waits for no child.
    pub fn new() -> (supervisor: Supervisor)
        ensures
            supervisor.owned() == NO_OWNER,
    {
        Supervisor { token: NO_OWNER }
    }

    /// The value that the ownership token must hold.
    pub fn token(&self) -> (token: i32)
        ensures
            token == self.owned(),
    {
        self.token
    }

    /// Takes note of how a launch went: `child` is the identifier of the new
    /// process, or nothing where none was started.
    ///
    /// After a failed launch the outcome is there at once and the token
    /// stays as it was. After a successful one there is no outcome yet: the
    /// token now holds the child, and the caller has to store it before it
    /// waits for that child.
    pub fn launched(&mut self, child: Option<u32>) -> (outcome: Option<ExitOutcome>)
        ensures
            match child {
                Some(id) => outcome is None && final(self).owned() == pid_of(id),
                None => outcome == Some(ExitOutcome::LaunchFailure) && final(self).owned() == old(
                    self,
                ).owned(),
            },
    {
        match child {
            Some(id) => {
                self.token = signed(id);
                None
            },
            None => Some(ExitOutcome::LaunchFailure),
        }
    }

    /// Takes note that the wait for the owned child has returned, with the
    /// child's exit code where it has one.
    ///
    /// Whatever the wait returned, the token holds no child afterwards.
    pub fn waited(&mut self, code: Option<i32>) -> (outcome: ExitOutcome)
        ensures
            outcome == outcome_of(code),
            final(self).owned() == NO_OWNER,
    {
        self.token = NO_OWNER;
        match code {
            Some(c) => ExitOutcome::Exited(c),
            None => ExitOutcome::Signaled,
        }
    }
}

/// Reads the 32 bits of `child` as a signed number.
fn signed(child: u32) -> (pid: i32)
    ensures
        pid == pid_of(child),
{
    if child <= 0x7fff_ffff {
        child as i32
    } else {
        let low: u32 = child - 0x8000_0000;
        let below: i32 = low as i32 - 0x7fff_ffff;
        below - 1
    }
}

} // verus!
