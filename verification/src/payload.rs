//! Decoding of what the kernel answers when it is asked, without blocking and
//! without reaping, whether some child has terminated.

use vstd::prelude::*;

verus! {

/// The raw answer to such a query.
#[derive(Clone, Copy, Debug, PartialEq, Eq, Structural)]
pub struct RawPeek {
    /// What the system call returned.
    pub returned: i32,
    /// The error number that the call left behind. It counts only where the
    /// call failed.
    pub errno: i32,
    /// Signal number in the information it filled in; zero where it filled
    /// in nothing.
    pub signo: i32,
    /// Process identifier in that information.
    pub pid: i32,
}

/// What a query found.
#[derive(Clone, Copy, Debug, PartialEq, Eq, Structural)]
pub enum Peek {
    /// The query failed with this error number; among the reasons is that
    /// there are no children.
    Failed(i32),
    /// No child has terminated.
    Idle,
    /// The child with this identifier has terminated and waits to be reaped.
    Terminated(i32),
}

/// An answer that no termination event can have produced. There is no going
/// on after one of these.
#[derive(Clone, Copy, Debug, PartialEq, Eq, Structural)]
pub enum PayloadFault {
    /// The call returned this, which is neither success nor failure.
    Returned(i32),
    /// The information is about this signal, not about a child.
    Signal(i32),
}

/// The meaning of a raw answer, `child_signal` being the number of the
/// signal that announces a child's termination.
pub open spec fn decoded(raw: RawPeek, child_signal: i32) -> Result<Peek, PayloadFault> {
    if raw.returned == -1 {
        Ok(Peek::Failed(raw.errno))
    } else if raw.returned != 0 {
        Err(PayloadFault::Returned(raw.returned))
    } else if raw.signo == 0 {
        Ok(Peek::Idle)
    } else if raw.signo == child_signal {
        Ok(Peek::Terminated(raw.pid))
    } else {
        Err(PayloadFault::Signal(raw.signo))
    }
}

/// Decodes a raw answer.
///
/// The return value is looked at first: -1 is a failed query, which is
/// handed on with its error number, and anything but 0 besides that is a
/// fault. Of a successful query the signal number decides:
/// 0 says that no child has terminated, `child_signal` that the child `pid`
/// has, and any other number is a fault.
pub fn decode(raw: RawPeek, child_signal: i32) -> (peek: Result<Peek, PayloadFault>)
    ensures
        peek == decoded(raw, child_signal),
{
    if raw.returned == -1 {
        Ok(Peek::Failed(raw.errno))
    } else if raw.returned != 0 {
        Err(PayloadFault::Returned(raw.returned))
    } else if raw.signo == 0 {
        Ok(Peek::Idle)
    } else if raw.signo == child_signal {
        Ok(Peek::Terminated(raw.pid))
    } else {
        Err(PayloadFault::Signal(raw.signo))
    }
}

} // verus!
