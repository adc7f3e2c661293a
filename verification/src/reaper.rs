//! The reaper: what the handler of the child-termination signal does with
//! each answer of the kernel.
//!
//! The handler asks for a terminated child, is told what to do with the
//! answer, does it, and asks again until it is told to stop.

use crate::payload::Peek;
use vstd::prelude::*;

verus! {

/// What the handler does next.
#[derive(Clone, Copy, Debug, PartialEq, Eq, Structural)]
pub enum ReapAction {
    /// Return from the handler.
    Stop,
    /// Reap the child with this identifier, then ask again.
    Reap(i32),
}

/// The action that follows the answer `peek` while the main thread owns the
/// child `owned`: a terminated child is reaped unless it is the owned one;
/// the owned one, a failed query, whatever its error number, and the absence
/// of terminated children end the handler.
pub open spec fn action_for(owned: i32, peek: Peek) -> ReapAction {
    match peek {
        Peek::Terminated(pid) => if pid == owned {
            ReapAction::Stop
        } else {
            ReapAction::Reap(pid)
        },
        Peek::Idle => ReapAction::Stop,
        Peek::Failed(_) => ReapAction::Stop,
    }
}

/// Decides what the handler does with the answer `peek`, `owned` being the
/// value of the ownership token.
///
/// The owned child is never reaped here: its status belongs to the wait of
/// the main thread.
pub fn next_action(owned: i32, peek: Peek) -> (action: ReapAction)
    ensures
        action == action_for(owned, peek),
        action != ReapAction::Reap(owned),
        action matches ReapAction::Reap(pid) ==> peek == Peek::Terminated(pid),
        !(peek is Terminated) ==> action == ReapAction::Stop,
{
    match peek {
        Peek::Terminated(pid) => {
            if pid == owned {
                ReapAction::Stop
            } else {
                ReapAction::Reap(pid)
            }
        },
        Peek::Idle => ReapAction::Stop,
        Peek::Failed(_) => ReapAction::Stop,
    }
}

} // verus!
