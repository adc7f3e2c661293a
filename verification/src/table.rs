//! A model of the kernel's table of child processes, and the proof that
//! reaper and supervisor, run against it in any order, leave the owned child
//! to the main thread and no other terminated child behind.
//!
//! The model takes from the kernel what the handoff relies on: a child's
//! identifier is in the token before the child's termination is reported.

use crate::payload::Peek;
use crate::reaper::{action_for, ReapAction};
use crate::supervisor::{pid_of, NO_OWNER};
use vstd::prelude::*;

verus! {

/// The children of the supervisor, and the ownership token.
pub struct Table {
    /// Value of the ownership token.
    pub token: i32,
    /// The children that run.
    pub running: Set<i32>,
    /// The children that have terminated and were not reaped yet.
    pub zombies: Set<i32>,
    /// How many times a child has terminated so far.
    pub exits: nat,
    /// How many times a child was reaped so far, by the reaper or by the
    /// main thread's wait.
    pub reaps: nat,
}

/// What can happen to the table.
pub enum Event {
    /// The main thread has launched the child with this identifier and has
    /// stored it in the token.
    Launched(u32),
    /// A process that the main thread does not wait for has become a child:
    /// one that was launched and left alone, or an orphan.
    Adopted(i32),
    /// A running child has terminated.
    Exited(i32),
    /// The reaper has asked for a terminated child, got this answer and
    /// acted on it.
    Asked(Peek),
    /// The main thread's wait for the owned child has returned.
    Waited,
}

impl Table {
    /// The table of a supervisor that has launched nothing yet.
    pub open spec fn initial() -> Table {
        Table { token: NO_OWNER, running: Set::empty(), zombies: Set::empty(), exits: 0, reaps: 0 }
    }

    /// Whether `pid` is a child, running or terminated.
    pub open spec fn knows(self, pid: i32) -> bool {
        self.running.contains(pid) || self.zombies.contains(pid)
    }

    /// Whether the kernel can give the answer `peek`: it reports only a child
    /// that has terminated and was not reaped, and reports none, or fails for
    /// want of children, only where there is no such child.
    pub open spec fn can_answer(self, peek: Peek) -> bool {
        match peek {
            Peek::Terminated(pid) => self.zombies.contains(pid),
            Peek::Idle => self.zombies =~= Set::empty(),
            Peek::Failed(_) => self.zombies =~= Set::empty(),
        }
    }

    /// Whether `event` can happen. The main thread launches a child only
    /// while it waits for none, new children have positive identifiers that
    /// are not in use, only a running child terminates, and the wait returns
    /// only once the owned child has terminated.
    pub open spec fn enabled(self, event: Event) -> bool {
        match event {
            Event::Launched(id) => self.token == NO_OWNER && pid_of(id) > 0 && !self.knows(
                pid_of(id),
            ),
            Event::Adopted(pid) => pid > 0 && !self.knows(pid),
            Event::Exited(pid) => self.running.contains(pid),
            Event::Asked(peek) => self.can_answer(peek),
            Event::Waited => self.token != NO_OWNER && self.zombies.contains(self.token),
        }
    }

    /// The table after `event`; an event that cannot happen changes nothing.
    pub open spec fn after(self, event: Event) -> Table {
        if !self.enabled(event) {
            self
        } else {
            match event {
                Event::Launched(id) => Table {
                    token: pid_of(id),
                    running: self.running.insert(pid_of(id)),
                    ..self
                },
                Event::Adopted(pid) => Table { running: self.running.insert(pid), ..self },
                Event::Exited(pid) => Table {
                    running: self.running.remove(pid),
                    zombies: self.zombies.insert(pid),
                    exits: self.exits + 1,
                    ..self
                },
                Event::Asked(peek) => match action_for(self.token, peek) {
                    ReapAction::Reap(pid) => Table {
                        zombies: self.zombies.remove(pid),
                        reaps: self.reaps + 1,
                        ..self
                    },
                    ReapAction::Stop => self,
                },
                Event::Waited => Table {
                    token: NO_OWNER,
                    zombies: self.zombies.remove(self.token),
                    reaps: self.reaps + 1,
                    ..self
                },
            }
        }
    }

    /// The table after `events`, one after the other.
    pub open spec fn after_all(self, events: Seq<Event>) -> Table
        decreases events.len(),
    {
        if events.len() == 0 {
            self
        } else {
            self.after_all(events.drop_last()).after(events.last())
        }
    }

    /// What holds of the table at all times: there are finitely many
    /// children, all with positive identifiers, none both runs and has
    /// terminated, the child that the token holds is there, running or
    /// waiting to be reaped, and every termination was either followed by
    /// one reap or has left a child that waits for it.
    pub open spec fn sound(self) -> bool {
        &&& self.running.finite()
        &&& self.zombies.finite()
        &&& self.running.disjoint(self.zombies)
        &&& forall|pid: i32| #[trigger] self.knows(pid) ==> pid > 0
        &&& self.token != NO_OWNER ==> self.knows(self.token)
        &&& self.exits == self.reaps + self.zombies.len()
    }

    /// The table once a run of the handler has returned, or has used up
    /// `peeks`, the answers that the kernel gives it one after the other.
    pub open spec fn after_handler(self, peeks: Seq<Peek>) -> Table
        decreases peeks.len(),
    {
        if peeks.len() == 0 || action_for(self.token, peeks[0]) == ReapAction::Stop {
            self
        } else {
            self.after(Event::Asked(peeks[0])).after_handler(peeks.drop_first())
        }
    }

    /// Whether the handler returns within the answers `peeks`.
    pub open spec fn handler_returns(self, peeks: Seq<Peek>) -> bool
        decreases peeks.len(),
    {
        if peeks.len() == 0 {
            false
        } else if action_for(self.token, peeks[0]) == ReapAction::Stop {
            true
        } else {
            self.after(Event::Asked(peeks[0])).handler_returns(peeks.drop_first())
        }
    }

    /// The number of children that the handler reaps on the answers `peeks`.
    pub open spec fn handler_reaps(self, peeks: Seq<Peek>) -> nat
        decreases peeks.len(),
    {
        if peeks.len() == 0 || action_for(self.token, peeks[0]) == ReapAction::Stop {
            0
        } else {
            1 + self.after(Event::Asked(peeks[0])).handler_reaps(peeks.drop_first())
        }
    }

    /// Whether each of `peeks` is an answer that the kernel can give at the
    /// time when the handler gets it, no child terminating meanwhile.
    pub open spec fn answers_fit(self, peeks: Seq<Peek>) -> bool
        decreases peeks.len(),
    {
        if peeks.len() == 0 {
            true
        } else if !self.can_answer(peeks[0]) {
            false
        } else if action_for(self.token, peeks[0]) == ReapAction::Stop {
            true
        } else {
            self.after(Event::Asked(peeks[0])).answers_fit(peeks.drop_first())
        }
    }
}

/// Whatever happens, the table stays sound: in particular the owned child is
/// not taken from the main thread, and no child is reaped twice or lost.
pub proof fn lemma_event_keeps_sound(table: Table, event: Event)
    requires
        table.sound(),
    ensures
        table.after(event).sound(),
{
    let next = table.after(event);
    assert forall|pid: i32| #[trigger] next.knows(pid) implies pid > 0 by {
        if !table.knows(pid) {
            assert(table.enabled(event));
        }
    }
}

/// From the start on, and in whatever order terminations, rounds of the
/// reaper and the main thread's launches and waits follow each other, the
/// table is sound.
pub proof fn lemma_always_sound(events: Seq<Event>)
    ensures
        Table::initial().after_all(events).sound(),
    decreases events.len(),
{
    if events.len() > 0 {
        lemma_always_sound(events.drop_last());
        lemma_event_keeps_sound(Table::initial().after_all(events.drop_last()), events.last());
    }
}

/// A round of the reaper leaves the token and the running children as they
/// are, takes away at most the one terminated child that the kernel
/// reported, and never the owned one.
pub proof fn lemma_round_spares_owned(table: Table, peek: Peek)
    ensures
        table.after(Event::Asked(peek)).token == table.token,
        table.after(Event::Asked(peek)).running == table.running,
        table.after(Event::Asked(peek)).zombies.subset_of(table.zombies),
        table.after(Event::Asked(peek)).zombies.contains(table.token) == table.zombies.contains(
            table.token,
        ),
        forall|pid: i32|
            table.zombies.contains(pid) && !table.after(Event::Asked(peek)).zombies.contains(pid)
                ==> peek == Peek::Terminated(pid) && pid != table.token,
{
}

/// A whole run of the handler does the same: the owned child stays.
pub proof fn lemma_handler_spares_owned(table: Table, peeks: Seq<Peek>)
    ensures
        table.after_handler(peeks).token == table.token,
        table.after_handler(peeks).running == table.running,
        table.after_handler(peeks).zombies.subset_of(table.zombies),
        table.after_handler(peeks).zombies.contains(table.token) == table.zombies.contains(
            table.token,
        ),
    decreases peeks.len(),
{
    if peeks.len() > 0 && action_for(table.token, peeks[0]) != ReapAction::Stop {
        lemma_handler_spares_owned(table.after(Event::Asked(peeks[0])), peeks.drop_first());
    }
}

/// Where no child has terminated, the handler returns on the first answer
/// and has changed nothing.
pub proof fn lemma_handler_without_zombies(table: Table, peeks: Seq<Peek>)
    requires
        table.zombies =~= Set::empty(),
        peeks.len() > 0,
        table.answers_fit(peeks),
    ensures
        action_for(table.token, peeks[0]) == ReapAction::Stop,
        table.after_handler(peeks) == table,
        table.handler_reaps(peeks) == 0,
        table.handler_returns(peeks),
{
}

/// The handler reaps no more children than have terminated, each of them
/// once, and has returned by the answer that follows the last of them.
pub proof fn lemma_handler_is_bounded(table: Table, peeks: Seq<Peek>)
    requires
        table.zombies.finite(),
        table.answers_fit(peeks),
    ensures
        table.handler_reaps(peeks) <= table.zombies.len(),
        table.handler_reaps(peeks) + table.after_handler(peeks).zombies.len()
            == table.zombies.len(),
        table.after_handler(peeks).reaps == table.reaps + table.handler_reaps(peeks),
        table.after_handler(peeks).exits == table.exits,
        peeks.len() > table.zombies.len() ==> table.handler_returns(peeks),
    decreases peeks.len(),
{
    if peeks.len() > 0 && action_for(table.token, peeks[0]) != ReapAction::Stop {
        lemma_handler_is_bounded(table.after(Event::Asked(peeks[0])), peeks.drop_first());
    }
}

/// While the owned child has not terminated, a run of the handler that
/// returns leaves no terminated child behind.
pub proof fn lemma_handler_clears_orphans(table: Table, peeks: Seq<Peek>)
    requires
        table.answers_fit(peeks),
        table.handler_returns(peeks),
        !table.zombies.contains(table.token),
    ensures
        table.after_handler(peeks).zombies =~= Set::empty(),
    decreases peeks.len(),
{
    if action_for(table.token, peeks[0]) != ReapAction::Stop {
        lemma_handler_clears_orphans(table.after(Event::Asked(peeks[0])), peeks.drop_first());
    }
}

/// While the main thread waits for no child, a run of the handler that
/// returns leaves no terminated child behind.
pub proof fn lemma_handler_clears_all(table: Table, peeks: Seq<Peek>)
    requires
        table.sound(),
        table.token == NO_OWNER,
        table.answers_fit(peeks),
        table.handler_returns(peeks),
    ensures
        table.after_handler(peeks).zombies =~= Set::empty(),
{
    if table.zombies.contains(NO_OWNER) {
        assert(table.knows(NO_OWNER));
    }
    lemma_handler_clears_orphans(table, peeks);
}

} // verus!
