//! The supervision loop: boot once, then supervise for ever.
//!
//! The loop itself runs outside this library. Here is what it does next:
//! each call of [`Supervision::next`] names one action, and the caller
//! carries it out before it asks again. There is no last action.

use crate::command::{command_for, configured, main_command, supervised, CommandLine, CommandSpec};
use crate::config::{Config, Key, Settings};
use crate::throttle::{remaining, remaining_sleep};
use vstd::prelude::*;

verus! {

/// Where the loop stands: what its next action is about.
#[derive(Clone, Copy, Debug, PartialEq, Eq, Structural)]
pub enum Phase {
    /// Nothing was launched yet.
    Boot,
    /// The supervised command is to be launched.
    Launch,
    /// The supervised command has ended; the restart is to be delayed.
    Throttle,
}

/// One action of the loop.
#[derive(Clone, Debug, PartialEq, Eq)]
pub enum Action {
    /// Launch the command and go on without waiting for it. A failure to
    /// launch it is of no consequence.
    LaunchDetached(CommandSpec),
    /// Launch the command through the ownership handoff and wait until it
    /// has ended.
    LaunchOwned(CommandSpec),
    /// Sleep for this many nanoseconds.
    Sleep(u64),
}

/// An action as mathematical values.
pub enum Deed {
    /// Launch without waiting.
    LaunchDetached(CommandLine),
    /// Launch through the ownership handoff and wait.
    LaunchOwned(CommandLine),
    /// Sleep for this many nanoseconds.
    Sleep(int),
}

impl View for Action {
    type V = Deed;

    open spec fn view(&self) -> Deed {
        match self {
            Action::LaunchDetached(command) => Deed::LaunchDetached(command@),
            Action::LaunchOwned(command) => Deed::LaunchOwned(command@),
            Action::Sleep(nanos) => Deed::Sleep(*nanos as int),
        }
    }
}

/// The action taken in `phase` under `settings`, and the phase that follows
/// it; `elapsed` is the time in nanoseconds since the last launch of the
/// supervised command began.
///
/// The boot command, where there is one, is launched first and not waited
/// for. From then on the supervised command is launched, and each time it
/// has ended the throttle's sleep precedes the next launch.
pub open spec fn step(settings: Settings, phase: Phase, elapsed: int) -> (Deed, Phase) {
    match phase {
        Phase::Boot => match configured(settings, Key::Boot) {
            Some(command) => (Deed::LaunchDetached(command), Phase::Launch),
            None => (Deed::LaunchOwned(supervised(settings)), Phase::Throttle),
        },
        Phase::Launch => (Deed::LaunchOwned(supervised(settings)), Phase::Throttle),
        Phase::Throttle => (Deed::Sleep(remaining(elapsed)), Phase::Launch),
    }
}

/// The actions of a run that starts in `phase`, where `elapsed` lists the
/// time handed to each call.
pub open spec fn run(settings: Settings, phase: Phase, elapsed: Seq<int>) -> Seq<Deed>
    decreases elapsed.len(),
{
    if elapsed.len() == 0 {
        Seq::empty()
    } else {
        let (deed, next) = step(settings, phase, elapsed[0]);
        seq![deed] + run(settings, next, elapsed.drop_first())
    }
}

/// Every call names an action, so the loop has no end. Nothing is launched
/// without waiting but possibly the first command of all, and every restart
/// is delayed: each launch of the supervised command is followed by the
/// throttle's sleep, and each sleep by the next launch.
pub proof fn lemma_run_alternates(settings: Settings, phase: Phase, elapsed: Seq<int>, i: int)
    requires
        0 <= i,
        i + 1 < elapsed.len(),
    ensures
        run(settings, phase, elapsed).len() == elapsed.len(),
        match run(settings, phase, elapsed)[i] {
            Deed::LaunchOwned(_) => run(settings, phase, elapsed)[i + 1] == Deed::Sleep(
                remaining(elapsed[i + 1]),
            ),
            Deed::Sleep(_) => run(settings, phase, elapsed)[i + 1] == Deed::LaunchOwned(
                supervised(settings),
            ),
            Deed::LaunchDetached(_) => i == 0 && phase == Phase::Boot && run(
                settings,
                phase,
                elapsed,
            )[i + 1] == Deed::LaunchOwned(supervised(settings)),
        },
    decreases i,
{
    let next = step(settings, phase, elapsed[0]).1;
    let rest = elapsed.drop_first();
    lemma_run_len(settings, next, rest);
    if i > 0 {
        lemma_run_alternates(settings, next, rest, i - 1);
    }
}

/// A run has one action for each call.
proof fn lemma_run_len(settings: Settings, phase: Phase, elapsed: Seq<int>)
    ensures
        run(settings, phase, elapsed).len() == elapsed.len(),
    decreases elapsed.len(),
{
    if elapsed.len() > 0 {
        lemma_run_len(settings, step(settings, phase, elapsed[0]).1, elapsed.drop_first());
    }
}

/// The state of the supervision loop.
#[derive(Clone, Debug, PartialEq, Eq)]
pub struct Supervision {
    config: Config,
    phase: Phase,
}

impl Supervision {
    /// The settings that the loop works under.
    pub closed spec fn settings(self) -> Settings {
        self.config@
    }

    /// Where the loop stands.
    pub closed spec fn phase(self) -> Phase {
        self.phase
    }

    /// A loop under `config` that has not launched anything yet.
    pub fn new(config: Config) -> (supervision: Supervision)
        ensures
            supervision.settings() == config@,
            supervision.phase() == Phase::Boot,
    {
        Supervision { config, phase: Phase::Boot }
    }

    /// Names the next action. `elapsed_nanos` is the time since the last
    /// launch of the supervised command began; it only matters once that
    /// command has ended.
    pub fn next(&mut self, elapsed_nanos: u128) -> (action: Action)
        ensures
            final(self).settings() == old(self).settings(),
            (action@, final(self).phase()) == step(
                old(self).settings(),
                old(self).phase(),
                elapsed_nanos as int,
            ),
    {
        match self.phase {
            Phase::Boot => match command_for(&self.config, Key::Boot) {
                Some(command) => {
                    self.phase = Phase::Launch;
                    Action::LaunchDetached(command)
                },
                None => {
                    self.phase = Phase::Throttle;
                    Action::LaunchOwned(main_command(&self.config))
                },
            },
            Phase::Launch => {
                self.phase = Phase::Throttle;
                Action::LaunchOwned(main_command(&self.config))
            },
            Phase::Throttle => {
                self.phase = Phase::Launch;
                Action::Sleep(remaining_sleep(elapsed_nanos))
            },
        }
    }
}

} // verus!
