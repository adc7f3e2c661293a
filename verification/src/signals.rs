//! The signal dispositions installed at start-up.
//!
//! A process without a parent must not die of a signal, so every signal is
//! first set to be ignored. Two signals then get a handler: the one that
//! announces a child's termination, and the interrupt that the kernel sends
//! when a reboot is requested from the keyboard.

use nix::sys::signal::Signal;
use vstd::prelude::*;

verus! {

/// What is done on receipt of a signal.
#[derive(Clone, Copy, Debug, PartialEq, Eq, Structural)]
pub enum Disposition {
    /// The signal is ignored.
    Ignore,
    /// The handler that reaps terminated children runs.
    ReapChildren,
    /// The handler that launches the reboot command runs.
    RebootRequest,
}

/// One disposition to install.
#[derive(Clone, Copy, Debug, PartialEq, Eq, Structural)]
pub struct Install {
    /// Number of the signal.
    pub signal: i32,
    /// What is done on its receipt.
    pub disposition: Disposition,
}

/// One install for each of `all`, by which that signal is ignored.
pub open spec fn ignored(all: Seq<i32>) -> Seq<Install> {
    Seq::new(all.len(), |i: int| Install { signal: all[i], disposition: Disposition::Ignore })
}

/// The installs to make, in order, on a system that defines the signals
/// `all`, announces the termination of a child by `child` and requests a
/// reboot by `interrupt`.
pub open spec fn planned(all: Seq<i32>, child: i32, interrupt: i32) -> Seq<Install> {
    ignored(all).push(Install { signal: child, disposition: Disposition::ReapChildren }).push(
        Install { signal: interrupt, disposition: Disposition::RebootRequest },
    )
}

/// The disposition that `signal` is left with once the installs of `plan`
/// were made in order: that of the last install which names it.
pub open spec fn effect(plan: Seq<Install>, signal: i32) -> Option<Disposition>
    decreases plan.len(),
{
    if plan.len() == 0 {
        None
    } else if plan.last().signal == signal {
        Some(plan.last().disposition)
    } else {
        effect(plan.drop_last(), signal)
    }
}

/// Lists the installs to make, in order, from the numbers of the signals
/// that the system defines and of the two that get a handler.
pub fn disposition_plan(all: &Vec<i32>, child: i32, interrupt: i32) -> (plan: Vec<Install>)
    ensures
        plan@ == planned(all@, child, interrupt),
{
    let mut plan: Vec<Install> = Vec::new();
    let mut i: usize = 0;
    while i < all.len()
        invariant
            i <= all.len(),
            plan@.len() == i,
            forall|j: int|
                0 <= j < i ==> plan@[j] == (Install {
                    signal: all@[j],
                    disposition: Disposition::Ignore,
                }),
        decreases all.len() - i,
    {
        plan.push(Install { signal: all[i], disposition: Disposition::Ignore });
        i += 1;
    }
    plan.push(Install { signal: child, disposition: Disposition::ReapChildren });
    plan.push(Install { signal: interrupt, disposition: Disposition::RebootRequest });
    plan
}

/// Lists the installs to make on the system that this runs on.
///
/// Which signals there are, and under which numbers, is the system's matter.
/// Whatever they are, each of them is first ignored, the interrupt among
/// them, and the last two installs set the two handlers on two different
/// signals. So the plan leaves the reaper on the one and the reboot request
/// on the other.
pub fn startup_plan() -> (plan: Vec<Install>)
    ensures
        exists|all: Seq<i32>, child: i32, interrupt: i32|
            all.contains(interrupt) && child != interrupt && plan@ == #[trigger] planned(
                all,
                child,
                interrupt,
            ),
        plan@.len() >= 3,
        forall|i: int| 0 <= i < plan@.len() - 2 ==> plan@[i].disposition == Disposition::Ignore,
        exists|i: int| 0 <= i < plan@.len() - 2 && plan@[i].signal == plan@.last().signal,
        plan@[plan@.len() - 2].disposition == Disposition::ReapChildren,
        plan@.last().disposition == Disposition::RebootRequest,
        plan@[plan@.len() - 2].signal != plan@.last().signal,
        effect(plan@, plan@[plan@.len() - 2].signal) == Some(Disposition::ReapChildren),
        effect(plan@, plan@.last().signal) == Some(Disposition::RebootRequest),
{
    let host: HostSignals = host_signals();
    let plan: Vec<Install> = disposition_plan(&host.all, host.child, host.interrupt);
    proof {
        lemma_plan_effect(host.all@, host.child, host.interrupt, host.child);
        lemma_plan_effect(host.all@, host.child, host.interrupt, host.interrupt);
        let k = choose|k: int| 0 <= k < host.all@.len() && host.all@[k] == host.interrupt;
        assert(plan@[k].signal == plan@.last().signal);
    }
    plan
}

/// Once the plan is carried out, the interrupt requests a reboot, the
/// termination of a child wakes the reaper, every other signal that the
/// system defines is ignored, and no other signal was touched.
pub proof fn lemma_plan_effect(all: Seq<i32>, child: i32, interrupt: i32, signal: i32)
    ensures
        effect(planned(all, child, interrupt), signal) == if signal == interrupt {
            Some(Disposition::RebootRequest)
        } else if signal == child {
            Some(Disposition::ReapChildren)
        } else if all.contains(signal) {
            Some(Disposition::Ignore)
        } else {
            None
        },
{
    let reap = Install { signal: child, disposition: Disposition::ReapChildren };
    let reboot = Install { signal: interrupt, disposition: Disposition::RebootRequest };
    let before = ignored(all).push(reap);
    assert(before.push(reboot).drop_last() =~= before);
    assert(before.drop_last() =~= ignored(all));
    lemma_ignored_effect(all, signal);
    assert(effect(before, signal) == if signal == child {
        Some(Disposition::ReapChildren)
    } else {
        effect(ignored(all), signal)
    });
}

/// Ignoring each of `all` leaves `signal` ignored where it is one of them, and
/// untouched where it is not.
proof fn lemma_ignored_effect(all: Seq<i32>, signal: i32)
    ensures
        effect(ignored(all), signal) == if all.contains(signal) {
            Some(Disposition::Ignore)
        } else {
            None::<Disposition>
        },
    decreases all.len(),
{
    if all.len() > 0 {
        let front = all.drop_last();
        assert(ignored(all).drop_last() =~= ignored(front));
        lemma_ignored_effect(front, signal);
        if all.last() != signal && all.contains(signal) {
            let k = choose|k: int| 0 <= k < all.len() && all[k] == signal;
            assert(front[k] == signal);
        }
    }
}

/// The signals of the system that this runs on.
struct HostSignals {
    /// Numbers of all the signals that the system defines.
    all: Vec<i32>,
    /// Number of the signal that announces the termination of a child.
    child: i32,
    /// Number of the interrupt.
    interrupt: i32,
}

/// The numbers of the signals that `nix::sys::signal::Signal::iterator`
/// yields, in its order, and those of the variants
/// `nix::sys::signal::Signal::SIGCHLD` and `nix::sys::signal::Signal::SIGINT`.
///
/// Which signals there are, and under which numbers, differs from one system
/// to the next. Two things are claimed, and both hold on every system that
/// nix knows. The interrupt is among the signals that the iterator yields:
/// each of the lists that it walks holds `SIGINT`. And the two variants have
/// different numbers, as different variants of one enum must. That the
/// iterator yields `SIGCHLD` is not claimed: one of the lists does without.
#[verifier::external_body]
fn host_signals() -> (host: HostSignals)
    ensures
        host.all@.contains(host.interrupt),
        host.child != host.interrupt,
{
    let all: Vec<i32> = Signal::iterator().map(|signal| signal as i32).collect();
    HostSignals { all, child: Signal::SIGCHLD as i32, interrupt: Signal::SIGINT as i32 }
}

} // verus!
