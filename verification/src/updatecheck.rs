//! What the daily update check remembers between runs: the version on offer,
//! the one notice waiting to be shown, and the rule that a run of failures is
//! announced once.

use vstd::prelude::*;

verus! {

/// What the tray needs to know about updates.
#[derive(Debug, Clone, Default, PartialEq, Eq)]
pub struct UpdateState {
    /// Version offered, when one is; `None` means nothing newer, or not yet
    /// checked.
    pub available: Option<String>,
    /// Message for the notification a failing run raises exactly once.
    pub pending_notice: Option<String>,
}

/// Whether a failure should raise a notification: one per run of failures,
/// and a success ends the run.
#[derive(Debug, Default, PartialEq, Eq)]
pub struct FailureRun {
    announced: bool,
}

impl View for FailureRun {
    type V = bool;

    /// Whether the current run of failures has been announced.
    closed spec fn view(&self) -> bool {
        self.announced
    }
}

impl FailureRun {
    /// A run with nothing announced.
    pub fn new() -> (r: Self)
        ensures
            !r@,
    {
        FailureRun { announced: false }
    }

    /// Record a failure; `true` when the caller should notify.
    pub fn on_failure(&mut self) -> (notify: bool)
        ensures
            notify == !old(self)@,
            final(self)@,
    {
        if self.announced {
            return false;
        }
        self.announced = true;
        true
    }

    /// Record a success, ending any run in progress.
    pub fn on_success(&mut self)
        ensures
            !final(self)@,
    {
        self.announced = false;
    }
}

/// Notifications raised by `n` consecutive failures from a run whose
/// announced flag is `announced`.
pub open spec fn notices_for_failures(announced: bool, n: nat) -> nat
    decreases n,
{
    if n == 0 {
        0
    } else {
        (if announced {
            0nat
        } else {
            1nat
        }) + notices_for_failures(true, (n - 1) as nat)
    }
}

/// A run of failures is announced once: any number of consecutive failures
/// after a success raises exactly one notification, and a run already
/// announced raises none.
pub proof fn lemma_run_of_failures_announces_once(announced: bool, n: nat)
    ensures
        notices_for_failures(announced, n) == if n == 0 || announced {
            0nat
        } else {
            1nat
        },
    decreases n,
{
    if n > 0 {
        lemma_run_of_failures_announces_once(true, (n - 1) as nat);
    }
}

pub open spec fn opt_view(s: Option<String>) -> Option<Seq<char>> {
    match s {
        Some(x) => Some(x@),
        None => None,
    }
}

/// Record one check's outcome: `Ok(Some(version))` when something newer is
/// offered, `Ok(None)` when current, `Err(reason)` when the check failed.
/// A failure that starts a run leaves its reason as the pending notice; the
/// offered version is replaced by the outcome either way.
pub fn record_check(state: &mut UpdateState, failures: &mut FailureRun, outcome: Result<Option<String>, String>)
    ensures
        opt_view(final(state).available) == match outcome {
            Ok(v) => opt_view(v),
            Err(_) => None,
        },
        final(failures)@ == (outcome is Err),
        opt_view(final(state).pending_notice) == match outcome {
            Err(reason) => if !old(failures)@ {
                Some(reason@)
            } else {
                opt_view(old(state).pending_notice)
            },
            Ok(_) => opt_view(old(state).pending_notice),
        },
{
    match outcome {
        Ok(v) => {
            failures.on_success();
            state.available = v;
        },
        Err(reason) => {
            let notify = failures.on_failure();
            state.available = None;
            if notify {
                state.pending_notice = Some(reason);
            }
        },
    }
}

/// A copy of the state, for drawing the tray menu.
pub fn snapshot(state: &UpdateState) -> (r: UpdateState)
    ensures
        opt_view(r.available) == opt_view(state.available),
        opt_view(r.pending_notice) == opt_view(state.pending_notice),
{
    let available = match &state.available {
        Some(v) => Some(v.clone()),
        None => None,
    };
    let pending_notice = match &state.pending_notice {
        Some(v) => Some(v.clone()),
        None => None,
    };
    UpdateState { available, pending_notice }
}

/// Take the pending notice, leaving none behind: nobody shows it twice.
pub fn take_notice(state: &mut UpdateState) -> (r: Option<String>)
    ensures
        opt_view(r) == opt_view(old(state).pending_notice),
        final(state).pending_notice is None,
        opt_view(final(state).available) == opt_view(old(state).available),
{
    state.pending_notice.take()
}

} // verus!
