//! Pure eligibility policy. Decides only, from already-captured facts, with a
//! frozen precedence when several exclusions apply at once:
//! ghost, shell surface, hidden, cloaked, iconic, tool window, unavailable
//! identity, different application.

use vstd::prelude::*;

use super::{
    is_ghost_class, is_shell_class, same_app, ActiveContext, AppIdentity, Candidate, Eligibility,
    EligibilityPolicy, ExclusionReason, WindowFacts,
};

verus! {

/// The decision for a window with `facts` while `active` is the foreground
/// application's identity.
pub open spec fn spec_evaluate(active: Option<Seq<char>>, facts: WindowFacts) -> Eligibility {
    if is_ghost_class(facts.class_name@) {
        Eligibility::Excluded(ExclusionReason::GhostWindow)
    } else if is_shell_class(facts.class_name@) {
        Eligibility::Excluded(ExclusionReason::ShellSurface)
    } else if !facts.visible {
        Eligibility::Excluded(ExclusionReason::Hidden)
    } else if facts.cloaked {
        Eligibility::Excluded(ExclusionReason::Cloaked)
    } else if facts.iconic {
        Eligibility::Excluded(ExclusionReason::Iconic)
    } else if facts.tool_window {
        Eligibility::Excluded(ExclusionReason::ToolWindow)
    } else if facts.identity@ is None {
        Eligibility::Excluded(ExclusionReason::UnavailableIdentity)
    } else if !same_app(facts.identity@, active) {
        Eligibility::Excluded(ExclusionReason::DifferentApplication)
    } else {
        Eligibility::Eligible
    }
}

/// The production policy.
pub struct WindowEligibility;

impl EligibilityPolicy for WindowEligibility {
    fn evaluate(&self, active: &ActiveContext, candidate: &Candidate) -> (e: Eligibility)
        ensures
            e == spec_evaluate(active.identity@, candidate.facts),
    {
        evaluate_facts(&active.identity, &candidate.facts)
    }
}

/// Decide eligibility from captured facts alone.
pub fn evaluate_facts(active_identity: &AppIdentity, facts: &WindowFacts) -> (e: Eligibility)
    ensures
        e == spec_evaluate(active_identity@, *facts),
{
    if facts.is_ghost() {
        return Eligibility::Excluded(ExclusionReason::GhostWindow);
    }
    if facts.is_shell_surface() {
        return Eligibility::Excluded(ExclusionReason::ShellSurface);
    }
    if !facts.visible {
        return Eligibility::Excluded(ExclusionReason::Hidden);
    }
    if facts.cloaked {
        return Eligibility::Excluded(ExclusionReason::Cloaked);
    }
    if facts.iconic {
        return Eligibility::Excluded(ExclusionReason::Iconic);
    }
    if facts.tool_window {
        return Eligibility::Excluded(ExclusionReason::ToolWindow);
    }
    if !facts.identity.is_available() {
        return Eligibility::Excluded(ExclusionReason::UnavailableIdentity);
    }
    if !facts.identity.same_application(active_identity) {
        return Eligibility::Excluded(ExclusionReason::DifferentApplication);
    }
    Eligibility::Eligible
}

/// A window is eligible exactly when it is an ordinary visible, uncloaked,
/// non-minimized, non-tool window of a known application equal to the
/// foreground one; responsiveness plays no part, and an unknown foreground
/// application makes nothing eligible.
pub proof fn lemma_eligible_exactly_when(active: Option<Seq<char>>, facts: WindowFacts)
    ensures
        (spec_evaluate(active, facts) is Eligible) <==> (!is_ghost_class(facts.class_name@)
            && !is_shell_class(facts.class_name@) && facts.visible && !facts.cloaked
            && !facts.iconic && !facts.tool_window && same_app(facts.identity@, active)),
        active is None ==> !(spec_evaluate(active, facts) is Eligible),
{
}

} // verus!
