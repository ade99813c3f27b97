//! Foreground bypass over raw UTF-16 identities, for the keyboard hook path:
//! comparison happens directly between the pre-normalized policy entries and
//! borrowed UTF-16 slices, so no string is built per keystroke.

use vstd::prelude::*;

use std::sync::atomic::AtomicU64;

use crate::text::{
    eq_ignore_case, lemma_wide_eq_is_eq_ignore_case, utf16_units, wide_eq_entry, wide_eq_ignore_case,
};

use super::{any_eq_ignore_case, opt_text, spec_classify, texts, BypassDecision, BypassPolicy, BypassReason, ForegroundIdentity};

verus! {

/// Foreground identity reads that came back incomplete so far, from the
/// counter the hook thread bumps. Other threads update it at any time, so
/// nothing is stated of the value.
pub fn identity_failure_count(failures: &AtomicU64) -> u64 {
    failures.load(std::sync::atomic::Ordering::Relaxed)
}

/// Start counting identity failures afresh.
pub fn reset_identity_failures(failures: &AtomicU64) {
    failures.store(0, std::sync::atomic::Ordering::Relaxed);
}

/// Borrowed, allocation-free view of the foreground identity.
#[derive(Debug, Clone, Copy, PartialEq, Eq, Default)]
pub struct WideIdentity<'a> {
    pub process: Option<&'a [u16]>,
    pub class: Option<&'a [u16]>,
}

pub open spec fn opt_units(s: Option<&[u16]>) -> Option<Seq<u16>> {
    match s {
        Some(x) => Some(x@),
        None => None,
    }
}

/// Some entry matches the UTF-16 `wide` ignoring ASCII case.
pub open spec fn any_wide_match(entries: Seq<Seq<char>>, wide: Seq<u16>) -> bool {
    exists|i: int| 0 <= i < entries.len() && wide_eq_ignore_case(#[trigger] entries[i], wide)
}

/// The classification of a UTF-16 identity against entry lists.
pub open spec fn spec_classify_wide(processes: Seq<Seq<char>>, classes: Seq<Seq<char>>, process: Option<Seq<u16>>, class: Option<Seq<u16>>) -> BypassDecision {
    if process is Some && any_wide_match(processes, process->Some_0) {
        BypassDecision::Passthrough(BypassReason::ProcessMatch)
    } else if class is Some && any_wide_match(classes, class->Some_0) {
        BypassDecision::Passthrough(BypassReason::ClassMatch)
    } else if process is None || class is None {
        BypassDecision::Passthrough(BypassReason::IdentityUnavailable)
    } else {
        BypassDecision::ContinueWiraDeskMatching
    }
}

pub open spec fn is_wide_sep(u: u16) -> bool {
    u == 0x5c || u == 0x2f
}

/// Locate the basename inside a UTF-16 path, without allocating: `(start, len)`
/// of the part after the last `\` or `/`.
pub fn basename_range(path: &[u16]) -> (r: (usize, usize))
    ensures
        r.0 + r.1 == path@.len(),
        r.0 == 0 || is_wide_sep(path@[r.0 - 1]),
        forall|j: int| r.0 <= j < path@.len() ==> !is_wide_sep(#[trigger] path@[j]),
{
    let n = path.len();
    let mut start = n;
    while start > 0
        invariant
            start <= n == path@.len(),
            forall|j: int| start <= j < n ==> !is_wide_sep(#[trigger] path@[j]),
        ensures
            start <= n,
            forall|j: int| start <= j < n ==> !is_wide_sep(#[trigger] path@[j]),
            start == 0 || is_wide_sep(path@[start - 1]),
        decreases start,
    {
        let u = path[start - 1];
        if u == 0x5c || u == 0x2f {
            break;
        }
        start = start - 1;
    }
    (start, n - start)
}

/// Case-insensitive ASCII comparison between a normalized entry and a raw
/// UTF-16 slice.
pub fn eq_ignore_ascii_case_wide(entry: &str, wide: &[u16]) -> (b: bool)
    ensures
        b == wide_eq_ignore_case(entry@, wide@),
{
    wide_eq_entry(entry, wide)
}

fn any_matches(entries: &[String], wide: &[u16]) -> (b: bool)
    ensures
        b == any_wide_match(texts(entries@), wide@),
{
    let n = entries.len();
    let mut i: usize = 0;
    while i < n
        invariant
            n == entries@.len(),
            i <= n,
            forall|j: int| 0 <= j < i ==> !wide_eq_ignore_case(#[trigger] texts(entries@)[j], wide@),
        decreases n - i,
    {
        if eq_ignore_ascii_case_wide(entries[i].as_str(), wide) {
            assert(wide_eq_ignore_case(texts(entries@)[i as int], wide@));
            return true;
        }
        i = i + 1;
    }
    false
}

/// Classify a borrowed identity against the policy: the same rule as
/// `BypassPolicy::classify`, including failing open, over UTF-16 slices.
pub fn classify_wide(policy: &BypassPolicy, identity: &WideIdentity<'_>) -> (d: BypassDecision)
    ensures
        d == spec_classify_wide(
            policy.process_entries(),
            policy.class_entries(),
            opt_units(identity.process),
            opt_units(identity.class),
        ),
{
    if let Some(process) = identity.process {
        if any_matches(policy.processes(), process) {
            return BypassDecision::Passthrough(BypassReason::ProcessMatch);
        }
    }
    if let Some(class) = identity.class {
        if any_matches(policy.classes(), class) {
            return BypassDecision::Passthrough(BypassReason::ClassMatch);
        }
    }
    if identity.process.is_none() || identity.class.is_none() {
        return BypassDecision::Passthrough(BypassReason::IdentityUnavailable);
    }
    BypassDecision::ContinueWiraDeskMatching
}

} // verus!

verus! {

pub open spec fn opt_utf16(s: Option<Seq<char>>) -> Option<Seq<u16>> {
    match s {
        Some(x) => Some(utf16_units(x)),
        None => None,
    }
}

proof fn lemma_any_agrees(entries: Seq<Seq<char>>, s: Seq<char>)
    ensures
        any_wide_match(entries, utf16_units(s)) == any_eq_ignore_case(entries, s),
{
    assert forall|i: int| 0 <= i < entries.len() implies wide_eq_ignore_case(
        #[trigger] entries[i],
        utf16_units(s),
    ) == eq_ignore_case(entries[i], s) by {
        lemma_wide_eq_is_eq_ignore_case(entries[i], s);
    }
}

/// The keyboard-hook path and the worker path never disagree: classifying
/// the UTF-16 encoding of an identity gives the same decision as classifying
/// the identity itself, whatever characters the policy's entries hold.
pub proof fn lemma_hook_and_worker_agree(
    policy: &BypassPolicy,
    owned: &ForegroundIdentity,
    wide: &WideIdentity,
)
    requires
        opt_units(wide.process) == opt_utf16(opt_text(owned.process)),
        opt_units(wide.class) == opt_utf16(opt_text(owned.class)),
    ensures
        spec_classify_wide(
            policy.process_entries(),
            policy.class_entries(),
            opt_units(wide.process),
            opt_units(wide.class),
        ) == spec_classify(
            policy.process_entries(),
            policy.class_entries(),
            opt_text(owned.process),
            opt_text(owned.class),
        ),
{
    if let Some(p) = opt_text(owned.process) {
        lemma_any_agrees(policy.process_entries(), p);
    }
    if let Some(c) = opt_text(owned.class) {
        lemma_any_agrees(policy.class_entries(), c);
    }
}

} // verus!
