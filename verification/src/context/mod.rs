//! Context-safety policy. Two decisions fail in opposite directions:
//! spatial eligibility fails closed (unknown is ineligible), and the
//! foreground bypass fails open (unknown lets the key pass through).

use vstd::prelude::*;

use crate::observed::{Observed, SeamCall};

use crate::config::VmBypassConfig;
use crate::cycling::WindowId;
use crate::text::{eq_ignore_case, lower_seq, lowercase_range, str_eq_ignore_ascii_case, trim_bounds, trimmed};

pub mod spatial;
pub mod virtual_desktop;
pub mod vm_bypass;

verus! {

/// Opaque physical-monitor handle, kept as a plain integer.
#[derive(Debug, Clone, Copy, PartialEq, Eq, Hash, Structural)]
pub struct MonitorId(pub isize);

/// Origin facts resolved once per cycle operation; `None` means the lookup
/// failed, which counts as unknown.
#[derive(Debug, Clone, Copy, PartialEq, Eq, Structural)]
pub struct SpatialContext {
    pub origin_monitor: Option<MonitorId>,
}

/// Per-candidate spatial facts, captured live for the current command.
#[derive(Debug, Clone, Copy, PartialEq, Eq, Structural)]
pub struct SpatialFacts {
    pub candidate_monitor: Option<MonitorId>,
    /// `None` when the virtual-desktop query failed or COM was unavailable.
    pub on_current_virtual_desktop: Option<bool>,
}

#[derive(Debug, Clone, Copy, PartialEq, Eq, Structural)]
pub enum SpatialRejection {
    DifferentMonitor,
    NotOnCurrentVirtualDesktop,
    MonitorUnavailable,
    VirtualDesktopUnavailable,
}

#[derive(Debug, Clone, Copy, PartialEq, Eq, Structural)]
pub enum SpatialDecision {
    Eligible,
    Ineligible(SpatialRejection),
}

impl SpatialDecision {
    pub fn is_eligible(&self) -> (b: bool)
        ensures
            b == (*self is Eligible),
    {
        match self {
            SpatialDecision::Eligible => true,
            SpatialDecision::Ineligible(_) => false,
        }
    }
}

pub open spec fn spec_evaluate_spatial(ctx: SpatialContext, facts: SpatialFacts) -> SpatialDecision {
    match ctx.origin_monitor {
        None => SpatialDecision::Ineligible(SpatialRejection::MonitorUnavailable),
        Some(origin) => match facts.candidate_monitor {
            None => SpatialDecision::Ineligible(SpatialRejection::MonitorUnavailable),
            Some(candidate) => if origin != candidate {
                SpatialDecision::Ineligible(SpatialRejection::DifferentMonitor)
            } else {
                match facts.on_current_virtual_desktop {
                    None => SpatialDecision::Ineligible(SpatialRejection::VirtualDesktopUnavailable),
                    Some(false) => SpatialDecision::Ineligible(
                        SpatialRejection::NotOnCurrentVirtualDesktop,
                    ),
                    Some(true) => SpatialDecision::Eligible,
                }
            },
        },
    }
}

/// Decide spatial eligibility. Fails closed on any uncertainty.
pub fn evaluate_spatial(ctx: &SpatialContext, facts: &SpatialFacts) -> (d: SpatialDecision)
    ensures
        d == spec_evaluate_spatial(*ctx, *facts),
{
    let origin = match ctx.origin_monitor {
        Some(o) => o,
        None => return SpatialDecision::Ineligible(SpatialRejection::MonitorUnavailable),
    };
    let candidate = match facts.candidate_monitor {
        Some(c) => c,
        None => return SpatialDecision::Ineligible(SpatialRejection::MonitorUnavailable),
    };
    if origin != candidate {
        return SpatialDecision::Ineligible(SpatialRejection::DifferentMonitor);
    }
    match facts.on_current_virtual_desktop {
        None => SpatialDecision::Ineligible(SpatialRejection::VirtualDesktopUnavailable),
        Some(false) => SpatialDecision::Ineligible(SpatialRejection::NotOnCurrentVirtualDesktop),
        Some(true) => SpatialDecision::Eligible,
    }
}

/// Spatial eligibility fails closed: a candidate is eligible exactly when its
/// monitor and the origin monitor are both known and equal and it is known to
/// be on the current virtual desktop.
pub proof fn lemma_spatial_fails_closed(ctx: SpatialContext, facts: SpatialFacts)
    ensures
        (spec_evaluate_spatial(ctx, facts) is Eligible) <==> (ctx.origin_monitor is Some
            && facts.candidate_monitor == ctx.origin_monitor && facts.on_current_virtual_desktop
            == Some(true)),
{
}

/// What is known about the foreground window when a shortcut arrives; either
/// field is `None` when its lookup failed.
#[derive(Debug, Clone, PartialEq, Eq, Default)]
pub struct ForegroundIdentity {
    /// Executable basename, compared case-insensitively.
    pub process: Option<String>,
    pub class: Option<String>,
}

#[derive(Debug, Clone, Copy, PartialEq, Eq, Structural)]
pub enum BypassReason {
    ProcessMatch,
    ClassMatch,
    /// Foreground could not be identified well enough to confirm a non-match.
    IdentityUnavailable,
}

#[derive(Debug, Clone, Copy, PartialEq, Eq, Structural)]
pub enum BypassDecision {
    /// Let the physical key combination through untouched.
    Passthrough(BypassReason),
    /// Confirmed non-match: the shortcut may be handled.
    ContinueWiraDeskMatching,
}

impl BypassDecision {
    pub fn is_passthrough(&self) -> (b: bool)
        ensures
            b == (*self is Passthrough),
    {
        match self {
            BypassDecision::Passthrough(_) => true,
            BypassDecision::ContinueWiraDeskMatching => false,
        }
    }
}

/// Immutable, pre-normalized bypass policy: lowercase, trimmed, non-empty
/// process and class identifiers.
#[derive(Debug, Clone, PartialEq, Eq, Default)]
pub struct BypassPolicy {
    processes: Vec<String>,
    classes: Vec<String>,
}

/// The texts of a list of strings.
pub open spec fn texts(v: Seq<String>) -> Seq<Seq<char>> {
    v.map_values(|s: String| s@)
}

/// Some entry of `entries` equals `needle` ignoring ASCII case.
pub open spec fn any_eq_ignore_case(entries: Seq<Seq<char>>, needle: Seq<char>) -> bool {
    exists|i: int| 0 <= i < entries.len() && eq_ignore_case(#[trigger] entries[i], needle)
}

/// The classification of a foreground identity against entry lists.
pub open spec fn spec_classify(processes: Seq<Seq<char>>, classes: Seq<Seq<char>>, process: Option<Seq<char>>, class: Option<Seq<char>>) -> BypassDecision {
    if process is Some && any_eq_ignore_case(processes, process->Some_0) {
        BypassDecision::Passthrough(BypassReason::ProcessMatch)
    } else if class is Some && any_eq_ignore_case(classes, class->Some_0) {
        BypassDecision::Passthrough(BypassReason::ClassMatch)
    } else if process is None || class is None {
        BypassDecision::Passthrough(BypassReason::IdentityUnavailable)
    } else {
        BypassDecision::ContinueWiraDeskMatching
    }
}

/// The normalized form of configured identifiers: trimmed, lowercased, and
/// with empty entries dropped, in configured order.
pub open spec fn normalized_identifiers(raw: Seq<Seq<char>>) -> Seq<Seq<char>>
    decreases raw.len(),
{
    if raw.len() == 0 {
        Seq::empty()
    } else {
        let rest = normalized_identifiers(raw.drop_last());
        let t = trimmed(raw.last());
        if t.len() == 0 {
            rest
        } else {
            rest.push(lower_seq(t))
        }
    }
}

pub open spec fn opt_text(s: Option<String>) -> Option<Seq<char>> {
    match s {
        Some(x) => Some(x@),
        None => None,
    }
}

/// Normalize configured identifiers.
fn normalize_identifiers(raw: &Vec<String>) -> (out: Vec<String>)
    ensures
        texts(out@) == normalized_identifiers(texts(raw@)),
{
    let mut out: Vec<String> = Vec::new();
    let n = raw.len();
    let mut i: usize = 0;
    while i < n
        invariant
            n == raw@.len(),
            i <= n,
            texts(out@) == normalized_identifiers(texts(raw@).take(i as int)),
        decreases n - i,
    {
        let s = raw[i].as_str();
        let (lo, hi) = trim_bounds(s, 0);
        proof {
            assert(texts(raw@).take(i + 1).drop_last() =~= texts(raw@).take(i as int));
            assert(texts(raw@).take(i + 1).last() == raw@[i as int]@);
            assert(s@.subrange(0, s@.len() as int) =~= s@);
        }
        if lo < hi {
            let e = lowercase_range(s, lo, hi);
            out.push(e);
            proof {
                assert(texts(out@) =~= normalized_identifiers(texts(raw@).take(i + 1)));
            }
        }
        i = i + 1;
    }
    proof {
        assert(texts(raw@).take(n as int) =~= texts(raw@));
    }
    out
}

/// Allocation-free membership test against pre-normalized entries.
fn contains_ignore_case(haystack: &Vec<String>, needle: &str) -> (b: bool)
    ensures
        b == any_eq_ignore_case(texts(haystack@), needle@),
{
    let n = haystack.len();
    let mut i: usize = 0;
    while i < n
        invariant
            n == haystack@.len(),
            i <= n,
            forall|j: int| 0 <= j < i ==> !eq_ignore_case(#[trigger] texts(haystack@)[j], needle@),
        decreases n - i,
    {
        if str_eq_ignore_ascii_case(haystack[i].as_str(), needle) {
            assert(eq_ignore_case(texts(haystack@)[i as int], needle@));
            return true;
        }
        i = i + 1;
    }
    false
}

impl BypassPolicy {
    pub closed spec fn process_entries(&self) -> Seq<Seq<char>> {
        texts(self.processes@)
    }

    pub closed spec fn class_entries(&self) -> Seq<Seq<char>> {
        texts(self.classes@)
    }

    /// Normalize configuration into runtime policy data.
    pub fn from_config(cfg: &VmBypassConfig) -> (p: Self)
        ensures
            p.process_entries() == normalized_identifiers(texts(cfg.bypass_processes@)),
            p.class_entries() == normalized_identifiers(texts(cfg.bypass_classes@)),
    {
        BypassPolicy {
            processes: normalize_identifiers(&cfg.bypass_processes),
            classes: normalize_identifiers(&cfg.bypass_classes),
        }
    }

    pub fn processes(&self) -> (r: &[String])
        ensures
            texts(r@) == self.process_entries(),
    {
        self.processes.as_slice()
    }

    pub fn classes(&self) -> (r: &[String])
        ensures
            texts(r@) == self.class_entries(),
    {
        self.classes.as_slice()
    }

    /// Classify the foreground. Fails open on uncertainty: only a confirmed
    /// non-match of two known identifiers continues to shortcut matching.
    pub fn classify(&self, identity: &ForegroundIdentity) -> (d: BypassDecision)
        ensures
            d == spec_classify(
                self.process_entries(),
                self.class_entries(),
                opt_text(identity.process),
                opt_text(identity.class),
            ),
    {
        if let Some(process) = &identity.process {
            if contains_ignore_case(&self.processes, process.as_str()) {
                return BypassDecision::Passthrough(BypassReason::ProcessMatch);
            }
        }
        if let Some(class) = &identity.class {
            if contains_ignore_case(&self.classes, class.as_str()) {
                return BypassDecision::Passthrough(BypassReason::ClassMatch);
            }
        }
        if identity.process.is_none() || identity.class.is_none() {
            return BypassDecision::Passthrough(BypassReason::IdentityUnavailable);
        }
        BypassDecision::ContinueWiraDeskMatching
    }
}

/// The bypass fails open: a shortcut is handled only when both identifiers
/// are known and neither matches, and a positive match wins even when the
/// other identifier is unknown.
pub proof fn lemma_bypass_fails_open(processes: Seq<Seq<char>>, classes: Seq<Seq<char>>, process: Option<Seq<char>>, class: Option<Seq<char>>)
    ensures
        (spec_classify(processes, classes, process, class) is ContinueWiraDeskMatching) <==> (
        process is Some && class is Some && !any_eq_ignore_case(processes, process->Some_0)
            && !any_eq_ignore_case(classes, class->Some_0)),
        (process is Some && any_eq_ignore_case(processes, process->Some_0)) ==> spec_classify(
            processes,
            classes,
            process,
            class,
        ) == BypassDecision::Passthrough(BypassReason::ProcessMatch),
{
}

/// Resolves a window's physical monitor.
pub trait MonitorSource {
    fn monitor_of(&self, window: WindowId) -> Option<MonitorId>;
}

/// Answers virtual-desktop membership.
pub trait VirtualDesktopSource {
    fn is_on_current_desktop(&self, window: WindowId) -> Option<bool>;
}

/// Supplies foreground process and class identity.
pub trait ForegroundIdentitySource {
    fn foreground_identity(&self) -> ForegroundIdentity;
}

/// Gather spatial facts for one candidate: ask the monitor source and then
/// the desktop source about `candidate`, once each, and pass their answers
/// on unchanged.
pub fn collect_spatial_facts<M, V>(monitors: &mut Observed<M>, desktops: &mut Observed<V>, candidate: WindowId) -> (f: SpatialFacts) where
    M: MonitorSource,
    V: VirtualDesktopSource,
    ensures
        final(monitors).calls() == old(monitors).calls().push(SeamCall::MonitorOf(candidate, f.candidate_monitor)),
        final(desktops).calls() == old(desktops).calls().push(
            SeamCall::OnCurrentDesktop(candidate, f.on_current_virtual_desktop),
        ),
{
    let candidate_monitor = monitors.monitor_of(candidate);
    let on_current_virtual_desktop = desktops.is_on_current_desktop(candidate);
    SpatialFacts { candidate_monitor, on_current_virtual_desktop }
}

/// Resolve the origin monitor once for a cycle operation: the monitor
/// source's answer for `origin`, unchanged.
pub fn capture_spatial_context<M>(monitors: &mut Observed<M>, origin: WindowId) -> (c: SpatialContext) where
    M: MonitorSource,
    ensures
        final(monitors).calls() == old(monitors).calls().push(SeamCall::MonitorOf(origin, c.origin_monitor)),
{
    SpatialContext { origin_monitor: monitors.monitor_of(origin) }
}

/// Adapter used when COM is unavailable: every answer is unknown, so every
/// candidate is rejected.
pub struct UnavailableVirtualDesktops;

impl VirtualDesktopSource for UnavailableVirtualDesktops {
    fn is_on_current_desktop(&self, window: WindowId) -> (r: Option<bool>)
        ensures
            r is None,
    {
        None
    }
}

} // verus!
