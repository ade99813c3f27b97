//! Same-application window cycling: identities, captured window facts, the
//! least-recently-used cycle order, and one deterministic cycle pass.

use vstd::prelude::*;

use crate::context::SpatialFacts;
use crate::observed::{Observed, SeamCall};

use crate::text::{
    eq_ignore_case, lower_seq, lowercase_range, str_eq_ignore_ascii_case, trim_bounds, trimmed,
};

pub mod eligibility;
pub mod selection;

verus! {

/// Opaque window handle, kept as a plain integer.
#[derive(Debug, Clone, Copy, PartialEq, Eq, Hash, Structural)]
pub struct WindowId(pub isize);

/// Window classes that carry a frozen eligibility decision.
pub const CLASS_GHOST: &'static str = "Ghost";
pub const CLASS_SHELL_TRAY: &'static str = "Shell_TrayWnd";
pub const CLASS_SHELL_SECONDARY_TRAY: &'static str = "Shell_SecondaryTrayWnd";
pub const CLASS_PROGMAN: &'static str = "Progman";
pub const CLASS_WORKERW: &'static str = "WorkerW";

/// Shell surfaces excluded regardless of style bits.
pub const SHELL_SURFACE_CLASSES: [&'static str; 4] = [
    CLASS_SHELL_TRAY,
    CLASS_SHELL_SECONDARY_TRAY,
    CLASS_PROGMAN,
    CLASS_WORKERW,
];

pub open spec fn is_sep(c: char) -> bool {
    c == '\\' || c == '/'
}

/// `k` is where the basename of `p` starts: just after the last separator.
pub open spec fn is_basename_start(p: Seq<char>, k: int) -> bool {
    &&& 0 <= k <= p.len()
    &&& (k == 0 || is_sep(p[k - 1]))
    &&& forall|j: int| k <= j < p.len() ==> !is_sep(#[trigger] p[j])
}

pub open spec fn basename_start(p: Seq<char>) -> int {
    choose|k: int| is_basename_start(p, k)
}

pub open spec fn basename(p: Seq<char>) -> Seq<char> {
    p.subrange(basename_start(p), p.len() as int)
}

/// The identity key of a process image path: the basename after the last `\`
/// or `/`, trimmed of whitespace and ASCII-lowercased; `None` when empty.
pub open spec fn normalize_spec(p: Seq<char>) -> Option<Seq<char>> {
    let t = trimmed(basename(p));
    if t.len() == 0 {
        None
    } else {
        Some(lower_seq(t))
    }
}

proof fn lemma_basename_start_unique(p: Seq<char>, k: int)
    requires
        is_basename_start(p, k),
    ensures
        basename_start(p) == k,
{
    let c = basename_start(p);
    assert(is_basename_start(p, c));
    if c < k {
        assert(!is_sep(p[k - 1]));
    }
    if k < c {
        assert(!is_sep(p[c - 1]));
    }
}

/// Normalize a process image path to a case-insensitive executable basename.
pub fn normalize_executable(path: &str) -> (res: Option<String>)
    ensures
        match normalize_spec(path@) {
            None => res is None,
            Some(s) => res is Some && res->Some_0@ == s,
        },
{
    let n = path.unicode_len();
    let mut start = n;
    while start > 0
        invariant
            start <= n == path@.len(),
            forall|j: int| start <= j < n ==> !is_sep(#[trigger] path@[j]),
        ensures
            start <= n,
            forall|j: int| start <= j < n ==> !is_sep(#[trigger] path@[j]),
            start == 0 || is_sep(path@[start - 1]),
        decreases start,
    {
        let c = path.get_char(start - 1);
        if c == '\\' || c == '/' {
            break;
        }
        start = start - 1;
    }
    proof {
        lemma_basename_start_unique(path@, start as int);
    }
    let (lo, hi) = trim_bounds(path, start);
    proof {
        let b = path@.subrange(start as int, n as int);
        assert(b =~= path@.subrange(start as int, path@.len() as int));
    }
    if lo == hi {
        None
    } else {
        Some(lowercase_range(path, lo, hi))
    }
}

/// Application identity: the case-insensitive executable basename. A process
/// id is deliberately absent.
#[derive(Debug, Clone, PartialEq, Eq)]
pub enum AppIdentity {
    /// Normalized lowercase executable basename, e.g. `notepad.exe`.
    Executable(String),
    /// The process vanished or denied access. Never matches anything.
    Unavailable,
}

impl View for AppIdentity {
    type V = Option<Seq<char>>;

    open spec fn view(&self) -> Option<Seq<char>> {
        match self {
            AppIdentity::Executable(s) => Some(s@),
            AppIdentity::Unavailable => None,
        }
    }
}

/// Two identities name the same application: both are known and equal.
pub open spec fn same_app(a: Option<Seq<char>>, b: Option<Seq<char>>) -> bool {
    a is Some && b is Some && a->Some_0 == b->Some_0
}

impl AppIdentity {
    /// Build an identity from a full process image path; a vanished or
    /// inaccessible process degrades to `Unavailable`.
    pub fn from_process_path(path: Option<&str>) -> (id: AppIdentity)
        ensures
            id@ == (match path {
                None => None,
                Some(p) => normalize_spec(p@),
            }),
    {
        match path {
            None => AppIdentity::Unavailable,
            Some(p) => match normalize_executable(p) {
                Some(name) => AppIdentity::Executable(name),
                None => AppIdentity::Unavailable,
            },
        }
    }

    /// Same-application test. `Unavailable` never matches, not even another
    /// `Unavailable`.
    pub fn same_application(&self, other: &AppIdentity) -> (b: bool)
        ensures
            b == same_app(self@, other@),
    {
        match (self, other) {
            (AppIdentity::Executable(a), AppIdentity::Executable(b)) => a.eq(b),
            _ => false,
        }
    }

    pub fn is_available(&self) -> (b: bool)
        ensures
            b == (self@ is Some),
    {
        match self {
            AppIdentity::Executable(_) => true,
            AppIdentity::Unavailable => false,
        }
    }
}

/// Immutable facts captured for one window during one snapshot. There is no
/// responsiveness fact: a window marked Not Responding stays eligible.
#[derive(Debug, Clone, PartialEq, Eq)]
pub struct WindowFacts {
    pub window: WindowId,
    pub visible: bool,
    /// Hidden by the compositor rather than by style bits; a separate fact
    /// from `visible`, which stays true for a cloaked window.
    pub cloaked: bool,
    pub iconic: bool,
    pub tool_window: bool,
    pub class_name: String,
    pub identity: AppIdentity,
}

pub open spec fn is_shell_class(class: Seq<char>) -> bool {
    eq_ignore_case(CLASS_SHELL_TRAY@, class) || eq_ignore_case(CLASS_SHELL_SECONDARY_TRAY@, class)
        || eq_ignore_case(CLASS_PROGMAN@, class) || eq_ignore_case(CLASS_WORKERW@, class)
}

pub open spec fn is_ghost_class(class: Seq<char>) -> bool {
    eq_ignore_case(CLASS_GHOST@, class)
}

impl WindowFacts {
    pub fn is_shell_surface(&self) -> (b: bool)
        ensures
            b == is_shell_class(self.class_name@),
    {
        let class = self.class_name.as_str();
        str_eq_ignore_ascii_case(CLASS_SHELL_TRAY, class) || str_eq_ignore_ascii_case(
            CLASS_SHELL_SECONDARY_TRAY,
            class,
        ) || str_eq_ignore_ascii_case(CLASS_PROGMAN, class) || str_eq_ignore_ascii_case(
            CLASS_WORKERW,
            class,
        )
    }

    pub fn is_ghost(&self) -> (b: bool)
        ensures
            b == is_ghost_class(self.class_name@),
    {
        str_eq_ignore_ascii_case(CLASS_GHOST, self.class_name.as_str())
    }
}

/// One ordered candidate from a single Z-order snapshot; `z_index` is 0 for
/// the topmost window.
#[derive(Debug, Clone, PartialEq, Eq)]
pub struct Candidate {
    pub z_index: usize,
    pub facts: WindowFacts,
}

/// Active-window context, sampled once per cycle command.
#[derive(Debug, Clone, PartialEq, Eq)]
pub struct ActiveContext {
    pub foreground: WindowId,
    pub identity: AppIdentity,
}

/// Why a candidate was excluded from the cycle.
#[derive(Debug, Clone, Copy, PartialEq, Eq, Structural)]
pub enum ExclusionReason {
    Hidden,
    Cloaked,
    Iconic,
    ToolWindow,
    GhostWindow,
    ShellSurface,
    DifferentApplication,
    UnavailableIdentity,
}

/// Eligibility decision for one candidate.
#[derive(Debug, Clone, Copy, PartialEq, Eq, Structural)]
pub enum Eligibility {
    Eligible,
    Excluded(ExclusionReason),
}

impl Eligibility {
    pub fn is_eligible(&self) -> (b: bool)
        ensures
            b == (*self is Eligible),
    {
        match self {
            Eligibility::Eligible => true,
            Eligibility::Excluded(_) => false,
        }
    }
}

/// Result of choosing the next target from an ordered eligible set.
#[derive(Debug, Clone, PartialEq, Eq, Structural)]
pub enum SelectionResult {
    Target(WindowId),
    NoCandidate,
}

/// Result of one activation attempt.
#[derive(Debug, Clone, Copy, PartialEq, Eq, Structural)]
pub enum ActivationOutcome {
    /// The target is now foreground.
    Activated,
    /// The target vanished or is no longer valid; continue to the next target.
    InvalidTarget,
    /// The attempt failed for another reason; continue to the next target.
    Failed,
}

/// Terminal result of one cycle pass.
#[derive(Debug, Clone, PartialEq, Eq, Structural)]
pub enum CycleOutcome {
    Activated(WindowId),
    /// Every eligible target was attempted once and none activated.
    Exhausted,
    /// No candidate survived eligibility.
    NoEligibleTarget,
}

/// Supplies one fresh top-to-bottom Z-order snapshot.
pub trait CandidateSource {
    fn snapshot(&self) -> Vec<Candidate>;
}

/// Decides eligibility of one candidate.
pub trait EligibilityPolicy {
    fn evaluate(&self, active: &ActiveContext, candidate: &Candidate) -> Eligibility;
}

/// Performs one activation attempt.
pub trait Activator {
    fn activate(&mut self, target: WindowId) -> ActivationOutcome;
}

/// The windows of a snapshot, in snapshot order.
pub open spec fn windows_of(candidates: Seq<Candidate>) -> Seq<WindowId> {
    candidates.map_values(|c: Candidate| c.facts.window)
}

/// Least-recently-used-first order: rotate the snapshot to start just after the
/// active window (which is left out), then reverse. With no active window in
/// the snapshot, the whole snapshot reversed.
pub open spec fn cycle_order_spec(ws: Seq<WindowId>, foreground: WindowId) -> Seq<WindowId> {
    match ws.index_of_first(foreground) {
        Some(p) => (ws.subrange(p + 1, ws.len() as int) + ws.subrange(0, p)).reverse(),
        None => ws.reverse(),
    }
}

/// Order the candidates least-recently-used first.
pub fn cycle_order(candidates: &[Candidate], active: &ActiveContext) -> (order: Vec<WindowId>)
    ensures
        order@ == cycle_order_spec(windows_of(candidates@), active.foreground),
{
    let ghost ws = windows_of(candidates@);
    let n = candidates.len();
    let mut pos: usize = 0;
    while pos < n
        invariant
            n == candidates@.len() == ws.len(),
            ws == windows_of(candidates@),
            pos <= n,
            forall|j: int| 0 <= j < pos ==> ws[j] != active.foreground,
        ensures
            pos <= n,
            forall|j: int| 0 <= j < pos ==> ws[j] != active.foreground,
            pos < n ==> ws[pos as int] == active.foreground,
        decreases n - pos,
    {
        if candidates[pos].facts.window == active.foreground {
            break;
        }
        pos = pos + 1;
    }
    proof {
        ws.index_of_first_ensures(active.foreground);
        if pos < n {
            assert(ws[pos as int] == active.foreground);
            assert(ws.contains(active.foreground));
            let p = ws.index_of_first(active.foreground)->Some_0;
            if p < pos {
                assert(ws[p] != active.foreground);
            }
            if pos < p {
                assert(ws[pos as int] != active.foreground);
            }
        } else {
            assert forall|j: int| 0 <= j < ws.len() implies ws[j] != active.foreground by {}
            assert(!ws.contains(active.foreground));
        }
    }
    // The rotation, built back to front so the result is already reversed.
    let ghost rotated = if pos < n {
        ws.subrange(pos + 1, n as int) + ws.subrange(0, pos as int)
    } else {
        ws
    };
    let mut order: Vec<WindowId> = Vec::new();
    if pos < n {
        let mut i = pos;
        while i > 0
            invariant
                pos < n == candidates@.len() == ws.len(),
                ws == windows_of(candidates@),
                i <= pos,
                order@ == ws.subrange(i as int, pos as int).reverse(),
            decreases i,
        {
            order.push(candidates[i - 1].facts.window);
            proof {
                assert(order@ =~= ws.subrange(i - 1, pos as int).reverse());
            }
            i = i - 1;
        }
        let mut k = n;
        while k > pos + 1
            invariant
                pos < n == candidates@.len() == ws.len(),
                ws == windows_of(candidates@),
                pos + 1 <= k <= n,
                order@ == (ws.subrange(k as int, n as int) + ws.subrange(0, pos as int)).reverse(),
            decreases k,
        {
            order.push(candidates[k - 1].facts.window);
            proof {
                assert(order@ =~= (ws.subrange(k - 1, n as int) + ws.subrange(0, pos as int)).reverse());
            }
            k = k - 1;
        }
    } else {
        let mut k = n;
        while k > 0
            invariant
                n == candidates@.len() == ws.len(),
                ws == windows_of(candidates@),
                k <= n,
                order@ == ws.subrange(k as int, n as int).reverse(),
            decreases k,
        {
            order.push(candidates[k - 1].facts.window);
            proof {
                assert(order@ =~= ws.subrange(k - 1, n as int).reverse());
            }
            k = k - 1;
        }
        proof {
            assert(ws.subrange(0, n as int) =~= ws);
        }
    }
    order
}


proof fn lemma_reverse_membership<A>(s: Seq<A>)
    ensures
        s.reverse().len() == s.len(),
        forall|x: A| s.reverse().contains(x) <==> s.contains(x),
        s.no_duplicates() ==> s.reverse().no_duplicates(),
{
    let r = s.reverse();
    assert forall|x: A| r.contains(x) implies s.contains(x) by {
        let i = choose|i: int| 0 <= i < r.len() && r[i] == x;
        assert(s[s.len() - 1 - i] == x);
    }
    assert forall|x: A| s.contains(x) implies r.contains(x) by {
        let i = choose|i: int| 0 <= i < s.len() && s[i] == x;
        assert(r[s.len() - 1 - i] == x);
    }
    if s.no_duplicates() {
        assert forall|i: int, j: int| 0 <= i < r.len() && 0 <= j < r.len() && i != j implies r[i]
            != r[j] by {
            assert(r[i] == s[s.len() - 1 - i]);
            assert(r[j] == s[s.len() - 1 - j]);
        }
    }
}

/// For a snapshot that names each window once, the cycle order is every
/// snapshot window except the active one, each exactly once: repeated presses
/// can reach all of them and never re-offer the window already in front.
pub proof fn lemma_cycle_order_covers_others_once(ws: Seq<WindowId>, foreground: WindowId)
    requires
        ws.no_duplicates(),
    ensures
        ({
            let order = cycle_order_spec(ws, foreground);
            &&& order.no_duplicates()
            &&& !order.contains(foreground)
            &&& forall|w: WindowId| order.contains(w) <==> (ws.contains(w) && w != foreground)
            &&& order.len() == if ws.contains(foreground) { ws.len() - 1 } else { ws.len() as int }
        }),
{
    ws.index_of_first_ensures(foreground);
    match ws.index_of_first(foreground) {
        Some(p) => {
            let a = ws.subrange(p + 1, ws.len() as int);
            let b = ws.subrange(0, p);
            let rot = a + b;
            assert forall|i: int| 0 <= i < rot.len() implies #[trigger] rot[i] == (if i < a.len() {
                ws[p + 1 + i]
            } else {
                ws[i - a.len()]
            }) by {}
            assert forall|w: WindowId| rot.contains(w) <==> (ws.contains(w) && w != foreground) by {
                if rot.contains(w) {
                    let i = choose|i: int| 0 <= i < rot.len() && rot[i] == w;
                    if i < a.len() {
                        assert(ws[p + 1 + i] == w);
                    } else {
                        assert(ws[i - a.len()] == w);
                    }
                }
                if ws.contains(w) && w != foreground {
                    let k = choose|k: int| 0 <= k < ws.len() && ws[k] == w;
                    assert(k != p);
                    if k > p {
                        assert(rot[k - p - 1] == w);
                    } else {
                        assert(rot[a.len() + k] == w);
                    }
                }
            }
            assert forall|i: int, j: int| 0 <= i < rot.len() && 0 <= j < rot.len() && i != j implies rot[i]
                != rot[j] by {
                let ii = if i < a.len() { p + 1 + i } else { i - a.len() };
                let jj = if j < a.len() { p + 1 + j } else { j - a.len() };
                assert(rot[i] == ws[ii]);
                assert(rot[j] == ws[jj]);
            }
            lemma_reverse_membership(rot);
        },
        None => {
            lemma_reverse_membership(ws);
        },
    }
}


/// The windows kept by `keep`, in order: a filter that removes and never
/// reorders.
pub open spec fn kept(ws: Seq<WindowId>, keep: Seq<bool>) -> Seq<WindowId>
    decreases ws.len(),
{
    if ws.len() == 0 || keep.len() == 0 {
        Seq::empty()
    } else {
        let rest = kept(ws.drop_last(), keep.drop_last());
        if keep.last() {
            rest.push(ws.last())
        } else {
            rest
        }
    }
}

/// `sub` is `ws` with some windows removed and the rest in their order.
pub open spec fn is_filter_of(sub: Seq<WindowId>, ws: Seq<WindowId>) -> bool {
    exists|keep: Seq<bool>| keep.len() == ws.len() && #[trigger] kept(ws, keep) == sub
}

/// A record of one cycle pass, for contracts: the snapshot, the eligibility
/// verdict for each candidate, the spatial facts gathered for each candidate
/// (by the context-safe pass only), the windows kept, and the windows handed
/// to the activator in order with the answer to each.
pub struct CyclePass {
    pub candidates: Seq<Candidate>,
    pub verdicts: Seq<Eligibility>,
    pub facts: Seq<SpatialFacts>,
    pub eligible: Seq<WindowId>,
    pub attempted: Seq<WindowId>,
    pub outcomes: Seq<ActivationOutcome>,
}

/// Which candidates the eligibility verdicts keep.
pub open spec fn policy_keep(verdicts: Seq<Eligibility>) -> Seq<bool> {
    verdicts.map_values(|v: Eligibility| v is Eligible)
}

/// The windows of `order` that are among `eligible`, in `order`'s order.
pub open spec fn pass_targets(order: Seq<WindowId>, eligible: Seq<WindowId>) -> Seq<WindowId>
    decreases order.len(),
{
    if order.len() == 0 {
        Seq::empty()
    } else {
        let rest = pass_targets(order.drop_last(), eligible);
        if eligible.contains(order.last()) {
            rest.push(order.last())
        } else {
            rest
        }
    }
}

/// The targets of a prefix of the order are a prefix of the targets.
pub proof fn lemma_pass_targets_prefix(order: Seq<WindowId>, eligible: Seq<WindowId>, i: int)
    requires
        0 <= i <= order.len(),
    ensures
        pass_targets(order.take(i), eligible).len() <= pass_targets(order, eligible).len(),
        pass_targets(order, eligible).take(pass_targets(order.take(i), eligible).len() as int)
            == pass_targets(order.take(i), eligible),
    decreases order.len() - i,
{
    if i == order.len() {
        assert(order.take(i) =~= order);
    } else {
        lemma_pass_targets_prefix(order, eligible, i + 1);
        assert(order.take(i + 1).drop_last() =~= order.take(i));
        let a = pass_targets(order.take(i), eligible);
        let b = pass_targets(order.take(i + 1), eligible);
        let t = pass_targets(order, eligible);
        assert(b.take(a.len() as int) =~= a);
        assert(t.take(a.len() as int) =~= t.take(b.len() as int).take(a.len() as int));
    }
}

/// `outcome`, `attempted` and `outcomes` are one pass over `targets` (the
/// eligible windows in cycle order): the windows handed to the activator are
/// the first targets, in order, each once; every answer but the last is a
/// refusal; the pass stops at the first activation, which is its outcome, or
/// is exhausted after every target refused; and it reports no target, with
/// nothing attempted, exactly when nothing was eligible.
pub open spec fn attempts_explain(
    outcome: CycleOutcome,
    has_eligible: bool,
    targets: Seq<WindowId>,
    attempted: Seq<WindowId>,
    outcomes: Seq<ActivationOutcome>,
) -> bool {
    &&& outcomes.len() == attempted.len()
    &&& attempted.len() <= targets.len()
    &&& attempted == targets.take(attempted.len() as int)
    &&& forall|i: int| 0 <= i < outcomes.len() - 1 ==> !(#[trigger] outcomes[i] is Activated)
    &&& match outcome {
        CycleOutcome::NoEligibleTarget => !has_eligible && attempted.len() == 0,
        CycleOutcome::Activated(w) => has_eligible && attempted.len() > 0 && outcomes.last()
            is Activated && w == attempted.last(),
        CycleOutcome::Exhausted => has_eligible && attempted == targets && forall|i: int|
            0 <= i < outcomes.len() ==> !(#[trigger] outcomes[i] is Activated),
    }
}

/// `outcome` is what the pass recorded in `p` gives: its eligible windows
/// are tried in cycle order (least recently used first) until one activates.
pub open spec fn pass_explains(outcome: CycleOutcome, p: CyclePass, foreground: WindowId) -> bool {
    attempts_explain(
        outcome,
        p.eligible.len() > 0,
        pass_targets(cycle_order_spec(windows_of(p.candidates), foreground), p.eligible),
        p.attempted,
        p.outcomes,
    )
}

/// The policy calls that judge every candidate of `cands`, in order, and
/// the verdict each returned.
pub open spec fn evaluations(active: ActiveContext, cands: Seq<Candidate>, verdicts: Seq<Eligibility>) -> Seq<SeamCall> {
    Seq::new(cands.len(), |i: int| SeamCall::Evaluate(active, cands[i], verdicts[i]))
}

/// The activator calls for `attempted`, in order, and the answer to each.
pub open spec fn activations(attempted: Seq<WindowId>, outcomes: Seq<ActivationOutcome>) -> Seq<SeamCall> {
    Seq::new(attempted.len(), |i: int| SeamCall::Activate(attempted[i], outcomes[i]))
}

/// The windows of `candidates` that `policy` finds eligible, in snapshot
/// order; the policy is asked about every candidate once, in order, and the
/// verdicts it gave are returned beside the windows.
pub(crate) fn eligible_windows<P: EligibilityPolicy>(candidates: &[Candidate], policy: &mut Observed<P>, active: &ActiveContext) -> (r: (Vec<WindowId>, Ghost<Seq<Eligibility>>))
    ensures
        r.1@.len() == candidates@.len(),
        r.0@ == kept(windows_of(candidates@), policy_keep(r.1@)),
        final(policy).calls() == old(policy).calls() + evaluations(*active, candidates@, r.1@),
{
    let ghost ws = windows_of(candidates@);
    let ghost start = policy.calls();
    let mut eligible: Vec<WindowId> = Vec::new();
    let ghost mut verdicts: Seq<Eligibility> = Seq::empty();
    let n = candidates.len();
    let mut i: usize = 0;
    while i < n
        invariant
            n == candidates@.len() == ws.len(),
            ws == windows_of(candidates@),
            i <= n,
            verdicts.len() == i,
            kept(ws.take(i as int), policy_keep(verdicts)) == eligible@,
            policy.calls() == start + evaluations(*active, candidates@.take(i as int), verdicts),
        decreases n - i,
    {
        let v = policy.evaluate(active, &candidates[i]);
        let take = v.is_eligible();
        proof {
            assert(ws.take(i + 1).drop_last() =~= ws.take(i as int));
            assert(ws.take(i + 1).last() == ws[i as int]);
            assert(policy_keep(verdicts.push(v)).drop_last() =~= policy_keep(verdicts));
            assert(policy_keep(verdicts.push(v)).last() == take);
            assert(evaluations(*active, candidates@.take(i + 1), verdicts.push(v)) =~= evaluations(
                *active,
                candidates@.take(i as int),
                verdicts,
            ).push(SeamCall::Evaluate(*active, candidates@[i as int], v)));
        }
        if take {
            eligible.push(candidates[i].facts.window);
        }
        proof {
            verdicts = verdicts.push(v);
        }
        i = i + 1;
    }
    proof {
        assert(ws.take(n as int) =~= ws);
        assert(candidates@.take(n as int) =~= candidates@);
    }
    (eligible, Ghost(verdicts))
}

/// One pass over a captured snapshot: hand each eligible window to the
/// activator at most once, in cycle order, and stop at the first
/// activation. Returns the windows attempted and the answer to each, which
/// are exactly the calls made through `activator`.
pub(crate) fn run_pass<A: Activator>(candidates: &[Candidate], eligible: &[WindowId], activator: &mut Observed<A>, active: &ActiveContext) -> (r: (CycleOutcome, Ghost<(Seq<WindowId>, Seq<ActivationOutcome>)>))
    ensures
        attempts_explain(
            r.0,
            eligible@.len() > 0,
            pass_targets(cycle_order_spec(windows_of(candidates@), active.foreground), eligible@),
            r.1@.0,
            r.1@.1,
        ),
        final(activator).calls() == old(activator).calls() + activations(r.1@.0, r.1@.1),
{
    let ghost start = activator.calls();
    if eligible.len() == 0 {
        proof {
            let t = pass_targets(cycle_order_spec(windows_of(candidates@), active.foreground), eligible@);
            assert(t.take(0) =~= Seq::<WindowId>::empty());
            assert(start + activations(Seq::empty(), Seq::empty()) =~= start);
        }
        return (CycleOutcome::NoEligibleTarget, Ghost((Seq::empty(), Seq::empty())));
    }
    let order = cycle_order(candidates, active);
    let ghost targets = pass_targets(order@, eligible@);
    let ghost mut attempted: Seq<WindowId> = Seq::empty();
    let ghost mut outcomes: Seq<ActivationOutcome> = Seq::empty();
    proof {
        assert(start + activations(attempted, outcomes) =~= start);
    }
    let n = order.len();
    let mut i: usize = 0;
    while i < n
        invariant
            n == order@.len(),
            order@ == cycle_order_spec(windows_of(candidates@), active.foreground),
            targets == pass_targets(order@, eligible@),
            i <= n,
            eligible@.len() > 0,
            attempted == pass_targets(order@.take(i as int), eligible@),
            outcomes.len() == attempted.len(),
            forall|j: int| 0 <= j < outcomes.len() ==> !(#[trigger] outcomes[j] is Activated),
            activator.calls() == start + activations(attempted, outcomes),
            start == old(activator).calls(),
        decreases n - i,
    {
        let target = order[i];
        proof {
            assert(order@.take(i + 1).drop_last() =~= order@.take(i as int));
            assert(order@.take(i + 1).last() == target);
            lemma_pass_targets_prefix(order@, eligible@, i + 1);
        }
        if selection::contains_window(eligible, target) {
            let answer = activator.activate(target);
            proof {
                assert(activations(attempted.push(target), outcomes.push(answer)) =~= activations(
                    attempted,
                    outcomes,
                ).push(SeamCall::Activate(target, answer)));
                assert(start + activations(attempted, outcomes).push(SeamCall::Activate(target, answer))
                    =~= (start + activations(attempted, outcomes)).push(SeamCall::Activate(target, answer)));
                attempted = attempted.push(target);
                outcomes = outcomes.push(answer);
                assert(activator.calls() == start + activations(attempted, outcomes));
            }
            if answer == ActivationOutcome::Activated {
                proof {
                    assert(attempted == pass_targets(order@.take(i + 1), eligible@));
                }
                return (CycleOutcome::Activated(target), Ghost((attempted, outcomes)));
            }
        }
        i = i + 1;
    }
    proof {
        assert(order@.take(n as int) =~= order@);
        assert(attempted == targets);
        assert(targets.take(targets.len() as int) =~= targets);
    }
    (CycleOutcome::Exhausted, Ghost((attempted, outcomes)))
}

/// Drive one deterministic cycle pass: take one snapshot, ask the policy
/// about every candidate, and hand each eligible window to the activator at
/// most once in cycle order, least recently used first, stopping at the
/// first that activates. The record returned beside the outcome is exactly
/// what the three seams were asked and answered.
pub fn run_cycle<S, P, A>(source: &mut Observed<S>, policy: &mut Observed<P>, activator: &mut Observed<A>, active: &ActiveContext) -> (r: (CycleOutcome, Ghost<CyclePass>)) where
    S: CandidateSource,
    P: EligibilityPolicy,
    A: Activator,
    ensures
        final(source).calls() == old(source).calls().push(SeamCall::Snapshot(r.1@.candidates)),
        r.1@.verdicts.len() == r.1@.candidates.len(),
        final(policy).calls() == old(policy).calls() + evaluations(*active, r.1@.candidates, r.1@.verdicts),
        r.1@.eligible == kept(windows_of(r.1@.candidates), policy_keep(r.1@.verdicts)),
        final(activator).calls() == old(activator).calls() + activations(r.1@.attempted, r.1@.outcomes),
        pass_explains(r.0, r.1@, active.foreground),
{
    let candidates = source.snapshot();
    let (eligible, verdicts) = eligible_windows(&candidates, policy, active);
    let (outcome, trace) = run_pass(&candidates, &eligible, activator, active);
    let ghost pass = CyclePass {
        candidates: candidates@,
        verdicts: verdicts@,
        facts: Seq::empty(),
        eligible: eligible@,
        attempted: trace@.0,
        outcomes: trace@.1,
    };
    (outcome, Ghost(pass))
}

/// Number the windows of one top-to-bottom sweep: each candidate's
/// `z_index` is its position, so indexes are dense and ordered.
pub fn candidates_in_z_order(facts: Vec<WindowFacts>) -> (c: Vec<Candidate>)
    ensures
        c@.len() == facts@.len(),
        forall|i: int| 0 <= i < c@.len() ==> #[trigger] c@[i] == (Candidate { z_index: i as usize, facts: facts@[i] }),
{
    let ghost orig = facts@;
    let n = facts.len();
    let mut rest = facts;
    let mut reversed: Vec<WindowFacts> = Vec::new();
    while rest.len() > 0
        invariant
            n == orig.len(),
            rest@.len() <= n,
            rest@ == orig.take(rest@.len() as int),
            reversed@ == orig.subrange(rest@.len() as int, n as int).reverse(),
        decreases rest@.len(),
    {
        let ghost k = rest@.len();
        let f = rest.pop().unwrap();
        reversed.push(f);
        proof {
            assert(rest@ =~= orig.take(k - 1));
            assert(reversed@ =~= orig.subrange(k - 1, n as int).reverse());
        }
    }
    let mut out: Vec<Candidate> = Vec::new();
    let mut i: usize = 0;
    while i < n
        invariant
            n == orig.len(),
            i <= n,
            reversed@ == orig.subrange(i as int, n as int).reverse(),
            out@.len() == i,
            forall|j: int| 0 <= j < i ==> #[trigger] out@[j] == (Candidate { z_index: j as usize, facts: orig[j] }),
        decreases n - i,
    {
        let f = reversed.pop().unwrap();
        assert(f == orig[i as int]);
        out.push(Candidate { z_index: i, facts: f });
        proof {
            assert(reversed@ =~= orig.subrange(i + 1, n as int).reverse());
        }
        i = i + 1;
    }
    out
}

/// UTF-16 units the executable-path lookup may write: the extended-length
/// path limit, so long paths are never silently truncated.
pub const IMAGE_PATH_CAPACITY: usize = 32_768;

/// The state of one top-to-bottom window sweep: the facts collected so far,
/// and one scratch buffer reused for every window's executable path.
pub struct Sweep {
    pub facts: Vec<WindowFacts>,
    pub path: Vec<u16>,
}

impl Sweep {
    /// A sweep with no facts and a zeroed scratch buffer of full path
    /// capacity.
    pub fn new() -> (s: Self)
        ensures
            s.facts@.len() == 0,
            s.path@.len() == IMAGE_PATH_CAPACITY,
            forall|i: int| 0 <= i < IMAGE_PATH_CAPACITY ==> #[trigger] s.path@[i] == 0u16,
    {
        let path: Vec<u16> = vec![0u16; IMAGE_PATH_CAPACITY];
        Sweep { facts: Vec::new(), path }
    }

    /// The swept windows as candidates, numbered top to bottom.
    pub fn into_candidates(self) -> (c: Vec<Candidate>)
        ensures
            c@.len() == self.facts@.len(),
            forall|i: int| 0 <= i < c@.len() ==> #[trigger] c@[i] == (Candidate { z_index: i as usize, facts: self.facts@[i] }),
    {
        candidates_in_z_order(self.facts)
    }
}

} // verus!
