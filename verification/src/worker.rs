//! The worker's decisions: decoding the commands the hook enqueued, the
//! context-safe cycle (eligibility, then the spatial gate, then cycle order),
//! the candidates an overlapping stack arranges, and the plan each snap
//! command asks for.

use vstd::prelude::*;

use crate::arrangement::monitor::{next_monitor_index, plan_move_to_monitor, spec_move_to_monitor};
use crate::arrangement::snap::{
    plan_snap_left, plan_snap_maximize, plan_snap_right, spec_snap_left, spec_snap_maximize,
    spec_snap_right,
};
use crate::arrangement::{plan_matches, PlanResult, Rect, WorkArea};
use crate::command::{command_of_byte, Command};
use crate::context::{
    collect_spatial_facts, evaluate_spatial, spec_evaluate_spatial, MonitorId, MonitorSource,
    SpatialContext, SpatialFacts, VirtualDesktopSource,
};
use crate::cycling::{
    activations, evaluations, is_filter_of, kept, pass_explains, run_pass, windows_of, ActiveContext,
    Candidate, CandidateSource, CycleOutcome, CyclePass, Eligibility, EligibilityPolicy, Activator,
    WindowId,
};
use crate::observed::{masked, optional_calls, Observed, SeamCall};
use crate::ring::{pop, CommandRing};

verus! {

/// Take the oldest command off the ring and decode it; `None` when the ring
/// is drained.
pub fn next_command(ring: &mut CommandRing) -> (c: Option<Command>)
    requires
        old(ring).wf(),
    ensures
        final(ring).wf(),
        old(ring)@.len() == 0 ==> c is None && final(ring)@ == old(ring)@,
        old(ring)@.len() > 0 ==> c == Some(command_of_byte(old(ring)@[0])) && final(ring)@ == old(
            ring,
        )@.drop_first(),
{
    match pop(ring) {
        Some(raw) => Some(Command::from_u8(raw)),
        None => None,
    }
}

/// Spatial gate for one candidate: it fails closed, asking nothing, when the
/// virtual-desktop source is unavailable; otherwise it asks both sources
/// about the candidate once each and is the spatial verdict on their
/// answers, which are returned beside it.
pub fn context_allows<M, V>(
    monitors: &mut Observed<M>,
    desktops: &mut Option<Observed<V>>,
    spatial: &SpatialContext,
    candidate: &Candidate,
) -> (r: (bool, Ghost<SpatialFacts>)) where M: MonitorSource, V: VirtualDesktopSource,
    ensures
        (*final(desktops) is Some) == (*old(desktops) is Some),
        *old(desktops) is None ==> !r.0 && final(monitors).calls() == old(monitors).calls(),
        *old(desktops) is Some ==> r.0 == (spec_evaluate_spatial(*spatial, r.1@) is Eligible)
            && final(monitors).calls() == old(monitors).calls().push(
            SeamCall::MonitorOf(candidate.facts.window, r.1@.candidate_monitor),
        ) && optional_calls(*final(desktops)) == optional_calls(*old(desktops)).push(
            SeamCall::OnCurrentDesktop(candidate.facts.window, r.1@.on_current_virtual_desktop),
        ),
        spatial.origin_monitor is None ==> !r.0,
{
    match desktops {
        Some(d) => {
            let facts = collect_spatial_facts(monitors, d, candidate.facts.window);
            (evaluate_spatial(spatial, &facts).is_eligible(), Ghost(facts))
        },
        None => (false, Ghost(SpatialFacts { candidate_monitor: None, on_current_virtual_desktop: None })),
    }
}

/// Which candidates the context-safe pass keeps: eligible by the policy,
/// and, with a virtual-desktop source, eligible by the spatial gate.
pub open spec fn context_keep(
    verdicts: Seq<Eligibility>,
    facts: Seq<SpatialFacts>,
    has_desktops: bool,
    spatial: SpatialContext,
) -> Seq<bool> {
    Seq::new(
        verdicts.len(),
        |i: int|
            verdicts[i] is Eligible && has_desktops && spec_evaluate_spatial(spatial, facts[i]) is Eligible,
    )
}

/// The candidates the spatial sources are asked about: those the policy
/// found eligible, and only when there is a virtual-desktop source.
pub open spec fn spatial_asked(verdicts: Seq<Eligibility>, has_desktops: bool) -> Seq<bool> {
    Seq::new(verdicts.len(), |i: int| verdicts[i] is Eligible && has_desktops)
}

/// The monitor-source calls for the windows `ws`, with the answers in `facts`.
pub open spec fn monitor_queries(ws: Seq<WindowId>, facts: Seq<SpatialFacts>) -> Seq<SeamCall> {
    Seq::new(facts.len(), |i: int| SeamCall::MonitorOf(ws[i], facts[i].candidate_monitor))
}

/// The desktop-source calls for the windows `ws`, with the answers in `facts`.
pub open spec fn desktop_queries(ws: Seq<WindowId>, facts: Seq<SpatialFacts>) -> Seq<SeamCall> {
    Seq::new(facts.len(), |i: int| SeamCall::OnCurrentDesktop(ws[i], facts[i].on_current_virtual_desktop))
}

/// Capture the candidates once and keep the windows that pass both the
/// eligibility policy and the spatial gate, in snapshot order. The policy is
/// asked about every candidate, in order; the two spatial sources only about
/// those it found eligible, and only when there is a desktop source. Returns
/// the snapshot, the kept windows, and the verdicts and spatial answers.
pub fn collect_eligible_candidates<S, P, M, V>(
    source: &mut Observed<S>,
    policy: &mut Observed<P>,
    active: &ActiveContext,
    monitors: &mut Observed<M>,
    desktops: &mut Option<Observed<V>>,
    spatial: &SpatialContext,
) -> (r: (Vec<Candidate>, Vec<WindowId>, Ghost<(Seq<Eligibility>, Seq<SpatialFacts>)>)) where
    S: CandidateSource,
    P: EligibilityPolicy,
    M: MonitorSource,
    V: VirtualDesktopSource,
    ensures
        final(source).calls() == old(source).calls().push(SeamCall::Snapshot(r.0@)),
        r.2@.0.len() == r.0@.len(),
        r.2@.1.len() == r.0@.len(),
        final(policy).calls() == old(policy).calls() + evaluations(*active, r.0@, r.2@.0),
        (*final(desktops) is Some) == (*old(desktops) is Some),
        final(monitors).calls() == old(monitors).calls() + masked(
            monitor_queries(windows_of(r.0@), r.2@.1),
            spatial_asked(r.2@.0, *old(desktops) is Some),
        ),
        optional_calls(*final(desktops)) == optional_calls(*old(desktops)) + masked(
            desktop_queries(windows_of(r.0@), r.2@.1),
            spatial_asked(r.2@.0, *old(desktops) is Some),
        ),
        r.1@ == kept(windows_of(r.0@), context_keep(r.2@.0, r.2@.1, *old(desktops) is Some, *spatial)),
        is_filter_of(r.1@, windows_of(r.0@)),
        (*old(desktops) is None || spatial.origin_monitor is None) ==> r.1@.len() == 0,
{
    let candidates = source.snapshot();
    let ghost ws = windows_of(candidates@);
    let ghost with_desktops = desktops.is_some();
    let ghost p0 = policy.calls();
    let ghost m0 = monitors.calls();
    let ghost d0 = optional_calls(*desktops);
    let mut eligible: Vec<WindowId> = Vec::new();
    let ghost mut verdicts: Seq<Eligibility> = Seq::empty();
    let ghost mut facts: Seq<SpatialFacts> = Seq::empty();
    proof {
        assert(p0 + evaluations(*active, candidates@.take(0), verdicts) =~= p0);
        assert(m0 + masked(monitor_queries(ws, facts), spatial_asked(verdicts, with_desktops)) =~= m0);
        assert(d0 + masked(desktop_queries(ws, facts), spatial_asked(verdicts, with_desktops)) =~= d0);
    }
    let n = candidates.len();
    let mut i: usize = 0;
    while i < n
        invariant
            n == candidates@.len() == ws.len(),
            ws == windows_of(candidates@),
            i <= n,
            verdicts.len() == i,
            facts.len() == i,
            with_desktops == (*desktops is Some),
            kept(ws.take(i as int), context_keep(verdicts, facts, with_desktops, *spatial)) == eligible@,
            (!with_desktops || spatial.origin_monitor is None) ==> eligible@.len() == 0,
            policy.calls() == p0 + evaluations(*active, candidates@.take(i as int), verdicts),
            monitors.calls() == m0 + masked(monitor_queries(ws, facts), spatial_asked(verdicts, with_desktops)),
            optional_calls(*desktops) == d0 + masked(desktop_queries(ws, facts), spatial_asked(verdicts, with_desktops)),
        decreases n - i,
    {
        let c = &candidates[i];
        let v = policy.evaluate(active, c);
        let ghost mut f = SpatialFacts { candidate_monitor: None, on_current_virtual_desktop: None };
        let mut take = false;
        if v.is_eligible() {
            let (allowed, gathered) = context_allows(monitors, desktops, spatial, c);
            take = allowed;
            proof {
                f = gathered@;
            }
        }
        proof {
            let k0 = context_keep(verdicts, facts, with_desktops, *spatial);
            let k1 = context_keep(verdicts.push(v), facts.push(f), with_desktops, *spatial);
            assert(k1.drop_last() =~= k0);
            assert(k1.last() == take);
            assert(ws.take(i + 1).drop_last() =~= ws.take(i as int));
            assert(ws.take(i + 1).last() == ws[i as int]);
            assert(evaluations(*active, candidates@.take(i + 1), verdicts.push(v)) =~= evaluations(
                *active,
                candidates@.take(i as int),
                verdicts,
            ).push(SeamCall::Evaluate(*active, candidates@[i as int], v)));
            let a1 = spatial_asked(verdicts.push(v), with_desktops);
            assert(a1.drop_last() =~= spatial_asked(verdicts, with_desktops));
            assert(monitor_queries(ws, facts.push(f)).drop_last() =~= monitor_queries(ws, facts));
            assert(desktop_queries(ws, facts.push(f)).drop_last() =~= desktop_queries(ws, facts));
            let mq = masked(monitor_queries(ws, facts), spatial_asked(verdicts, with_desktops));
            let dq = masked(desktop_queries(ws, facts), spatial_asked(verdicts, with_desktops));
            if a1.last() {
                assert(m0 + mq.push(SeamCall::MonitorOf(ws[i as int], f.candidate_monitor)) =~= (m0 + mq).push(
                    SeamCall::MonitorOf(ws[i as int], f.candidate_monitor),
                ));
                assert(d0 + dq.push(SeamCall::OnCurrentDesktop(ws[i as int], f.on_current_virtual_desktop))
                    =~= (d0 + dq).push(SeamCall::OnCurrentDesktop(ws[i as int], f.on_current_virtual_desktop)));
            }
        }
        if take {
            eligible.push(c.facts.window);
        }
        proof {
            verdicts = verdicts.push(v);
            facts = facts.push(f);
        }
        i = i + 1;
    }
    proof {
        assert(ws.take(n as int) =~= ws);
        assert(candidates@.take(n as int) =~= candidates@);
        assert(context_keep(verdicts, facts, with_desktops, *spatial).len() == ws.len());
    }
    (candidates, eligible, Ghost((verdicts, facts)))
}

/// One context-safe cycle pass: take one snapshot, keep the windows that
/// pass both the policy and the spatial gate (which only removes candidates
/// and never reorders them), and hand the kept windows to the activator at
/// most once each in cycle order, least recently used first, until one
/// activates. The record returned beside the outcome is exactly what the
/// seams were asked and answered.
pub fn run_context_safe_cycle<S, P, A, M, V>(
    source: &mut Observed<S>,
    policy: &mut Observed<P>,
    activator: &mut Observed<A>,
    active: &ActiveContext,
    monitors: &mut Observed<M>,
    desktops: &mut Option<Observed<V>>,
    spatial: &SpatialContext,
) -> (r: (CycleOutcome, Ghost<CyclePass>)) where
    S: CandidateSource,
    P: EligibilityPolicy,
    A: Activator,
    M: MonitorSource,
    V: VirtualDesktopSource,
    ensures
        final(source).calls() == old(source).calls().push(SeamCall::Snapshot(r.1@.candidates)),
        r.1@.verdicts.len() == r.1@.candidates.len(),
        r.1@.facts.len() == r.1@.candidates.len(),
        final(policy).calls() == old(policy).calls() + evaluations(*active, r.1@.candidates, r.1@.verdicts),
        (*final(desktops) is Some) == (*old(desktops) is Some),
        final(monitors).calls() == old(monitors).calls() + masked(
            monitor_queries(windows_of(r.1@.candidates), r.1@.facts),
            spatial_asked(r.1@.verdicts, *old(desktops) is Some),
        ),
        optional_calls(*final(desktops)) == optional_calls(*old(desktops)) + masked(
            desktop_queries(windows_of(r.1@.candidates), r.1@.facts),
            spatial_asked(r.1@.verdicts, *old(desktops) is Some),
        ),
        r.1@.eligible == kept(
            windows_of(r.1@.candidates),
            context_keep(r.1@.verdicts, r.1@.facts, *old(desktops) is Some, *spatial),
        ),
        final(activator).calls() == old(activator).calls() + activations(r.1@.attempted, r.1@.outcomes),
        pass_explains(r.0, r.1@, active.foreground),
        (*old(desktops) is None || spatial.origin_monitor is None) ==> r.0 == CycleOutcome::NoEligibleTarget
            && final(activator).calls() == old(activator).calls(),
{
    let ghost a0 = activator.calls();
    let (candidates, eligible, seen) = collect_eligible_candidates(
        source,
        policy,
        active,
        monitors,
        desktops,
        spatial,
    );
    let (outcome, trace) = run_pass(&candidates, &eligible, activator, active);
    let ghost pass = CyclePass {
        candidates: candidates@,
        verdicts: seen@.0,
        facts: seen@.1,
        eligible: eligible@,
        attempted: trace@.0,
        outcomes: trace@.1,
    };
    proof {
        if trace@.0.len() == 0 {
            assert(a0 + activations(trace@.0, trace@.1) =~= a0);
        }
    }
    (outcome, Ghost(pass))
}

/// Which candidates an overlapping stack keeps: eligible by the policy, with
/// the origin monitor known and the candidate on it.
pub open spec fn stack_keep(
    verdicts: Seq<Eligibility>,
    origin: Option<MonitorId>,
    candidate_monitors: Seq<Option<MonitorId>>,
) -> Seq<bool> {
    Seq::new(
        verdicts.len(),
        |i: int| verdicts[i] is Eligible && origin is Some && candidate_monitors[i] == origin,
    )
}

/// The candidates whose monitor an overlapping stack asks for: those the
/// policy found eligible, once the origin monitor is known.
pub open spec fn stack_asked(verdicts: Seq<Eligibility>, origin: Option<MonitorId>) -> Seq<bool> {
    Seq::new(verdicts.len(), |i: int| verdicts[i] is Eligible && origin is Some)
}

/// The monitor-source calls for the windows `ws`, with the answers `mons`.
pub open spec fn monitor_answers(ws: Seq<WindowId>, mons: Seq<Option<MonitorId>>) -> Seq<SeamCall> {
    Seq::new(mons.len(), |i: int| SeamCall::MonitorOf(ws[i], mons[i]))
}

/// The windows an overlapping stack arranges: eligible windows on the origin
/// window's monitor, in snapshot order; none when the origin monitor is
/// unknown. The monitor source is asked first about the foreground window,
/// then about each eligible candidate once the origin is known; the policy
/// about every candidate. Returned beside the windows: the origin monitor,
/// and the verdict and monitor found for each candidate.
pub fn stack_candidates<P, M>(
    candidates: &[Candidate],
    policy: &mut Observed<P>,
    active: &ActiveContext,
    monitors: &mut Observed<M>,
) -> (r: (Vec<WindowId>, Ghost<(Option<MonitorId>, Seq<Eligibility>, Seq<Option<MonitorId>>)>)) where P: EligibilityPolicy, M: MonitorSource,
    ensures
        r.1@.1.len() == candidates@.len(),
        r.1@.2.len() == candidates@.len(),
        final(policy).calls() == old(policy).calls() + evaluations(*active, candidates@, r.1@.1),
        final(monitors).calls() == old(monitors).calls().push(SeamCall::MonitorOf(active.foreground, r.1@.0))
            + masked(monitor_answers(windows_of(candidates@), r.1@.2), stack_asked(r.1@.1, r.1@.0)),
        r.0@ == kept(windows_of(candidates@), stack_keep(r.1@.1, r.1@.0, r.1@.2)),
        is_filter_of(r.0@, windows_of(candidates@)),
        r.1@.0 is None ==> r.0@.len() == 0,
{
    let origin = monitors.monitor_of(active.foreground);
    let ghost ws = windows_of(candidates@);
    let ghost p0 = policy.calls();
    let ghost m0 = monitors.calls();
    let mut out: Vec<WindowId> = Vec::new();
    let ghost mut verdicts: Seq<Eligibility> = Seq::empty();
    let ghost mut mons: Seq<Option<MonitorId>> = Seq::empty();
    proof {
        assert(p0 + evaluations(*active, candidates@.take(0), verdicts) =~= p0);
        assert(m0 + masked(monitor_answers(ws, mons), stack_asked(verdicts, origin)) =~= m0);
    }
    let n = candidates.len();
    let mut i: usize = 0;
    while i < n
        invariant
            n == candidates@.len() == ws.len(),
            ws == windows_of(candidates@),
            i <= n,
            verdicts.len() == i,
            mons.len() == i,
            kept(ws.take(i as int), stack_keep(verdicts, origin, mons)) == out@,
            origin is None ==> out@.len() == 0,
            policy.calls() == p0 + evaluations(*active, candidates@.take(i as int), verdicts),
            monitors.calls() == m0 + masked(monitor_answers(ws, mons), stack_asked(verdicts, origin)),
        decreases n - i,
    {
        let c = &candidates[i];
        let mut take = false;
        let v = policy.evaluate(active, c);
        let ghost mut found: Option<MonitorId> = None;
        if v.is_eligible() {
            if let Some(o) = origin {
                let m = monitors.monitor_of(c.facts.window);
                proof {
                    found = m;
                }
                if let Some(m) = m {
                    take = m == o;
                }
            }
        }
        proof {
            let k0 = stack_keep(verdicts, origin, mons);
            let k1 = stack_keep(verdicts.push(v), origin, mons.push(found));
            assert(k1.drop_last() =~= k0);
            assert(k1.last() == take);
            assert(ws.take(i + 1).drop_last() =~= ws.take(i as int));
            assert(ws.take(i + 1).last() == ws[i as int]);
            assert(evaluations(*active, candidates@.take(i + 1), verdicts.push(v)) =~= evaluations(
                *active,
                candidates@.take(i as int),
                verdicts,
            ).push(SeamCall::Evaluate(*active, candidates@[i as int], v)));
            let a1 = stack_asked(verdicts.push(v), origin);
            assert(a1.drop_last() =~= stack_asked(verdicts, origin));
            assert(monitor_answers(ws, mons.push(found)).drop_last() =~= monitor_answers(ws, mons));
            let mq = masked(monitor_answers(ws, mons), stack_asked(verdicts, origin));
            if a1.last() {
                assert(m0 + mq.push(SeamCall::MonitorOf(ws[i as int], found)) =~= (m0 + mq).push(
                    SeamCall::MonitorOf(ws[i as int], found),
                ));
            }
        }
        if take {
            out.push(c.facts.window);
        }
        proof {
            verdicts = verdicts.push(v);
            mons = mons.push(found);
        }
        i = i + 1;
    }
    proof {
        assert(ws.take(n as int) =~= ws);
        assert(candidates@.take(n as int) =~= candidates@);
        assert(stack_keep(verdicts, origin, mons).len() == ws.len());
    }
    (out, Ghost((origin, verdicts, mons)))
}

/// The geometric plan a snap command asks for; `None` for a command that is
/// not a snap.
pub fn plan_snap_command(command: Command, work_area: &WorkArea, target: WindowId) -> (r: Option<PlanResult>)
    ensures
        (command == Command::SnapLeft || command == Command::SnapRight || command
            == Command::SnapMaximize) <==> r is Some,
        command == Command::SnapLeft ==> plan_matches(r->Some_0, target, spec_snap_left(*work_area)),
        command == Command::SnapRight ==> plan_matches(r->Some_0, target, spec_snap_right(*work_area)),
        command == Command::SnapMaximize ==> plan_matches(
            r->Some_0,
            target,
            spec_snap_maximize(*work_area),
        ),
{
    match command {
        Command::SnapLeft => Some(plan_snap_left(work_area, target)),
        Command::SnapRight => Some(plan_snap_right(work_area, target)),
        Command::SnapMaximize => Some(plan_snap_maximize(work_area, target)),
        _ => None,
    }
}

/// What moving the active window to the next monitor comes to.
#[derive(Debug)]
pub enum MonitorMove {
    /// The window lies on no enumerated monitor.
    NoMonitor,
    /// Fewer than two monitors: a successful no-op.
    SingleMonitor,
    /// The window's current rect could not be read.
    NoWindowRect,
    /// The plan for the next monitor in enumeration order.
    Planned(PlanResult),
}

/// `m` is the decision for a move to the next monitor: no monitor when the
/// window's index is missing or out of range, a no-op for a single monitor,
/// a failure when the rect is unreadable, and otherwise the proportional plan
/// onto the next monitor in enumeration order (wrapping).
pub open spec fn monitor_move_matches(
    m: MonitorMove,
    monitors: Seq<WorkArea>,
    from: Option<usize>,
    window: WindowId,
    window_rect: Option<Rect>,
) -> bool {
    match from {
        None => m is NoMonitor,
        Some(f) => if f >= monitors.len() {
            m is NoMonitor
        } else if monitors.len() < 2 {
            m is SingleMonitor
        } else {
            match window_rect {
                None => m is NoWindowRect,
                Some(wr) => match m {
                    MonitorMove::Planned(p) => plan_matches(
                        p,
                        window,
                        spec_move_to_monitor(monitors[f as int], monitors[(f + 1) % monitors.len() as int], wr),
                    ),
                    _ => false,
                },
            }
        },
    }
}

/// Decide a move to the next monitor. `monitors` are the work areas in
/// enumeration order, read fresh for this keypress; `from` is the index of
/// the monitor the window is on (`None` if it is on none of them); and
/// `window_rect` its outer rect, when it could be read. The monitor count
/// is checked before the rect is needed.
pub fn plan_monitor_move(
    monitors: &Vec<WorkArea>,
    from: Option<usize>,
    window: WindowId,
    window_rect: Option<Rect>,
) -> (m: MonitorMove)
    ensures
        monitor_move_matches(m, monitors@, from, window, window_rect),
{
    let f = match from {
        Some(f) => f,
        None => return MonitorMove::NoMonitor,
    };
    if f >= monitors.len() {
        return MonitorMove::NoMonitor;
    }
    let to = match next_monitor_index(monitors.len(), f) {
        Some(t) => t,
        None => return MonitorMove::SingleMonitor,
    };
    let wr = match window_rect {
        Some(r) => r,
        None => return MonitorMove::NoWindowRect,
    };
    MonitorMove::Planned(plan_move_to_monitor(&monitors[f], &monitors[to], window, wr))
}

} // verus!
