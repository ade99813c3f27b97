//! A seam, observed: each trait object the library drives is held in an
//! [`Observed`] that records, as ghost state, every call made through it and
//! what the call returned. Contracts of the functions that drive a seam speak
//! of that record, so they say which calls were made, in which order, and
//! what became of each answer.

use vstd::prelude::*;

use crate::arrangement::{Placement, WindowMover};
use crate::config::{ActorSink, AutoStartControl, ConfigSource, HookSnapshot, WarnSink, WorkerSnapshot};
use crate::context::{MonitorId, MonitorSource, VirtualDesktopSource};
use crate::cycling::{
    ActivationOutcome, Activator, ActiveContext, Candidate, CandidateSource, Eligibility,
    EligibilityPolicy, WindowId,
};

verus! {

/// The entries of `xs` whose flag in `keep` is set, in order.
pub open spec fn masked<T>(xs: Seq<T>, keep: Seq<bool>) -> Seq<T>
    decreases xs.len(),
{
    if xs.len() == 0 || keep.len() == 0 {
        Seq::empty()
    } else {
        let rest = masked(xs.drop_last(), keep.drop_last());
        if keep.last() {
            rest.push(xs.last())
        } else {
            rest
        }
    }
}

/// Calls through an optional seam; none when it is absent.
pub open spec fn optional_calls<T>(o: Option<Observed<T>>) -> Seq<SeamCall> {
    match o {
        Some(x) => x.calls(),
        None => Seq::empty(),
    }
}

/// One call through a seam and its answer.
pub enum SeamCall {
    Snapshot(Seq<Candidate>),
    Evaluate(ActiveContext, Candidate, Eligibility),
    Activate(WindowId, ActivationOutcome),
    MonitorOf(WindowId, Option<MonitorId>),
    OnCurrentDesktop(WindowId, Option<bool>),
    Restore(WindowId),
    Apply(Placement, bool),
    DeliverHook(bool),
    DeliverWorker,
    IsRegistered(bool),
    Enable(bool),
    Disable(bool),
    Warn(Seq<char>),
    Read(Option<Seq<char>>),
}

/// A seam and the calls made through it so far, oldest first.
pub struct Observed<T> {
    inner: T,
    log: Ghost<Seq<SeamCall>>,
}

impl<T> Observed<T> {
    /// The calls made through this seam so far, oldest first.
    pub closed spec fn calls(&self) -> Seq<SeamCall> {
        self.log@
    }

    /// The seam itself.
    pub closed spec fn seam(&self) -> T {
        self.inner
    }

    /// Observe `inner`, with no call made yet.
    pub fn new(inner: T) -> (o: Self)
        ensures
            o.calls() == Seq::<SeamCall>::empty(),
            o.seam() == inner,
    {
        Observed { inner, log: Ghost(Seq::empty()) }
    }

    /// The seam, to read what it recorded of its own.
    pub fn inner(&self) -> (r: &T)
        ensures
            *r == self.seam(),
    {
        &self.inner
    }

    /// Give the seam back.
    pub fn into_inner(self) -> (r: T)
        ensures
            r == self.seam(),
    {
        self.inner
    }
}

impl<S: CandidateSource> Observed<S> {
    pub fn snapshot(&mut self) -> (r: Vec<Candidate>)
        ensures
            final(self).calls() == old(self).calls().push(SeamCall::Snapshot(r@)),
    {
        let r = self.inner.snapshot();
        self.log = Ghost(self.log@.push(SeamCall::Snapshot(r@)));
        r
    }
}

impl<P: EligibilityPolicy> Observed<P> {
    pub fn evaluate(&mut self, active: &ActiveContext, candidate: &Candidate) -> (r: Eligibility)
        ensures
            final(self).calls() == old(self).calls().push(
                SeamCall::Evaluate(*active, *candidate, r),
            ),
    {
        let r = self.inner.evaluate(active, candidate);
        self.log = Ghost(self.log@.push(SeamCall::Evaluate(*active, *candidate, r)));
        r
    }
}

impl<A: Activator> Observed<A> {
    pub fn activate(&mut self, target: WindowId) -> (r: ActivationOutcome)
        ensures
            final(self).calls() == old(self).calls().push(SeamCall::Activate(target, r)),
    {
        let r = self.inner.activate(target);
        self.log = Ghost(self.log@.push(SeamCall::Activate(target, r)));
        r
    }
}

impl<M: MonitorSource> Observed<M> {
    pub fn monitor_of(&mut self, window: WindowId) -> (r: Option<MonitorId>)
        ensures
            final(self).calls() == old(self).calls().push(SeamCall::MonitorOf(window, r)),
    {
        let r = self.inner.monitor_of(window);
        self.log = Ghost(self.log@.push(SeamCall::MonitorOf(window, r)));
        r
    }
}

impl<V: VirtualDesktopSource> Observed<V> {
    pub fn is_on_current_desktop(&mut self, window: WindowId) -> (r: Option<bool>)
        ensures
            final(self).calls() == old(self).calls().push(SeamCall::OnCurrentDesktop(window, r)),
    {
        let r = self.inner.is_on_current_desktop(window);
        self.log = Ghost(self.log@.push(SeamCall::OnCurrentDesktop(window, r)));
        r
    }
}

impl<W: WindowMover> Observed<W> {
    pub fn restore(&mut self, window: WindowId)
        ensures
            final(self).calls() == old(self).calls().push(SeamCall::Restore(window)),
    {
        self.inner.restore(window);
        self.log = Ghost(self.log@.push(SeamCall::Restore(window)));
    }

    pub fn apply(&mut self, placement: &Placement) -> (r: bool)
        ensures
            final(self).calls() == old(self).calls().push(SeamCall::Apply(*placement, r)),
    {
        let r = self.inner.apply(placement);
        self.log = Ghost(self.log@.push(SeamCall::Apply(*placement, r)));
        r
    }
}

impl<A: ActorSink> Observed<A> {
    pub fn deliver_hook(&mut self, snapshot: HookSnapshot) -> (r: bool)
        ensures
            final(self).calls() == old(self).calls().push(SeamCall::DeliverHook(r)),
    {
        let r = self.inner.deliver_hook(snapshot);
        self.log = Ghost(self.log@.push(SeamCall::DeliverHook(r)));
        r
    }

    pub fn deliver_worker(&mut self, snapshot: WorkerSnapshot)
        ensures
            final(self).calls() == old(self).calls().push(SeamCall::DeliverWorker),
    {
        self.inner.deliver_worker(snapshot);
        self.log = Ghost(self.log@.push(SeamCall::DeliverWorker));
    }
}

impl<C: AutoStartControl> Observed<C> {
    pub fn is_registered(&mut self) -> (r: bool)
        ensures
            final(self).calls() == old(self).calls().push(SeamCall::IsRegistered(r)),
    {
        let r = self.inner.is_registered();
        self.log = Ghost(self.log@.push(SeamCall::IsRegistered(r)));
        r
    }

    pub fn enable(&mut self) -> (r: bool)
        ensures
            final(self).calls() == old(self).calls().push(SeamCall::Enable(r)),
    {
        let r = self.inner.enable();
        self.log = Ghost(self.log@.push(SeamCall::Enable(r)));
        r
    }

    pub fn disable(&mut self) -> (r: bool)
        ensures
            final(self).calls() == old(self).calls().push(SeamCall::Disable(r)),
    {
        let r = self.inner.disable();
        self.log = Ghost(self.log@.push(SeamCall::Disable(r)));
        r
    }
}

impl<W: WarnSink> Observed<W> {
    pub fn warn(&mut self, message: &str)
        ensures
            final(self).calls() == old(self).calls().push(SeamCall::Warn(message@)),
    {
        self.inner.warn(message);
        self.log = Ghost(self.log@.push(SeamCall::Warn(message@)));
    }
}

impl<S: ConfigSource> Observed<S> {
    pub fn read(&mut self) -> (r: Result<String, ()>)
        ensures
            final(self).calls() == old(self).calls().push(
                SeamCall::Read(
                    match r {
                        Ok(t) => Some(t@),
                        Err(_) => None,
                    },
                ),
            ),
    {
        let r = self.inner.read();
        let ghost text = match &r {
            Ok(t) => Some(t@),
            Err(_) => None,
        };
        self.log = Ghost(self.log@.push(SeamCall::Read(text)));
        r
    }
}

/// A shared reference to a seam is that seam: each call is forwarded.
impl<S: CandidateSource + ?Sized> CandidateSource for &S {
    fn snapshot(&self) -> Vec<Candidate> {
        (**self).snapshot()
    }
}

impl<C: ConfigSource + ?Sized> ConfigSource for &C {
    fn read(&self) -> Result<String, ()> {
        (**self).read()
    }
}

impl<P: EligibilityPolicy + ?Sized> EligibilityPolicy for &P {
    fn evaluate(&self, active: &ActiveContext, candidate: &Candidate) -> Eligibility {
        (**self).evaluate(active, candidate)
    }
}

impl<M: MonitorSource + ?Sized> MonitorSource for &M {
    fn monitor_of(&self, window: WindowId) -> Option<MonitorId> {
        (**self).monitor_of(window)
    }
}

impl<V: VirtualDesktopSource + ?Sized> VirtualDesktopSource for &V {
    fn is_on_current_desktop(&self, window: WindowId) -> Option<bool> {
        (**self).is_on_current_desktop(window)
    }
}

/// A unique reference to a seam is that seam: each call is forwarded.
impl<A: Activator + ?Sized> Activator for &mut A {
    fn activate(&mut self, target: WindowId) -> ActivationOutcome {
        (**self).activate(target)
    }
}

impl<W: WindowMover + ?Sized> WindowMover for &mut W {
    fn restore(&mut self, window: WindowId) {
        (**self).restore(window)
    }

    fn apply(&mut self, placement: &Placement) -> bool {
        (**self).apply(placement)
    }
}

impl<A: ActorSink + ?Sized> ActorSink for &mut A {
    fn deliver_hook(&mut self, snapshot: HookSnapshot) -> bool {
        (**self).deliver_hook(snapshot)
    }

    fn deliver_worker(&mut self, snapshot: WorkerSnapshot) {
        (**self).deliver_worker(snapshot)
    }
}

impl<C: AutoStartControl + ?Sized> AutoStartControl for &mut C {
    fn is_registered(&self) -> bool {
        (**self).is_registered()
    }

    fn enable(&mut self) -> bool {
        (**self).enable()
    }

    fn disable(&mut self) -> bool {
        (**self).disable()
    }
}

impl<W: WarnSink + ?Sized> WarnSink for &mut W {
    fn warn(&mut self, message: &str) {
        (**self).warn(message)
    }
}

} // verus!
