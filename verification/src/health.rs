//! The periodic health check of the configured upstreams.
//!
//! A pass probes every configured upstream, live or not, in the configured
//! order, and then makes those that answered well the live list. A probe that
//! fails counts against its own upstream only: the pass goes on with the next.
//! Between two passes the checker sleeps for its interval.

use crate::message::{Header, HeaderView, Request, RequestView};
use crate::routing::{within, LiveUpstreams};
use crate::status::OK;
use vstd::prelude::*;
use vstd::string::*;
use vstd::utf8::encode_utf8;

verus! {

/// How the probe of one upstream ended.
#[derive(Clone, Copy, Debug, PartialEq, Eq, Structural)]
pub enum ProbeOutcome {
    /// No connection could be made.
    ConnectFailed,
    /// The connection was made, but no response could be read from it.
    NoResponse,
    /// The upstream answered with this status code.
    Status(u16),
}

impl ProbeOutcome {
    /// An upstream is healthy if it answered, and with the status 200.
    pub open spec fn is_healthy(self) -> bool {
        self == ProbeOutcome::Status(OK)
    }

    /// Whether the probed upstream is healthy.
    pub fn healthy(&self) -> (healthy: bool)
        ensures
            healthy == self.is_healthy(),
    {
        match self {
            ProbeOutcome::Status(code) => *code == OK,
            _ => false,
        }
    }
}

/// The probe sent to `upstream`: a `GET` of `path` with the upstream's
/// address as its `Host` and no body.
pub open spec fn probe_of(path: Seq<char>, upstream: Seq<char>) -> RequestView {
    RequestView {
        method: "GET"@,
        target: path,
        headers: seq![HeaderView { name: "Host"@, value: encode_utf8(upstream) }],
        body: Seq::empty(),
    }
}

/// The probe sent to `upstream`.
pub fn probe_request(path: &str, upstream: &str) -> (request: Request)
    ensures
        request@ == probe_of(path@, upstream@),
{
    let mut headers: Vec<Header> = Vec::new();
    headers.push(Header { name: "Host".to_owned(), value: upstream.as_bytes_vec() });
    let request = Request {
        method: "GET".to_owned(),
        target: path.to_owned(),
        headers,
        body: Vec::new(),
    };
    assert(request@.headers =~= probe_of(path@, upstream@).headers);
    request
}

/// Those of `configured` whose probe ended well, in the configured order.
/// The outcome of the upstream at place `i` stands at place `i` of `outcomes`;
/// an upstream without an outcome is not healthy.
pub open spec fn healthy_upstreams(
    configured: Seq<Seq<char>>,
    outcomes: Seq<ProbeOutcome>,
) -> Seq<Seq<char>>
    decreases configured.len(),
{
    if configured.len() == 0 {
        Seq::empty()
    } else {
        let before = healthy_upstreams(configured.drop_last(), outcomes);
        let last = configured.len() - 1;
        if last < outcomes.len() && outcomes[last].is_healthy() {
            before.push(configured.last())
        } else {
            before
        }
    }
}

/// What the caller reports to the checker.
#[derive(Clone, Copy, Debug, PartialEq, Eq, Structural)]
pub enum HealthEvent {
    /// The sleep that was asked for is over.
    Woke,
    /// The probe that was asked for ended in this way.
    Probed(ProbeOutcome),
}

/// What the checker asks of the caller.
#[derive(Clone, Debug, PartialEq, Eq)]
pub enum HealthAction {
    /// Sleep for this many seconds, then report `HealthEvent::Woke`.
    Sleep(usize),
    /// Connect to `upstream`, send it `request`, read one response, and
    /// report how that went with `HealthEvent::Probed`.
    Probe { upstream: String, request: Request },
}

/// What an action holds.
pub enum HealthActionView {
    Sleep(usize),
    Probe { upstream: Seq<char>, request: RequestView },
}

impl View for HealthAction {
    type V = HealthActionView;

    open spec fn view(&self) -> HealthActionView {
        match self {
            HealthAction::Sleep(secs) => HealthActionView::Sleep(*secs),
            HealthAction::Probe { upstream, request } => HealthActionView::Probe {
                upstream: upstream@,
                request: request@,
            },
        }
    }
}

/// Where the checker stands.
pub enum HealthPhase {
    /// Between two passes.
    Sleeping,
    /// In a pass: the upstream at place `next` is being probed, and
    /// `candidates` are the healthy ones among those before it.
    Probing { next: nat, candidates: Seq<Seq<char>> },
}

/// What a checker holds.
pub struct HealthView {
    pub configured: Seq<Seq<char>>,
    pub interval_secs: usize,
    pub path: Seq<char>,
    pub phase: HealthPhase,
}

/// The outcome of one step: the checker and the live list after it, and what
/// the caller is to do next.
pub struct HealthStep {
    pub checker: HealthView,
    pub live: Seq<Seq<char>>,
    pub action: HealthActionView,
}

impl HealthView {
    /// There is an upstream to probe, and a pass stands within the configured list.
    pub open spec fn wf(self) -> bool {
        &&& self.configured.len() > 0
        &&& self.phase matches HealthPhase::Probing { next, candidates } ==> {
            &&& next < self.configured.len()
            &&& within(candidates, self.configured)
        }
    }

    /// The probe of the upstream at place `at`.
    pub open spec fn probe(self, at: int) -> HealthActionView {
        HealthActionView::Probe {
            upstream: self.configured[at],
            request: probe_of(self.path, self.configured[at]),
        }
    }

    /// What the checker waits for the caller to do.
    pub open spec fn pending(self) -> HealthActionView {
        match self.phase {
            HealthPhase::Sleeping => HealthActionView::Sleep(self.interval_secs),
            HealthPhase::Probing { next, candidates } => self.probe(next as int),
        }
    }

    /// One step of the checker, beside a routing state whose configured
    /// list is `known` and whose live list is `live`.
    ///
    /// Waking up starts a pass with the probe of the first upstream. The
    /// outcome of a probe adds its upstream to the candidates if it is
    /// healthy; then the next upstream is probed, or, after the last, the
    /// candidates become the live list and the checker sleeps. They replace the
    /// live list only if the routing state knows each of them, which it does
    /// if its configured list is the checker's. An event that the checker did
    /// not ask for changes nothing: the checker asks again for what it waits for.
    pub open spec fn step(
        self,
        event: HealthEvent,
        known: Seq<Seq<char>>,
        live: Seq<Seq<char>>,
    ) -> HealthStep {
        match self.phase {
            HealthPhase::Sleeping => match event {
                HealthEvent::Woke => HealthStep {
                    checker: HealthView {
                        phase: HealthPhase::Probing { next: 0, candidates: Seq::empty() },
                        ..self
                    },
                    live,
                    action: self.probe(0),
                },
                HealthEvent::Probed(_) => HealthStep { checker: self, live, action: self.pending() },
            },
            HealthPhase::Probing { next, candidates } => match event {
                HealthEvent::Woke => HealthStep { checker: self, live, action: self.pending() },
                HealthEvent::Probed(outcome) => {
                    let found = if outcome.is_healthy() {
                        candidates.push(self.configured[next as int])
                    } else {
                        candidates
                    };
                    if next + 1 < self.configured.len() {
                        HealthStep {
                            checker: HealthView {
                                phase: HealthPhase::Probing {
                                    next: (next + 1) as nat,
                                    candidates: found,
                                },
                                ..self
                            },
                            live,
                            action: self.probe((next + 1) as int),
                        }
                    } else {
                        HealthStep {
                            checker: HealthView { phase: HealthPhase::Sleeping, ..self },
                            live: if within(found, known) {
                                found
                            } else {
                                live
                            },
                            action: HealthActionView::Sleep(self.interval_secs),
                        }
                    }
                },
            },
        }
    }

    /// The checker and the live list after the checker woke up and then got
    /// `outcomes`, one after the other.
    pub open spec fn after_probes(
        self,
        outcomes: Seq<ProbeOutcome>,
        known: Seq<Seq<char>>,
        live: Seq<Seq<char>>,
    ) -> (HealthView, Seq<Seq<char>>)
        decreases outcomes.len(),
    {
        if outcomes.len() == 0 {
            let first = self.step(HealthEvent::Woke, known, live);
            (first.checker, first.live)
        } else {
            let (checker, live_then) = self.after_probes(outcomes.drop_last(), known, live);
            let last = checker.step(HealthEvent::Probed(outcomes.last()), known, live_then);
            (last.checker, last.live)
        }
    }
}

/// An upstream is among the healthy ones exactly if it is configured at a
/// place whose probe ended well. Whether it was live before plays no part.
pub proof fn lemma_healthy_members(configured: Seq<Seq<char>>, outcomes: Seq<ProbeOutcome>)
    ensures
        forall|addr: Seq<char>| #[trigger]
            healthy_upstreams(configured, outcomes).contains(addr) <==> exists|i: int|
                0 <= i < configured.len() && i < outcomes.len() && configured[i] == addr
                    && #[trigger] outcomes[i].is_healthy(),
        within(healthy_upstreams(configured, outcomes), configured),
    decreases configured.len(),
{
    let all = healthy_upstreams(configured, outcomes);
    if configured.len() > 0 {
        let front = configured.drop_last();
        let before = healthy_upstreams(front, outcomes);
        let last = configured.len() - 1;
        lemma_healthy_members(front, outcomes);
        assert forall|addr: Seq<char>| #[trigger]
            all.contains(addr) <==> exists|i: int|
                0 <= i < configured.len() && i < outcomes.len() && configured[i] == addr
                    && #[trigger] outcomes[i].is_healthy() by {
            if all.contains(addr) {
                let j = choose|j: int| 0 <= j < all.len() && all[j] == addr;
                if j < before.len() {
                    assert(before[j] == addr);
                    assert(before.contains(addr));
                    let i = choose|i: int|
                        0 <= i < front.len() && i < outcomes.len() && front[i] == addr
                            && #[trigger] outcomes[i].is_healthy();
                    assert(configured[i] == addr && outcomes[i].is_healthy());
                } else {
                    assert(configured[last] == addr && outcomes[last].is_healthy());
                }
            }
            if exists|i: int|
                0 <= i < configured.len() && i < outcomes.len() && configured[i] == addr
                    && #[trigger] outcomes[i].is_healthy() {
                let i = choose|i: int|
                    0 <= i < configured.len() && i < outcomes.len() && configured[i] == addr
                        && #[trigger] outcomes[i].is_healthy();
                if i < last {
                    assert(front[i] == addr && outcomes[i].is_healthy());
                    assert(before.contains(addr));
                    let j = choose|j: int| 0 <= j < before.len() && before[j] == addr;
                    assert(all[j] == addr);
                } else {
                    assert(all[all.len() - 1] == addr);
                }
            }
        }
        assert forall|k: int| 0 <= k < all.len() implies configured.contains(#[trigger] all[k]) by {
            assert(all.contains(all[k]));
            let i = choose|i: int|
                0 <= i < configured.len() && i < outcomes.len() && configured[i] == all[k]
                    && #[trigger] outcomes[i].is_healthy();
            assert(configured[i] == all[k]);
        }
    }
}

/// The live list changes at the end of a pass only: a step that is not the
/// outcome of the last probe leaves it as it is.
pub proof fn lemma_live_changes_at_pass_end(
    checker: HealthView,
    event: HealthEvent,
    known: Seq<Seq<char>>,
    live: Seq<Seq<char>>,
)
    ensures
        checker.step(event, known, live).live != live ==> event is Probed && (
        checker.phase matches HealthPhase::Probing { next, candidates } && next + 1
            >= checker.configured.len()),
        checker.step(event, known, live).checker.configured == checker.configured,
        checker.step(event, known, live).checker.interval_secs == checker.interval_secs,
        checker.step(event, known, live).checker.path == checker.path,
        checker.wf() ==> checker.step(event, known, live).checker.wf(),
{
    if checker.wf() {
        match checker.phase {
            HealthPhase::Probing { next, candidates } => {
                assert(checker.configured.contains(checker.configured[next as int]));
            },
            HealthPhase::Sleeping => {},
        }
    }
}

/// The healthy upstreams depend on the outcomes at the places of the
/// configured list only.
proof fn lemma_healthy_extends(
    configured: Seq<Seq<char>>,
    outcomes: Seq<ProbeOutcome>,
    more: Seq<ProbeOutcome>,
)
    requires
        configured.len() <= outcomes.len() <= more.len(),
        forall|i: int| 0 <= i < configured.len() ==> outcomes[i] == more[i],
    ensures
        healthy_upstreams(configured, outcomes) == healthy_upstreams(configured, more),
    decreases configured.len(),
{
    if configured.len() > 0 {
        lemma_healthy_extends(configured.drop_last(), outcomes, more);
    }
}

/// In a pass, after the outcomes of the first upstreams, the candidates are
/// the healthy ones among these, the next upstream is being probed, and the
/// live list is still as it was.
proof fn lemma_pass_so_far(
    checker: HealthView,
    outcomes: Seq<ProbeOutcome>,
    known: Seq<Seq<char>>,
    live: Seq<Seq<char>>,
)
    requires
        checker.wf(),
        checker.phase is Sleeping,
        outcomes.len() < checker.configured.len(),
    ensures
        checker.after_probes(outcomes, known, live) == (
            HealthView {
                phase: HealthPhase::Probing {
                    next: outcomes.len(),
                    candidates: healthy_upstreams(
                        checker.configured.take(outcomes.len() as int),
                        outcomes,
                    ),
                },
                ..checker
            },
            live,
        ),
    decreases outcomes.len(),
{
    let done = outcomes.len() as int;
    if done == 0 {
        assert(healthy_upstreams(checker.configured.take(0), outcomes) =~= Seq::empty());
    } else {
        let earlier = outcomes.drop_last();
        lemma_pass_so_far(checker, earlier, known, live);
        let upto = checker.configured.take(done);
        assert(upto.drop_last() =~= checker.configured.take(done - 1));
        assert(upto.last() == checker.configured[done - 1]);
        lemma_healthy_extends(checker.configured.take(done - 1), earlier, outcomes);
    }
}

/// A whole pass makes the healthy upstreams the live list.
///
/// If the checker, asleep beside a routing state with the same configured
/// list, wakes up and gets the outcome of one probe for each configured
/// upstream, then it is asleep again, and the live list holds the upstreams
/// whose probe ended well, in the configured order, and no other. So an
/// upstream that had left the live list is back once it answers well, and
/// one that was live leaves once it does not.
pub proof fn lemma_pass_rebuilds_live(
    checker: HealthView,
    outcomes: Seq<ProbeOutcome>,
    live: Seq<Seq<char>>,
)
    requires
        checker.wf(),
        checker.phase is Sleeping,
        outcomes.len() == checker.configured.len(),
    ensures
        checker.after_probes(outcomes, checker.configured, live) == (
            checker,
            healthy_upstreams(checker.configured, outcomes),
        ),
{
    let total = outcomes.len() as int;
    let earlier = outcomes.drop_last();
    lemma_pass_so_far(checker, earlier, checker.configured, live);
    assert(checker.configured.drop_last() =~= checker.configured.take(total - 1));
    lemma_healthy_extends(checker.configured.take(total - 1), earlier, outcomes);
    lemma_healthy_members(checker.configured, outcomes);
}

/// The state of the health check: asleep, or at some upstream of a pass.
pub struct HealthChecker {
    configured: Vec<String>,
    interval_secs: usize,
    path: String,
    probing: bool,
    next: usize,
    candidates: Vec<String>,
}

impl View for HealthChecker {
    type V = HealthView;

    closed spec fn view(&self) -> HealthView {
        HealthView {
            configured: self.configured.deep_view(),
            interval_secs: self.interval_secs,
            path: self.path@,
            phase: if self.probing {
                HealthPhase::Probing {
                    next: self.next as nat,
                    candidates: self.candidates.deep_view(),
                }
            } else {
                HealthPhase::Sleeping
            },
        }
    }
}

impl HealthChecker {
    #[verifier::type_invariant]
    spec fn pass_is_within(self) -> bool {
        self@.wf()
    }

    /// A checker for the configured upstreams of `upstreams`, which probes
    /// `path` and sleeps `interval_secs` seconds between two passes. It is
    /// asleep: the caller starts with the sleep that it waits for.
    pub fn new(upstreams: &LiveUpstreams, interval_secs: usize, path: String) -> (checker:
        HealthChecker)
        ensures
            checker@ == (HealthView {
                configured: upstreams.configured(),
                interval_secs,
                path: path@,
                phase: HealthPhase::Sleeping,
            }),
            checker@.wf(),
    {
        HealthChecker {
            configured: upstreams.configured_upstreams(),
            interval_secs,
            path,
            probing: false,
            next: 0,
            candidates: Vec::new(),
        }
    }

    /// What the checker waits for the caller to do.
    pub fn pending(&self) -> (action: HealthAction)
        ensures
            action@ == self@.pending(),
            self@.wf(),
    {
        proof {
            use_type_invariant(self);
        }
        if self.probing {
            self.probe_at(self.next)
        } else {
            HealthAction::Sleep(self.interval_secs)
        }
    }

    /// The probe of the configured upstream at place `at`.
    fn probe_at(&self, at: usize) -> (action: HealthAction)
        requires
            at < self@.configured.len(),
        ensures
            action@ == self@.probe(at as int),
    {
        let upstream = self.configured[at].clone();
        let request = probe_request(self.path.as_str(), upstream.as_str());
        assert(self.configured.deep_view()[at as int] == upstream@);
        HealthAction::Probe { upstream, request }
    }

    /// One step of the health check: takes what the caller reports and
    /// answers with what it is to do next. At the end of a pass the live list
    /// of `upstreams` is replaced.
    pub fn step(&mut self, event: HealthEvent, upstreams: &mut LiveUpstreams) -> (action:
        HealthAction)
        ensures
            ({
                let model = old(self)@.step(
                    event,
                    old(upstreams).configured(),
                    old(upstreams).live(),
                );
                &&& final(self)@ == model.checker
                &&& final(upstreams).live() == model.live
                &&& action@ == model.action
            }),
            final(self)@.wf(),
            final(upstreams).configured() == old(upstreams).configured(),
    {
        proof {
            use_type_invariant(&*self);
        }
        if !self.probing {
            match event {
                HealthEvent::Woke => {
                    self.candidates = Vec::new();
                    self.next = 0;
                    self.probing = true;
                    assert(self.candidates.deep_view() =~= Seq::empty());
                    self.probe_at(0)
                },
                HealthEvent::Probed(_) => self.pending(),
            }
        } else {
            match event {
                HealthEvent::Woke => self.pending(),
                HealthEvent::Probed(outcome) => {
                    let ghost before = self.candidates.deep_view();
                    let at = self.next;
                    assert(at < self.configured.len());
                    let mut found: Vec<String> = Vec::new();
                    core::mem::swap(&mut self.candidates, &mut found);
                    if outcome.healthy() {
                        let upstream = self.configured[at].clone();
                        assert(self.configured.deep_view()[at as int] == upstream@);
                        found.push(upstream);
                        assert(found.deep_view() =~= before.push(upstream@));
                    }
                    if at + 1 < self.configured.len() {
                        self.candidates = found;
                        self.next = at + 1;
                        self.probe_at(at + 1)
                    } else {
                        self.probing = false;
                        let _ = upstreams.replace_live(found);
                        HealthAction::Sleep(self.interval_secs)
                    }
                },
            }
        }
    }
}

} // verus!
