//! Serving one client connection.
//!
//! The handler reads a request, chooses an upstream if the connection has
//! none yet, asks the rate limiter, forwards the request, reads the
//! upstream's response and hands it to the client; then it reads the next
//! request. The upstream is chosen once, with the first request, and serves
//! the connection from then on. A failure on the upstream's side ends the
//! connection after a 502; no other upstream is tried for it.
//!
//! The handler does no network work itself. The caller performs each action
//! and reports how it went; requests are served one at a time, in the order
//! in which they arrive.

use crate::message::{Request, RequestView, Response, ResponseView};
use crate::rate::{lemma_limit_per_window, RateDecision, RateLimiter, RateView};
use crate::status::{ReadError, BAD_GATEWAY, TOO_MANY_REQUESTS};
use vstd::prelude::*;
use vstd::string::*;
use vstd::utf8::encode_utf8;

verus! {

/// The name of the header that lists the clients a request has come through.
pub open spec fn forwarded_for() -> Seq<char> {
    "x-forwarded-for"@
}

/// What the caller reports to the handler.
#[derive(Clone, Debug, PartialEq, Eq)]
pub enum Event {
    /// A well-formed request was read from the client.
    Request(Request),
    /// No request could be read from the client.
    RequestFailed(ReadError),
    /// A connection to the upstream at this address was made.
    Connected(String),
    /// No upstream could be reached.
    Unreachable,
    /// The request was written to the upstream.
    Forwarded,
    /// Writing the request to the upstream failed.
    ForwardFailed,
    /// This response was read from the upstream.
    Response(Response),
    /// No response could be read from the upstream.
    ResponseFailed,
    /// The response was written to the client.
    Replied,
    /// Writing the response to the client failed.
    ReplyFailed,
}

/// What an event holds.
pub enum EventView {
    Request(RequestView),
    RequestFailed(ReadError),
    Connected(Seq<char>),
    Unreachable,
    Forwarded,
    ForwardFailed,
    Response(ResponseView),
    ResponseFailed,
    Replied,
    ReplyFailed,
}

impl View for Event {
    type V = EventView;

    open spec fn view(&self) -> EventView {
        match self {
            Event::Request(request) => EventView::Request(request@),
            Event::RequestFailed(error) => EventView::RequestFailed(*error),
            Event::Connected(addr) => EventView::Connected(addr@),
            Event::Unreachable => EventView::Unreachable,
            Event::Forwarded => EventView::Forwarded,
            Event::ForwardFailed => EventView::ForwardFailed,
            Event::Response(response) => EventView::Response(response@),
            Event::ResponseFailed => EventView::ResponseFailed,
            Event::Replied => EventView::Replied,
            Event::ReplyFailed => EventView::ReplyFailed,
        }
    }
}

/// What the handler asks of the caller.
#[derive(Clone, Debug, PartialEq, Eq)]
pub enum Action {
    /// Read the next request from the client; report `Event::Request` or
    /// `Event::RequestFailed`.
    ReadRequest,
    /// Connect to a live upstream; report `Event::Connected` with its
    /// address, or `Event::Unreachable`.
    Connect,
    /// Write this request to the upstream; report `Event::Forwarded` or
    /// `Event::ForwardFailed`.
    Forward(Request),
    /// Read the response from the upstream; report `Event::Response` or
    /// `Event::ResponseFailed`.
    ReadResponse,
    /// Write this response of the upstream to the client as it is; report
    /// `Event::Replied` or `Event::ReplyFailed`.
    Respond(Response),
    /// Write an error response with this status to the client; report
    /// `Event::Replied` or `Event::ReplyFailed`.
    RespondError(u16),
    /// Write an error response with this status to the client and close the
    /// connection. Nothing is to be reported.
    Fail(u16),
    /// Close the connection without a response. Nothing is to be reported.
    Close,
}

/// What an action holds.
pub enum ActionView {
    ReadRequest,
    Connect,
    Forward(RequestView),
    ReadResponse,
    Respond(ResponseView),
    RespondError(u16),
    Fail(u16),
    Close,
}

impl View for Action {
    type V = ActionView;

    open spec fn view(&self) -> ActionView {
        match self {
            Action::ReadRequest => ActionView::ReadRequest,
            Action::Connect => ActionView::Connect,
            Action::Forward(request) => ActionView::Forward(request@),
            Action::ReadResponse => ActionView::ReadResponse,
            Action::Respond(response) => ActionView::Respond(response@),
            Action::RespondError(status) => ActionView::RespondError(*status),
            Action::Fail(status) => ActionView::Fail(*status),
            Action::Close => ActionView::Close,
        }
    }
}

/// What the handler waits for.
pub enum Phase {
    /// The next request of the client.
    ReadRequest,
    /// A connection to an upstream, for this request.
    SelectUpstream(RequestView),
    /// The request to be written to the upstream.
    ForwardRequest,
    /// The response of the upstream.
    ReadUpstreamResponse,
    /// The response, the upstream's or an error, to be written to the client.
    ForwardResponse,
    /// Nothing: the connection is over.
    Terminated,
}

/// What a connection holds: the client's address, the upstream that
/// serves it once one is chosen, and what the handler waits for.
pub struct ConnectionView {
    pub client_ip: Seq<char>,
    pub upstream: Option<Seq<char>>,
    pub phase: Phase,
}

/// The outcome of one step: the connection and the limiter after it, and what
/// the caller is to do next.
pub struct Step {
    pub connection: ConnectionView,
    pub limiter: RateView,
    pub action: ActionView,
}

impl ConnectionView {
    /// The connection as it is accepted: no upstream yet, waiting for a request.
    pub open spec fn accepted(client_ip: Seq<char>) -> ConnectionView {
        ConnectionView { client_ip, upstream: None, phase: Phase::ReadRequest }
    }

    /// The handler goes on in `phase` with `action`; the limiter is not touched.
    pub open spec fn go(self, phase: Phase, limiter: RateView, action: ActionView) -> Step {
        Step { connection: ConnectionView { phase, ..self }, limiter, action }
    }

    /// A request on its way to the upstream `upstream`.
    ///
    /// The request is counted for the upstream. If it is over the limit, the
    /// client gets a 429 and the upstream is not bothered. Otherwise the
    /// client's address is added to the values of the forwarding header, and
    /// the request is to be forwarded.
    pub open spec fn route(
        self,
        upstream: Seq<char>,
        request: RequestView,
        limiter: RateView,
    ) -> Step {
        let chosen = ConnectionView { upstream: Some(upstream), ..self };
        match limiter.decide(upstream) {
            RateDecision::Rejected => chosen.go(
                Phase::ForwardResponse,
                limiter.record(upstream),
                ActionView::RespondError(TOO_MANY_REQUESTS),
            ),
            RateDecision::Allowed => chosen.go(
                Phase::ForwardRequest,
                limiter.record(upstream),
                ActionView::Forward(
                    request.with_header(forwarded_for(), encode_utf8(self.client_ip)),
                ),
            ),
        }
    }

    /// One step of the handler.
    ///
    /// An event that the handler did not ask for ends the connection.
    pub open spec fn step(self, event: EventView, limiter: RateView) -> Step {
        match (self.phase, event) {
            (Phase::ReadRequest, EventView::Request(request)) => match self.upstream {
                Some(upstream) => self.route(upstream, request, limiter),
                None => self.go(Phase::SelectUpstream(request), limiter, ActionView::Connect),
            },
            (Phase::ReadRequest, EventView::RequestFailed(error)) => {
                if error.is_end_of_session() {
                    self.go(Phase::Terminated, limiter, ActionView::Close)
                } else if error.is_connection_level() {
                    self.go(Phase::Terminated, limiter, ActionView::Fail(error.status()))
                } else {
                    self.go(
                        Phase::ForwardResponse,
                        limiter,
                        ActionView::RespondError(error.status()),
                    )
                }
            },
            (Phase::SelectUpstream(request), EventView::Connected(upstream)) => match self.upstream {
                Some(chosen) => self.route(chosen, request, limiter),
                None => self.route(upstream, request, limiter),
            },
            (Phase::SelectUpstream(_), EventView::Unreachable) => self.go(
                Phase::Terminated,
                limiter,
                ActionView::Fail(BAD_GATEWAY),
            ),
            (Phase::ForwardRequest, EventView::Forwarded) => self.go(
                Phase::ReadUpstreamResponse,
                limiter,
                ActionView::ReadResponse,
            ),
            (Phase::ForwardRequest, EventView::ForwardFailed) => self.go(
                Phase::Terminated,
                limiter,
                ActionView::Fail(BAD_GATEWAY),
            ),
            (Phase::ReadUpstreamResponse, EventView::Response(response)) => self.go(
                Phase::ForwardResponse,
                limiter,
                ActionView::Respond(response),
            ),
            (Phase::ReadUpstreamResponse, EventView::ResponseFailed) => self.go(
                Phase::Terminated,
                limiter,
                ActionView::Fail(BAD_GATEWAY),
            ),
            (Phase::ForwardResponse, EventView::Replied) => self.go(
                Phase::ReadRequest,
                limiter,
                ActionView::ReadRequest,
            ),
            (Phase::ForwardResponse, EventView::ReplyFailed) => self.go(
                Phase::Terminated,
                limiter,
                ActionView::Close,
            ),
            _ => self.go(Phase::Terminated, limiter, ActionView::Close),
        }
    }
}

/// The upstream of a connection is chosen once: a step never changes one
/// that is there. The client's address never changes either.
pub proof fn lemma_upstream_chosen_once(
    connection: ConnectionView,
    event: EventView,
    limiter: RateView,
)
    ensures
        connection.step(event, limiter).connection.client_ip == connection.client_ip,
        connection.upstream is Some ==> connection.step(event, limiter).connection.upstream
            == connection.upstream,
        connection.step(event, limiter).connection.upstream is Some ==> connection.upstream
            is Some || (connection.phase is SelectUpstream && event is Connected),
{
}

/// A connection that is over stays over: whatever is reported, nothing is
/// done but to close it, and no request is counted.
pub proof fn lemma_terminated_stays(connection: ConnectionView, event: EventView, limiter: RateView)
    requires
        connection.phase is Terminated,
    ensures
        connection.step(event, limiter) == (Step {
            connection,
            limiter,
            action: ActionView::Close,
        }),
{
}

/// Only a request on its way to an upstream is counted, and only for that
/// upstream: every other step leaves the limiter as it is.
pub proof fn lemma_counted_when_routed(
    connection: ConnectionView,
    event: EventView,
    limiter: RateView,
)
    ensures
        ({
            let next = connection.step(event, limiter);
            let routed = (connection.phase is ReadRequest && connection.upstream is Some
                && event is Request) || (connection.phase is SelectUpstream
                && event is Connected);
            &&& routed ==> next.limiter == limiter.record(next.connection.upstream->0)
            &&& !routed ==> next.limiter == limiter
            &&& next.action is Forward ==> routed && limiter.decide(next.connection.upstream->0)
                == RateDecision::Allowed
            &&& routed ==> (next.action is Forward || next.action == ActionView::RespondError(
                TOO_MANY_REQUESTS,
            ))
        }),
{
}

/// On a connection with an upstream and a limit of `max_per_minute > 0`, of
/// the requests that follow a clearing of the counters, the first
/// `max_per_minute` for that upstream are forwarded and every later one gets
/// a 429: the `n`th is forwarded exactly if `n <= max_per_minute`. Either
/// way the handler goes on to serve the connection.
pub proof fn lemma_limit_on_connection(
    connection: ConnectionView,
    request: RequestView,
    limiter: RateView,
    n: nat,
)
    requires
        connection.phase is ReadRequest,
        connection.upstream is Some,
        limiter.max_per_minute > 0,
        n >= 1,
    ensures
        ({
            let upstream = connection.upstream->0;
            let counted = limiter.clear().record_many(upstream, (n - 1) as nat);
            let next = connection.step(EventView::Request(request), counted);
            &&& n <= limiter.max_per_minute ==> next.action == ActionView::Forward(
                request.with_header(forwarded_for(), encode_utf8(connection.client_ip)),
            ) && next.connection.phase is ForwardRequest
            &&& n > limiter.max_per_minute ==> next.action == ActionView::RespondError(
                TOO_MANY_REQUESTS,
            ) && next.connection.phase is ForwardResponse
            &&& next.limiter == limiter.clear().record_many(upstream, n)
        }),
{
    lemma_limit_per_window(limiter, connection.upstream->0, n);
}

/// Requests are served one at a time and in their order: the next request
/// is read only when the response to the last one has been written to the
/// client, and a response is written only for a request that was read.
pub proof fn lemma_one_request_at_a_time(
    connection: ConnectionView,
    event: EventView,
    limiter: RateView,
)
    ensures
        ({
            let next = connection.step(event, limiter);
            &&& next.action is ReadRequest <==> connection.phase is ForwardResponse
                && event is Replied
            &&& next.connection.phase is ReadRequest <==> next.action is ReadRequest
            &&& next.action is Respond ==> connection.phase is ReadUpstreamResponse
            &&& next.action is ReadResponse ==> connection.phase is ForwardRequest
            &&& next.action is Forward || next.action is Connect ==> connection.phase
                is ReadRequest || connection.phase is SelectUpstream
        }),
{
}

/// A forwarded request is the client's request with one more value of the
/// forwarding header: the client's address, after the values that the header
/// had. No header line of the request is lost or changed.
pub proof fn lemma_forwarded_identity(
    connection: ConnectionView,
    upstream: Seq<char>,
    request: RequestView,
    limiter: RateView,
)
    requires
        limiter.decide(upstream) == RateDecision::Allowed,
    ensures
        connection.route(upstream, request, limiter).action matches ActionView::Forward(sent)
            && {
            &&& sent.method == request.method
            &&& sent.target == request.target
            &&& sent.body == request.body
            &&& sent.headers.drop_last() == request.headers
            &&& sent.values(forwarded_for()) == request.values(forwarded_for()).push(
                encode_utf8(connection.client_ip),
            )
        },
{
    let sent = request.with_header(forwarded_for(), encode_utf8(connection.client_ip));
    assert(sent.headers.drop_last() =~= request.headers);
}

/// What the handler of a connection waits for, with the request that waits
/// for its upstream.
enum Waiting {
    Request,
    Upstream(Request),
    Forward,
    Response,
    Reply,
    Nothing,
}

/// The state of the handler of one client connection.
pub struct Connection {
    client_ip: String,
    upstream: Option<String>,
    waiting: Waiting,
}

impl View for Connection {
    type V = ConnectionView;

    closed spec fn view(&self) -> ConnectionView {
        ConnectionView {
            client_ip: self.client_ip@,
            upstream: match self.upstream {
                Some(addr) => Some(addr@),
                None => None,
            },
            phase: match self.waiting {
                Waiting::Request => Phase::ReadRequest,
                Waiting::Upstream(request) => Phase::SelectUpstream(request@),
                Waiting::Forward => Phase::ForwardRequest,
                Waiting::Response => Phase::ReadUpstreamResponse,
                Waiting::Reply => Phase::ForwardResponse,
                Waiting::Nothing => Phase::Terminated,
            },
        }
    }
}

impl Connection {
    /// The handler of a connection that was accepted from `client_ip`. The
    /// caller starts with the action that is returned with it: to read a request.
    pub fn accept(client_ip: String) -> (accepted: (Connection, Action))
        ensures
            accepted.0@ == ConnectionView::accepted(client_ip@),
            accepted.1@ == ActionView::ReadRequest,
    {
        (Connection { client_ip, upstream: None, waiting: Waiting::Request }, Action::ReadRequest)
    }

    /// The address of the client.
    pub fn client_ip(&self) -> (ip: String)
        ensures
            ip@ == self@.client_ip,
    {
        self.client_ip.clone()
    }

    /// The address of the upstream that serves this connection, once chosen.
    pub fn upstream(&self) -> (upstream: Option<String>)
        ensures
            upstream is Some <==> self@.upstream is Some,
            upstream matches Some(addr) ==> self@.upstream == Some(addr@),
    {
        match &self.upstream {
            Some(addr) => Some(addr.clone()),
            None => None,
        }
    }

    /// Whether the connection is over.
    pub fn is_terminated(&self) -> (over: bool)
        ensures
            over == (self@.phase is Terminated),
    {
        match &self.waiting {
            Waiting::Nothing => true,
            _ => false,
        }
    }

    /// Sends `request` on its way to the upstream of this connection.
    fn route(&mut self, request: Request, limiter: &mut RateLimiter) -> (action: Action)
        requires
            old(self)@.upstream is Some,
        ensures
            ({
                let model = old(self)@.route(old(self)@.upstream->0, request@, old(limiter)@);
                &&& final(self)@ == model.connection
                &&& final(limiter)@ == model.limiter
                &&& action@ == model.action
            }),
    {
        let decision = match &self.upstream {
            Some(addr) => limiter.check_and_increment(addr.as_str()),
            None => RateDecision::Rejected,
        };
        match decision {
            RateDecision::Rejected => {
                self.waiting = Waiting::Reply;
                Action::RespondError(TOO_MANY_REQUESTS)
            },
            RateDecision::Allowed => {
                let mut request = request;
                request.extend_header_value("x-forwarded-for", self.client_ip.as_str());
                self.waiting = Waiting::Forward;
                Action::Forward(request)
            },
        }
    }

    /// One step of the handler: takes what the caller reports and answers
    /// with what it is to do next. A request on its way to the upstream is
    /// counted in `limiter`.
    pub fn step(&mut self, event: Event, limiter: &mut RateLimiter) -> (action: Action)
        ensures
            ({
                let model = old(self)@.step(event@, old(limiter)@);
                &&& final(self)@ == model.connection
                &&& final(limiter)@ == model.limiter
                &&& action@ == model.action
            }),
    {
        let mut phase = Waiting::Nothing;
        core::mem::swap(&mut self.waiting, &mut phase);
        match (phase, event) {
            (Waiting::Request, Event::Request(request)) => {
                if self.upstream.is_some() {
                    self.route(request, limiter)
                } else {
                    self.waiting = Waiting::Upstream(request);
                    Action::Connect
                }
            },
            (Waiting::Request, Event::RequestFailed(error)) => {
                if error.ends_session() {
                    Action::Close
                } else if error.breaks_connection() {
                    Action::Fail(error.status_code())
                } else {
                    self.waiting = Waiting::Reply;
                    Action::RespondError(error.status_code())
                }
            },
            (Waiting::Upstream(request), Event::Connected(upstream)) => {
                if self.upstream.is_none() {
                    self.upstream = Some(upstream);
                }
                self.route(request, limiter)
            },
            (Waiting::Upstream(_), Event::Unreachable) => Action::Fail(BAD_GATEWAY),
            (Waiting::Forward, Event::Forwarded) => {
                self.waiting = Waiting::Response;
                Action::ReadResponse
            },
            (Waiting::Forward, Event::ForwardFailed) => Action::Fail(BAD_GATEWAY),
            (Waiting::Response, Event::Response(response)) => {
                self.waiting = Waiting::Reply;
                Action::Respond(response)
            },
            (Waiting::Response, Event::ResponseFailed) => Action::Fail(BAD_GATEWAY),
            (Waiting::Reply, Event::Replied) => {
                self.waiting = Waiting::Request;
                Action::ReadRequest
            },
            (Waiting::Reply, Event::ReplyFailed) => Action::Close,
            _ => Action::Close,
        }
    }
}

} // verus!
