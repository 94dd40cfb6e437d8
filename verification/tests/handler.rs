use balancebeam::connector::{connect_step_with, ConnectAction, ConnectEvent};
use balancebeam::handler::{Action, Connection, Event};
use balancebeam::health::{HealthChecker, HealthEvent, ProbeOutcome};
use balancebeam::message::{Header, Request, Response};
use balancebeam::rate::RateLimiter;
use balancebeam::routing::LiveUpstreams;
use balancebeam::status::ReadError;

fn addrs(list: &[&str]) -> Vec<String> {
    list.iter().map(|a| a.to_string()).collect()
}

fn get(target: &str) -> Request {
    Request { method: "GET".to_string(), target: target.to_string(), headers: Vec::new(), body: Vec::new() }
}

fn ok_response() -> Response {
    Response {
        status: 200,
        headers: vec![Header { name: "content-length".to_string(), value: b"2".to_vec() }],
        body: b"OK".to_vec(),
    }
}

fn forwarded(target: &str, client: &str) -> Request {
    let mut request = get(target);
    request.headers.push(Header { name: "x-forwarded-for".to_string(), value: client.as_bytes().to_vec() });
    request
}

/// What the caller does for `Action::Connect`: runs the connector against
/// upstreams of which only `reachable` accept a connection.
fn connect(upstreams: &mut LiveUpstreams, reachable: &[&str]) -> Event {
    let mut action = connect_step_with(upstreams, ConnectEvent::Begin, 0);
    loop {
        match action {
            ConnectAction::Dial(addr) => {
                if reachable.contains(&addr.as_str()) {
                    return Event::Connected(addr);
                }
                action = connect_step_with(upstreams, ConnectEvent::Failed(addr), 0);
            }
            ConnectAction::Unreachable => return Event::Unreachable,
        }
    }
}

/// Serves one request on a connection whose upstream answers 200 `OK`, and
/// returns the status that the client gets.
fn serve(connection: &mut Connection, limiter: &mut RateLimiter, upstreams: &mut LiveUpstreams, reachable: &[&str]) -> u16 {
    let mut action = connection.step(Event::Request(get("/")), limiter);
    loop {
        action = match action {
            Action::Connect => {
                let event = connect(upstreams, reachable);
                connection.step(event, limiter)
            }
            Action::Forward(_) => connection.step(Event::Forwarded, limiter),
            Action::ReadResponse => connection.step(Event::Response(ok_response()), limiter),
            Action::Respond(response) => {
                assert_eq!(connection.step(Event::Replied, limiter), Action::ReadRequest);
                return response.status;
            }
            Action::RespondError(status) => {
                assert_eq!(connection.step(Event::Replied, limiter), Action::ReadRequest);
                return status;
            }
            Action::Fail(status) => return status,
            Action::ReadRequest | Action::Close => panic!("the request got no response"),
        };
    }
}

#[test]
fn accepted_connection_reads_a_request() {
    let (connection, action) = Connection::accept("1.2.3.4".to_string());
    assert_eq!(action, Action::ReadRequest);
    assert_eq!(connection.client_ip(), "1.2.3.4");
    assert_eq!(connection.upstream(), None);
    assert!(!connection.is_terminated());
}

#[test]
fn one_request_is_forwarded_and_answered() {
    let mut upstreams = LiveUpstreams::new(addrs(&["up:80"])).unwrap();
    let mut limiter = RateLimiter::new(10);
    let (mut connection, _) = Connection::accept("1.2.3.4".to_string());

    assert_eq!(connection.step(Event::Request(get("/")), &mut limiter), Action::Connect);
    let connected = connect(&mut upstreams, &["up:80"]);
    assert_eq!(connected, Event::Connected("up:80".to_string()));
    assert_eq!(connection.step(connected, &mut limiter), Action::Forward(forwarded("/", "1.2.3.4")));
    assert_eq!(connection.upstream(), Some("up:80".to_string()));
    assert_eq!(connection.step(Event::Forwarded, &mut limiter), Action::ReadResponse);
    let reply = connection.step(Event::Response(ok_response()), &mut limiter);
    assert_eq!(reply, Action::Respond(ok_response()));
    if let Action::Respond(response) = reply {
        assert_eq!(response.status, 200);
        assert_eq!(response.body, b"OK".to_vec());
    }
    assert_eq!(limiter.count("up:80"), 1);
    assert_eq!(connection.step(Event::Replied, &mut limiter), Action::ReadRequest);
    assert!(!connection.is_terminated());
}

#[test]
fn third_request_over_a_limit_of_two_gets_429() {
    let mut upstreams = LiveUpstreams::new(addrs(&["up:80"])).unwrap();
    let mut limiter = RateLimiter::new(2);
    let (mut connection, _) = Connection::accept("1.2.3.4".to_string());
    let statuses: Vec<u16> = (0..3)
        .map(|_| serve(&mut connection, &mut limiter, &mut upstreams, &["up:80"]))
        .collect();
    assert_eq!(statuses, vec![200, 200, 429]);
    assert_eq!(limiter.count("up:80"), 3);
    assert!(!connection.is_terminated());
}

#[test]
fn rejected_request_is_not_forwarded() {
    let mut limiter = RateLimiter::new(1);
    let (mut connection, _) = Connection::accept("1.2.3.4".to_string());
    connection.step(Event::Request(get("/a")), &mut limiter);
    connection.step(Event::Connected("up:80".to_string()), &mut limiter);
    connection.step(Event::Forwarded, &mut limiter);
    connection.step(Event::Response(ok_response()), &mut limiter);
    connection.step(Event::Replied, &mut limiter);
    assert_eq!(connection.step(Event::Request(get("/b")), &mut limiter), Action::RespondError(429));
    assert_eq!(connection.step(Event::Replied, &mut limiter), Action::ReadRequest);
}

#[test]
fn first_request_over_the_limit_gets_429() {
    let mut limiter = RateLimiter::new(1);
    limiter.check_and_increment("up:80");
    let (mut connection, _) = Connection::accept("1.2.3.4".to_string());
    assert_eq!(connection.step(Event::Request(get("/")), &mut limiter), Action::Connect);
    assert_eq!(
        connection.step(Event::Connected("up:80".to_string()), &mut limiter),
        Action::RespondError(429)
    );
    assert_eq!(limiter.count("up:80"), 2);
}

#[test]
fn requests_are_served_again_in_a_new_window() {
    let mut upstreams = LiveUpstreams::new(addrs(&["up:80"])).unwrap();
    let mut limiter = RateLimiter::new(1);
    let (mut connection, _) = Connection::accept("1.2.3.4".to_string());
    assert_eq!(serve(&mut connection, &mut limiter, &mut upstreams, &["up:80"]), 200);
    assert_eq!(serve(&mut connection, &mut limiter, &mut upstreams, &["up:80"]), 429);
    limiter.clear_all();
    assert_eq!(serve(&mut connection, &mut limiter, &mut upstreams, &["up:80"]), 200);
}

#[test]
fn without_a_limit_nothing_is_counted() {
    let mut upstreams = LiveUpstreams::new(addrs(&["up:80"])).unwrap();
    let mut limiter = RateLimiter::new(0);
    let (mut connection, _) = Connection::accept("1.2.3.4".to_string());
    for _ in 0..5 {
        assert_eq!(serve(&mut connection, &mut limiter, &mut upstreams, &["up:80"]), 200);
    }
    assert_eq!(limiter.count("up:80"), 0);
}

#[test]
fn request_gets_502_when_no_upstream_passed_the_health_check() {
    let mut upstreams = LiveUpstreams::new(addrs(&["a:80", "b:80"])).unwrap();
    let mut checker = HealthChecker::new(&upstreams, 10, "/".to_string());
    checker.step(HealthEvent::Woke, &mut upstreams);
    checker.step(HealthEvent::Probed(ProbeOutcome::ConnectFailed), &mut upstreams);
    checker.step(HealthEvent::Probed(ProbeOutcome::Status(500)), &mut upstreams);
    assert_eq!(upstreams.live_count(), 0);

    let mut limiter = RateLimiter::new(0);
    let (mut connection, _) = Connection::accept("1.2.3.4".to_string());
    assert_eq!(connection.step(Event::Request(get("/")), &mut limiter), Action::Connect);
    let event = connect(&mut upstreams, &["a:80", "b:80"]);
    assert_eq!(event, Event::Unreachable);
    assert_eq!(connection.step(event, &mut limiter), Action::Fail(502));
    assert!(connection.is_terminated());

    let (mut next, action) = Connection::accept("5.6.7.8".to_string());
    assert_eq!(action, Action::ReadRequest);
    assert_eq!(serve(&mut next, &mut limiter, &mut upstreams, &["a:80", "b:80"]), 502);
}

#[test]
fn request_gets_502_when_every_live_upstream_refuses() {
    let mut upstreams = LiveUpstreams::new(addrs(&["a:80", "b:80", "c:80"])).unwrap();
    let mut limiter = RateLimiter::new(0);
    let (mut connection, _) = Connection::accept("1.2.3.4".to_string());
    assert_eq!(serve(&mut connection, &mut limiter, &mut upstreams, &[]), 502);
    assert!(connection.is_terminated());
    assert_eq!(upstreams.live_count(), 0);
}

#[test]
fn connector_fails_over_to_an_upstream_that_accepts() {
    let mut upstreams = LiveUpstreams::new(addrs(&["a:80", "b:80", "c:80"])).unwrap();
    let mut limiter = RateLimiter::new(5);
    let (mut connection, _) = Connection::accept("1.2.3.4".to_string());
    assert_eq!(serve(&mut connection, &mut limiter, &mut upstreams, &["c:80"]), 200);
    assert_eq!(connection.upstream(), Some("c:80".to_string()));
    assert_eq!(upstreams.snapshot_live_upstreams(), addrs(&["c:80"]));
    assert_eq!(limiter.count("c:80"), 1);
    assert_eq!(limiter.count("a:80"), 0);
}

#[test]
fn malformed_request_gets_400_and_the_connection_stays_open() {
    let mut upstreams = LiveUpstreams::new(addrs(&["up:80"])).unwrap();
    let mut limiter = RateLimiter::new(0);
    let (mut connection, _) = Connection::accept("1.2.3.4".to_string());
    assert_eq!(
        connection.step(Event::RequestFailed(ReadError::MalformedRequest), &mut limiter),
        Action::RespondError(400)
    );
    assert!(!connection.is_terminated());
    assert_eq!(connection.step(Event::Replied, &mut limiter), Action::ReadRequest);
    assert_eq!(serve(&mut connection, &mut limiter, &mut upstreams, &["up:80"]), 200);
    assert!(!connection.is_terminated());
}

#[test]
fn each_recoverable_read_error_gets_its_status() {
    let cases = [
        (ReadError::IncompleteRequest(12), 400),
        (ReadError::MalformedRequest, 400),
        (ReadError::InvalidContentLength, 400),
        (ReadError::ContentLengthMismatch, 400),
        (ReadError::RequestBodyTooLarge, 413),
    ];
    for (error, status) in cases {
        let mut limiter = RateLimiter::new(0);
        let (mut connection, _) = Connection::accept("1.2.3.4".to_string());
        assert_eq!(connection.step(Event::RequestFailed(error), &mut limiter), Action::RespondError(status));
        assert_eq!(connection.step(Event::Replied, &mut limiter), Action::ReadRequest);
    }
}

#[test]
fn end_of_stream_closes_without_a_response() {
    let mut limiter = RateLimiter::new(0);
    let (mut connection, _) = Connection::accept("1.2.3.4".to_string());
    assert_eq!(
        connection.step(Event::RequestFailed(ReadError::IncompleteRequest(0)), &mut limiter),
        Action::Close
    );
    assert!(connection.is_terminated());
}

#[test]
fn read_failure_on_the_client_socket_gets_503_and_ends_the_connection() {
    let mut limiter = RateLimiter::new(0);
    let (mut connection, _) = Connection::accept("1.2.3.4".to_string());
    assert_eq!(
        connection.step(Event::RequestFailed(ReadError::ConnectionError), &mut limiter),
        Action::Fail(503)
    );
    assert!(connection.is_terminated());
}

#[test]
fn failure_to_forward_gets_502_and_ends_the_connection() {
    let mut limiter = RateLimiter::new(0);
    let (mut connection, _) = Connection::accept("1.2.3.4".to_string());
    connection.step(Event::Request(get("/")), &mut limiter);
    connection.step(Event::Connected("up:80".to_string()), &mut limiter);
    assert_eq!(connection.step(Event::ForwardFailed, &mut limiter), Action::Fail(502));
    assert!(connection.is_terminated());
}

#[test]
fn failure_to_read_the_response_gets_502_and_ends_the_connection() {
    let mut limiter = RateLimiter::new(0);
    let (mut connection, _) = Connection::accept("1.2.3.4".to_string());
    connection.step(Event::Request(get("/")), &mut limiter);
    connection.step(Event::Connected("up:80".to_string()), &mut limiter);
    connection.step(Event::Forwarded, &mut limiter);
    assert_eq!(connection.step(Event::ResponseFailed, &mut limiter), Action::Fail(502));
    assert!(connection.is_terminated());
}

#[test]
fn failure_to_reply_ends_the_connection() {
    let mut limiter = RateLimiter::new(0);
    let (mut connection, _) = Connection::accept("1.2.3.4".to_string());
    connection.step(Event::Request(get("/")), &mut limiter);
    connection.step(Event::Connected("up:80".to_string()), &mut limiter);
    connection.step(Event::Forwarded, &mut limiter);
    connection.step(Event::Response(ok_response()), &mut limiter);
    assert_eq!(connection.step(Event::ReplyFailed, &mut limiter), Action::Close);
    assert!(connection.is_terminated());
}

#[test]
fn upstream_is_chosen_once_for_a_connection() {
    let mut limiter = RateLimiter::new(0);
    let (mut connection, _) = Connection::accept("1.2.3.4".to_string());
    assert_eq!(connection.step(Event::Request(get("/1")), &mut limiter), Action::Connect);
    connection.step(Event::Connected("a:80".to_string()), &mut limiter);
    connection.step(Event::Forwarded, &mut limiter);
    connection.step(Event::Response(ok_response()), &mut limiter);
    connection.step(Event::Replied, &mut limiter);
    assert_eq!(
        connection.step(Event::Request(get("/2")), &mut limiter),
        Action::Forward(forwarded("/2", "1.2.3.4"))
    );
    assert_eq!(connection.upstream(), Some("a:80".to_string()));
}

#[test]
fn upstream_answer_is_passed_on_as_it_is() {
    let mut limiter = RateLimiter::new(0);
    let (mut connection, _) = Connection::accept("1.2.3.4".to_string());
    connection.step(Event::Request(get("/")), &mut limiter);
    connection.step(Event::Connected("a:80".to_string()), &mut limiter);
    connection.step(Event::Forwarded, &mut limiter);
    let teapot = Response {
        status: 418,
        headers: vec![
            Header { name: "x-a".to_string(), value: b"1".to_vec() },
            Header { name: "x-a".to_string(), value: b"2".to_vec() },
        ],
        body: vec![0, 159, 146, 150],
    };
    assert_eq!(connection.step(Event::Response(teapot.clone()), &mut limiter), Action::Respond(teapot));
}

#[test]
fn client_address_is_added_after_earlier_hops() {
    let mut limiter = RateLimiter::new(0);
    let (mut connection, _) = Connection::accept("2.2.2.2".to_string());
    let mut request = get("/");
    request.headers.push(Header { name: "x-forwarded-for".to_string(), value: b"1.1.1.1".to_vec() });
    request.headers.push(Header { name: "host".to_string(), value: b"example.org".to_vec() });
    connection.step(Event::Request(request), &mut limiter);
    match connection.step(Event::Connected("a:80".to_string()), &mut limiter) {
        Action::Forward(sent) => {
            assert_eq!(
                sent.header_values("x-forwarded-for"),
                vec![b"1.1.1.1".to_vec(), b"2.2.2.2".to_vec()]
            );
            assert_eq!(sent.header_values("host"), vec![b"example.org".to_vec()]);
            assert_eq!(sent.headers.len(), 3);
        }
        other => panic!("expected a forward, got {:?}", other),
    }
}

#[test]
fn event_out_of_turn_ends_the_connection() {
    let mut limiter = RateLimiter::new(0);
    let (mut connection, _) = Connection::accept("1.2.3.4".to_string());
    assert_eq!(connection.step(Event::Forwarded, &mut limiter), Action::Close);
    assert!(connection.is_terminated());
}

#[test]
fn terminated_connection_stays_terminated() {
    let mut limiter = RateLimiter::new(3);
    let (mut connection, _) = Connection::accept("1.2.3.4".to_string());
    connection.step(Event::RequestFailed(ReadError::IncompleteRequest(0)), &mut limiter);
    assert_eq!(connection.step(Event::Request(get("/")), &mut limiter), Action::Close);
    assert_eq!(connection.step(Event::Connected("a:80".to_string()), &mut limiter), Action::Close);
    assert_eq!(connection.step(Event::Replied, &mut limiter), Action::Close);
    assert!(connection.is_terminated());
    assert_eq!(limiter.count("a:80"), 0);
}

#[test]
fn connections_share_the_counters_of_an_upstream() {
    let mut upstreams = LiveUpstreams::new(addrs(&["up:80"])).unwrap();
    let mut limiter = RateLimiter::new(2);
    let (mut first, _) = Connection::accept("1.1.1.1".to_string());
    let (mut second, _) = Connection::accept("2.2.2.2".to_string());
    assert_eq!(serve(&mut first, &mut limiter, &mut upstreams, &["up:80"]), 200);
    assert_eq!(serve(&mut second, &mut limiter, &mut upstreams, &["up:80"]), 200);
    assert_eq!(serve(&mut first, &mut limiter, &mut upstreams, &["up:80"]), 429);
    assert_eq!(serve(&mut second, &mut limiter, &mut upstreams, &["up:80"]), 429);
}
