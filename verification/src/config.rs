//! The configuration that the proxy starts with, and its state at startup.

use crate::health::{HealthChecker, HealthPhase, HealthView};
use crate::rate::{RateLimiter, RateView};
use crate::routing::LiveUpstreams;
use vstd::prelude::*;

verus! {

/// The address to listen on if none is given.
pub const DEFAULT_BIND: &'static str = "0.0.0.0:1100";

/// The seconds between two health checks if none are given.
pub const DEFAULT_HEALTH_CHECK_INTERVAL: usize = 10;

/// The path that a health check asks for if none is given.
pub const DEFAULT_HEALTH_CHECK_PATH: &'static str = "/";

/// The limit of requests per upstream and minute if none is given: no limit.
pub const DEFAULT_MAX_REQUESTS_PER_MINUTE: usize = 0;

/// What the proxy is started with. Nothing of it changes afterwards.
#[derive(Clone, Debug, PartialEq, Eq)]
pub struct Config {
    /// The address and port to listen on.
    pub bind: String,
    /// The upstreams to forward requests to.
    pub upstream: Vec<String>,
    /// The seconds between two health checks.
    pub active_health_check_interval: usize,
    /// The path that a health check asks for.
    pub active_health_check_path: String,
    /// The most requests sent to one upstream within a minute; zero for no limit.
    pub max_requests_per_minute: usize,
}

/// Why the proxy cannot start.
#[derive(Clone, Copy, Debug, PartialEq, Eq, Structural)]
pub enum StartupError {
    /// No upstream is configured.
    NoUpstreams,
}

/// The state that all connections and both background tasks share. Its three
/// parts are independent: each can be locked on its own.
pub struct ProxyState {
    /// The configured and the live upstreams.
    pub upstreams: LiveUpstreams,
    /// The request counters of the upstreams.
    pub rate_limiter: RateLimiter,
    /// The progress of the health check.
    pub health_checker: HealthChecker,
}

impl Config {
    /// A configuration for the given upstreams with the default for all else.
    pub fn with_defaults(upstream: Vec<String>) -> (options: Config)
        ensures
            options.bind@ == DEFAULT_BIND@,
            options.upstream == upstream,
            options.active_health_check_interval == DEFAULT_HEALTH_CHECK_INTERVAL,
            options.active_health_check_path@ == DEFAULT_HEALTH_CHECK_PATH@,
            options.max_requests_per_minute == DEFAULT_MAX_REQUESTS_PER_MINUTE,
    {
        Config {
            bind: DEFAULT_BIND.to_owned(),
            upstream,
            active_health_check_interval: DEFAULT_HEALTH_CHECK_INTERVAL,
            active_health_check_path: DEFAULT_HEALTH_CHECK_PATH.to_owned(),
            max_requests_per_minute: DEFAULT_MAX_REQUESTS_PER_MINUTE,
        }
    }
}

impl ProxyState {
    /// The state that the proxy starts in: every configured upstream is
    /// live, no request is counted, and the health check is asleep. The proxy
    /// does not start without an upstream.
    pub fn new(options: Config) -> (started: Result<ProxyState, StartupError>)
        ensures
            started is Err <==> options.upstream.len() == 0,
            started matches Err(error) ==> error == StartupError::NoUpstreams,
            started matches Ok(state) ==> {
                &&& state.upstreams.configured() == options.upstream.deep_view()
                &&& state.upstreams.live() == options.upstream.deep_view()
                &&& state.rate_limiter@ == (RateView {
                    max_per_minute: options.max_requests_per_minute,
                    counts: Map::empty(),
                })
                &&& state.health_checker@ == (HealthView {
                    configured: options.upstream.deep_view(),
                    interval_secs: options.active_health_check_interval,
                    path: options.active_health_check_path@,
                    phase: HealthPhase::Sleeping,
                })
            },
    {
        match LiveUpstreams::new(options.upstream) {
            None => Err(StartupError::NoUpstreams),
            Some(upstreams) => {
                let health_checker = HealthChecker::new(
                    &upstreams,
                    options.active_health_check_interval,
                    options.active_health_check_path,
                );
                Ok(
                    ProxyState {
                        upstreams,
                        rate_limiter: RateLimiter::new(options.max_requests_per_minute),
                        health_checker,
                    },
                )
            },
        }
    }
}

} // verus!
