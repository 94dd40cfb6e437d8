//! A load-balancing reverse proxy, as a library of decisions.
//!
//! The modules hold the routing state shared by all connections, the rate
//! limiter, the choice of an upstream, and the step functions of the three
//! long-running activities: serving one client connection, checking the
//! health of the upstreams, and connecting to one of them. Each step function
//! takes the outcome of the last piece of network work and answers with the
//! next piece to perform; the caller owns the sockets and the timers.

pub mod message;
pub mod status;
pub mod rate;
pub mod routing;
pub mod connector;
pub mod health;
pub mod handler;
pub mod config;
