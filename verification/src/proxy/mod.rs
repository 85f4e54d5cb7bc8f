//! A load-balancing HTTP proxy.
//!
//! * [`config`]: what the proxy is told at the start.
//! * [`connection`]: how a client's connection is handled, request by request.
//! * [`dice`]: a random number generator that keeps a record of what was drawn.
//! * [`health`]: the active health checks.
//! * [`laws`]: what every step of a client's connection keeps to.
//! * [`rate_limit`]: the limit on requests per client and minute.
//! * [`upstream`]: which upstream servers are dead, and the search for one that answers.
pub mod config;
pub mod connection;
pub mod dice;
pub mod health;
pub mod laws;
pub mod rate_limit;
pub mod upstream;
