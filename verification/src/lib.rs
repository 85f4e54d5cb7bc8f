//! The decisions of two small systems programs, with their contracts proved.
//!
//! * [`debugger`]: a command-line debugger that runs one traced child at a time.
//! * [`proxy`]: a load-balancing HTTP proxy with passive and active health checks and a
//!   per-client rate limit.
//! * [`text`]: the text rules of the debugger: words, hexadecimal addresses, decimal numbers.
//!
//! Nothing in here reads, writes, sleeps or spawns, but for one thing: a search for an upstream
//! server takes the seed of its random draws from the operating system. A caller performs the
//! actions that the library asks for and hands back what happened.
pub mod debugger;
pub mod proxy;
pub mod text;
