//! A dual-stack (IPv4 + IPv6) TCP connection acceptor.
//!
//! The library models the acceptor's observable behaviour — binding a pair of
//! listeners on one port, multiplexing readiness events between them with
//! one-shot re-arming, and releasing every socket exactly once — and verifies
//! that logic over a simulated network fabric. A thin unverified front end can
//! drive the same decision functions against real sockets.

pub mod conn;
pub mod errors;
pub mod handler;
pub mod netsim;
pub mod pair;
pub mod server;

