//! Error taxonomy: address faults and I/O faults, and the severity policy
//! that decides which loop-time failures are fatal.

use vstd::prelude::*;

verus! {

/// What went wrong at the I/O layer.
#[derive(Clone, Copy, PartialEq, Eq, Structural, Debug)]
pub enum IoKind {
    /// A listener is already bound to the requested family and port.
    AddrInUse,
    /// No connection was pending when an accept was attempted.
    WouldBlock,
    /// No listener was reachable for a connection attempt.
    ConnectionRefused,
    /// An operation was attempted on a socket that is no longer open.
    Closed,
    /// A bidirectional shutdown failed (the peer had already torn down).
    ShutdownFailed,
    /// The readiness poller itself faulted.
    PollFailed,
}

/// The unified error type: every fallible operation of this library reports
/// either a malformed bind target or a wrapped I/O fault.
#[derive(Clone, Copy, PartialEq, Eq, Structural, Debug)]
pub enum Error {
    /// The bind address or port was malformed (out of range).
    Addr,
    /// An I/O layer failure, by kind.
    Io(IoKind),
}

/// The operation during which an error surfaced.
#[derive(Clone, Copy, PartialEq, Eq, Structural, Debug)]
pub enum Stage {
    Bind,
    Register,
    Poll,
    Accept,
    Shutdown,
}

/// How the accept loop must react to an error at a given stage.
#[derive(Clone, Copy, PartialEq, Eq, Structural, Debug)]
pub enum Severity {
    /// The loop can no longer guarantee delivery of new connections: propagate
    /// and terminate.
    Fatal,
    /// Report the failure and keep servicing the other listener and future
    /// events.
    Recoverable,
}

/// Startup (bind, register) and poll-layer failures are fatal; a failed accept
/// on one listener or a failed shutdown of one connection is recoverable.
pub open spec fn spec_severity(stage: Stage) -> Severity {
    match stage {
        Stage::Bind => Severity::Fatal,
        Stage::Register => Severity::Fatal,
        Stage::Poll => Severity::Fatal,
        Stage::Accept => Severity::Recoverable,
        Stage::Shutdown => Severity::Recoverable,
    }
}

/// The failure-handling policy of the accept loop: infrastructure faults are
/// fatal, per-connection faults are recoverable.
pub fn severity_of(stage: Stage) -> (s: Severity)
    ensures
        s == spec_severity(stage),
{
    match stage {
        Stage::Bind => Severity::Fatal,
        Stage::Register => Severity::Fatal,
        Stage::Poll => Severity::Fatal,
        Stage::Accept => Severity::Recoverable,
        Stage::Shutdown => Severity::Recoverable,
    }
}

/// Checks a numeric bind target: ports 1 through 65535 may be bound directly,
/// 0 requests an ephemeral port, and anything above the `u16` range is a
/// malformed address.
pub fn validate_port(raw: u64) -> (r: Result<u16, Error>)
    ensures
        raw <= u16::MAX ==> r == Ok::<u16, Error>(raw as u16),
        raw > u16::MAX ==> r == Err::<u16, Error>(Error::Addr),
{
    if raw <= u16::MAX as u64 {
        Ok(raw as u16)
    } else {
        Err(Error::Addr)
    }
}

} // verus!
