//! The connection handle: one accepted socket plus its peer address, with
//! exactly one bidirectional shutdown per handle on release.

use vstd::prelude::*;

use crate::errors::{Error, IoKind};
use crate::handler::{HandlesRequests, Request, Response};
use crate::netsim::{Endpoint, FakeNet};

verus! {

/// An accepted connection: the stream socket and the peer address it was
/// accepted with. The handle owns the socket for its lifetime; its release
/// performs the one and only shutdown.
#[derive(Clone, Copy, Debug)]
pub struct ConnectionHandle {
    pub stream_id: usize,
    pub peer: Endpoint,
    pub released: bool,
}

impl ConnectionHandle {
    /// The handle's exclusive-ownership invariant: it names a real stream
    /// socket whose recorded peer it carries, and while the handle has not
    /// been released, nothing has shut the socket down.
    pub open spec fn wf(self, net: FakeNet) -> bool {
        &&& self.stream_id < net.streams@.len()
        &&& net.streams@[self.stream_id as int].peer == self.peer
        &&& (!self.released ==> net.streams@[self.stream_id as int].shutdown_count == 0)
    }

    /// Wraps a successful accept result. Only such a result constructs a
    /// handle.
    pub fn from_accept(conn: (usize, Endpoint)) -> (h: ConnectionHandle)
        ensures
            h.stream_id == conn.0,
            h.peer == conn.1,
            !h.released,
    {
        let (stream_id, peer) = conn;
        ConnectionHandle { stream_id, peer, released: false }
    }

    /// The peer address, for logging and authorization decisions.
    pub fn peer_addr(&self) -> (p: Endpoint)
        ensures
            p == self.peer,
    {
        self.peer
    }

    /// Releases the handle: the first release performs the bidirectional
    /// shutdown, so the socket ends with a shutdown count of exactly one;
    /// any further release changes nothing. A shutdown failure (the peer
    /// already tore the socket down) is reported in the result, never
    /// escalated.
    pub fn release(&mut self, net: &mut FakeNet) -> (r: Result<(), Error>)
        requires
            old(net).wf(),
            old(self).wf(*old(net)),
        ensures
            final(net).wf(),
            final(self).wf(*final(net)),
            final(self).released,
            final(self).stream_id == old(self).stream_id,
            final(self).peer == old(self).peer,
            old(self).released ==> *final(net) == *old(net) && r == Ok::<(), Error>(()),
            !old(self).released ==> {
                &&& final(net).next_ephemeral == old(net).next_ephemeral
                &&& final(net).streams@[old(self).stream_id as int].shutdown_count == 1
                &&& !final(net).streams@[old(self).stream_id as int].open
                &&& final(net).listeners@ =~= old(net).listeners@
                &&& final(net).streams@ =~= old(net).streams@.update(
                    old(self).stream_id as int,
                    final(net).streams@[old(self).stream_id as int],
                )
                &&& r == (if old(net).streams@[old(self).stream_id as int].open {
                    Ok::<(), Error>(())
                } else {
                    Err::<(), Error>(Error::Io(IoKind::ShutdownFailed))
                })
            },
    {
        if self.released {
            return Ok(());
        }
        self.released = true;
        net.shutdown(self.stream_id)
    }
}

/// Invokes the request handler for one accepted connection and releases the
/// handle afterwards: exactly one shutdown happens, and a shutdown failure
/// is reported in the return value, not escalated.
pub fn dispatch_connection<H: HandlesRequests>(
    net: &mut FakeNet,
    handle: ConnectionHandle,
    handler: &H,
) -> (report: Option<Error>)
    requires
        old(net).wf(),
        handle.wf(*old(net)),
        !handle.released,
    ensures
        final(net).wf(),
        final(net).streams@[handle.stream_id as int].shutdown_count == 1,
        !final(net).streams@[handle.stream_id as int].open,
        final(net).streams@[handle.stream_id as int].peer == handle.peer,
        final(net).next_ephemeral == old(net).next_ephemeral,
        final(net).listeners@ =~= old(net).listeners@,
        final(net).streams@ =~= old(net).streams@.update(
            handle.stream_id as int,
            final(net).streams@[handle.stream_id as int],
        ),
        report == (if old(net).streams@[handle.stream_id as int].open {
            Option::<Error>::None
        } else {
            Option::Some(Error::Io(IoKind::ShutdownFailed))
        }),
{
    handler.handle_request(Request {  }, Response {  });
    let mut h = handle;
    match h.release(net) {
        Ok(_) => None,
        Err(e) => Some(e),
    }
}

/// Releases a connection whose handler ran elsewhere (the worker boundary):
/// whatever outcome the handler reported — success or any error — the
/// socket is shut down exactly once. The handler's error, if any, is handed
/// back for reporting, never swallowed.
pub fn finish_connection(
    net: &mut FakeNet,
    handle: ConnectionHandle,
    handler_outcome: Result<(), Error>,
) -> (report: Option<Error>)
    requires
        old(net).wf(),
        handle.wf(*old(net)),
        !handle.released,
    ensures
        final(net).wf(),
        final(net).streams@[handle.stream_id as int].shutdown_count == 1,
        !final(net).streams@[handle.stream_id as int].open,
        final(net).streams@[handle.stream_id as int].peer == handle.peer,
        final(net).next_ephemeral == old(net).next_ephemeral,
        final(net).listeners@ =~= old(net).listeners@,
        final(net).streams@ =~= old(net).streams@.update(
            handle.stream_id as int,
            final(net).streams@[handle.stream_id as int],
        ),
        match handler_outcome {
            Ok(_) => report == (if old(net).streams@[handle.stream_id as int].open {
                Option::<Error>::None
            } else {
                Option::Some(Error::Io(IoKind::ShutdownFailed))
            }),
            Err(e) => report == Option::Some(e),
        },
{
    let mut h = handle;
    let shutdown_report = h.release(net);
    match handler_outcome {
        Ok(_) => match shutdown_report {
            Ok(_) => None,
            Err(e) => Some(e),
        },
        Err(e) => Some(e),
    }
}

} // verus!
