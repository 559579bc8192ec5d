//! The dual-stack listener pair: one IPv4 and one v6-only IPv6 listener on
//! the same port, bound together and released together.

use vstd::prelude::*;

use crate::errors::{Error, IoKind};
use crate::netsim::{listener_at, FakeNet, Family};

verus! {

/// A bound pair of listeners sharing one port: the IPv4 socket on the
/// wildcard `0.0.0.0`, the IPv6 socket on the wildcard `::` with the v6-only
/// flag set, so the two never race for the same dual-stack socket.
#[derive(Clone, Copy, Debug)]
pub struct ListenerPair {
    pub v4_id: usize,
    pub v6_id: usize,
    pub port: u16,
}

impl ListenerPair {
    /// The pair's structural invariant over the fabric: two distinct
    /// listener sockets, one per family, on the pair's (nonzero) port, the
    /// IPv6 one v6-only — and both open or both closed, never one without
    /// the other.
    pub open spec fn wf(self, net: FakeNet) -> bool {
        &&& self.v4_id < net.listeners@.len()
        &&& self.v6_id < net.listeners@.len()
        &&& self.v4_id != self.v6_id
        &&& self.port != 0
        &&& net.listeners@[self.v4_id as int].family == Family::V4
        &&& net.listeners@[self.v6_id as int].family == Family::V6
        &&& net.listeners@[self.v4_id as int].port == self.port
        &&& net.listeners@[self.v6_id as int].port == self.port
        &&& net.listeners@[self.v6_id as int].v6_only
        &&& net.listeners@[self.v4_id as int].open == net.listeners@[self.v6_id as int].open
    }

    /// Whether the pair is listening (by the lockstep invariant, one test
    /// answers for both sockets).
    pub open spec fn is_open(self, net: FakeNet) -> bool {
        net.listeners@[self.v4_id as int].open
    }

    /// Binds both families on `port` (`0` asks for a fresh ephemeral port).
    /// Fails with `AddrInUse` if either family's bind fails; if the IPv4
    /// bind succeeded and the IPv6 bind then fails, the IPv4 socket is
    /// released again before the error returns: on every error path the set
    /// of open sockets is exactly what it was.
    pub fn bind(net: &mut FakeNet, port: u16) -> (r: Result<ListenerPair, Error>)
        requires
            old(net).wf(),
            old(net).next_ephemeral >= 1,
        ensures
            final(net).wf(),
            final(net).streams@ =~= old(net).streams@,
            final(net).next_ephemeral >= old(net).next_ephemeral,
            match r {
                Ok(pair) => {
                    &&& pair.wf(*final(net))
                    &&& pair.is_open(*final(net))
                    &&& (port != 0 ==> pair.port == port)
                    &&& (port != 0 ==> !old(net).port_taken(Family::V4, port) && !old(
                        net,
                    ).port_taken(Family::V6, port))
                    &&& final(net).port_taken(Family::V4, pair.port)
                    &&& final(net).port_taken(Family::V6, pair.port)
                    &&& pair.v4_id == old(net).listeners@.len()
                    &&& pair.v6_id == old(net).listeners@.len() + 1
                    &&& final(net).listeners@.len() == old(net).listeners@.len() + 2
                    &&& (forall|k: int|
                        0 <= k < old(net).listeners@.len() ==> final(net).listeners@[k] == old(
                            net,
                        ).listeners@[k])
                    &&& final(net).listeners@[pair.v4_id as int].pending@ =~= Seq::<
                        crate::netsim::Endpoint,
                    >::empty()
                    &&& final(net).listeners@[pair.v6_id as int].pending@ =~= Seq::<
                        crate::netsim::Endpoint,
                    >::empty()
                },
                Err(e) => {
                    &&& (port != 0 ==> (e == Error::Io(IoKind::AddrInUse) && (old(net).port_taken(
                        Family::V4,
                        port,
                    ) || old(net).port_taken(Family::V6, port))))
                    &&& (port == 0 ==> e == Error::Io(IoKind::AddrInUse))
                    &&& (port == 0 ==> (forall|q: int|
                        old(net).next_ephemeral <= q <= u16::MAX
                            ==> (#[trigger] old(net).port_taken(Family::V4, q as u16))
                            || old(net).port_taken(Family::V6, q as u16)))
                    &&& final(net).listeners@.len() >= old(net).listeners@.len()
                    &&& (forall|k: int|
                        0 <= k < old(net).listeners@.len() ==> final(net).listeners@[k] == old(
                            net,
                        ).listeners@[k])
                    &&& (forall|k: int|
                        0 <= k < final(net).listeners@.len()
                            ==> ((#[trigger] final(net).listeners@[k].open) <==> (k < old(
                            net,
                        ).listeners@.len() && old(net).listeners@[k].open)))
                },
            },
    {
        let bind_port: u16 = if port == 0 {
            match net.alloc_ephemeral() {
                Some(p) => p,
                None => {
                    return Err(Error::Io(IoKind::AddrInUse));
                },
            }
        } else {
            port
        };
        let ghost pre = *net;
        let v4_id = match net.bind(Family::V4, bind_port, false) {
            Ok(id) => id,
            Err(e) => {
                proof {
                    if port == 0 {
                        // the fresh ephemeral port was free in both families
                        assert(false);
                    }
                }
                return Err(e);
            },
        };
        let ghost mid = *net;
        match net.bind(Family::V6, bind_port, true) {
            Ok(v6_id) => {
                proof {
                    if pre.port_taken(Family::V6, bind_port) {
                        let i = choose|i: int| listener_at(pre, i, Family::V6, bind_port);
                        assert(listener_at(mid, i, Family::V6, bind_port));
                        assert(false);
                    }
                    assert(listener_at(*net, v4_id as int, Family::V4, bind_port));
                    assert(listener_at(*net, v6_id as int, Family::V6, bind_port));
                }
                Ok(ListenerPair { v4_id, v6_id, port: bind_port })
            },
            Err(e) => {
                net.close_listener(v4_id);
                proof {
                    let j = choose|j: int| listener_at(mid, j, Family::V6, bind_port);
                    assert(listener_at(mid, j, Family::V6, bind_port));
                    assert(j != v4_id);
                    assert(listener_at(pre, j, Family::V6, bind_port));
                    if port == 0 {
                        // the fresh ephemeral port was free in both families
                        assert(false);
                    }
                }
                Err(e)
            },
        }
    }

    /// Releases both sockets. Idempotent: releasing an already-closed pair
    /// changes nothing observable; no other socket is touched, and the
    /// pair's own queued clients stay in place.
    pub fn close(&self, net: &mut FakeNet)
        requires
            old(net).wf(),
            self.wf(*old(net)),
        ensures
            final(net).wf(),
            self.wf(*final(net)),
            !self.is_open(*final(net)),
            final(net).streams@ =~= old(net).streams@,
            final(net).next_ephemeral == old(net).next_ephemeral,
            final(net).listeners@.len() == old(net).listeners@.len(),
            forall|k: int|
                0 <= k < old(net).listeners@.len() && k != self.v4_id && k != self.v6_id
                    ==> final(net).listeners@[k] == old(net).listeners@[k],
            final(net).listeners@[self.v4_id as int].pending@ =~= old(
                net,
            ).listeners@[self.v4_id as int].pending@,
            final(net).listeners@[self.v6_id as int].pending@ =~= old(
                net,
            ).listeners@[self.v6_id as int].pending@,
    {
        net.close_listener(self.v4_id);
        net.close_listener(self.v6_id);
    }
}

/// While a pair is open, its port is taken in both families — exactly the
/// condition under which `ListenerPair::bind` refuses a second bind on the
/// same port with `AddrInUse` (and, by its contract, leaks nothing).
pub proof fn lemma_open_pair_blocks_rebind(net: FakeNet, pair: ListenerPair)
    requires
        pair.wf(net),
        pair.is_open(net),
    ensures
        net.port_taken(Family::V4, pair.port),
        net.port_taken(Family::V6, pair.port),
{
    assert(listener_at(net, pair.v4_id as int, Family::V4, pair.port));
    assert(listener_at(net, pair.v6_id as int, Family::V6, pair.port));
}

/// No cross-family mixing: because the pair binds its IPv6 socket with the
/// v6-only flag, every peer that socket ever queues — and so every
/// connection accepted from it — is a true IPv6 endpoint, never an
/// IPv4-mapped one.
pub proof fn lemma_v6_listener_never_mixes(net: FakeNet, pair: ListenerPair, j: int)
    requires
        net.wf(),
        pair.wf(net),
        0 <= j < net.listeners@[pair.v6_id as int].pending@.len(),
    ensures
        net.listeners@[pair.v6_id as int].pending@[j].ip.spec_family() == Family::V6,
        !net.listeners@[pair.v6_id as int].pending@[j].ip.spec_is_v4_mapped(),
{
}

} // verus!
