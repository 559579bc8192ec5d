//! A simulated network fabric: listener and stream sockets as plain values.
//!
//! The fabric gives the acceptor logic something it can be verified against —
//! which ports are bound, which clients are queued on which listener, and how
//! often each accepted socket has been shut down. The unverified front end
//! performs the same operations on real sockets.

use vstd::prelude::*;

use crate::errors::{Error, IoKind};

verus! {

/// An address family.
#[derive(Clone, Copy, PartialEq, Eq, Structural, Debug)]
pub enum Family {
    V4,
    V6,
}

/// An IP address: a 32-bit IPv4 address or a 128-bit IPv6 address.
#[derive(Clone, Copy, PartialEq, Eq, Structural, Debug)]
pub enum Ip {
    V4(u32),
    V6(u128),
}

impl Ip {
    /// The family an address belongs to.
    pub open spec fn spec_family(self) -> Family {
        match self {
            Ip::V4(_) => Family::V4,
            Ip::V6(_) => Family::V6,
        }
    }

    /// Whether this is an IPv4-mapped IPv6 address (`::ffff:a.b.c.d`).
    pub open spec fn spec_is_v4_mapped(self) -> bool {
        match self {
            Ip::V4(_) => false,
            Ip::V6(bits) => bits >> 32 == 0xffff,
        }
    }

    /// The IPv4-mapped IPv6 form of an IPv4 address.
    pub open spec fn spec_v4_mapped(a: u32) -> Ip {
        Ip::V6((0xffffu128 << 32) | a as u128)
    }

    pub fn family(&self) -> (f: Family)
        ensures
            f == self.spec_family(),
    {
        match self {
            Ip::V4(_) => Family::V4,
            Ip::V6(_) => Family::V6,
        }
    }

    pub fn is_v4_mapped(&self) -> (b: bool)
        ensures
            b == self.spec_is_v4_mapped(),
    {
        match self {
            Ip::V4(_) => false,
            Ip::V6(bits) => *bits >> 32 == 0xffff,
        }
    }

    /// The wildcard (all-zero) address of a family: `0.0.0.0` or `::`.
    pub fn wildcard(fam: Family) -> (ip: Ip)
        ensures
            ip.spec_family() == fam,
            ip == (match fam {
                Family::V4 => Ip::V4(0),
                Family::V6 => Ip::V6(0),
            }),
    {
        match fam {
            Family::V4 => Ip::V4(0),
            Family::V6 => Ip::V6(0),
        }
    }
}

/// A socket address: an IP address plus a port.
#[derive(Clone, Copy, PartialEq, Eq, Structural, Debug)]
pub struct Endpoint {
    pub ip: Ip,
    pub port: u16,
}

impl Endpoint {
    /// The family of the address.
    pub open spec fn spec_family(self) -> Family {
        self.ip.spec_family()
    }

    /// A routable client source address: the mapped form only ever arises on
    /// the listener side, as the accept-time representation of an IPv4 peer.
    pub open spec fn is_client_addr(self) -> bool {
        !self.ip.spec_is_v4_mapped()
    }

    /// The IPv4-mapped representation an IPv6 listener reports for an IPv4
    /// peer.
    pub open spec fn spec_mapped(self) -> Endpoint {
        match self.ip {
            Ip::V4(a) => Endpoint { ip: Ip::spec_v4_mapped(a), port: self.port },
            Ip::V6(_) => self,
        }
    }
}

/// A listening socket of the fabric.
#[derive(Debug)]
pub struct ListenerSock {
    pub family: Family,
    pub port: u16,
    /// Whether the socket refuses IPv4-mapped traffic (the `v6-only` flag).
    pub v6_only: bool,
    pub open: bool,
    /// Client endpoints queued for accept, oldest first.
    pub pending: Vec<Endpoint>,
}

/// An accepted connection socket of the fabric.
#[derive(Clone, Copy, Debug)]
pub struct StreamSock {
    pub peer: Endpoint,
    pub open: bool,
    /// How many shutdown calls this socket has received.
    pub shutdown_count: u32,
}

/// The simulated network: every socket ever created, listeners and streams
/// each addressed by their index, plus the next ephemeral port to hand out.
pub struct FakeNet {
    pub listeners: Vec<ListenerSock>,
    pub streams: Vec<StreamSock>,
    pub next_ephemeral: u16,
}

/// Listener `i` of `net` is open with the given family and port.
pub open spec fn listener_at(net: FakeNet, i: int, fam: Family, port: u16) -> bool {
    0 <= i < net.listeners@.len() && net.listeners@[i].open && net.listeners@[i].family == fam
        && net.listeners@[i].port == port
}

impl FakeNet {
    /// Some open listener holds this family and port.
    pub open spec fn port_taken(self, fam: Family, port: u16) -> bool {
        exists|i: int| listener_at(self, i, fam, port)
    }

    /// The index of the open listener with this family and port (meaningful
    /// only while `port_taken` holds; unique while `wf` holds).
    pub open spec fn listener_index(self, fam: Family, port: u16) -> int {
        choose|i: int| listener_at(self, i, fam, port)
    }

    /// No two open listeners share a family and port: what `bind` enforces by
    /// refusing a taken address.
    pub open spec fn distinct_ports(self) -> bool {
        forall|i: int, j: int|
            0 <= i < self.listeners@.len() && 0 <= j < self.listeners@.len() && i != j
                && (#[trigger] self.listeners@[i]).open && (#[trigger] self.listeners@[j]).open
                && self.listeners@[i].family == self.listeners@[j].family
                ==> self.listeners@[i].port != self.listeners@[j].port
    }

    /// An IPv6 listener with the v6-only flag only ever queues true IPv6
    /// peers: never an IPv4-mapped address.
    pub open spec fn v6_purity(self) -> bool {
        forall|i: int, j: int|
            0 <= i < self.listeners@.len() && self.listeners@[i].family == Family::V6
                && self.listeners@[i].v6_only && 0 <= j < self.listeners@[i].pending@.len() ==> {
                let peer = #[trigger] self.listeners@[i].pending@[j];
                peer.ip.spec_family() == Family::V6 && !peer.ip.spec_is_v4_mapped()
            }
    }

    /// Every queued peer belongs to its listener's family: an IPv4 listener
    /// only ever queues IPv4 peers, an IPv6 listener only IPv6-form peers
    /// (an IPv4 client reaching a dual-stack IPv6 listener is queued in its
    /// IPv4-mapped — IPv6 — form).
    pub open spec fn queue_family(self) -> bool {
        forall|i: int, j: int|
            0 <= i < self.listeners@.len() && 0 <= j < self.listeners@[i].pending@.len()
                ==> (#[trigger] self.listeners@[i].pending@[j]).ip.spec_family()
                == self.listeners@[i].family
    }

    /// Well-formedness of the fabric, established by `new` and preserved by
    /// every operation.
    pub open spec fn wf(self) -> bool {
        self.distinct_ports() && self.v6_purity() && self.queue_family()
    }

    /// An empty fabric: no sockets, ephemeral ports starting at the customary
    /// dynamic range.
    pub fn new() -> (net: FakeNet)
        ensures
            net.wf(),
            net.listeners@ =~= Seq::<ListenerSock>::empty(),
            net.streams@ =~= Seq::<StreamSock>::empty(),
            net.next_ephemeral == 49152,
    {
        FakeNet { listeners: Vec::new(), streams: Vec::new(), next_ephemeral: 49152 }
    }

    /// Whether the fabric would refuse a bind on this family and port.
    pub fn is_port_taken(&self, fam: Family, port: u16) -> (b: bool)
        ensures
            b == self.port_taken(fam, port),
    {
        let mut i: usize = 0;
        while i < self.listeners.len()
            invariant
                i <= self.listeners@.len(),
                forall|k: int| 0 <= k < i ==> !listener_at(*self, k, fam, port),
            decreases self.listeners@.len() - i,
        {
            let l = &self.listeners[i];
            if l.open && l.family == fam && l.port == port {
                assert(listener_at(*self, i as int, fam, port));
                return true;
            }
            i = i + 1;
        }
        false
    }

    /// The index of the open listener with this family and port, if any.
    pub fn find_open(&self, fam: Family, port: u16) -> (r: Option<usize>)
        ensures
            match r {
                Some(i) => listener_at(*self, i as int, fam, port),
                None => !self.port_taken(fam, port),
            },
    {
        let mut i: usize = 0;
        while i < self.listeners.len()
            invariant
                i <= self.listeners@.len(),
                forall|k: int| 0 <= k < i ==> !listener_at(*self, k, fam, port),
            decreases self.listeners@.len() - i,
        {
            let l = &self.listeners[i];
            if l.open && l.family == fam && l.port == port {
                return Some(i);
            }
            i = i + 1;
        }
        None
    }

    /// Listener `i` received `peer` at the back of its queue and nothing else
    /// of the fabric changed.
    pub open spec fn delivered_to(self, new: FakeNet, i: int, peer: Endpoint) -> bool {
        &&& 0 <= i < self.listeners@.len()
        &&& new.listeners@ =~= self.listeners@.update(i, new.listeners@[i])
        &&& new.listeners@[i].pending@ =~= self.listeners@[i].pending@.push(peer)
        &&& new.listeners@[i].family == self.listeners@[i].family
        &&& new.listeners@[i].port == self.listeners@[i].port
        &&& new.listeners@[i].v6_only == self.listeners@[i].v6_only
        &&& new.listeners@[i].open == self.listeners@[i].open
        &&& new.streams@ =~= self.streams@
        &&& new.next_ephemeral == self.next_ephemeral
    }

    /// An IPv4 client could reach this port through a dual-stack IPv6
    /// listener (one whose v6-only flag is off).
    pub open spec fn mapped_reachable(self, port: u16) -> bool {
        exists|i: int|
            #[trigger] listener_at(self, i, Family::V6, port) && !self.listeners@[i].v6_only
    }

    /// Opens a listener on this family and port, refusing an address another
    /// open listener already holds.
    pub fn bind(&mut self, fam: Family, port: u16, v6_only: bool) -> (r: Result<usize, Error>)
        requires
            old(self).wf(),
            port != 0,
        ensures
            final(self).wf(),
            final(self).next_ephemeral == old(self).next_ephemeral,
            final(self).streams@ =~= old(self).streams@,
            match r {
                Ok(id) => {
                    &&& !old(self).port_taken(fam, port)
                    &&& id == old(self).listeners@.len()
                    &&& final(self).listeners@ =~= old(self).listeners@.push(
                        final(self).listeners@[id as int],
                    )
                    &&& listener_at(*final(self), id as int, fam, port)
                    &&& final(self).listeners@[id as int].v6_only == v6_only
                    &&& final(self).listeners@[id as int].pending@ =~= Seq::<Endpoint>::empty()
                },
                Err(e) => {
                    &&& e == Error::Io(IoKind::AddrInUse)
                    &&& old(self).port_taken(fam, port)
                    &&& *final(self) == *old(self)
                },
            },
    {
        if self.is_port_taken(fam, port) {
            return Err(Error::Io(IoKind::AddrInUse));
        }
        let id = self.listeners.len();
        self.listeners.push(
            ListenerSock { family: fam, port, v6_only, open: true, pending: Vec::new() },
        );
        proof {
            let oldl = old(self).listeners@;
            let newl = self.listeners@;
            assert forall|a: int, b: int|
                0 <= a < newl.len() && 0 <= b < newl.len() && a != b && newl[a].open
                    && newl[b].open && newl[a].family == newl[b].family implies newl[a].port
                != newl[b].port by {
                if a == oldl.len() && b < oldl.len() {
                    if newl[b].family == fam && newl[b].port == port {
                        assert(listener_at(*old(self), b, fam, port));
                    }
                } else if b == oldl.len() && a < oldl.len() {
                    if newl[a].family == fam && newl[a].port == port {
                        assert(listener_at(*old(self), a, fam, port));
                    }
                }
            }
        }
        Ok(id)
    }

    /// Releases a listener socket; releasing one that is already closed
    /// changes nothing.
    pub fn close_listener(&mut self, id: usize)
        requires
            old(self).wf(),
            id < old(self).listeners@.len(),
        ensures
            final(self).wf(),
            final(self).next_ephemeral == old(self).next_ephemeral,
            final(self).streams@ =~= old(self).streams@,
            final(self).listeners@ =~= old(self).listeners@.update(
                id as int,
                final(self).listeners@[id as int],
            ),
            !final(self).listeners@[id as int].open,
            final(self).listeners@[id as int].family == old(self).listeners@[id as int].family,
            final(self).listeners@[id as int].port == old(self).listeners@[id as int].port,
            final(self).listeners@[id as int].v6_only == old(self).listeners@[id as int].v6_only,
            final(self).listeners@[id as int].pending@ =~= old(
                self,
            ).listeners@[id as int].pending@,
    {
        let l = &mut self.listeners[id];
        l.open = false;
    }

    /// Routes one client connection attempt: it reaches the open listener of
    /// the client's own family on `port`, or — for an IPv4 client when no
    /// IPv4 listener exists — a dual-stack IPv6 listener, which queues the
    /// peer in its IPv4-mapped form. Anything else is refused.
    ///
    /// A client's source address is never itself IPv4-mapped: that form only
    /// arises listener-side.
    pub fn connect(&mut self, client: Endpoint, port: u16) -> (r: Result<(), Error>)
        requires
            old(self).wf(),
            client.is_client_addr(),
        ensures
            final(self).wf(),
            ({
                let cfam = client.spec_family();
                let direct = old(self).port_taken(cfam, port);
                let mapped = cfam == Family::V4 && old(self).mapped_reachable(port);
                match r {
                    Ok(_) => {
                        &&& direct || mapped
                        &&& direct ==> old(self).delivered_to(
                            *final(self),
                            old(self).listener_index(cfam, port),
                            client,
                        )
                        &&& !direct ==> old(self).delivered_to(
                            *final(self),
                            old(self).listener_index(Family::V6, port),
                            client.spec_mapped(),
                        )
                    },
                    Err(e) => {
                        &&& e == Error::Io(IoKind::ConnectionRefused)
                        &&& !direct
                        &&& !mapped
                        &&& *final(self) == *old(self)
                    },
                }
            }),
    {
        let cfam = client.ip.family();
        match self.find_open(cfam, port) {
            Some(i) => {
                proof {
                    lemma_listener_index(*self, cfam, port, i as int);
                }
                let l = &mut self.listeners[i];
                l.pending.push(client);
                Ok(())
            },
            None => {
                if matches!(cfam, Family::V4) {
                    match self.find_open(Family::V6, port) {
                        Some(j) => {
                            if self.listeners[j].v6_only {
                                proof {
                                    lemma_v6_unreachable(*self, port, j as int);
                                }
                                Err(Error::Io(IoKind::ConnectionRefused))
                            } else {
                                proof {
                                    lemma_listener_index(*self, Family::V6, port, j as int);
                                }
                                let peer = mapped_endpoint(client);
                                let l = &mut self.listeners[j];
                                l.pending.push(peer);
                                Ok(())
                            }
                        },
                        None => Err(Error::Io(IoKind::ConnectionRefused)),
                    }
                } else {
                    Err(Error::Io(IoKind::ConnectionRefused))
                }
            },
        }
    }

    /// Dequeues the oldest pending client of a listener, creating the stream
    /// socket for the new connection. A listener reported ready must not
    /// block, so an empty queue only reports `WouldBlock`.
    pub fn accept(&mut self, id: usize) -> (r: Result<(usize, Endpoint), Error>)
        requires
            old(self).wf(),
            id < old(self).listeners@.len(),
        ensures
            final(self).wf(),
            final(self).next_ephemeral == old(self).next_ephemeral,
            match r {
                Ok((sid, peer)) => {
                    &&& old(self).listeners@[id as int].open
                    &&& old(self).listeners@[id as int].pending@.len() > 0
                    &&& peer == old(self).listeners@[id as int].pending@[0]
                    &&& sid == old(self).streams@.len()
                    &&& final(self).streams@ =~= old(self).streams@.push(
                        (StreamSock { peer, open: true, shutdown_count: 0 }),
                    )
                    &&& final(self).listeners@ =~= old(self).listeners@.update(
                        id as int,
                        final(self).listeners@[id as int],
                    )
                    &&& final(self).listeners@[id as int].pending@ =~= old(
                        self,
                    ).listeners@[id as int].pending@.remove(0)
                    &&& final(self).listeners@[id as int].family == old(
                        self,
                    ).listeners@[id as int].family
                    &&& final(self).listeners@[id as int].port == old(
                        self,
                    ).listeners@[id as int].port
                    &&& final(self).listeners@[id as int].v6_only == old(
                        self,
                    ).listeners@[id as int].v6_only
                    &&& final(self).listeners@[id as int].open
                },
                Err(e) => {
                    &&& *final(self) == *old(self)
                    &&& (!old(self).listeners@[id as int].open || old(
                        self,
                    ).listeners@[id as int].pending@.len() == 0)
                    &&& (e == Error::Io(IoKind::Closed) <==> !old(
                        self,
                    ).listeners@[id as int].open)
                    &&& (e == Error::Io(IoKind::WouldBlock) <==> (old(
                        self,
                    ).listeners@[id as int].open && old(self).listeners@[id as int].pending@.len()
                        == 0))
                },
            },
    {
        if !self.listeners[id].open {
            return Err(Error::Io(IoKind::Closed));
        }
        if self.listeners[id].pending.len() == 0 {
            return Err(Error::Io(IoKind::WouldBlock));
        }
        let l = &mut self.listeners[id];
        let peer = l.pending.remove(0);
        let sid = self.streams.len();
        self.streams.push(StreamSock { peer, open: true, shutdown_count: 0 });
        Ok((sid, peer))
    }

    /// One bidirectional shutdown call on a stream socket: the fabric counts
    /// every invocation; a socket already torn down reports the failure.
    pub fn shutdown(&mut self, sid: usize) -> (r: Result<(), Error>)
        requires
            old(self).wf(),
            sid < old(self).streams@.len(),
            old(self).streams@[sid as int].shutdown_count < u32::MAX,
        ensures
            final(self).wf(),
            final(self).next_ephemeral == old(self).next_ephemeral,
            final(self).listeners@ =~= old(self).listeners@,
            final(self).streams@ =~= old(self).streams@.update(
                sid as int,
                final(self).streams@[sid as int],
            ),
            final(self).streams@[sid as int].peer == old(self).streams@[sid as int].peer,
            final(self).streams@[sid as int].shutdown_count == old(
                self,
            ).streams@[sid as int].shutdown_count + 1,
            !final(self).streams@[sid as int].open,
            r == (if old(self).streams@[sid as int].open {
                Ok::<(), Error>(())
            } else {
                Err::<(), Error>(Error::Io(IoKind::ShutdownFailed))
            }),
    {
        let s = &mut self.streams[sid];
        let was_open = s.open;
        s.open = false;
        s.shutdown_count = s.shutdown_count + 1;
        if was_open {
            Ok(())
        } else {
            Err(Error::Io(IoKind::ShutdownFailed))
        }
    }

    /// Picks the lowest free ephemeral port at or above the dynamic-range
    /// cursor, free in both families, and advances the cursor past it.
    pub fn alloc_ephemeral(&mut self) -> (r: Option<u16>)
        requires
            old(self).wf(),
            old(self).next_ephemeral >= 1,
        ensures
            final(self).wf(),
            final(self).listeners@ =~= old(self).listeners@,
            final(self).streams@ =~= old(self).streams@,
            final(self).next_ephemeral >= 1,
            final(self).next_ephemeral >= old(self).next_ephemeral,
            match r {
                Some(p) => {
                    &&& p >= old(self).next_ephemeral
                    &&& p >= 1
                    &&& !final(self).port_taken(Family::V4, p)
                    &&& !final(self).port_taken(Family::V6, p)
                },
                None => {
                    &&& *final(self) == *old(self)
                    &&& (forall|q: int|
                        old(self).next_ephemeral <= q <= u16::MAX
                            ==> (#[trigger] final(self).port_taken(Family::V4, q as u16))
                            || final(self).port_taken(Family::V6, q as u16))
                },
            },
    {
        let mut p: u16 = self.next_ephemeral;
        loop
            invariant
                self.wf(),
                *self == *old(self),
                self.next_ephemeral >= 1,
                p >= self.next_ephemeral,
                forall|q: int|
                    self.next_ephemeral <= q < p ==> (#[trigger] self.port_taken(
                        Family::V4,
                        q as u16,
                    )) || self.port_taken(Family::V6, q as u16),
            decreases u16::MAX - p,
        {
            let t4 = self.is_port_taken(Family::V4, p);
            let t6 = self.is_port_taken(Family::V6, p);
            if !t4 && !t6 {
                let ghost checked = *self;
                if p < u16::MAX {
                    self.next_ephemeral = p + 1;
                }
                proof {
                    assert forall|i: int| !(#[trigger] listener_at(*self, i, Family::V4, p)) by {
                        assert(!listener_at(checked, i, Family::V4, p));
                    }
                    assert forall|i: int| !(#[trigger] listener_at(*self, i, Family::V6, p)) by {
                        assert(!listener_at(checked, i, Family::V6, p));
                    }
                }
                return Some(p);
            }
            if p == u16::MAX {
                return None;
            }
            p = p + 1;
        }
    }
}

/// The exec counterpart of `Endpoint::spec_mapped`.
fn mapped_endpoint(client: Endpoint) -> (r: Endpoint)
    ensures
        r == client.spec_mapped(),
{
    match client.ip {
        Ip::V4(a) => Endpoint { ip: Ip::V6((0xffffu128 << 32) | a as u128), port: client.port },
        Ip::V6(_) => client,
    }
}

/// While no two open listeners share a family and port, the open listener on
/// a family and port is the one `listener_index` picks.
pub proof fn lemma_listener_index(net: FakeNet, fam: Family, port: u16, i: int)
    requires
        net.distinct_ports(),
        listener_at(net, i, fam, port),
    ensures
        net.port_taken(fam, port),
        net.listener_index(fam, port) == i,
{
    assert(net.port_taken(fam, port));
    let j = net.listener_index(fam, port);
    assert(listener_at(net, j, fam, port));
}

/// While no two open listeners share a family and port, a v6-only listener on
/// a port means no dual-stack IPv6 listener serves that port.
pub proof fn lemma_v6_unreachable(net: FakeNet, port: u16, i: int)
    requires
        net.distinct_ports(),
        listener_at(net, i, Family::V6, port),
        net.listeners@[i].v6_only,
    ensures
        !net.mapped_reachable(port),
{
    assert forall|j: int|
        !(#[trigger] listener_at(net, j, Family::V6, port) && !net.listeners@[j].v6_only) by {
        if listener_at(net, j, Family::V6, port) && j != i {
            assert(false);
        }
    }
}

} // verus!

