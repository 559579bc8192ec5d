//! The readiness multiplexer and accept loop: two listeners, one-shot
//! edge-style readiness, dispatch by token, and re-arming as part of each
//! dispatch step.

use vstd::assert_by_contradiction;
use vstd::prelude::*;

use crate::conn::{dispatch_connection, ConnectionHandle};
use crate::errors::{Error, IoKind};
use crate::handler::HandlesRequests;
use crate::netsim::{Endpoint, FakeNet, Family};
use crate::pair::ListenerPair;

verus! {

/// The readiness token of a registered listener: exactly two live values.
#[derive(Clone, Copy, PartialEq, Eq, Structural, Debug)]
pub enum Token {
    V4,
    V6,
}

/// The raw poller value a listener registers under.
pub open spec fn spec_token_value(t: Token) -> usize {
    match t {
        Token::V4 => 0,
        Token::V6 => 1,
    }
}

/// Which listener a raw poller value dispatches to; any value but the two
/// registered ones dispatches to none.
pub open spec fn spec_token_of(raw: usize) -> Option<Token> {
    if raw == 0 {
        Some(Token::V4)
    } else if raw == 1 {
        Some(Token::V6)
    } else {
        None
    }
}

/// The raw registration value of a listener's token.
pub fn token_value(t: Token) -> (raw: usize)
    ensures
        raw == spec_token_value(t),
{
    match t {
        Token::V4 => 0,
        Token::V6 => 1,
    }
}

/// Dispatches a raw poller value back to a listener token. `None` marks an
/// internal invariant violation — an event for a source that was never
/// registered — which the loop must treat as a fatal defect, not as a
/// recoverable condition.
pub fn dispatch_token(raw: usize) -> (t: Option<Token>)
    ensures
        t == spec_token_of(raw),
{
    if raw == 0 {
        Some(Token::V4)
    } else if raw == 1 {
        Some(Token::V6)
    } else {
        None
    }
}

/// Registration and dispatch agree: the raw value a listener registers
/// under dispatches back to exactly that listener.
pub proof fn lemma_token_round_trip()
    ensures
        forall|t: Token| #[trigger] spec_token_of(spec_token_value(t)) == Some(t),
{
}

/// Which listeners currently have readiness interest armed. One-shot
/// interest disarms on delivery and must be re-armed explicitly.
#[derive(Clone, Copy, PartialEq, Eq, Structural, Debug)]
pub struct ArmState {
    pub v4: bool,
    pub v6: bool,
}

/// How many events of `s` carry token `t`.
pub open spec fn count_tok(s: Seq<Token>, t: Token) -> int
    decreases s.len(),
{
    if s.len() == 0 {
        0
    } else {
        count_tok(s.drop_last(), t) + (if s.last() == t {
            1int
        } else {
            0int
        })
    }
}

/// `n` bounded above by `cap`.
pub open spec fn capped(n: int, cap: int) -> int {
    if n < cap {
        n
    } else {
        cap
    }
}

/// The peer addresses among the handles of `hs` whose peer belongs to
/// family `f`, oldest first.
pub open spec fn peers_with_family(hs: Seq<ConnectionHandle>, f: Family) -> Seq<Endpoint>
    decreases hs.len(),
{
    if hs.len() == 0 {
        Seq::empty()
    } else if hs.last().peer.ip.spec_family() == f {
        peers_with_family(hs.drop_last(), f).push(hs.last().peer)
    } else {
        peers_with_family(hs.drop_last(), f)
    }
}

proof fn lemma_peers_push(hs: Seq<ConnectionHandle>, h: ConnectionHandle, f: Family)
    ensures
        h.peer.ip.spec_family() == f ==> peers_with_family(hs.push(h), f) == peers_with_family(
            hs,
            f,
        ).push(h.peer),
        h.peer.ip.spec_family() != f ==> peers_with_family(hs.push(h), f) == peers_with_family(
            hs,
            f,
        ),
{
    assert(hs.push(h).drop_last() =~= hs);
    assert(hs.push(h).last() == h);
}

proof fn lemma_peers_concat(a: Seq<ConnectionHandle>, b: Seq<ConnectionHandle>, f: Family)
    ensures
        peers_with_family(a + b, f) == peers_with_family(a, f) + peers_with_family(b, f),
    decreases b.len(),
{
    if b.len() == 0 {
        assert(a + b =~= a);
        assert(peers_with_family(b, f) == Seq::<Endpoint>::empty());
        assert(peers_with_family(a, f) + peers_with_family(b, f) =~= peers_with_family(a, f));
    } else {
        lemma_peers_concat(a, b.drop_last(), f);
        assert((a + b).drop_last() =~= a + b.drop_last());
        assert((a + b).last() == b.last());
        if b.last().peer.ip.spec_family() == f {
            assert(peers_with_family(a, f) + peers_with_family(b, f) =~= (peers_with_family(a, f)
                + peers_with_family(b.drop_last(), f)).push(b.last().peer));
        }
    }
}

proof fn lemma_skip_one<A>(s: Seq<A>, a: int)
    requires
        0 <= a < s.len(),
    ensures
        s.skip(a).skip(1) =~= s.skip(a + 1),
{
    let lhs = s.skip(a).skip(1);
    let rhs = s.skip(a + 1);
    assert(lhs.len() == rhs.len());
    assert forall|k: int| 0 <= k < lhs.len() implies lhs[k] == rhs[k] by {
        assert(lhs[k] == s.skip(a)[k + 1]);
        assert(s.skip(a)[k + 1] == s[a + k + 1]);
        assert(rhs[k] == s[a + k + 1]);
    }
}

proof fn lemma_skip_pop<A>(s: Seq<A>, a: int)
    requires
        0 <= a < s.len(),
    ensures
        s.skip(a).remove(0) =~= s.skip(a + 1),
{
    let lhs = s.skip(a).remove(0);
    let rhs = s.skip(a + 1);
    assert(lhs.len() == rhs.len());
    assert forall|k: int| 0 <= k < lhs.len() implies lhs[k] == rhs[k] by {
        assert(lhs[k] == s.skip(a)[k + 1]);
        assert(s.skip(a)[k + 1] == s[a + k + 1]);
        assert(rhs[k] == s[a + k + 1]);
    }
}

proof fn lemma_count_tok_bounds(s: Seq<Token>, t: Token)
    ensures
        0 <= count_tok(s, t) <= s.len(),
    decreases s.len(),
{
    if s.len() > 0 {
        lemma_count_tok_bounds(s.drop_last(), t);
    }
}

proof fn lemma_count_tok_step(s: Seq<Token>, t: Token, i: int)
    requires
        0 <= i < s.len(),
    ensures
        count_tok(s.take(i + 1), t) == count_tok(s.take(i), t) + (if s[i] == t {
            1int
        } else {
            0int
        }),
{
    assert(s.take(i + 1).drop_last() =~= s.take(i));
    assert(s.take(i + 1).last() == s[i]);
}

/// The dual-stack server: the bound listener pair, the arm state of both
/// registered readiness sources, the event-batch capacity, and the accepted
/// connections awaiting dispatch.
#[derive(Debug)]
pub struct Server {
    pub pair: ListenerPair,
    pub arm: ArmState,
    pub backlog: usize,
    pub conns: Vec<ConnectionHandle>,
}

impl Server {
    /// The server's invariant over the fabric: a well-formed pair, a usable
    /// event-buffer capacity, and — for the accepted connections still
    /// queued — a well-formed, unreleased handle each, no two of them
    /// naming the same stream socket.
    pub open spec fn wf(self, net: FakeNet) -> bool {
        &&& self.pair.wf(net)
        &&& self.backlog >= 1
        &&& (forall|k: int| 0 <= k < self.conns@.len() ==> (#[trigger] self.conns@[k]).wf(net))
        &&& (forall|k: int| 0 <= k < self.conns@.len() ==> !(#[trigger] self.conns@[k]).released)
        &&& (forall|a: int, b: int|
            0 <= a < b < self.conns@.len() ==> (#[trigger] self.conns@[a]).stream_id
                != (#[trigger] self.conns@[b]).stream_id)
    }

    /// The fabric index of the listener a token dispatches to.
    pub open spec fn lid_of(self, tok: Token) -> int {
        match tok {
            Token::V4 => self.pair.v4_id as int,
            Token::V6 => self.pair.v6_id as int,
        }
    }

    /// The IPv4 listener would be reported ready: interest armed, socket
    /// open, at least one client waiting.
    pub open spec fn ready4(self, net: FakeNet) -> bool {
        self.arm.v4 && net.listeners@[self.pair.v4_id as int].open
            && net.listeners@[self.pair.v4_id as int].pending@.len() > 0
    }

    /// The IPv6 listener would be reported ready.
    pub open spec fn ready6(self, net: FakeNet) -> bool {
        self.arm.v6 && net.listeners@[self.pair.v6_id as int].open
            && net.listeners@[self.pair.v6_id as int].pending@.len() > 0
    }

    /// Binds both families on `port` and registers both listeners with
    /// readable interest before the loop starts. Construction is atomic:
    /// either the server is fully listening on both families, or the error
    /// comes back with every partially-opened socket already released.
    pub fn new(net: &mut FakeNet, port: u16, backlog: usize) -> (r: Result<Server, Error>)
        requires
            old(net).wf(),
            old(net).next_ephemeral >= 1,
            backlog >= 1,
        ensures
            final(net).wf(),
            final(net).streams@ =~= old(net).streams@,
            final(net).next_ephemeral >= old(net).next_ephemeral,
            match r {
                Ok(s) => {
                    &&& s.wf(*final(net))
                    &&& s.pair.is_open(*final(net))
                    &&& s.arm.v4 && s.arm.v6
                    &&& s.backlog == backlog
                    &&& s.conns@.len() == 0
                    &&& (port != 0 ==> s.pair.port == port)
                    &&& (port != 0 ==> !old(net).port_taken(
                        crate::netsim::Family::V4,
                        port,
                    ) && !old(net).port_taken(crate::netsim::Family::V6, port))
                    &&& final(net).listeners@[s.pair.v4_id as int].pending@ =~= Seq::<
                        crate::netsim::Endpoint,
                    >::empty()
                    &&& final(net).listeners@[s.pair.v6_id as int].pending@ =~= Seq::<
                        crate::netsim::Endpoint,
                    >::empty()
                },
                Err(e) => {
                    &&& (port != 0 ==> (e == Error::Io(IoKind::AddrInUse) && (old(net).port_taken(
                        crate::netsim::Family::V4,
                        port,
                    ) || old(net).port_taken(crate::netsim::Family::V6, port))))
                    &&& (port == 0 ==> e == Error::Io(IoKind::AddrInUse))
                    &&& (port == 0 ==> (forall|q: int|
                        old(net).next_ephemeral <= q <= u16::MAX
                            ==> (#[trigger] old(net).port_taken(
                            crate::netsim::Family::V4,
                            q as u16,
                        )) || old(net).port_taken(crate::netsim::Family::V6, q as u16)))
                    &&& final(net).listeners@.len() >= old(net).listeners@.len()
                    &&& (forall|k: int|
                        0 <= k < old(net).listeners@.len() ==> final(net).listeners@[k] == old(
                            net,
                        ).listeners@[k])
                    &&& (forall|k: int|
                        0 <= k < final(net).listeners@.len()
                            ==> ((#[trigger] final(net).listeners@[k].open) <==> (k < old(
                            net,
                        ).listeners@.len() && old(net).listeners@[k].open)))
                },
            },
    {
        match ListenerPair::bind(net, port) {
            Ok(pair) => Ok(
                Server {
                    pair,
                    arm: ArmState { v4: true, v6: true },
                    backlog,
                    conns: Vec::new(),
                },
            ),
            Err(e) => Err(e),
        }
    }

    /// One blocking readiness wait: reports the tokens of the armed
    /// listeners that have clients waiting — both when the event buffer has
    /// room for both — and disarms exactly the reported tokens (one-shot).
    /// An empty result means no registered source was ready.
    pub fn poll_ready(&mut self, net: &FakeNet) -> (events: Vec<Token>)
        requires
            net.wf(),
            old(self).wf(*net),
        ensures
            final(self).wf(*net),
            final(self).pair == old(self).pair,
            final(self).backlog == old(self).backlog,
            final(self).conns@ =~= old(self).conns@,
            ({
                let r4 = old(self).ready4(*net);
                let r6 = old(self).ready6(*net);
                let both = r4 && r6 && old(self).backlog >= 2;
                &&& (both ==> events@ =~= seq![Token::V4, Token::V6] && !final(self).arm.v4
                    && !final(self).arm.v6)
                &&& (r4 && !both ==> events@ =~= seq![Token::V4] && !final(self).arm.v4
                    && final(self).arm.v6 == old(self).arm.v6)
                &&& (!r4 && r6 ==> events@ =~= seq![Token::V6] && !final(self).arm.v6
                    && final(self).arm.v4 == old(self).arm.v4)
                &&& (!r4 && !r6 ==> events@ =~= Seq::<Token>::empty() && final(self).arm == old(
                    self,
                ).arm)
            }),
    {
        let l4_open = net.listeners[self.pair.v4_id].open;
        let l4_waiting = net.listeners[self.pair.v4_id].pending.len() > 0;
        let l6_open = net.listeners[self.pair.v6_id].open;
        let l6_waiting = net.listeners[self.pair.v6_id].pending.len() > 0;
        let r4 = self.arm.v4 && l4_open && l4_waiting;
        let r6 = self.arm.v6 && l6_open && l6_waiting;
        let mut events: Vec<Token> = Vec::new();
        if r4 && r6 && self.backlog >= 2 {
            events.push(Token::V4);
            events.push(Token::V6);
            self.arm.v4 = false;
            self.arm.v6 = false;
        } else if r4 {
            events.push(Token::V4);
            self.arm.v4 = false;
        } else if r6 {
            events.push(Token::V6);
            self.arm.v6 = false;
        }
        events
    }

    /// Services one readiness event as a single transaction: dispatch by
    /// token to the matching listener's accept, queue the new connection
    /// handle, and re-arm that listener's one-shot interest. An accept-layer
    /// failure is reported in the result — the loop goes on — and the
    /// listener is re-armed all the same.
    pub fn service_event(&mut self, net: &mut FakeNet, tok: Token) -> (report: Option<Error>)
        requires
            old(net).wf(),
            old(self).wf(*old(net)),
        ensures
            final(net).wf(),
            final(self).wf(*final(net)),
            final(self).pair == old(self).pair,
            final(self).backlog == old(self).backlog,
            (tok == Token::V4 ==> final(self).arm.v4 && final(self).arm.v6 == old(self).arm.v6),
            (tok == Token::V6 ==> final(self).arm.v6 && final(self).arm.v4 == old(self).arm.v4),
            final(net).next_ephemeral == old(net).next_ephemeral,
            ({
                let lid = old(self).lid_of(tok);
                let l = old(net).listeners@[lid];
                if l.open && l.pending@.len() > 0 {
                    &&& report is None
                    &&& final(self).conns@.len() == old(self).conns@.len() + 1
                    &&& final(self).conns@ =~= old(self).conns@.push(final(self).conns@.last())
                    &&& final(self).conns@.last().peer == l.pending@[0]
                    &&& final(self).conns@.last().stream_id == old(net).streams@.len()
                    &&& !final(self).conns@.last().released
                    &&& final(net).streams@ =~= old(net).streams@.push(
                        final(net).streams@.last(),
                    )
                    &&& final(net).streams@.len() == old(net).streams@.len() + 1
                    &&& final(net).listeners@ =~= old(net).listeners@.update(
                        lid,
                        final(net).listeners@[lid],
                    )
                    &&& final(net).listeners@[lid].pending@ =~= l.pending@.remove(0)
                    &&& final(net).listeners@[lid].open == l.open
                    &&& final(net).listeners@[lid].family == l.family
                    &&& final(net).listeners@[lid].port == l.port
                    &&& final(net).listeners@[lid].v6_only == l.v6_only
                } else {
                    &&& report == Some(
                        if !l.open {
                            Error::Io(IoKind::Closed)
                        } else {
                            Error::Io(IoKind::WouldBlock)
                        },
                    )
                    &&& final(self).conns@ =~= old(self).conns@
                    &&& *final(net) == *old(net)
                }
            }),
    {
        let lid = match tok {
            Token::V4 => self.pair.v4_id,
            Token::V6 => self.pair.v6_id,
        };
        let report = match net.accept(lid) {
            Ok(conn) => {
                let h = ConnectionHandle::from_accept(conn);
                self.conns.push(h);
                proof {
                    assert forall|k: int|
                        0 <= k < self.conns@.len() implies (#[trigger] self.conns@[k]).wf(
                        *net,
                    ) by {
                        if k < old(self).conns@.len() {
                            assert(old(self).conns@[k].wf(*old(net)));
                        }
                    }
                    assert forall|a: int, b: int|
                        0 <= a < b < self.conns@.len() implies (#[trigger] self.conns@[a]).stream_id
                        != (#[trigger] self.conns@[b]).stream_id by {
                        if b == old(self).conns@.len() {
                            assert(old(self).conns@[a].wf(*old(net)));
                        }
                    }
                }
                None
            },
            Err(e) => Some(e),  // accept-layer failure: recoverable, reported
        };
        match tok {
            Token::V4 => {
                self.arm.v4 = true;
            },
            Token::V6 => {
                self.arm.v6 = true;
            },
        }
        report
    }

    /// Drains one ready-event batch: every event in it is serviced and its
    /// listener re-armed within the same batch. Per family, each event pops
    /// one waiting client while any remain; surplus events report
    /// recoverable accept failures and terminate nothing.
    pub fn run_batch(&mut self, net: &mut FakeNet, events: &Vec<Token>) -> (reports: Vec<Error>)
        requires
            old(net).wf(),
            old(self).wf(*old(net)),
        ensures
            final(net).wf(),
            final(self).wf(*final(net)),
            final(self).pair == old(self).pair,
            final(self).backlog == old(self).backlog,
            (events@.contains(Token::V4) ==> final(self).arm.v4),
            (!events@.contains(Token::V4) ==> final(self).arm.v4 == old(self).arm.v4),
            (events@.contains(Token::V6) ==> final(self).arm.v6),
            (!events@.contains(Token::V6) ==> final(self).arm.v6 == old(self).arm.v6),
            final(net).next_ephemeral == old(net).next_ephemeral,
            final(net).listeners@.len() == old(net).listeners@.len(),
            final(net).streams@.len() >= old(net).streams@.len(),
            forall|k: int|
                0 <= k < old(net).listeners@.len() && k != old(self).pair.v4_id as int && k != old(
                    self,
                ).pair.v6_id as int ==> final(net).listeners@[k] == old(net).listeners@[k],
            ({
                let l4 = old(net).listeners@[old(self).pair.v4_id as int];
                let l6 = old(net).listeners@[old(self).pair.v6_id as int];
                let c4 = count_tok(events@, Token::V4);
                let c6 = count_tok(events@, Token::V6);
                let a4 = if l4.open {
                    capped(c4, l4.pending@.len() as int)
                } else {
                    0int
                };
                let a6 = if l6.open {
                    capped(c6, l6.pending@.len() as int)
                } else {
                    0int
                };
                &&& final(net).listeners@[old(self).pair.v4_id as int].pending@
                    =~= l4.pending@.skip(a4)
                &&& final(net).listeners@[old(self).pair.v6_id as int].pending@
                    =~= l6.pending@.skip(a6)
                &&& final(net).listeners@[old(self).pair.v4_id as int].open == l4.open
                &&& final(net).listeners@[old(self).pair.v6_id as int].open == l6.open
                &&& final(self).conns@.len() == old(self).conns@.len() + a4 + a6
                &&& final(self).conns@.take(old(self).conns@.len() as int) =~= old(self).conns@
                // which peers the new handles carry: per family, the drained
                // prefix of that family's queue, in order
                &&& peers_with_family(
                    final(self).conns@.skip(old(self).conns@.len() as int),
                    Family::V4,
                ) =~= l4.pending@.take(a4)
                &&& peers_with_family(
                    final(self).conns@.skip(old(self).conns@.len() as int),
                    Family::V6,
                ) =~= l6.pending@.take(a6)
                &&& final(net).streams@.len() == old(net).streams@.len() + a4 + a6
                &&& final(net).streams@.take(old(net).streams@.len() as int) =~= old(net).streams@
                &&& reports@.len() == c4 + c6 - a4 - a6
            }),
    {
        let mut reports: Vec<Error> = Vec::new();
        let mut i: usize = 0;
        while i < events.len()
            invariant
                net.wf(),
                self.wf(*net),
                self.pair == old(self).pair,
                self.backlog == old(self).backlog,
                i <= events@.len(),
                (events@.take(i as int).contains(Token::V4) ==> self.arm.v4),
                (!events@.take(i as int).contains(Token::V4) ==> self.arm.v4 == old(
                    self,
                ).arm.v4),
                (events@.take(i as int).contains(Token::V6) ==> self.arm.v6),
                (!events@.take(i as int).contains(Token::V6) ==> self.arm.v6 == old(
                    self,
                ).arm.v6),
                net.next_ephemeral == old(net).next_ephemeral,
                forall|k: int|
                    0 <= k < old(net).listeners@.len() && k != old(self).pair.v4_id as int && k
                        != old(self).pair.v6_id as int ==> net.listeners@[k] == old(
                        net,
                    ).listeners@[k],
                ({
                    let l4 = old(net).listeners@[old(self).pair.v4_id as int];
                    let l6 = old(net).listeners@[old(self).pair.v6_id as int];
                    let c4 = count_tok(events@.take(i as int), Token::V4);
                    let c6 = count_tok(events@.take(i as int), Token::V6);
                    let a4 = if l4.open {
                        capped(c4, l4.pending@.len() as int)
                    } else {
                        0int
                    };
                    let a6 = if l6.open {
                        capped(c6, l6.pending@.len() as int)
                    } else {
                        0int
                    };
                    &&& net.listeners@.len() == old(net).listeners@.len()
                    &&& net.listeners@[old(self).pair.v4_id as int].pending@ =~= l4.pending@.skip(
                        a4,
                    )
                    &&& net.listeners@[old(self).pair.v6_id as int].pending@ =~= l6.pending@.skip(
                        a6,
                    )
                    &&& net.listeners@[old(self).pair.v4_id as int].open == l4.open
                    &&& net.listeners@[old(self).pair.v6_id as int].open == l6.open
                    &&& self.conns@.len() == old(self).conns@.len() + a4 + a6
                    &&& self.conns@.take(old(self).conns@.len() as int) =~= old(self).conns@
                    &&& peers_with_family(
                        self.conns@.skip(old(self).conns@.len() as int),
                        Family::V4,
                    ) =~= l4.pending@.take(a4)
                    &&& peers_with_family(
                        self.conns@.skip(old(self).conns@.len() as int),
                        Family::V6,
                    ) =~= l6.pending@.take(a6)
                    &&& net.streams@.len() == old(net).streams@.len() + a4 + a6
                    &&& net.streams@.take(old(net).streams@.len() as int) =~= old(net).streams@
                    &&& reports@.len() == c4 + c6 - a4 - a6
                }),
            decreases events@.len() - i,
        {
            let tok = events[i];
            proof {
                lemma_count_tok_bounds(events@.take(i as int), Token::V4);
                lemma_count_tok_bounds(events@.take(i as int), Token::V6);
                lemma_count_tok_step(events@, Token::V4, i as int);
                lemma_count_tok_step(events@, Token::V6, i as int);
                assert(events@.take(i as int + 1) =~= events@.take(i as int).push(
                    events@[i as int],
                ));
            }
            let ghost pre_net = *net;
            let ghost pre_self = *self;
            let r = self.service_event(net, tok);
            if let Some(e) = r {
                reports.push(e);
            }
            proof {
                let l4 = old(net).listeners@[old(self).pair.v4_id as int];
                let l6 = old(net).listeners@[old(self).pair.v6_id as int];
                let lid = pre_self.lid_of(tok);
                let n0 = old(self).conns@.len() as int;
                if pre_net.listeners@[lid].open && pre_net.listeners@[lid].pending@.len() > 0 {
                    let h = self.conns@.last();
                    assert(self.conns@.skip(n0) =~= pre_self.conns@.skip(n0).push(h));
                    assert(h.peer == pre_net.listeners@[lid].pending@[0]);
                    // the queued peer carries its listener's family
                    assert(h.peer.ip.spec_family() == pre_net.listeners@[lid].family);
                    lemma_peers_push(pre_self.conns@.skip(n0), h, Family::V4);
                    lemma_peers_push(pre_self.conns@.skip(n0), h, Family::V6);
                    assert(net.streams@.take(old(net).streams@.len() as int) =~= pre_net.streams@.take(
                        old(net).streams@.len() as int,
                    ));
                    match tok {
                        Token::V4 => {
                            let a4 = capped(
                                count_tok(events@.take(i as int), Token::V4),
                                l4.pending@.len() as int,
                            );
                            assert(pre_net.listeners@[lid].pending@ =~= l4.pending@.skip(a4));
                            assert(a4 < l4.pending@.len());
                            lemma_skip_pop(l4.pending@, a4);
                            assert(h.peer == l4.pending@[a4]);
                            assert(l4.pending@.take(a4).push(l4.pending@[a4]) =~= l4.pending@.take(
                                a4 + 1,
                            ));
                        },
                        Token::V6 => {
                            let a6 = capped(
                                count_tok(events@.take(i as int), Token::V6),
                                l6.pending@.len() as int,
                            );
                            assert(pre_net.listeners@[lid].pending@ =~= l6.pending@.skip(a6));
                            assert(a6 < l6.pending@.len());
                            lemma_skip_pop(l6.pending@, a6);
                            assert(h.peer == l6.pending@[a6]);
                            assert(l6.pending@.take(a6).push(l6.pending@[a6]) =~= l6.pending@.take(
                                a6 + 1,
                            ));
                        },
                    }
                }
            }
            i = i + 1;
        }
        proof {
            assert(events@.take(events@.len() as int) =~= events@);
            lemma_count_tok_bounds(events@, Token::V4);
            lemma_count_tok_bounds(events@, Token::V6);
        }
        reports
    }

    /// Accepts one connection from whichever family has a client waiting —
    /// IPv4 first — without touching the readiness machinery: the
    /// single-shot variant of the loop.
    pub fn accept(&self, net: &mut FakeNet) -> (r: Result<ConnectionHandle, Error>)
        requires
            old(net).wf(),
            self.wf(*old(net)),
            self.pair.is_open(*old(net)),
        ensures
            final(net).wf(),
            self.wf(*final(net)),
            self.pair.is_open(*final(net)),
            ({
                let l4 = old(net).listeners@[self.pair.v4_id as int];
                let l6 = old(net).listeners@[self.pair.v6_id as int];
                match r {
                    Ok(h) => {
                        &&& !h.released
                        &&& h.wf(*final(net))
                        &&& (l4.pending@.len() > 0 ==> h.peer == l4.pending@[0])
                        &&& (l4.pending@.len() == 0 && l6.pending@.len() > 0 ==> h.peer
                            == l6.pending@[0])
                        &&& (l4.pending@.len() > 0 || l6.pending@.len() > 0)
                        &&& h.stream_id == old(net).streams@.len()
                        &&& final(net).streams@ =~= old(net).streams@.push(
                            final(net).streams@.last(),
                        )
                        &&& final(net).streams@.last().peer == h.peer
                        &&& final(net).streams@.last().shutdown_count == 0
                        &&& final(net).streams@.last().open
                        &&& ({
                            // exactly one client leaves exactly one queue;
                            // the other listener is untouched, both stay open
                            let aid = if l4.pending@.len() > 0 {
                                self.pair.v4_id as int
                            } else {
                                self.pair.v6_id as int
                            };
                            &&& final(net).listeners@ =~= old(net).listeners@.update(
                                aid,
                                final(net).listeners@[aid],
                            )
                            &&& final(net).listeners@[aid].pending@ =~= old(
                                net,
                            ).listeners@[aid].pending@.remove(0)
                            &&& final(net).listeners@[aid].open
                            &&& final(net).listeners@[aid].family == old(
                                net,
                            ).listeners@[aid].family
                            &&& final(net).listeners@[aid].port == old(net).listeners@[aid].port
                            &&& final(net).listeners@[aid].v6_only == old(
                                net,
                            ).listeners@[aid].v6_only
                        })
                    },
                    Err(e) => {
                        &&& e == Error::Io(IoKind::WouldBlock)
                        &&& l4.pending@.len() == 0
                        &&& l6.pending@.len() == 0
                        &&& *final(net) == *old(net)
                    },
                }
            }),
    {
        let r = match net.accept(self.pair.v4_id) {
            Ok(conn) => Ok(ConnectionHandle::from_accept(conn)),
            Err(_) => match net.accept(self.pair.v6_id) {
                Ok(conn) => Ok(ConnectionHandle::from_accept(conn)),
                Err(e) => Err(e),
            },
        };
        proof {
            assert forall|k: int| 0 <= k < self.conns@.len() implies (#[trigger] self.conns@[k]).wf(
                *net,
            ) by {
                assert(self.conns@[k].wf(*old(net)));
            }
        }
        r
    }

    /// The steady-state loop, driven for at most `max_cycles` readiness
    /// cycles: block until a registered source is ready, drain the bounded
    /// batch — each event dispatched and its listener re-armed as one
    /// transaction — and stop early once neither source is ready. Interest
    /// registration survives every cycle: exactly what poll disarms, the
    /// batch re-arms, and inside a cycle every delivered event finds its
    /// client, so the loop reports no recoverable failure. With room for
    /// both tokens in the event buffer, every cycle services each armed,
    /// open listener that has clients waiting: after the loop, each family's
    /// queue is shorter by one client per cycle (until exhausted), and the
    /// queued handles carry exactly those drained clients, per family in
    /// arrival order.
    pub fn start(&mut self, net: &mut FakeNet, max_cycles: usize) -> (reports: Vec<Error>)
        requires
            old(net).wf(),
            old(self).wf(*old(net)),
        ensures
            final(net).wf(),
            final(self).wf(*final(net)),
            final(self).pair == old(self).pair,
            final(self).backlog == old(self).backlog,
            final(self).arm == old(self).arm,
            reports@.len() == 0,
            final(net).next_ephemeral == old(net).next_ephemeral,
            final(net).listeners@.len() == old(net).listeners@.len(),
            forall|k: int|
                0 <= k < old(net).listeners@.len() && k != old(self).pair.v4_id as int && k != old(
                    self,
                ).pair.v6_id as int ==> final(net).listeners@[k] == old(net).listeners@[k],
            final(net).streams@.take(old(net).streams@.len() as int) =~= old(net).streams@,
            old(self).backlog >= 2 ==> ({
                let q4 = old(net).listeners@[old(self).pair.v4_id as int];
                let q6 = old(net).listeners@[old(self).pair.v6_id as int];
                let d4 = spec_drained(old(self).arm.v4, q4, max_cycles as int);
                let d6 = spec_drained(old(self).arm.v6, q6, max_cycles as int);
                &&& final(net).listeners@[old(self).pair.v4_id as int].pending@
                    =~= q4.pending@.skip(d4)
                &&& final(net).listeners@[old(self).pair.v6_id as int].pending@
                    =~= q6.pending@.skip(d6)
                &&& final(self).conns@.len() == old(self).conns@.len() + d4 + d6
                &&& final(self).conns@.take(old(self).conns@.len() as int) =~= old(self).conns@
                &&& peers_with_family(
                    final(self).conns@.skip(old(self).conns@.len() as int),
                    Family::V4,
                ) =~= q4.pending@.take(d4)
                &&& peers_with_family(
                    final(self).conns@.skip(old(self).conns@.len() as int),
                    Family::V6,
                ) =~= q6.pending@.take(d6)
            }),
    {
        let reports: Vec<Error> = Vec::new();
        let ghost q4 = old(net).listeners@[old(self).pair.v4_id as int];
        let ghost q6 = old(net).listeners@[old(self).pair.v6_id as int];
        let ghost n0 = old(self).conns@.len() as int;
        let mut cycle: usize = 0;
        while cycle < max_cycles
            invariant
                net.wf(),
                self.wf(*net),
                self.pair == old(self).pair,
                self.backlog == old(self).backlog,
                self.arm == old(self).arm,
                reports@.len() == 0,
                cycle <= max_cycles,
                q4 == old(net).listeners@[old(self).pair.v4_id as int],
                q6 == old(net).listeners@[old(self).pair.v6_id as int],
                n0 == old(self).conns@.len() as int,
                net.next_ephemeral == old(net).next_ephemeral,
                net.listeners@.len() == old(net).listeners@.len(),
                forall|k: int|
                    0 <= k < old(net).listeners@.len() && k != old(self).pair.v4_id as int && k
                        != old(self).pair.v6_id as int ==> net.listeners@[k] == old(
                        net,
                    ).listeners@[k],
                net.streams@.len() >= old(net).streams@.len(),
                net.streams@.take(old(net).streams@.len() as int) =~= old(net).streams@,
                net.listeners@[old(self).pair.v4_id as int].open == q4.open,
                net.listeners@[old(self).pair.v6_id as int].open == q6.open,
                old(self).backlog >= 2 ==> ({
                    let t4 = spec_drained(old(self).arm.v4, q4, cycle as int);
                    let t6 = spec_drained(old(self).arm.v6, q6, cycle as int);
                    &&& net.listeners@[old(self).pair.v4_id as int].pending@ =~= q4.pending@.skip(
                        t4,
                    )
                    &&& net.listeners@[old(self).pair.v6_id as int].pending@ =~= q6.pending@.skip(
                        t6,
                    )
                    &&& self.conns@.len() == n0 + t4 + t6
                    &&& self.conns@.take(n0) =~= old(self).conns@
                    &&& peers_with_family(self.conns@.skip(n0), Family::V4) =~= q4.pending@.take(
                        t4,
                    )
                    &&& peers_with_family(self.conns@.skip(n0), Family::V6) =~= q6.pending@.take(
                        t6,
                    )
                }),
            decreases max_cycles - cycle,
        {
            let ghost pre_self = *self;
            let ghost pre_net = *net;
            let ghost t4 = spec_drained(old(self).arm.v4, q4, cycle as int);
            let ghost t6 = spec_drained(old(self).arm.v6, q6, cycle as int);
            let events = self.poll_ready(net);
            if events.len() == 0 {
                proof {
                    if old(self).backlog >= 2 {
                        // a family still armed and open has an empty queue
                        // here, so its tally already equals its final drain
                        assert(t4 == spec_drained(old(self).arm.v4, q4, max_cycles as int));
                        assert(t6 == spec_drained(old(self).arm.v6, q6, max_cycles as int));
                    }
                }
                return reports;
            }
            proof {
                lemma_count_pair();
            }
            let batch_reports = self.run_batch(net, &events);
            proof {
                let r4 = pre_self.ready4(pre_net);
                let r6 = pre_self.ready6(pre_net);
                if r4 && r6 && pre_self.backlog >= 2 {
                    assert(events@.contains(Token::V4)) by {
                        assert(events@[0] == Token::V4);
                    }
                    assert(events@.contains(Token::V6)) by {
                        assert(events@[1] == Token::V6);
                    }
                } else if r4 {
                    assert(events@.contains(Token::V4)) by {
                        assert(events@[0] == Token::V4);
                    }
                    assert(!events@.contains(Token::V6));
                } else {
                    assert(r6);
                    assert(events@.contains(Token::V6)) by {
                        assert(events@[0] == Token::V6);
                    }
                    assert(!events@.contains(Token::V4));
                }
                if old(self).backlog >= 2 {
                    let n_c = pre_self.conns@.len() as int;
                    let a4 = if r4 {
                        1int
                    } else {
                        0int
                    };
                    let a6 = if r6 {
                        1int
                    } else {
                        0int
                    };
                    assert(t4 + a4 == spec_drained(old(self).arm.v4, q4, cycle as int + 1));
                    assert(t6 + a6 == spec_drained(old(self).arm.v6, q6, cycle as int + 1));
                    if r4 {
                        lemma_skip_one(q4.pending@, t4);
                    }
                    if r6 {
                        lemma_skip_one(q6.pending@, t6);
                    }
                    assert(self.conns@.skip(n0) =~= pre_self.conns@.skip(n0) + self.conns@.skip(
                        n_c,
                    ));
                    lemma_peers_concat(pre_self.conns@.skip(n0), self.conns@.skip(n_c), Family::V4);
                    lemma_peers_concat(pre_self.conns@.skip(n0), self.conns@.skip(n_c), Family::V6);
                    assert(q4.pending@.take(t4) + q4.pending@.skip(t4).take(a4)
                        =~= q4.pending@.take(t4 + a4));
                    assert(q6.pending@.take(t6) + q6.pending@.skip(t6).take(a6)
                        =~= q6.pending@.take(t6 + a6));
                }
                assert(pre_net.streams@.len() >= old(net).streams@.len());
                assert(net.streams@.len() >= pre_net.streams@.len());
                assert forall|k: int|
                    0 <= k < old(net).streams@.len() implies net.streams@[k] == old(
                    net,
                ).streams@[k] by {
                    assert(net.streams@.take(pre_net.streams@.len() as int)[k]
                        == pre_net.streams@[k]);
                    assert(pre_net.streams@.take(old(net).streams@.len() as int)[k] == old(
                        net,
                    ).streams@[k]);
                }
                assert(net.streams@.take(old(net).streams@.len() as int) =~= old(net).streams@);
            }
            assert(batch_reports.len() == 0);
            cycle = cycle + 1;
        }
        reports
    }

    /// The worker boundary: drains the queue of accepted connections,
    /// invoking the handler exactly once per connection and releasing the
    /// handle right after, so every drained socket is shut down exactly
    /// once and no other socket is touched. Shutdown failures are collected
    /// and returned, never escalated. The queue is drained newest first.
    pub fn dispatch_queued<H: HandlesRequests>(
        &mut self,
        net: &mut FakeNet,
        handler: &H,
    ) -> (reports: Vec<Error>)
        requires
            old(net).wf(),
            old(self).wf(*old(net)),
        ensures
            final(net).wf(),
            final(self).wf(*final(net)),
            final(self).pair == old(self).pair,
            final(self).backlog == old(self).backlog,
            final(self).arm == old(self).arm,
            final(self).conns@.len() == 0,
            final(net).listeners@ =~= old(net).listeners@,
            final(net).streams@.len() == old(net).streams@.len(),
            final(net).next_ephemeral == old(net).next_ephemeral,
            forall|k: int|
                0 <= k < old(self).conns@.len() ==> ({
                    let sid = (#[trigger] old(self).conns@[k]).stream_id as int;
                    &&& final(net).streams@[sid].shutdown_count == 1
                    &&& !final(net).streams@[sid].open
                    &&& final(net).streams@[sid].peer == old(self).conns@[k].peer
                }),
            forall|s: int|
                0 <= s < old(net).streams@.len() && !names_stream(old(self).conns@, s)
                    ==> final(net).streams@[s] == old(net).streams@[s],
    {
        let mut reports: Vec<Error> = Vec::new();
        while self.conns.len() > 0
            invariant
                net.wf(),
                self.wf(*net),
                self.pair == old(self).pair,
                self.backlog == old(self).backlog,
                self.arm == old(self).arm,
                self.conns@ =~= old(self).conns@.take(self.conns@.len() as int),
                self.conns@.len() <= old(self).conns@.len(),
                net.listeners@ =~= old(net).listeners@,
                net.streams@.len() == old(net).streams@.len(),
                net.next_ephemeral == old(net).next_ephemeral,
                forall|k: int|
                    self.conns@.len() <= k < old(self).conns@.len() ==> ({
                        let sid = (#[trigger] old(self).conns@[k]).stream_id as int;
                        &&& net.streams@[sid].shutdown_count == 1
                        &&& !net.streams@[sid].open
                        &&& net.streams@[sid].peer == old(self).conns@[k].peer
                    }),
                forall|s: int|
                    0 <= s < old(net).streams@.len() && !names_stream(
                        old(self).conns@.skip(self.conns@.len() as int),
                        s,
                    ) ==> net.streams@[s] == old(net).streams@[s],
                forall|a: int, b: int|
                    0 <= a < b < old(self).conns@.len() ==> (#[trigger] old(
                        self,
                    ).conns@[a]).stream_id != (#[trigger] old(self).conns@[b]).stream_id,
                forall|k: int|
                    0 <= k < old(self).conns@.len() ==> (#[trigger] old(
                        self,
                    ).conns@[k]).stream_id < old(net).streams@.len(),
            decreases self.conns@.len(),
        {
            let ghost pre_net = *net;
            let ghost pre_self = *self;
            let ghost n = pre_self.conns@.len() as int;
            let h = self.conns.pop().unwrap();
            proof {
                assert(h == old(self).conns@[n - 1]);
                assert(self.conns@ =~= old(self).conns@.take(n - 1));
                // no handle drained earlier named this stream
                assert forall|k: int|
                    0 <= k < old(self).conns@.skip(n).len() implies (#[trigger] old(
                    self,
                ).conns@.skip(n)[k]).stream_id != h.stream_id by {
                    assert(old(self).conns@.skip(n)[k] == old(self).conns@[n + k]);
                }
                assert(!names_stream(old(self).conns@.skip(n), h.stream_id as int));
                assert(net.streams@[h.stream_id as int] == old(net).streams@[h.stream_id as int]);
                assert(h.wf(*net));
            }
            let rep = dispatch_connection(net, h, handler);
            if let Some(e) = rep {
                reports.push(e);
            }
            proof {
                // the release touched only this handle's stream
                assert forall|k: int|
                    0 <= k < self.conns@.len() implies (#[trigger] self.conns@[k]).wf(*net) by {
                    assert(self.conns@[k] == old(self).conns@[k]);
                    assert(old(self).conns@[k].stream_id != h.stream_id);
                    assert(pre_self.conns@[k].wf(pre_net));
                }
                assert forall|k: int|
                    self.conns@.len() <= k < old(self).conns@.len() implies ({
                        let sid = (#[trigger] old(self).conns@[k]).stream_id as int;
                        &&& net.streams@[sid].shutdown_count == 1
                        &&& !net.streams@[sid].open
                        &&& net.streams@[sid].peer == old(self).conns@[k].peer
                    }) by {
                    let sid = old(self).conns@[k].stream_id as int;
                    if k >= n {
                        assert(old(self).conns@[k].stream_id != h.stream_id);
                        assert(pre_net.streams@[sid].shutdown_count == 1);
                        assert(net.streams@[sid] == pre_net.streams@[sid]);
                    }
                }
                assert forall|s: int|
                    0 <= s < old(net).streams@.len() && !names_stream(
                        old(self).conns@.skip(n - 1),
                        s,
                    ) implies net.streams@[s] == old(net).streams@[s] by {
                    assert(old(self).conns@.skip(n - 1)[0] == old(self).conns@[n - 1]);
                    assert(s != h.stream_id as int);
                    assert_by_contradiction!(!names_stream(old(self).conns@.skip(n), s), {
                        let k = choose|k: int|
                            0 <= k < old(self).conns@.skip(n).len() && (#[trigger] old(
                                self,
                            ).conns@.skip(n)[k]).stream_id as int == s;
                        assert(old(self).conns@.skip(n - 1)[k + 1] == old(self).conns@.skip(n)[k]);
                    });
                }
            }
        }
        proof {
            assert(old(self).conns@.skip(0) =~= old(self).conns@);
        }
        reports
    }
}

/// Whether some handle of `hs` names the stream socket `s`.
pub open spec fn names_stream(hs: Seq<ConnectionHandle>, s: int) -> bool {
    exists|k: int| 0 <= k < hs.len() && (#[trigger] hs[k]).stream_id as int == s
}

/// How many clients of one family the loop drains in `cycles` readiness
/// cycles: one per cycle while interest is armed, the listener open, and
/// clients remain; none at all for a disarmed or closed listener.
pub open spec fn spec_drained(armed: bool, l: crate::netsim::ListenerSock, cycles: int) -> int {
    if armed && l.open {
        capped(l.pending@.len() as int, cycles)
    } else {
        0int
    }
}

/// The token counts of the three batch shapes one poll can report.
proof fn lemma_count_pair()
    ensures
        count_tok(seq![Token::V4], Token::V4) == 1,
        count_tok(seq![Token::V4], Token::V6) == 0,
        count_tok(seq![Token::V6], Token::V4) == 0,
        count_tok(seq![Token::V6], Token::V6) == 1,
        count_tok(seq![Token::V4, Token::V6], Token::V4) == 1,
        count_tok(seq![Token::V4, Token::V6], Token::V6) == 1,
{
    let e = Seq::<Token>::empty();
    assert(count_tok(e, Token::V4) == 0);
    assert(count_tok(e, Token::V6) == 0);
    assert(seq![Token::V4].drop_last() =~= e);
    assert(seq![Token::V6].drop_last() =~= e);
    assert(seq![Token::V4, Token::V6].drop_last() =~= seq![Token::V4]);
    assert(count_tok(seq![Token::V4], Token::V4) == 1);
    assert(count_tok(seq![Token::V4], Token::V6) == 0);
    assert(count_tok(seq![Token::V6], Token::V4) == 0);
    assert(count_tok(seq![Token::V6], Token::V6) == 1);
}

/// One-shot fairness, across consecutive poll cycles: a listener whose
/// token was in the drained batch leaves `run_batch` re-armed, so while
/// clients are still waiting on it, it is ready at the very next poll —
/// neither family can be starved past the one batch in flight.
pub proof fn lemma_rearmed_listener_is_ready(s: Server, net: FakeNet, tok: Token)
    requires
        s.wf(net),
        s.pair.is_open(net),
        (match tok {
            Token::V4 => s.arm.v4,
            Token::V6 => s.arm.v6,
        }),
        net.listeners@[s.lid_of(tok)].pending@.len() > 0,
    ensures
        match tok {
            Token::V4 => s.ready4(net),
            Token::V6 => s.ready6(net),
        },
{
}

} // verus!
