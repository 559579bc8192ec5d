use rustserver::conn::{dispatch_connection, finish_connection, ConnectionHandle};
use rustserver::errors::{severity_of, validate_port, Error, IoKind, Severity, Stage};
use rustserver::handler::NullHandler;
use rustserver::netsim::{Endpoint, FakeNet, Family, Ip};
use rustserver::pair::ListenerPair;
use rustserver::server::{dispatch_token, token_value, Server, Token};

fn v4_client(a: u8, b: u8, c: u8, d: u8, port: u16) -> Endpoint {
    let ip = ((a as u32) << 24) | ((b as u32) << 16) | ((c as u32) << 8) | (d as u32);
    Endpoint { ip: Ip::V4(ip), port }
}

fn v6_loopback(port: u16) -> Endpoint {
    Endpoint { ip: Ip::V6(1u128), port }
}

fn open_listener_count(net: &FakeNet) -> usize {
    let mut n = 0;
    for l in net.listeners.iter() {
        if l.open {
            n += 1;
        }
    }
    n
}

#[test]
fn address_helpers_report_family_wildcard_and_mapped_form() {
    assert_eq!(Ip::wildcard(Family::V4), Ip::V4(0));
    assert_eq!(Ip::wildcard(Family::V6), Ip::V6(0));
    assert_eq!(Ip::V4(0x7f000001).family(), Family::V4);
    assert_eq!(Ip::V6(1).family(), Family::V6);
    assert!(!Ip::V4(0x7f000001).is_v4_mapped());
    assert!(!Ip::V6(1).is_v4_mapped());
    assert!(Ip::V6((0xffffu128 << 32) | 0x7f000001u128).is_v4_mapped());
}

#[test]
fn validate_port_accepts_the_u16_range() {
    assert_eq!(validate_port(1), Ok(1));
    assert_eq!(validate_port(8080), Ok(8080));
    assert_eq!(validate_port(65535), Ok(65535));
    assert_eq!(validate_port(0), Ok(0));
    assert_eq!(validate_port(65536), Err(Error::Addr));
    assert_eq!(validate_port(u64::MAX), Err(Error::Addr));
}

#[test]
fn severity_policy_matches_the_error_handling_design() {
    assert_eq!(severity_of(Stage::Bind), Severity::Fatal);
    assert_eq!(severity_of(Stage::Register), Severity::Fatal);
    assert_eq!(severity_of(Stage::Poll), Severity::Fatal);
    assert_eq!(severity_of(Stage::Accept), Severity::Recoverable);
    assert_eq!(severity_of(Stage::Shutdown), Severity::Recoverable);
}

#[test]
fn tokens_round_trip_and_unknown_values_dispatch_to_none() {
    assert_eq!(dispatch_token(token_value(Token::V4)), Some(Token::V4));
    assert_eq!(dispatch_token(token_value(Token::V6)), Some(Token::V6));
    assert_eq!(dispatch_token(2), None);
    assert_eq!(dispatch_token(usize::MAX), None);
}

#[test]
fn binding_twice_on_one_port_fails_with_addr_in_use_and_leaks_nothing() {
    let mut net = FakeNet::new();
    let first = ListenerPair::bind(&mut net, 8080).expect("first bind");
    assert_eq!(first.port, 8080);
    assert_eq!(open_listener_count(&net), 2);

    let before = open_listener_count(&net);
    let second = ListenerPair::bind(&mut net, 8080);
    assert_eq!(second.unwrap_err(), Error::Io(IoKind::AddrInUse));
    // nothing opened by the failed attempt stays open
    assert_eq!(open_listener_count(&net), before);
}

#[test]
fn partial_construction_failure_releases_the_ipv4_socket() {
    let mut net = FakeNet::new();
    // another process already holds the IPv6 side of the port
    net.bind(Family::V6, 9000, true).expect("occupy v6");
    assert_eq!(open_listener_count(&net), 1);

    let r = ListenerPair::bind(&mut net, 9000);
    assert_eq!(r.unwrap_err(), Error::Io(IoKind::AddrInUse));
    // the IPv4 socket the attempt opened first was released again
    assert_eq!(open_listener_count(&net), 1);
    let transient_v4 = &net.listeners[1];
    assert_eq!(transient_v4.family, Family::V4);
    assert!(!transient_v4.open);
}

#[test]
fn close_releases_both_listeners_and_is_idempotent() {
    let mut net = FakeNet::new();
    let pair = ListenerPair::bind(&mut net, 8081).expect("bind");
    assert_eq!(open_listener_count(&net), 2);
    pair.close(&mut net);
    assert_eq!(open_listener_count(&net), 0);
    pair.close(&mut net);
    assert_eq!(open_listener_count(&net), 0);
    // the port is free again: a fresh pair may bind it
    let again = ListenerPair::bind(&mut net, 8081).expect("rebind after close");
    assert_eq!(again.port, 8081);
}

#[test]
fn exactly_one_shutdown_per_handle_even_when_the_handler_fails() {
    let mut net = FakeNet::new();
    let pair = ListenerPair::bind(&mut net, 8082).expect("bind");
    let client = v4_client(127, 0, 0, 1, 50000);
    net.connect(client, 8082).expect("connect");
    let (sid, peer) = net.accept(pair.v4_id).expect("accept");
    assert_eq!(peer, client);
    let handle = ConnectionHandle::from_accept((sid, peer));

    // the handler path reports an error; the socket is still shut down once
    let report = finish_connection(&mut net, handle, Err(Error::Io(IoKind::ConnectionRefused)));
    assert_eq!(report, Some(Error::Io(IoKind::ConnectionRefused)));
    assert_eq!(net.streams[sid].shutdown_count, 1);
    assert!(!net.streams[sid].open);
}

#[test]
fn exactly_one_shutdown_per_handle_on_the_success_path() {
    let mut net = FakeNet::new();
    let pair = ListenerPair::bind(&mut net, 8083).expect("bind");
    net.connect(v4_client(127, 0, 0, 1, 50001), 8083).expect("connect");
    let conn = net.accept(pair.v4_id).expect("accept");
    let sid = conn.0;
    let handle = ConnectionHandle::from_accept(conn);

    let handler = NullHandler {};
    let report = dispatch_connection(&mut net, handle, &handler);
    assert_eq!(report, None);
    assert_eq!(net.streams[sid].shutdown_count, 1);
}

#[test]
fn releasing_a_handle_twice_keeps_the_shutdown_count_at_one() {
    let mut net = FakeNet::new();
    let pair = ListenerPair::bind(&mut net, 8084).expect("bind");
    net.connect(v4_client(10, 0, 0, 7, 41000), 8084).expect("connect");
    let conn = net.accept(pair.v4_id).expect("accept");
    let sid = conn.0;
    let mut handle = ConnectionHandle::from_accept(conn);

    assert_eq!(handle.release(&mut net), Ok(()));
    assert_eq!(net.streams[sid].shutdown_count, 1);
    assert_eq!(handle.release(&mut net), Ok(()));
    assert_eq!(handle.release(&mut net), Ok(()));
    assert_eq!(net.streams[sid].shutdown_count, 1);
}

#[test]
fn a_failed_shutdown_is_reported_not_escalated() {
    let mut net = FakeNet::new();
    let pair = ListenerPair::bind(&mut net, 8085).expect("bind");
    net.connect(v4_client(127, 0, 0, 1, 50002), 8085).expect("connect");
    let (sid, _) = net.accept(pair.v4_id).expect("accept");
    // the peer tears the stream down before the release runs
    assert_eq!(net.shutdown(sid), Ok(()));
    assert_eq!(net.shutdown(sid), Err(Error::Io(IoKind::ShutdownFailed)));
    assert_eq!(net.streams[sid].shutdown_count, 2);
}

#[test]
fn accept_without_a_pending_client_would_block() {
    let mut net = FakeNet::new();
    let pair = ListenerPair::bind(&mut net, 8086).expect("bind");
    assert_eq!(net.accept(pair.v4_id).unwrap_err(), Error::Io(IoKind::WouldBlock));
    pair.close(&mut net);
    assert_eq!(net.accept(pair.v4_id).unwrap_err(), Error::Io(IoKind::Closed));
}

#[test]
fn connecting_to_an_unbound_port_is_refused() {
    let mut net = FakeNet::new();
    let r = net.connect(v4_client(192, 168, 0, 2, 33000), 7000);
    assert_eq!(r.unwrap_err(), Error::Io(IoKind::ConnectionRefused));
}

#[test]
fn the_v6_only_listener_refuses_ipv4_clients() {
    let mut net = FakeNet::new();
    // the pair's IPv6 socket is v6-only; with the IPv4 listener gone, an
    // IPv4 client has no way in
    let pair = ListenerPair::bind(&mut net, 8087).expect("bind");
    net.close_listener(pair.v4_id);
    let r = net.connect(v4_client(127, 0, 0, 1, 50500), 8087);
    assert_eq!(r.unwrap_err(), Error::Io(IoKind::ConnectionRefused));
}

#[test]
fn a_dual_stack_listener_reports_ipv4_peers_in_mapped_form() {
    let mut net = FakeNet::new();
    // a lone IPv6 listener without the v6-only flag accepts IPv4 clients
    let lid = net.bind(Family::V6, 8088, false).expect("bind dual-stack");
    net.connect(v4_client(127, 0, 0, 1, 50600), 8088).expect("connect");
    let (_, peer) = net.accept(lid).expect("accept");
    let expected_bits = (0xffffu128 << 32) | 0x7f000001u128;
    assert_eq!(peer.ip, Ip::V6(expected_bits));
    assert!(peer.ip.is_v4_mapped());
    assert_eq!(peer.port, 50600);
}

#[test]
fn readiness_fairness_across_two_poll_cycles() {
    let mut net = FakeNet::new();
    let mut server = Server::new(&mut net, 8090, 1024).expect("server");

    // one batch's worth of simulated readiness: three IPv4 clients and two
    // IPv6 clients are waiting at once
    for p in 0..3u16 {
        net.connect(v4_client(127, 0, 0, 1, 51000 + p), 8090).expect("v4 connect");
    }
    for p in 0..2u16 {
        net.connect(v6_loopback(52000 + p), 8090).expect("v6 connect");
    }

    // first cycle: both families are ready, both are delivered and serviced
    let events = server.poll_ready(&net);
    assert_eq!(events, vec![Token::V4, Token::V6]);
    assert!(!server.arm.v4 && !server.arm.v6);
    let reports = server.run_batch(&mut net, &events);
    assert!(reports.is_empty());
    assert_eq!(server.conns.len(), 2);
    // re-armed after being serviced: neither family is starved
    assert!(server.arm.v4 && server.arm.v6);

    // second consecutive cycle: the remaining clients of both families are
    // delivered again — the IPv4 burst did not crowd out IPv6
    let events = server.poll_ready(&net);
    assert_eq!(events, vec![Token::V4, Token::V6]);
    let reports = server.run_batch(&mut net, &events);
    assert!(reports.is_empty());
    assert_eq!(server.conns.len(), 4);
    assert!(server.arm.v4 && server.arm.v6);

    let families: Vec<Family> = server
        .conns
        .iter()
        .map(|h| match h.peer.ip {
            Ip::V4(_) => Family::V4,
            Ip::V6(_) => Family::V6,
        })
        .collect();
    assert_eq!(families, vec![Family::V4, Family::V6, Family::V4, Family::V6]);
}

#[test]
fn an_ephemeral_server_accepts_an_ipv4_loopback_client() {
    let mut net = FakeNet::new();
    let mut server = Server::new(&mut net, 0, 1024).expect("server on port 0");
    let port = server.pair.port;
    assert_ne!(port, 0);

    let client = v4_client(127, 0, 0, 1, 49999);
    net.connect(client, port).expect("connect");

    let events = server.poll_ready(&net);
    assert_eq!(events, vec![Token::V4]);
    let reports = server.run_batch(&mut net, &events);
    assert!(reports.is_empty());

    assert_eq!(server.conns.len(), 1);
    let handle = &server.conns[0];
    assert_eq!(handle.peer, client);
    assert!(matches!(handle.peer.ip, Ip::V4(_)));
}

#[test]
fn ipv6_and_ipv4_clients_are_both_accepted_without_mixing() {
    let mut net = FakeNet::new();
    let mut server = Server::new(&mut net, 0, 1024).expect("server on port 0");
    let port = server.pair.port;

    // an IPv4 connection is already pending dispatch when the IPv6 client
    // arrives
    let c4 = v4_client(127, 0, 0, 1, 48000);
    net.connect(c4, port).expect("v4 connect");
    let c6 = v6_loopback(48001);
    net.connect(c6, port).expect("v6 connect");

    let reports = server.start(&mut net, 4);
    assert!(reports.is_empty());

    assert_eq!(server.conns.len(), 2);
    assert_eq!(server.conns[0].peer, c4);
    assert_eq!(server.conns[1].peer, c6);
    // the IPv6 listener never reports an IPv4-mapped peer
    assert!(!server.conns[1].peer.ip.is_v4_mapped());
    assert!(matches!(server.conns[1].peer.ip, Ip::V6(_)));
}

#[test]
fn the_single_shot_accept_prefers_ipv4_and_reports_would_block() {
    let mut net = FakeNet::new();
    let server = Server::new(&mut net, 8095, 16).expect("server");
    assert_eq!(
        server.accept(&mut net).unwrap_err(),
        Error::Io(IoKind::WouldBlock)
    );
    let c6 = v6_loopback(47000);
    net.connect(c6, 8095).expect("v6 connect");
    let c4 = v4_client(127, 0, 0, 1, 47001);
    net.connect(c4, 8095).expect("v4 connect");
    let first = server.accept(&mut net).expect("first accept");
    assert_eq!(first.peer, c4);
    let second = server.accept(&mut net).expect("second accept");
    assert_eq!(second.peer, c6);
}

#[test]
fn a_small_event_buffer_delivers_one_event_per_cycle() {
    let mut net = FakeNet::new();
    let mut server = Server::new(&mut net, 8096, 1).expect("server");
    net.connect(v4_client(127, 0, 0, 1, 46000), 8096).expect("v4 connect");
    net.connect(v6_loopback(46001), 8096).expect("v6 connect");

    let events = server.poll_ready(&net);
    assert_eq!(events, vec![Token::V4]);
    let reports = server.run_batch(&mut net, &events);
    assert!(reports.is_empty());

    // the serviced IPv4 listener was re-armed, and the IPv6 listener —
    // never delivered — kept its interest: the next cycle serves IPv6
    let events = server.poll_ready(&net);
    assert_eq!(events, vec![Token::V6]);
    let reports = server.run_batch(&mut net, &events);
    assert!(reports.is_empty());
    assert_eq!(server.conns.len(), 2);
}

struct CountingHandler {
    calls: std::cell::Cell<u32>,
}

impl rustserver::handler::HandlesRequests for CountingHandler {
    fn handle_request(&self, _req: rustserver::handler::Request, _res: rustserver::handler::Response) {
        self.calls.set(self.calls.get() + 1);
    }
}

#[test]
fn dispatch_queued_runs_the_handler_once_per_connection_and_shuts_each_down_once() {
    let mut net = FakeNet::new();
    let mut server = Server::new(&mut net, 8098, 64).expect("server");
    for p in 0..3u16 {
        net.connect(v4_client(127, 0, 0, 1, 45000 + p), 8098).expect("connect");
    }
    net.connect(v6_loopback(45100), 8098).expect("v6 connect");
    let reports = server.start(&mut net, 8);
    assert!(reports.is_empty());
    assert_eq!(server.conns.len(), 4);
    let sids: Vec<usize> = server.conns.iter().map(|h| h.stream_id).collect();

    let handler = CountingHandler { calls: std::cell::Cell::new(0) };
    let reports = server.dispatch_queued(&mut net, &handler);
    assert!(reports.is_empty());
    assert_eq!(handler.calls.get(), 4);
    assert_eq!(server.conns.len(), 0);
    for sid in sids {
        assert_eq!(net.streams[sid].shutdown_count, 1);
        assert!(!net.streams[sid].open);
    }
}

#[test]
fn an_exhausted_ephemeral_range_reports_addr_in_use() {
    let mut net = FakeNet::new();
    // only one candidate port is left, and both families of it are taken
    net.next_ephemeral = 65535;
    net.bind(Family::V4, 65535, false).expect("occupy v4");
    net.bind(Family::V6, 65535, true).expect("occupy v6");
    let r = ListenerPair::bind(&mut net, 0);
    assert_eq!(r.unwrap_err(), Error::Io(IoKind::AddrInUse));

    // with the port free again, an ephemeral bind succeeds
    let mut net = FakeNet::new();
    net.next_ephemeral = 65535;
    let pair = ListenerPair::bind(&mut net, 0).expect("ephemeral bind");
    assert_eq!(pair.port, 65535);
}

#[test]
fn server_construction_reports_a_taken_port() {
    let mut net = FakeNet::new();
    let _first = Server::new(&mut net, 8097, 8).expect("first server");
    let second = Server::new(&mut net, 8097, 8);
    assert_eq!(second.unwrap_err(), Error::Io(IoKind::AddrInUse));
}
