use volte_ims::channel::{
    ImsRequeue, ImsRoute, SipTransport, SocketOutcome, VolteSipChannel,
};
use volte_ims::ip::{parse_ip, SocketAddr};

fn addr(ip: &str, port: u16) -> SocketAddr {
    SocketAddr::new(parse_ip(ip).unwrap(), port)
}

fn route() -> ImsRoute {
    ImsRoute {
        local_addr: addr("127.0.0.1", 0),
        pcscf_addr: addr("127.0.0.1", 5060),
        transport: SipTransport::Udp,
    }
}

fn bound(port: u16) -> SocketOutcome {
    SocketOutcome::Bound(addr("127.0.0.1", port))
}

fn channel() -> VolteSipChannel {
    VolteSipChannel::bind(
        route(),
        Some("wwan0".to_string()),
        None,
        ImsRequeue::with_limits(4, 100),
        bound(40000),
    )
    .unwrap()
}

#[test]
fn rejects_mismatched_address_families() {
    let route = ImsRoute {
        local_addr: addr("127.0.0.1", 0),
        pcscf_addr: addr("::1", 5060),
        transport: SipTransport::Udp,
    };
    let error = VolteSipChannel::bind(
        route,
        None,
        None,
        ImsRequeue::with_limits(4, 100),
        bound(40000),
    )
    .err()
    .unwrap();
    assert_eq!(error.code(), "volte_channel_bind_failed");
}

#[test]
fn protected_channel_uses_distinct_send_and_receive_ports() {
    let mut channel = channel();
    let local_send = channel.local_addr().unwrap();
    assert_eq!(channel.interface(), Some("wwan0"));
    assert_eq!(channel.advertised_route(), channel.send_route());
    let port = channel.reserve_security_receive_port(bound(40002)).unwrap();
    assert_ne!(local_send.port, port);
    assert_eq!(channel.reserve_security_receive_port(bound(40004)), Ok(40002));
    assert_eq!(channel.reserved_port(), Some(40002));

    let send_route = ImsRoute { local_addr: local_send, ..route() };
    channel
        .activate_security(
            send_route,
            addr("127.0.0.1", 40002),
            Some("ipsec-3gpp".to_string()),
            true,
            bound(40000),
        )
        .unwrap();
    assert_eq!(channel.send_route().local_addr.port, 40000);
    assert_eq!(channel.advertised_route().local_addr.port, 40002);
    assert_eq!(channel.security_verify(), Some("ipsec-3gpp"));
    assert!(channel.receives_apart);
}

#[test]
fn requeued_datagrams_are_delivered_fifo_before_fresh_transport_data() {
    let mut channel = channel();
    assert!(channel.requeue(b"first".to_vec()));
    assert!(channel.requeue(b"second".to_vec()));
    assert_eq!(channel.take_requeued().unwrap(), b"first");
    assert_eq!(channel.take_requeued().unwrap(), b"second");
    assert_eq!(channel.take_requeued(), None);
    assert!(channel.can_receive().is_ok());
}

#[test]
fn requeue_drops_the_newest_beyond_its_limits() {
    let mut queue = ImsRequeue::with_limits(2, 10);
    assert!(queue.push_back(vec![0; 6]));
    assert!(!queue.push_back(vec![0; 5]));
    assert!(queue.push_back(vec![1; 4]));
    assert!(!queue.push_back(Vec::new()));
    assert_eq!(queue.len(), 2);
    assert_eq!(queue.bytes(), 10);
    assert_eq!(queue.pop_front().unwrap().len(), 6);
    assert_eq!(queue.bytes(), 4);
}

#[test]
fn security_needs_the_reserved_port() {
    let code = |result: Result<(), volte_ims::register::ImsError>| result.unwrap_err().code();
    let send_route = ImsRoute { local_addr: addr("127.0.0.1", 40000), ..route() };
    let local = addr("127.0.0.1", 40002);
    let mut unreserved = channel();
    assert_eq!(
        code(unreserved.activate_security(send_route, local, None, true, bound(40000))),
        "volte_channel_receive_not_reserved"
    );
    let mut other_port = channel();
    other_port.reserve_security_receive_port(bound(40004)).unwrap();
    assert_eq!(
        code(other_port.activate_security(send_route, local, None, true, bound(40000))),
        "volte_channel_receive_port_mismatch"
    );
    assert_eq!(other_port.reserved_port(), None);
    assert!(other_port.local_addr().is_ok());
    let mut unconnected = channel();
    unconnected.reserve_security_receive_port(bound(40002)).unwrap();
    assert_eq!(
        code(unconnected.activate_security(send_route, local, None, false, bound(40000))),
        "volte_channel_receive_connect_failed"
    );
    let mut unsent = channel();
    unsent.reserve_security_receive_port(bound(40002)).unwrap();
    assert_eq!(
        code(unsent.activate_security(send_route, local, None, true, SocketOutcome::Failed)),
        "volte_channel_protected_send_bind_failed"
    );
    assert_eq!(
        unsent.local_addr().unwrap_err().code(),
        "volte_channel_send_socket_missing"
    );
    assert_eq!(
        unsent.can_receive().unwrap_err().code(),
        "volte_channel_receive_socket_missing"
    );
}

#[test]
fn worker_and_host_reservations_do_not_mix() {
    let send_route = ImsRoute { local_addr: addr("127.0.0.1", 40000), ..route() };
    let local = addr("127.0.0.1", 40002);
    let mut worker = VolteSipChannel::bind_in_worker(
        route(),
        None,
        None,
        ImsRequeue::with_limits(4, 100),
        bound(40000),
    )
    .unwrap();
    worker.reserve_security_receive_port_in_worker(bound(40002)).unwrap();
    assert_eq!(
        worker
            .activate_security(send_route, local, None, true, bound(40000))
            .unwrap_err()
            .code(),
        "volte_channel_worker_receive_requires_async"
    );
    worker.reserve_security_receive_port_in_worker(bound(40002)).unwrap();
    worker
        .activate_security_in_worker(send_route, local, None, true, bound(40000))
        .unwrap();
    assert_eq!(worker.advertised_route().local_addr.port, 40002);

    let mut host = channel();
    host.reserve_security_receive_port(bound(40002)).unwrap();
    assert_eq!(
        host.activate_security_in_worker(send_route, local, None, true, bound(40000))
            .unwrap_err()
            .code(),
        "volte_channel_worker_receive_mismatch"
    );
    for (outcome, expected) in [
        (SocketOutcome::AddressUnknown, "volte_channel_local_addr_failed"),
        (SocketOutcome::OtherSort, "volte_channel_worker_socket_type"),
        (SocketOutcome::Failed, "volte_channel_worker_socket_failed"),
    ] {
        let error = VolteSipChannel::bind_in_worker(
            route(),
            None,
            None,
            ImsRequeue::with_limits(4, 100),
            outcome,
        )
        .err()
        .unwrap();
        assert_eq!(error.code(), expected);
    }
}

#[test]
fn short_and_failed_sends_are_errors() {
    let channel = channel();
    assert!(channel.sent(b"frame", Some(5)).is_ok());
    assert_eq!(
        channel.sent(b"frame", Some(4)).unwrap_err().code(),
        "volte_channel_short_send"
    );
    assert_eq!(
        channel.sent(b"frame", None).unwrap_err().code(),
        "volte_channel_send_failed"
    );
}

#[test]
fn written_addresses_are_read_back() {
    for text in [
        "0.0.0.0",
        "10.0.255.1",
        "::",
        "::1",
        "1::",
        "2001:db8::1:0:0:1",
        "2001:db8:0:1:1:1:1:1",
        "::ffff:192.0.2.33",
        "fe80::1:2:3:4",
    ] {
        let address = parse_ip(text).unwrap();
        assert_eq!(address.to_string(), text);
        assert_eq!(parse_ip(&address.to_string()), Some(address));
    }
    let address = parse_ip("2001:0DB8:0:0:0:0:0:A").unwrap();
    assert_eq!(address.to_string(), "2001:db8::a");
    assert_eq!(parse_ip("1:2:3:4:5:6:7"), None);
    assert_eq!(parse_ip("1::2::3"), None);
    assert_eq!(parse_ip("192.0.2.033"), None);
}
