use sidecar_proxy::accept_ports::{Accept, Handoff, NewAcceptPorts, PortPolicy};
use sidecar_proxy::dns::Name;
use sidecar_proxy::profiles::client::{Client, Evicted, Lookup};
use sidecar_proxy::profiles::LookupAddr;
use sidecar_proxy::time::Duration;

#[test]
fn opaque_port_is_proxied_and_other_ports_are_rejected() {
    let ports =
        NewAcceptPorts::new(vec![(8080, PortPolicy::Opaque)], PortPolicy::Reject, "detect", "tcp");

    // Port 8080 goes to the opaque stack, and the connection is handed over
    // as it came: nothing sniffed it.
    let accept = ports.new_service(8080);
    assert!(matches!(accept, Accept::Opaque(_)));
    match accept.call(vec![0x16u8, 0x03, 0x01]) {
        Ok(Handoff::Opaque { stack, io }) => {
            assert_eq!(*stack, "tcp");
            assert_eq!(io, vec![0x16u8, 0x03, 0x01]);
        }
        other => panic!("unexpected outcome {:?}", other),
    }

    // Port 9999 is not mapped: the default rejects it.
    assert_eq!(ports.policy(9999), PortPolicy::Reject);
    let accept = ports.new_service(9999);
    match accept.call(vec![0x16u8, 0x03, 0x01]) {
        Err(rejected) => assert_eq!(rejected.message(), "connection rejected by policy"),
        Ok(handoff) => panic!("unexpected handoff {:?}", handoff),
    }
}

#[test]
fn two_requests_to_one_service_share_one_discovery_call() {
    let service =
        LookupAddr::new(Name::from_str("service.ns.svc.cluster.local").expect("a name"), 80);
    let mut client = Client::new("token", Duration::from_secs(10), 10);
    let now = Duration::from_secs(1);

    // Both requests arrive before discovery answers.
    let first = match client.lookup(&service, now) {
        Lookup::Start(handle) => handle,
        other => panic!("the first request starts discovery, got {:?}", other),
    };
    assert_eq!(client.request(first.addr()).path, "service.ns.svc.cluster.local:80");
    let second = match client.lookup(&service, now) {
        Lookup::Wait(handle) => handle,
        other => panic!("the second request waits, got {:?}", other),
    };
    assert_eq!(second.stream(), first.stream());

    // Discovery answers: both requests get a receiver of the one stream.
    assert_eq!(client.established(&service, first.stream()), 2);
    let first = match client.poll(first, now) {
        Lookup::Ready(receiver) => receiver,
        other => panic!("expected a receiver, got {:?}", other),
    };
    let second = match client.poll(second, now) {
        Lookup::Ready(receiver) => receiver,
        other => panic!("expected a receiver, got {:?}", other),
    };
    assert_eq!(first.stream(), 0);
    assert_eq!(second.stream(), 0);
    assert_eq!(first.addr(), second.addr());

    // Only one stream was ever started: the next new address gets number 1.
    let other = LookupAddr::new(Name::from_str("other.ns.svc.cluster.local").expect("a name"), 80);
    match client.lookup(&other, now) {
        Lookup::Start(handle) => assert_eq!(handle.stream(), 1),
        other => panic!("expected a new stream, got {:?}", other),
    }
}

#[test]
fn terminal_discovery_error_resolves_to_none_and_is_retried_after_idling_out() {
    let service =
        LookupAddr::new(Name::from_str("service.ns.svc.cluster.local").expect("a name"), 80);
    let idle = 10;
    let mut client = Client::new("token", Duration::from_secs(idle), 10);

    let handle = match client.lookup(&service, Duration::from_secs(0)) {
        Lookup::Start(handle) => handle,
        other => panic!("expected a new stream, got {:?}", other),
    };
    assert_eq!(handle.stream(), 0);

    // Discovery gives up: the lookup resolves to no profile.
    assert_eq!(client.failed(&service, 0), 1);
    assert_eq!(client.poll(handle, Duration::from_secs(2)), Lookup::Unavailable);

    // Within the idle window the entry is still there and no call is made.
    assert_eq!(client.evict_idle(Duration::from_secs(11)), Vec::new());

    // After the idle window the entry is gone, and a lookup calls again.
    assert_eq!(
        client.evict_idle(Duration::from_secs(2 + idle)),
        vec![Evicted { addr: service.duplicate(), stream: 0 }]
    );
    match client.lookup(&service, Duration::from_secs(13)) {
        Lookup::Start(handle) => assert_eq!(handle.stream(), 1),
        other => panic!("expected a new stream, got {:?}", other),
    }
}
