use sendmer::collection::ContentHash;
use sendmer::ticket::{
    apply_options, build_ticket, needs_discovery, AddrInfoOptions, BlobFormat, EndpointAddr, IpAddress,
    TransportAddr,
};

fn sample() -> EndpointAddr {
    EndpointAddr {
        id: [1; 32],
        addrs: vec![
            TransportAddr::Ip(IpAddress::V4([192, 168, 1, 2]), 4433),
            TransportAddr::Relay("https://relay.example/".to_string()),
            TransportAddr::Ip(IpAddress::V6([0; 16]), 4434),
        ],
    }
}

fn kinds(a: &EndpointAddr) -> Vec<&'static str> {
    a.addrs
        .iter()
        .map(|t| match t {
            TransportAddr::Relay(_) => "relay",
            TransportAddr::Ip(..) => "ip",
        })
        .collect()
}

#[test]
fn id_only_strips_all_hints() {
    let mut a = sample();
    apply_options(&mut a, AddrInfoOptions::Id);
    assert!(a.addrs.is_empty());
    assert_eq!(a.id, [1; 32]);
}

#[test]
fn relay_and_addresses_keeps_everything() {
    let mut a = sample();
    apply_options(&mut a, AddrInfoOptions::RelayAndAddresses);
    assert_eq!(kinds(&a), vec!["ip", "relay", "ip"]);
}

#[test]
fn relay_only_keeps_relays() {
    let mut a = sample();
    apply_options(&mut a, AddrInfoOptions::Relay);
    assert_eq!(kinds(&a), vec!["relay"]);
    assert!(matches!(&a.addrs[0], TransportAddr::Relay(u) if u == "https://relay.example/"));
}

#[test]
fn addresses_only_keeps_ips() {
    let mut a = sample();
    apply_options(&mut a, AddrInfoOptions::Addresses);
    assert_eq!(kinds(&a), vec!["ip", "ip"]);
    assert!(matches!(&a.addrs[0], TransportAddr::Ip(IpAddress::V4([192, 168, 1, 2]), 4433)));
}

#[test]
fn ticket_names_a_collection() {
    let h = ContentHash { bytes: [7; 32] };
    let t = build_ticket(sample(), h, AddrInfoOptions::RelayAndAddresses);
    assert_eq!(t.format, BlobFormat::HashSeq);
    assert_eq!(t.hash, h);
    assert_eq!(t.addr.addrs.len(), 3);
    let t2 = build_ticket(sample(), h, AddrInfoOptions::Id);
    assert_eq!(t2.format, BlobFormat::HashSeq);
    assert!(t2.addr.addrs.is_empty());
}

#[test]
fn discovery_only_without_hints() {
    let mut a = sample();
    assert!(!needs_discovery(&a));
    apply_options(&mut a, AddrInfoOptions::Id);
    assert!(needs_discovery(&a));
}

#[test]
fn default_policy_is_id() {
    assert_eq!(AddrInfoOptions::default(), AddrInfoOptions::Id);
}
