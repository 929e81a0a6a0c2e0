use bution::discovery::{
    advertisement_hostname, advertisement_properties, parse_service_record, removed_event, resolved_event,
    DiscoveryAdvertisement, DiscoveryError, DiscoveryEvent, ServiceRecord,
};
use bution::network::IpAddress;

fn record(id: &str) -> ServiceRecord {
    ServiceRecord {
        id: Some(id.to_owned()),
        name: Some("HONOR Laptop".into()),
        key: Some("public-key".into()),
        role: Some("automatic".into()),
        backend: Some("CPU".into()),
        protocol: Some("1".into()),
        control_port: Some("31750".into()),
        addresses: vec![IpAddress::v4(192, 168, 1, 18)],
    }
}

#[test]
fn parses_resolved_mdns_record() {
    let id = uuid::Uuid::new_v4();
    let node = parse_service_record(record(&id.to_string())).unwrap();
    assert_eq!(node.id, id.as_u128());
    assert_eq!(node.name, "HONOR Laptop");
    assert_eq!(bution::addresses::ip_text(node.addresses[0]), "192.168.1.18");
    assert_eq!(node.control_port, 31750);
    assert_eq!(node.protocol_version, 1);
}

#[test]
fn records_must_carry_every_property() {
    let id = uuid::Uuid::new_v4().to_string();
    let mut r = record(&id);
    r.id = Some("not-a-uuid".into());
    assert_eq!(parse_service_record(r).unwrap_err(), DiscoveryError::InvalidId);
    let mut r = record(&id);
    r.control_port = Some("70000".into());
    assert_eq!(parse_service_record(r).unwrap_err(), DiscoveryError::InvalidControlPort);
    let mut r = record(&id);
    r.backend = None;
    assert_eq!(parse_service_record(r).unwrap_err(), DiscoveryError::MissingBackend);
    let mut r = record(&id);
    r.protocol = None;
    r.name = None;
    assert_eq!(parse_service_record(r).unwrap_err(), DiscoveryError::MissingProtocol);
}

#[test]
fn addresses_are_listed_ipv4_first() {
    let id = uuid::Uuid::new_v4().to_string();
    let mut r = record(&id);
    r.addresses = vec![IpAddress::V6(1), IpAddress::v4(192, 168, 1, 9), IpAddress::v4(10, 0, 0, 1)];
    let node = parse_service_record(r).unwrap();
    assert_eq!(node.addresses, [IpAddress::v4(10, 0, 0, 1), IpAddress::v4(192, 168, 1, 9), IpAddress::V6(1)]);
}

#[test]
fn advertisement_reads_back_as_the_same_node() {
    let ad = DiscoveryAdvertisement {
        id: uuid::Uuid::new_v4().as_u128(),
        name: "Mac".into(),
        public_key: "KEY".into(),
        role: "main".into(),
        backend: "Metal".into(),
        control_port: 4242,
    };
    let props = advertisement_properties(&ad);
    let value = |key: &str| props.iter().find(|(k, _)| k == key).map(|(_, v)| v.clone());
    let r = ServiceRecord {
        id: value("id"),
        name: value("name"),
        key: value("key"),
        role: value("role"),
        backend: value("backend"),
        protocol: value("protocol"),
        control_port: value("control_port"),
        addresses: Vec::new(),
    };
    let node = parse_service_record(r).unwrap();
    assert_eq!(node.id, ad.id);
    assert_eq!(node.control_port, 4242);
    assert_eq!(node.public_key, "KEY");
    let simple = uuid::Uuid::from_u128(ad.id).simple().to_string();
    assert_eq!(advertisement_hostname(ad.id), format!("bution-{simple}.local."));
}

#[test]
fn own_records_are_not_reported() {
    let node = parse_service_record(record(&uuid::Uuid::new_v4().to_string())).unwrap();
    let id = node.id;
    assert!(resolved_event(node, id).is_none());
    assert!(removed_event("me._bution._tcp.local.".into(), "me._bution._tcp.local.").is_none());
    assert!(matches!(removed_event("x".into(), "me"), Some(DiscoveryEvent::Removed { .. })));
}
