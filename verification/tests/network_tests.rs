use bution::addresses::{ip_text, socket_text};
use bution::control::allowed_rpc_bind;
use bution::network::{
    classify_interface, is_lan_address, route_candidates, same_subnet, InterfaceKind, IpAddress, NetworkInterface,
    SocketAddress,
};

fn v6(segments: [u16; 8]) -> IpAddress {
    let mut value: u128 = 0;
    for s in segments {
        value = (value << 16) | s as u128;
    }
    IpAddress::V6(value)
}

#[test]
fn recognizes_private_and_link_local_lan_addresses() {
    assert!(is_lan_address(IpAddress::v4(192, 168, 1, 4)));
    assert!(is_lan_address(IpAddress::v4(169, 254, 1, 4)));
    assert!(is_lan_address(v6([0xfe80, 0, 0, 0, 0, 0, 0, 1])));
    assert!(!is_lan_address(IpAddress::v4(8, 8, 8, 8)));
}

#[test]
fn excludes_common_vpn_interfaces() {
    assert_eq!(classify_interface("utun4"), InterfaceKind::Vpn);
    assert_eq!(classify_interface("Tailscale Tunnel"), InterfaceKind::Vpn);
    assert_eq!(classify_interface("Ethernet 2"), InterfaceKind::Ethernet);
}

#[test]
fn checks_subnet_before_using_route() {
    assert!(same_subnet(IpAddress::v4(192, 168, 1, 4), IpAddress::v4(192, 168, 1, 18), 24));
    assert!(!same_subnet(IpAddress::v4(192, 168, 1, 4), IpAddress::v4(192, 168, 2, 18), 24));
}

fn ethernet(address: IpAddress) -> NetworkInterface {
    NetworkInterface { name: "Ethernet".into(), kind: InterfaceKind::Ethernet, address, prefix_len: 24, is_vpn: false }
}

#[test]
fn refuses_vpn_and_unknown_rpc_bind_addresses() {
    let interfaces = [ethernet(IpAddress::v4(192, 168, 1, 18))];
    assert!(allowed_rpc_bind(IpAddress::v4(192, 168, 1, 18), &interfaces));
    assert!(!allowed_rpc_bind(IpAddress::v4(0, 0, 0, 0), &interfaces));
    assert!(!allowed_rpc_bind(IpAddress::v4(192, 168, 1, 19), &interfaces));
}

#[test]
fn vpn_interfaces_give_no_routes() {
    let mut vpn = ethernet(IpAddress::v4(10, 0, 0, 2));
    vpn.is_vpn = true;
    vpn.kind = InterfaceKind::Vpn;
    let lan = ethernet(IpAddress::v4(192, 168, 1, 4));
    let routes = route_candidates(&[vpn, lan], &[IpAddress::v4(10, 0, 0, 3), IpAddress::v4(192, 168, 1, 18)]);
    assert_eq!(routes.len(), 1);
    assert_eq!(routes[0].1, IpAddress::v4(192, 168, 1, 18));
}

#[test]
fn addresses_print_as_the_standard_library_prints_them() {
    assert_eq!(ip_text(IpAddress::v4(192, 168, 1, 18)), "192.168.1.18");
    assert_eq!(ip_text(IpAddress::v4(0, 0, 0, 0)), "0.0.0.0");
    assert_eq!(ip_text(v6([0xfe80, 0, 0, 0, 0, 0, 0, 1])), "fe80::1");
    assert_eq!(ip_text(IpAddress::V6(0)), "::");
    assert_eq!(ip_text(IpAddress::V6(1)), "::1");
    assert_eq!(ip_text(v6([1, 0, 0, 2, 0, 0, 0, 3])), "1:0:0:2::3");
    assert_eq!(ip_text(v6([1, 0, 0, 2, 0, 0, 3, 4])), "1::2:0:0:3:4");
    assert_eq!(ip_text(v6([0x2001, 0xdb8, 1, 2, 3, 4, 5, 6])), "2001:db8:1:2:3:4:5:6");
    assert_eq!(ip_text(v6([0, 0, 0, 0, 0, 0xffff, 0xc0a8, 0x0112])), "::ffff:192.168.1.18");
    assert_eq!(ip_text(v6([1, 0, 2, 0, 3, 0, 4, 0])), "1:0:2:0:3:0:4:0");
    assert_eq!(
        socket_text(SocketAddress { ip: IpAddress::v4(192, 168, 1, 18), port: 50052 }),
        "192.168.1.18:50052"
    );
    assert_eq!(socket_text(SocketAddress { ip: IpAddress::V6(1), port: 8080 }), "[::1]:8080");
}
