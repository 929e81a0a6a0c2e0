use bution::cluster::{NodeRole, NodeStatus, NodeSummary};
use bution::discovery::DiscoveredNode;
use bution::models::RunRecommendation;
use bution::network::{InterfaceKind, IpAddress, NetworkInterface, SocketAddress};
use bution::runtime::{benchmark_port, benchmark_routes, cluster_endpoint, preferred_control_address, should_pair, StartError};

fn discovered(addresses: Vec<IpAddress>) -> DiscoveredNode {
    DiscoveredNode {
        id: 2,
        name: "peer".into(),
        public_key: "k".into(),
        role: "worker".into(),
        backend: "CPU".into(),
        addresses,
        control_port: 31750,
        protocol_version: 1,
    }
}

fn summary(addresses: Vec<IpAddress>) -> NodeSummary {
    NodeSummary {
        id: 2,
        name: "peer".into(),
        role: NodeRole::Worker,
        status: NodeStatus::Ready,
        addresses,
        control_port: 31750,
        rpc_port: 50052,
        available_memory_bytes: 1,
        compute_backend: "CPU".into(),
    }
}

fn lan() -> NetworkInterface {
    NetworkInterface { name: "en0".into(), kind: InterfaceKind::Ethernet, address: IpAddress::v4(192, 168, 1, 4), prefix_len: 24, is_vpn: false }
}

#[test]
fn only_the_smaller_id_opens_the_pairing() {
    assert!(should_pair(1, 2, false));
    assert!(!should_pair(2, 1, false));
    assert!(!should_pair(1, 2, true));
}

#[test]
fn control_address_prefers_ipv4() {
    let node = discovered(vec![IpAddress::V6(1), IpAddress::v4(192, 168, 1, 18)]);
    assert_eq!(preferred_control_address(&node), Some(SocketAddress { ip: IpAddress::v4(192, 168, 1, 18), port: 31750 }));
    let node = discovered(vec![IpAddress::V6(1)]);
    assert_eq!(preferred_control_address(&node), Some(SocketAddress { ip: IpAddress::V6(1), port: 31750 }));
    assert_eq!(preferred_control_address(&discovered(Vec::new())), None);
    assert_eq!(benchmark_port(31750), 31751);
    assert_eq!(benchmark_port(u16::MAX), u16::MAX);
}

#[test]
fn model_start_needs_memory_a_worker_and_a_route() {
    let remote = summary(vec![IpAddress::v4(192, 168, 1, 18)]);
    assert_eq!(cluster_endpoint(RunRecommendation::InsufficientMemory, Some(&remote), None, &[lan()]), Err(StartError::InsufficientMemory));
    assert_eq!(cluster_endpoint(RunRecommendation::Local, None, None, &[]), Ok(None));
    assert_eq!(cluster_endpoint(RunRecommendation::Cluster, None, None, &[lan()]), Err(StartError::NoWorker));
    assert_eq!(
        cluster_endpoint(RunRecommendation::Cluster, Some(&remote), None, &[lan()]),
        Ok(Some(SocketAddress { ip: IpAddress::v4(192, 168, 1, 18), port: 50052 }))
    );
    assert_eq!(
        cluster_endpoint(RunRecommendation::Cluster, Some(&remote), Some(IpAddress::v4(10, 0, 0, 9)), &[]),
        Ok(Some(SocketAddress { ip: IpAddress::v4(10, 0, 0, 9), port: 50052 }))
    );
    assert_eq!(cluster_endpoint(RunRecommendation::Cluster, Some(&remote), None, &[]), Err(StartError::NoRoute));
}

#[test]
fn network_tests_skip_ipv6_routes() {
    let mut v6 = lan();
    v6.address = IpAddress::V6(0xfe80_0000_0000_0000_0000_0000_0000_0004);
    v6.prefix_len = 64;
    let routes = benchmark_routes(
        &[lan(), v6],
        &[IpAddress::V6(0xfe80_0000_0000_0000_0000_0000_0000_0009), IpAddress::v4(192, 168, 1, 18)],
    );
    assert_eq!(routes.len(), 1);
    assert_eq!(routes[0].1, IpAddress::v4(192, 168, 1, 18));
}
