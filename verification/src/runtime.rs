//! Decisions of the background runtime: whom to pair with, over which
//! address, and how a model is started.
use vstd::prelude::*;

use crate::cluster::NodeSummary;
use crate::discovery::DiscoveredNode;
use crate::models::RunRecommendation;
use crate::network::{route_candidates, routes_spec, IpAddress, NetworkInterface, SocketAddress};

verus! {

/// Why a model could not be started.
#[derive(Debug, Clone, Copy, PartialEq, Eq, Structural)]
pub enum StartError {
    /// The llama.cpp programs were not found.
    BinariesMissing,
    /// Neither this node nor the cluster has the memory the model needs.
    InsufficientMemory,
    /// The model needs the cluster but no worker is paired.
    NoWorker,
    /// No direct trusted LAN route leads to the worker.
    NoRoute,
    /// The worker's connection was lost.
    WorkerLost,
}

impl StartError {
    pub fn message(&self) -> (text: &'static str)
        ensures
            text@ == (match *self {
                StartError::BinariesMissing => "llama.cpp binaries are not configured"@,
                StartError::InsufficientMemory => "not enough cluster memory for the model"@,
                StartError::NoWorker => "a paired worker is required for this model"@,
                StartError::NoRoute => "no direct trusted LAN route to the worker"@,
                StartError::WorkerLost => "paired worker connection was lost"@,
            }),
    {
        match self {
            StartError::BinariesMissing => "llama.cpp binaries are not configured",
            StartError::InsufficientMemory => "not enough cluster memory for the model",
            StartError::NoWorker => "a paired worker is required for this model",
            StartError::NoRoute => "no direct trusted LAN route to the worker",
            StartError::WorkerLost => "paired worker connection was lost",
        }
    }
}

/// Of two nodes, the one with the smaller id opens the pairing, once.
pub fn should_pair(local_id: u128, node_id: u128, already_connected: bool) -> (pair: bool)
    ensures
        pair == (local_id < node_id && !already_connected),
{
    local_id < node_id && !already_connected
}

/// Two distinct nodes never both open a pairing with each other.
pub proof fn lemma_one_side_pairs(a: u128, b: u128)
    ensures
        !(a < b && b < a),
        a != b ==> (a < b || b < a),
{
}

/// The first IPv4 address of a list, else its first address.
pub open spec fn preferred_address(addresses: Seq<IpAddress>) -> Option<IpAddress> {
    if exists|i: int| 0 <= i < addresses.len() && addresses[i] is V4 {
        Some(addresses[choose_first_v4(addresses)])
    } else if addresses.len() > 0 {
        Some(addresses[0])
    } else {
        None
    }
}

/// The index of the first IPv4 address.
pub open spec fn choose_first_v4(addresses: Seq<IpAddress>) -> int {
    choose|i: int|
        0 <= i < addresses.len() && addresses[i] is V4 && forall|k: int| 0 <= k < i ==> !(addresses[k] is V4)
}

proof fn lemma_first_v4_exists(addresses: Seq<IpAddress>, i: int)
    requires
        0 <= i < addresses.len(),
        addresses[i] is V4,
        forall|k: int| 0 <= k < i ==> !(#[trigger] addresses[k] is V4),
    ensures
        choose_first_v4(addresses) == i,
{
    let j = choose_first_v4(addresses);
    assert(0 <= j < addresses.len() && addresses[j] is V4 && forall|k: int| 0 <= k < j ==> !(addresses[k] is V4));
    if j < i {
        assert(!(addresses[j] is V4));
    } else if i < j {
        assert(!(addresses[i] is V4));
    }
}

/// Where to reach a discovered node's control service: its first IPv4
/// address, else its first address, at its control port.
pub fn preferred_control_address(node: &DiscoveredNode) -> (address: Option<SocketAddress>)
    ensures
        match preferred_address(node.addresses@) {
            Some(ip) => address == Some(SocketAddress { ip, port: node.control_port }),
            None => address is None,
        },
{
    for i in 0..node.addresses.len()
        invariant
            forall|k: int| 0 <= k < i ==> !(#[trigger] node.addresses@[k] is V4),
    {
        if node.addresses[i].is_ipv4() {
            proof {
                lemma_first_v4_exists(node.addresses@, i as int);
            }
            return Some(SocketAddress { ip: node.addresses[i], port: node.control_port });
        }
    }
    if node.addresses.len() > 0 {
        Some(SocketAddress { ip: node.addresses[0], port: node.control_port })
    } else {
        None
    }
}

/// The port a network benchmark is requested on: one above the control
/// port, saturating.
pub fn benchmark_port(control_port: u16) -> (port: u16)
    ensures
        port == if control_port == u16::MAX {
            u16::MAX
        } else {
            (control_port + 1) as u16
        },
{
    control_port.saturating_add(1)
}

/// The routes a network benchmark runs over: those to IPv4 addresses.
pub open spec fn ipv4_routes(routes: Seq<(NetworkInterface, IpAddress)>) -> Seq<(NetworkInterface, IpAddress)> {
    routes.filter(|r: (NetworkInterface, IpAddress)| r.1 is V4)
}

pub fn benchmark_routes(local: &[NetworkInterface], remote_addresses: &[IpAddress]) -> (routes: Vec<
    (NetworkInterface, IpAddress),
>)
    ensures
        routes@ == ipv4_routes(routes_spec(local@, remote_addresses@)),
{
    let all = route_candidates(local, remote_addresses);
    let mut out: Vec<(NetworkInterface, IpAddress)> = Vec::new();
    for i in 0..all.len()
        invariant
            out@ == ipv4_routes(all@.take(i as int)),
    {
        proof {
            broadcast use Seq::lemma_filter_push;

            assert(all@.take(i + 1) =~= all@.take(i as int).push(all@[i as int]));
        }
        if all[i].1.is_ipv4() {
            let route = (all[i].0.clone(), all[i].1);
            out.push(route);
        }
    }
    proof {
        assert(all@.take(all@.len() as int) =~= all@);
    }
    out
}

/// Where a model's layers go: nowhere else when it fits locally; to the
/// paired worker's RPC port, over the measured best route or else the
/// first direct LAN route, when it needs the cluster.
pub open spec fn endpoint_spec(
    recommendation: RunRecommendation,
    remote: Option<NodeSummary>,
    best_route: Option<IpAddress>,
    local: Seq<NetworkInterface>,
) -> Result<Option<SocketAddress>, StartError> {
    match recommendation {
        RunRecommendation::InsufficientMemory => Err(StartError::InsufficientMemory),
        RunRecommendation::Local => Ok(None),
        RunRecommendation::Cluster => match remote {
            None => Err(StartError::NoWorker),
            Some(node) => {
                let routes = routes_spec(local, node.addresses@);
                match best_route {
                    Some(ip) => Ok(Some(SocketAddress { ip, port: node.rpc_port })),
                    None => if routes.len() > 0 {
                        Ok(Some(SocketAddress { ip: routes[0].1, port: node.rpc_port }))
                    } else {
                        Err(StartError::NoRoute)
                    },
                }
            },
        },
    }
}

/// The RPC endpoint a model is started with, if any.
pub fn cluster_endpoint(
    recommendation: RunRecommendation,
    remote: Option<&NodeSummary>,
    best_route: Option<IpAddress>,
    local: &[NetworkInterface],
) -> (r: Result<Option<SocketAddress>, StartError>)
    ensures
        r == endpoint_spec(
            recommendation,
            match remote {
                Some(n) => Some(*n),
                None => None,
            },
            best_route,
            local@,
        ),
{
    match recommendation {
        RunRecommendation::InsufficientMemory => Err(StartError::InsufficientMemory),
        RunRecommendation::Local => Ok(None),
        RunRecommendation::Cluster => match remote {
            None => Err(StartError::NoWorker),
            Some(node) => match best_route {
                Some(ip) => Ok(Some(SocketAddress { ip, port: node.rpc_port })),
                None => {
                    let routes = route_candidates(local, node.addresses.as_slice());
                    if routes.len() > 0 {
                        Ok(Some(SocketAddress { ip: routes[0].1, port: node.rpc_port }))
                    } else {
                        Err(StartError::NoRoute)
                    }
                },
            },
        },
    }
}

} // verus!
