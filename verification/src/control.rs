//! Decisions of the encrypted control service: whom to pair with, and how to
//! answer each authenticated request.
use vstd::prelude::*;

use crate::cluster::{ControlMessage, NodeStatus, NodeSummary, PairDecision, PairRequest, PairResponse};
use crate::hardware::HardwareProfile;
use crate::network::{IpAddress, NetworkInterface};
use crate::storage::{first_peer, Settings};
use crate::text::same_text;
use crate::PROTOCOL_VERSION;

verus! {

/// What the control service does with a pairing request.
#[derive(Debug, Clone, Copy, PartialEq, Eq, Structural)]
pub enum PairingVerdict {
    /// The peer claims this node's own id: the connection ends with an error.
    SelfPairing,
    /// Wrong protocol version, or the claimed key is not the channel's key:
    /// answer with a rejection, then end the connection with an error.
    RejectMismatch,
    /// A trusted peer presented a different key: answer with a rejection,
    /// then end the connection with an error.
    RejectChangedKey,
    /// Already trusted under this key: accept without asking.
    AcceptTrusted,
    /// An unknown peer: show the pairing code and ask the user.
    AskUser,
}

/// The key a node id is trusted under, if any.
pub open spec fn trusted_key(settings: Settings, id: u128) -> Option<Seq<char>> {
    let k = first_peer(settings.trusted_peers@, id);
    if k < settings.trusted_peers@.len() {
        Some(settings.trusted_peers@[k].public_key@)
    } else {
        None
    }
}

/// The decision for a pairing request arriving on a channel whose Noise
/// static key is `channel_key`.
pub open spec fn verdict_spec(settings: Settings, request: PairRequest, channel_key: Seq<char>) -> PairingVerdict {
    if request.node_id == settings.node_id {
        PairingVerdict::SelfPairing
    } else if request.protocol_version != PROTOCOL_VERSION || request.public_key@ != channel_key {
        PairingVerdict::RejectMismatch
    } else {
        match trusted_key(settings, request.node_id) {
            Some(key) => if key == request.public_key@ {
                PairingVerdict::AcceptTrusted
            } else {
                PairingVerdict::RejectChangedKey
            },
            None => PairingVerdict::AskUser,
        }
    }
}


/// Decides what to do with a pairing request.
pub fn pairing_verdict(settings: &Settings, request: &PairRequest, channel_key: &str) -> (verdict: PairingVerdict)
    ensures
        verdict == verdict_spec(*settings, *request, channel_key@),
{
    if request.node_id == settings.node_id {
        return PairingVerdict::SelfPairing;
    }
    if request.protocol_version != PROTOCOL_VERSION || !same_text(request.public_key.as_str(), channel_key) {
        return PairingVerdict::RejectMismatch;
    }
    match settings.trusted_peer(request.node_id) {
        Some(peer) => {
            if peer.public_key == request.public_key {
                PairingVerdict::AcceptTrusted
            } else {
                PairingVerdict::RejectChangedKey
            }
        },
        None => {
            proof {
                crate::storage::lemma_first_peer_absent(settings.trusted_peers@, request.node_id);
            }
            PairingVerdict::AskUser
        },
    }
}

/// The pairing decision once any question to the user is answered: a
/// trusted peer is accepted, an unknown one as the user decided.
pub fn final_decision(verdict: PairingVerdict, user: Option<PairDecision>) -> (decision: PairDecision)
    requires
        verdict == PairingVerdict::AcceptTrusted || verdict == PairingVerdict::AskUser,
        verdict == PairingVerdict::AskUser ==> user is Some,
    ensures
        decision == (if verdict == PairingVerdict::AcceptTrusted { PairDecision::Accept } else { user->Some_0 }),
{
    match verdict {
        PairingVerdict::AcceptTrusted => PairDecision::Accept,
        _ => user.unwrap(),
    }
}

/// A new trust record is written only when an unknown peer was accepted.
pub fn stores_trust(verdict: PairingVerdict, decision: PairDecision) -> (store: bool)
    ensures
        store == (verdict == PairingVerdict::AskUser && decision == PairDecision::Accept),
{
    verdict == PairingVerdict::AskUser && decision == PairDecision::Accept
}

/// The answer to a pairing request; a rejection caused by a mismatch is
/// marked `rejected:<peer id>`.
pub fn pairing_response(local_id: u128, local_key: String, decision: PairDecision, rejected_peer: Option<u128>) -> (response: PairResponse)
    ensures
        response.node_id == local_id,
        response.public_key == local_key,
        response.decision == decision,
        response.signature@ == (match rejected_peer {
            Some(id) => "rejected:"@ + crate::security::uuid_text_spec(id),
            None => Seq::<char>::empty(),
        }),
{
    let signature = match rejected_peer {
        Some(id) => {
            let mut text = crate::text::chars_of("rejected:");
            crate::security::push_uuid(&mut text, id);
            crate::text::string_from_chars(&text)
        },
        None => String::new(),
    };
    PairResponse { node_id: local_id, public_key: local_key, decision, signature }
}

/// Some local interface has exactly this address and is usable for the
/// cluster (not a VPN, on a private or link-local LAN).
pub open spec fn bind_allowed(address: IpAddress, available: Seq<NetworkInterface>) -> bool {
    exists|i: int| 0 <= i < available.len() && available[i].address == address && #[trigger] available[i].usable()
}

/// Whether a requested bind address is one this node may open a service on.
pub fn allowed_rpc_bind(address: IpAddress, available: &[NetworkInterface]) -> (allowed: bool)
    ensures
        allowed == bind_allowed(address, available@),
{
    for i in 0..available.len()
        invariant
            forall|k: int| 0 <= k < i ==> !(available@[k].address == address && #[trigger] available@[k].usable()),
    {
        if available[i].address == address && available[i].usable_for_cluster() {
            return true;
        }
    }
    false
}

/// A service opened after an allowed request binds a LAN address: never the
/// unspecified address, a loopback address, or a public address.
pub proof fn lemma_allowed_bind_is_lan(address: IpAddress, available: Seq<NetworkInterface>)
    requires
        bind_allowed(address, available),
    ensures
        address.lan(),
        !address.unspecified(),
        !address.loopback(),
{
}

/// Errors reported back to the requesting peer.
#[derive(Debug, Clone, Copy, PartialEq, Eq, Structural)]
pub enum ControlError {
    /// The worker was asked to open an RPC server but has no llama.cpp binaries.
    BinariesMissing,
    /// The request is not one the service answers.
    Unsupported,
    /// The requested RPC bind address is not a usable local interface.
    UntrustedWorkerBind,
    /// The requested network test bind address is not a usable local interface.
    UntrustedBenchmarkBind,
}

impl ControlError {
    /// The message sent to the peer.
    pub fn message(self) -> (text: &'static str)
        ensures
            text@ == (match self {
                ControlError::BinariesMissing => "llama.cpp binaries are not configured on this worker"@,
                ControlError::Unsupported => "This control request is not supported"@,
                ControlError::UntrustedWorkerBind => "RPC worker was not opened on an untrusted interface"@,
                ControlError::UntrustedBenchmarkBind => "Network test was not opened on an untrusted interface"@,
            }),
    {
        match self {
            ControlError::BinariesMissing => "llama.cpp binaries are not configured on this worker",
            ControlError::Unsupported => "This control request is not supported",
            ControlError::UntrustedWorkerBind => "RPC worker was not opened on an untrusted interface",
            ControlError::UntrustedBenchmarkBind => "Network test was not opened on an untrusted interface",
        }
    }
}

/// How to answer one request after pairing.
#[derive(Debug, Clone, Copy, PartialEq, Eq, Structural)]
pub enum RequestPlan {
    /// Answer a ping with the same nonce.
    Pong { nonce: u64 },
    /// Send this node's summary.
    SendNodeInfo,
    /// (Re)start the RPC worker with these settings, then report `WorkerReady`.
    StartWorker { bind_address: IpAddress, port: u16, threads: usize },
    /// Stop the RPC worker, then report `WorkerReady` with port 0.
    StopWorker,
    /// (Re)start the network test server, then report its port.
    StartBenchmark { bind_address: IpAddress, port: u16 },
    /// Stop the network test server, then report port 0.
    StopBenchmark,
    /// Answer with an error; a refused bind names the address.
    Refuse { error: ControlError, address: Option<IpAddress> },
    /// The bind address text was not an address: the connection ends.
    InvalidAddress { worker: bool },
}

/// Half of the logical cores, at least one.
pub open spec fn worker_threads(logical_cores: usize) -> usize {
    if logical_cores / 2 > 1 { (logical_cores / 2) as usize } else { 1 }
}

/// The plan for a request.
pub open spec fn plan_spec(
    message: ControlMessage,
    bind: Option<IpAddress>,
    available: Seq<NetworkInterface>,
    binaries_configured: bool,
    logical_cores: usize,
) -> RequestPlan {
    match message {
        ControlMessage::Ping { nonce } => RequestPlan::Pong { nonce },
        ControlMessage::GetNodeInfo => RequestPlan::SendNodeInfo,
        ControlMessage::StartWorker { rpc_port, .. } => match bind {
            None => RequestPlan::InvalidAddress { worker: true },
            Some(address) => if !bind_allowed(address, available) {
                RequestPlan::Refuse { error: ControlError::UntrustedWorkerBind, address: Some(address) }
            } else if !binaries_configured {
                RequestPlan::Refuse { error: ControlError::BinariesMissing, address: None }
            } else {
                RequestPlan::StartWorker { bind_address: address, port: rpc_port, threads: worker_threads(logical_cores) }
            },
        },
        ControlMessage::StopWorker => RequestPlan::StopWorker,
        ControlMessage::StartNetworkBenchmark { port, .. } => match bind {
            None => RequestPlan::InvalidAddress { worker: false },
            Some(address) => if !bind_allowed(address, available) {
                RequestPlan::Refuse { error: ControlError::UntrustedBenchmarkBind, address: Some(address) }
            } else {
                RequestPlan::StartBenchmark { bind_address: address, port }
            },
        },
        ControlMessage::StopNetworkBenchmark => RequestPlan::StopBenchmark,
        _ => RequestPlan::Refuse { error: ControlError::Unsupported, address: None },
    }
}

/// Plans the answer to an authenticated request. `bind` is the request's
/// bind address as parsed, when it carries one.
pub fn plan_request(
    message: &ControlMessage,
    bind: Option<IpAddress>,
    available: &[NetworkInterface],
    binaries_configured: bool,
    logical_cores: usize,
) -> (plan: RequestPlan)
    ensures
        plan == plan_spec(*message, bind, available@, binaries_configured, logical_cores),
{
    match message {
        ControlMessage::Ping { nonce } => RequestPlan::Pong { nonce: *nonce },
        ControlMessage::GetNodeInfo => RequestPlan::SendNodeInfo,
        ControlMessage::StartWorker { rpc_port, .. } => match bind {
            None => RequestPlan::InvalidAddress { worker: true },
            Some(address) => if !allowed_rpc_bind(address, available) {
                RequestPlan::Refuse { error: ControlError::UntrustedWorkerBind, address: Some(address) }
            } else if !binaries_configured {
                RequestPlan::Refuse { error: ControlError::BinariesMissing, address: None }
            } else {
                let half = logical_cores / 2;
                let threads = if half > 1 { half } else { 1 };
                RequestPlan::StartWorker { bind_address: address, port: *rpc_port, threads }
            },
        },
        ControlMessage::StopWorker => RequestPlan::StopWorker,
        ControlMessage::StartNetworkBenchmark { port, .. } => match bind {
            None => RequestPlan::InvalidAddress { worker: false },
            Some(address) => if !allowed_rpc_bind(address, available) {
                RequestPlan::Refuse { error: ControlError::UntrustedBenchmarkBind, address: Some(address) }
            } else {
                RequestPlan::StartBenchmark { bind_address: address, port: *port }
            },
        },
        ControlMessage::StopNetworkBenchmark => RequestPlan::StopBenchmark,
        _ => RequestPlan::Refuse { error: ControlError::Unsupported, address: None },
    }
}

/// Where a control connection stands.
#[derive(Debug, Clone, Copy, PartialEq, Eq, Structural)]
pub enum ConnectionPhase {
    /// Waiting for the first message, which must be a pairing request.
    AwaitingPairing,
    /// The pairing was accepted: requests are served.
    Paired,
    /// The connection ends.
    Closed,
}

/// What to do with a message that arrives on a connection.
#[derive(Debug, Clone, Copy, PartialEq, Eq, Structural)]
pub enum ConnectionStep {
    /// Decide on the pairing request.
    DecidePairing,
    /// Carry out this plan.
    Serve(RequestPlan),
    /// End the connection.
    Close,
}

/// The step for a message in a phase: before pairing only a pairing
/// request is taken, and nothing is served; after an accepted pairing each
/// request is planned; a closed connection takes nothing.
pub open spec fn step_spec(
    phase: ConnectionPhase,
    message: ControlMessage,
    bind: Option<IpAddress>,
    available: Seq<NetworkInterface>,
    binaries_configured: bool,
    logical_cores: usize,
) -> ConnectionStep {
    match phase {
        ConnectionPhase::AwaitingPairing => if message is PairRequest {
            ConnectionStep::DecidePairing
        } else {
            ConnectionStep::Close
        },
        ConnectionPhase::Paired => ConnectionStep::Serve(
            plan_spec(message, bind, available, binaries_configured, logical_cores),
        ),
        ConnectionPhase::Closed => ConnectionStep::Close,
    }
}

/// A new connection waits for its pairing request.
pub fn new_connection() -> (phase: ConnectionPhase)
    ensures
        phase == ConnectionPhase::AwaitingPairing,
{
    ConnectionPhase::AwaitingPairing
}

/// Decides what to do with a message that arrives in a phase.
pub fn connection_step(
    phase: ConnectionPhase,
    message: &ControlMessage,
    bind: Option<IpAddress>,
    available: &[NetworkInterface],
    binaries_configured: bool,
    logical_cores: usize,
) -> (step: ConnectionStep)
    ensures
        step == step_spec(phase, *message, bind, available@, binaries_configured, logical_cores),
{
    match phase {
        ConnectionPhase::AwaitingPairing => match message {
            ControlMessage::PairRequest(_) => ConnectionStep::DecidePairing,
            _ => ConnectionStep::Close,
        },
        ConnectionPhase::Paired => ConnectionStep::Serve(
            plan_request(message, bind, available, binaries_configured, logical_cores),
        ),
        ConnectionPhase::Closed => ConnectionStep::Close,
    }
}

/// The phase after the pairing decision: served when accepted, closed when rejected.
pub open spec fn phase_after_spec(decision: PairDecision) -> ConnectionPhase {
    match decision {
        PairDecision::Accept => ConnectionPhase::Paired,
        PairDecision::Reject => ConnectionPhase::Closed,
    }
}

pub fn phase_after_pairing(decision: PairDecision) -> (phase: ConnectionPhase)
    ensures
        phase == phase_after_spec(decision),
{
    match decision {
        PairDecision::Accept => ConnectionPhase::Paired,
        PairDecision::Reject => ConnectionPhase::Closed,
    }
}

/// RPC workers and network test servers start only after an encrypted
/// pairing was accepted: before that, and after a rejection, no message is
/// served, and the only way into serving is an accepted pairing decision.
pub proof fn lemma_no_service_before_pairing(
    phase: ConnectionPhase,
    message: ControlMessage,
    bind: Option<IpAddress>,
    available: Seq<NetworkInterface>,
    binaries_configured: bool,
    logical_cores: usize,
    decision: PairDecision,
)
    ensures
        step_spec(phase, message, bind, available, binaries_configured, logical_cores) is Serve ==> phase
            == ConnectionPhase::Paired,
        phase_after_spec(decision) == ConnectionPhase::Paired <==> decision == PairDecision::Accept,
{
}

/// No worker or network test server is ever started on an address that is
/// not a usable LAN interface of this node.
pub proof fn lemma_services_bind_only_lan(
    message: ControlMessage,
    bind: Option<IpAddress>,
    available: Seq<NetworkInterface>,
    binaries_configured: bool,
    logical_cores: usize,
)
    ensures
        plan_spec(message, bind, available, binaries_configured, logical_cores) matches RequestPlan::StartWorker { bind_address, .. }
            ==> bind == Some(bind_address) && bind_allowed(bind_address, available) && bind_address.lan(),
        plan_spec(message, bind, available, binaries_configured, logical_cores) matches RequestPlan::StartBenchmark { bind_address, .. }
            ==> bind == Some(bind_address) && bind_allowed(bind_address, available) && bind_address.lan(),
{
}

/// Each request is answered about the service it names: a stop request
/// stops that service and no other, a ping is answered with its own
/// nonce, a node-info request with the node's summary; a worker start
/// request only ever starts the RPC worker, on the port it asks for, and a
/// network test start request only ever starts the test server, on its port.
pub proof fn lemma_requests_concern_what_they_name(
    message: ControlMessage,
    bind: Option<IpAddress>,
    available: Seq<NetworkInterface>,
    binaries_configured: bool,
    logical_cores: usize,
)
    ensures
        plan_spec(ControlMessage::StopWorker, bind, available, binaries_configured, logical_cores)
            == RequestPlan::StopWorker,
        plan_spec(ControlMessage::StopNetworkBenchmark, bind, available, binaries_configured, logical_cores)
            == RequestPlan::StopBenchmark,
        plan_spec(ControlMessage::GetNodeInfo, bind, available, binaries_configured, logical_cores)
            == RequestPlan::SendNodeInfo,
        message matches ControlMessage::Ping { nonce } ==> plan_spec(
            message,
            bind,
            available,
            binaries_configured,
            logical_cores,
        ) == (RequestPlan::Pong { nonce }),
        message matches ControlMessage::StartWorker { rpc_port, .. } ==> ({
            let plan = plan_spec(message, bind, available, binaries_configured, logical_cores);
            ||| plan matches RequestPlan::StartWorker { port, .. } && port == rpc_port
            ||| plan is Refuse
            ||| plan == (RequestPlan::InvalidAddress { worker: true })
        }),
        message matches ControlMessage::StartNetworkBenchmark { port: asked, .. } ==> ({
            let plan = plan_spec(message, bind, available, binaries_configured, logical_cores);
            ||| plan matches RequestPlan::StartBenchmark { port, .. } && port == asked
            ||| plan is Refuse
            ||| plan == (RequestPlan::InvalidAddress { worker: false })
        }),
        plan_spec(message, bind, available, binaries_configured, logical_cores) is StopWorker ==> message
            is StopWorker,
        plan_spec(message, bind, available, binaries_configured, logical_cores) is StopBenchmark ==> message
            is StopNetworkBenchmark,
{
}

/// Trust is pinned: a peer already trusted under one key is never accepted,
/// nor offered to the user, under another; and no peer is accepted without
/// asking unless it presents exactly the key it was trusted under.
pub proof fn lemma_trust_is_pinned(settings: Settings, request: PairRequest, channel_key: Seq<char>)
    ensures
        (trusted_key(settings, request.node_id) matches Some(key) && key != request.public_key@)
            ==> verdict_spec(settings, request, channel_key) != PairingVerdict::AcceptTrusted
            && verdict_spec(settings, request, channel_key) != PairingVerdict::AskUser,
        verdict_spec(settings, request, channel_key) == PairingVerdict::AcceptTrusted ==> trusted_key(
            settings,
            request.node_id,
        ) == Some(request.public_key@) && request.public_key@ == channel_key && request.protocol_version
            == PROTOCOL_VERSION && request.node_id != settings.node_id,
{
}

/// What this node reports about itself: ready, with the addresses of its
/// usable interfaces in order.
pub open spec fn usable_addresses(interfaces: Seq<NetworkInterface>) -> Seq<IpAddress>
    decreases interfaces.len(),
{
    if interfaces.len() == 0 {
        Seq::empty()
    } else if interfaces.last().usable() {
        usable_addresses(interfaces.drop_last()).push(interfaces.last().address)
    } else {
        usable_addresses(interfaces.drop_last())
    }
}

/// The summary sent in answer to `GetNodeInfo`.
pub fn node_summary(settings: &Settings, interfaces: &[NetworkInterface], hardware: &HardwareProfile) -> (summary: NodeSummary)
    ensures
        summary.id == settings.node_id,
        summary.name == settings.node_name,
        summary.role == settings.role,
        summary.status == NodeStatus::Ready,
        summary.addresses@ == usable_addresses(interfaces@),
        summary.control_port == settings.control_port,
        summary.rpc_port == settings.rpc_port,
        summary.available_memory_bytes == hardware.ai_memory_bytes,
        summary.compute_backend@ == (match hardware.backend {
            crate::hardware::ComputeBackend::Metal => "Metal"@,
            crate::hardware::ComputeBackend::Cuda => "CUDA"@,
            crate::hardware::ComputeBackend::Vulkan => "Vulkan"@,
            crate::hardware::ComputeBackend::Cpu => "CPU"@,
        }),
{
    let mut addresses: Vec<IpAddress> = Vec::new();
    for i in 0..interfaces.len()
        invariant
            addresses@ == usable_addresses(interfaces@.take(i as int)),
    {
        proof {
            assert(interfaces@.take(i + 1).drop_last() == interfaces@.take(i as int));
        }
        if interfaces[i].usable_for_cluster() {
            addresses.push(interfaces[i].address);
        }
    }
    proof {
        assert(interfaces@.take(interfaces@.len() as int) == interfaces@);
    }
    NodeSummary {
        id: settings.node_id,
        name: settings.node_name.clone(),
        role: settings.role,
        status: NodeStatus::Ready,
        addresses,
        control_port: settings.control_port,
        rpc_port: settings.rpc_port,
        available_memory_bytes: hardware.ai_memory_bytes,
        compute_backend: String::from_str(hardware.backend.label()),
    }
}

/// Why a control request did not get the answer it asked for.
#[derive(Debug, PartialEq, Eq)]
pub enum ReplyFailure {
    /// The peer answered with an error message.
    Remote(String),
    /// The peer answered with a message of another kind.
    Unexpected,
    /// The pairing was rejected, or the peer's identity changed.
    Rejected,
}

/// The request that opens a pairing.
pub fn pair_request(settings: &Settings, public_key: String) -> (message: ControlMessage)
    ensures
        message matches ControlMessage::PairRequest(r) && r.node_id == settings.node_id && r.node_name
            == settings.node_name && r.public_key == public_key && r.protocol_version == PROTOCOL_VERSION,
{
    ControlMessage::PairRequest(
        PairRequest {
            node_id: settings.node_id,
            node_name: settings.node_name.clone(),
            public_key,
            protocol_version: PROTOCOL_VERSION,
        },
    )
}

/// The request that starts a peer's RPC worker on `bind_address`.
pub fn worker_request(bind_address: IpAddress, rpc_port: u16) -> (message: ControlMessage)
    ensures
        message matches ControlMessage::StartWorker { bind_address: b, rpc_port: p } && b@
            == crate::addresses::ip_text_spec(bind_address) && p == rpc_port,
{
    ControlMessage::StartWorker { bind_address: crate::addresses::ip_text(bind_address), rpc_port }
}

/// The request that starts a peer's network test server on `bind_address`.
pub fn benchmark_request(bind_address: IpAddress, port: u16) -> (message: ControlMessage)
    ensures
        message matches ControlMessage::StartNetworkBenchmark { bind_address: b, port: p } && b@
            == crate::addresses::ip_text_spec(bind_address) && p == port,
{
    ControlMessage::StartNetworkBenchmark { bind_address: crate::addresses::ip_text(bind_address), port }
}

/// The answer to a pairing request: the peer's id when it accepted with
/// the key its channel authenticated.
pub fn pairing_reply(reply: ControlMessage, channel_key: &str) -> (r: Result<u128, ReplyFailure>)
    ensures
        match reply {
            ControlMessage::PairResponse(response) => if response.public_key@ == channel_key@ && response.decision
                == PairDecision::Accept {
                r == Ok::<u128, ReplyFailure>(response.node_id)
            } else {
                r == Err::<u128, ReplyFailure>(ReplyFailure::Rejected)
            },
            ControlMessage::Error { message, .. } => r == Err::<u128, ReplyFailure>(ReplyFailure::Remote(message)),
            _ => r == Err::<u128, ReplyFailure>(ReplyFailure::Unexpected),
        },
{
    match reply {
        ControlMessage::PairResponse(response) => {
            if same_text(response.public_key.as_str(), channel_key) && response.decision == PairDecision::Accept {
                Ok(response.node_id)
            } else {
                Err(ReplyFailure::Rejected)
            }
        },
        ControlMessage::Error { message, .. } => Err(ReplyFailure::Remote(message)),
        _ => Err(ReplyFailure::Unexpected),
    }
}

/// The answer to a node information request.
pub fn node_info_reply(reply: ControlMessage) -> (r: Result<NodeSummary, ReplyFailure>)
    ensures
        match reply {
            ControlMessage::NodeInfo(info) => r matches Ok(i) && i == info,
            ControlMessage::Error { message, .. } => r == Err::<NodeSummary, ReplyFailure>(ReplyFailure::Remote(message)),
            _ => r == Err::<NodeSummary, ReplyFailure>(ReplyFailure::Unexpected),
        },
{
    match reply {
        ControlMessage::NodeInfo(info) => Ok(info),
        ControlMessage::Error { message, .. } => Err(ReplyFailure::Remote(message)),
        _ => Err(ReplyFailure::Unexpected),
    }
}

/// The answer to a worker start or stop request: the worker's port.
pub fn worker_reply(reply: ControlMessage) -> (r: Result<u16, ReplyFailure>)
    ensures
        match reply {
            ControlMessage::WorkerReady { rpc_port } => r == Ok::<u16, ReplyFailure>(rpc_port),
            ControlMessage::Error { message, .. } => r == Err::<u16, ReplyFailure>(ReplyFailure::Remote(message)),
            _ => r == Err::<u16, ReplyFailure>(ReplyFailure::Unexpected),
        },
{
    match reply {
        ControlMessage::WorkerReady { rpc_port } => Ok(rpc_port),
        ControlMessage::Error { message, .. } => Err(ReplyFailure::Remote(message)),
        _ => Err(ReplyFailure::Unexpected),
    }
}

/// The answer to a network test start or stop request: the server's port.
pub fn benchmark_reply(reply: ControlMessage) -> (r: Result<u16, ReplyFailure>)
    ensures
        match reply {
            ControlMessage::NetworkBenchmarkReady { port } => r == Ok::<u16, ReplyFailure>(port),
            ControlMessage::Error { message, .. } => r == Err::<u16, ReplyFailure>(ReplyFailure::Remote(message)),
            _ => r == Err::<u16, ReplyFailure>(ReplyFailure::Unexpected),
        },
{
    match reply {
        ControlMessage::NetworkBenchmarkReady { port } => Ok(port),
        ControlMessage::Error { message, .. } => Err(ReplyFailure::Remote(message)),
        _ => Err(ReplyFailure::Unexpected),
    }
}

} // verus!
