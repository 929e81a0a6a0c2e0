//! Messages exchanged over the encrypted control channel.
use vstd::prelude::*;

use super::NodeSummary;

verus! {

#[derive(Debug, Clone, PartialEq, Eq)]
pub struct PairRequest {
    pub node_id: u128,
    pub node_name: String,
    pub public_key: String,
    pub protocol_version: u16,
}

#[derive(Debug, Clone, Copy, PartialEq, Eq, Structural)]
pub enum PairDecision {
    Accept,
    Reject,
}

#[derive(Debug, Clone, PartialEq, Eq)]
pub struct PairResponse {
    pub node_id: u128,
    pub public_key: String,
    pub decision: PairDecision,
    pub signature: String,
}

#[derive(Debug, Clone, PartialEq, Eq)]
pub enum ControlMessage {
    PairRequest(PairRequest),
    PairResponse(PairResponse),
    NodeInfo(NodeSummary),
    GetNodeInfo,
    Ping { nonce: u64 },
    Pong { nonce: u64 },
    StartWorker { bind_address: String, rpc_port: u16 },
    StopWorker,
    StartNetworkBenchmark { bind_address: String, port: u16 },
    StopNetworkBenchmark,
    NetworkBenchmarkReady { port: u16 },
    WorkerReady { rpc_port: u16 },
    Error { message: String, detail: Option<String> },
}

} // verus!
