use bution::control::{connection_step, new_connection, phase_after_pairing, ConnectionPhase, ConnectionStep};
use bution::cluster::{ControlMessage, NodeRole, PairDecision, PairRequest};
use bution::control::{final_decision, pairing_response, pairing_verdict, plan_request, stores_trust, ControlError, PairingVerdict, RequestPlan};
use bution::network::{InterfaceKind, IpAddress, NetworkInterface};
use bution::storage::{Settings, Timestamp, TrustedPeer};

fn request(id: u128, key: &str) -> PairRequest {
    PairRequest { protocol_version: bution::PROTOCOL_VERSION, node_id: id, node_name: "peer".into(), public_key: key.into() }
}

#[test]
fn pairing_follows_the_trust_store() {
    let mut settings = Settings::fresh();
    settings.role = NodeRole::Main;
    let own = settings.node_id;
    assert_eq!(pairing_verdict(&settings, &request(own, "k"), "k"), PairingVerdict::SelfPairing);
    assert_eq!(pairing_verdict(&settings, &request(own.wrapping_add(1), "k"), "other"), PairingVerdict::RejectMismatch);
    assert_eq!(pairing_verdict(&settings, &request(own.wrapping_add(1), "k"), "k"), PairingVerdict::AskUser);
    settings.trust(TrustedPeer { id: own.wrapping_add(1), name: "p".into(), public_key: "k".into(), paired_at: Timestamp { seconds: 0, nanos: 0 } });
    assert_eq!(pairing_verdict(&settings, &request(own.wrapping_add(1), "k"), "k"), PairingVerdict::AcceptTrusted);
    assert_eq!(pairing_verdict(&settings, &request(own.wrapping_add(1), "rotated"), "rotated"), PairingVerdict::RejectChangedKey);
}

#[test]
fn only_accepted_pairings_are_stored() {
    assert_eq!(final_decision(PairingVerdict::AskUser, Some(PairDecision::Reject)), PairDecision::Reject);
    assert_eq!(final_decision(PairingVerdict::AcceptTrusted, None), PairDecision::Accept);
    assert!(stores_trust(PairingVerdict::AskUser, PairDecision::Accept));
    assert!(!stores_trust(PairingVerdict::AskUser, PairDecision::Reject));
    assert!(!stores_trust(PairingVerdict::AcceptTrusted, PairDecision::Accept));
    let response = pairing_response(9, "key".into(), PairDecision::Accept, None);
    assert_eq!(response.decision, PairDecision::Accept);
    assert_eq!(response.signature, "");
    let rejected = pairing_response(9, "key".into(), PairDecision::Reject, Some(1));
    assert_eq!(rejected.signature, format!("rejected:{}", bution::security::uuid_text(1)));
}

#[test]
fn worker_requests_are_checked_against_the_lan() {
    let lan = NetworkInterface { name: "en0".into(), kind: InterfaceKind::Ethernet, address: IpAddress::v4(192, 168, 1, 4), prefix_len: 24, is_vpn: false };
    let message = ControlMessage::StartWorker { bind_address: "192.168.1.4".into(), rpc_port: 50052 };
    let plan = plan_request(&message, Some(IpAddress::v4(192, 168, 1, 4)), &[lan.clone()], true, 8);
    assert_eq!(plan, RequestPlan::StartWorker { bind_address: IpAddress::v4(192, 168, 1, 4), port: 50052, threads: 4 });
    let plan = plan_request(&message, Some(IpAddress::v4(10, 0, 0, 1)), &[lan.clone()], true, 8);
    assert!(matches!(plan, RequestPlan::Refuse { error: ControlError::UntrustedWorkerBind, .. }));
    let plan = plan_request(&message, None, &[lan], true, 8);
    assert_eq!(plan, RequestPlan::InvalidAddress { worker: true });
    assert_eq!(plan_request(&ControlMessage::Ping { nonce: 5 }, None, &[], false, 1), RequestPlan::Pong { nonce: 5 });
}

#[test]
fn nothing_is_served_before_an_accepted_pairing() {
    let ping = ControlMessage::Ping { nonce: 9 };
    let start = new_connection();
    assert_eq!(start, ConnectionPhase::AwaitingPairing);
    assert_eq!(connection_step(start, &ping, None, &[], true, 8), ConnectionStep::Close);
    let request = ControlMessage::PairRequest(PairRequest {
        node_id: 5,
        node_name: "worker".into(),
        public_key: "key".into(),
        protocol_version: 1,
    });
    assert_eq!(connection_step(start, &request, None, &[], true, 8), ConnectionStep::DecidePairing);
    assert_eq!(phase_after_pairing(PairDecision::Reject), ConnectionPhase::Closed);
    assert_eq!(connection_step(ConnectionPhase::Closed, &ping, None, &[], true, 8), ConnectionStep::Close);
    let paired = phase_after_pairing(PairDecision::Accept);
    assert_eq!(paired, ConnectionPhase::Paired);
    assert_eq!(connection_step(paired, &ping, None, &[], true, 8), ConnectionStep::Serve(RequestPlan::Pong { nonce: 9 }));
}
