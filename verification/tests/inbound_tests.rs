use libp2p::identity::Keypair;
use libp2p::PeerId;

use tokenunion::identity::signed_token_request;
use tokenunion::inbound::{
    availability_ack, cancel_ack, circle_key_recipient, circle_key_share, inbound_kind, leave_ack,
    ledger_sync_response, peer_left_note, proxy_payload, proxy_result, reported_availability,
    token_request_step, unsupported_reply, InboundError, InboundKind, TokenStep,
};
use tokenunion::wire::{base_wire, ProxyRelayResponse, TokenWireMessage};

fn request(kind: &str) -> TokenWireMessage {
    base_wire("peer-x".to_string(), Some("hash-1".to_string()), kind)
}

#[test]
fn kinds_by_type() {
    assert_eq!(inbound_kind("token_request"), InboundKind::TokenRequest);
    assert_eq!(inbound_kind("circle_key_request"), InboundKind::CircleKeyRequest);
    assert_eq!(inbound_kind("leave_circle"), InboundKind::LeaveCircle);
    assert_eq!(inbound_kind("nonsense"), InboundKind::Unsupported);
}

#[test]
fn simple_replies() {
    let r = request("cancel_request");
    let m = cancel_ack("me", &r);
    assert_eq!((m.msg_type.as_str(), m.granted, m.reason.as_deref()), ("ack", Some(true), Some("cancelled")));
    assert_eq!(m.request_hash.as_deref(), Some("hash-1"));
    let m = leave_ack("me", &r);
    assert_eq!(m.reason.as_deref(), Some("peer removed"));
    let m = unsupported_reply("me", &r);
    assert_eq!((m.granted, m.reason.as_deref()), (Some(false), Some("unsupported message")));
    let m = availability_ack("me", &r);
    assert_eq!((m.msg_type.as_str(), m.granted, m.reason.clone()), ("ack", Some(true), None));
    assert_eq!(reported_availability(&r), "unknown");
    let m = ledger_sync_response("me", &r, vec![]);
    assert_eq!(m.msg_type, "ledger_sync_response");
    assert_eq!(m.ledger_entries.map(|e| e.len()), Some(0));
    let n = peer_left_note("p1");
    assert_eq!((n.kind.as_str(), n.detail.as_str()), ("peer_left_circle", "peer p1 left circle"));
}

#[test]
fn circle_key_and_proxy_payloads() {
    let r = request("circle_key_request");
    assert_eq!(circle_key_recipient(&r), Err(InboundError::MissingCircleKeyRecipient));
    let mut r2 = r.clone();
    r2.circle_key_recipient = Some("age1xyz".to_string());
    assert_eq!(circle_key_recipient(&r2), Ok("age1xyz".to_string()));
    let m = circle_key_share("me", &r2, "boxed".to_string());
    assert_eq!((m.msg_type.as_str(), m.reason.as_deref(), m.circle_key_box.as_deref()), ("circle_key_share", Some("circle key shared"), Some("boxed")));
    assert!(matches!(proxy_payload(request("proxy_call")), Err(InboundError::MissingProxyPayload)));
    assert_eq!(InboundError::MissingProxyPayload.message(), "proxy_call missing payload");
    let res = ProxyRelayResponse {
        request_hash: "hash-1".to_string(),
        status: 429,
        headers: vec![],
        body_b64: String::new(),
        model: None,
        input_tokens: 0,
        output_tokens: 0,
        request_id: None,
        error: Some("paused".to_string()),
    };
    let m = proxy_result("me", &Some("hash-1".to_string()), res);
    assert_eq!((m.msg_type.as_str(), m.granted, m.reason.as_deref()), ("proxy_result", Some(false), Some("paused")));
    assert!(m.proxy_response.is_some());
}

#[test]
fn token_request_checks_in_order() {
    let keypair = Keypair::generate_ed25519();
    let peer = PeerId::from(keypair.public()).to_string();
    let req = signed_token_request(&keypair.to_protobuf_encoding().unwrap(), "hash-1", 500, "nonce-1", 77).unwrap();

    match token_request_step("me", "stranger", &req, None, None, &None) {
        TokenStep::Refuse { reply, event } => {
            assert_eq!(reply.reason.as_deref(), Some("invalid signature"));
            assert_eq!(reply.granted, Some(false));
            assert_eq!(reply.amount, Some(500));
            assert_eq!(event.kind, "signature_rejected");
            assert_eq!(event.detail, "stranger: signer peer mismatch");
        }
        _ => panic!("expected a refusal"),
    }
    match token_request_step("me", &peer, &req, None, None, &None) {
        TokenStep::CheckNonce { nonce, ts } => assert_eq!((nonce.as_str(), ts), ("nonce-1", 77)),
        _ => panic!("expected a nonce check"),
    }
    match token_request_step("me", &peer, &req, Some(false), None, &None) {
        TokenStep::Refuse { reply, event } => {
            assert_eq!(reply.reason.as_deref(), Some("replay/timestamp rejected"));
            assert_eq!(event.detail, format!("{} nonce=nonce-1", peer));
        }
        _ => panic!("expected a refusal"),
    }
    assert!(matches!(token_request_step("me", &peer, &req, Some(true), None, &None), TokenStep::CheckRateLimit));
    match token_request_step("me", &peer, &req, Some(true), Some((false, 31, 30)), &None) {
        TokenStep::Refuse { reply, event } => {
            assert_eq!(reply.reason.as_deref(), Some("rate limit exceeded"));
            assert_eq!(event.kind, "rate_limited");
            assert_eq!(event.detail, format!("peer {} exceeded limit 30/min with 31", peer));
        }
        _ => panic!("expected a refusal"),
    }
    assert!(matches!(
        token_request_step("me", &peer, &req, Some(true), Some((true, 1, 30)), &None),
        TokenStep::CheckLending { amount: 500 }
    ));
    match token_request_step("me", &peer, &req, Some(true), Some((true, 1, 30)), &Some((true, "available".to_string()))) {
        TokenStep::Answer(m) => {
            assert_eq!((m.msg_type.as_str(), m.granted, m.amount), ("token_grant", Some(true), Some(500)));
            assert_eq!(m.reason.as_deref(), Some("available"));
            assert_eq!(m.requester_id, "me");
            assert_eq!(m.request_hash.as_deref(), Some("hash-1"));
        }
        _ => panic!("expected an answer"),
    }
}
