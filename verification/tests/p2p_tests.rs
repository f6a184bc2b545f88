use base64::engine::general_purpose::STANDARD;
use base64::Engine;
use libp2p::identity::Keypair;
use libp2p::PeerId;

use tokenunion::identity::signed_token_request;
use tokenunion::wire::{signing_payload, validate_signed_token_request, SignatureError, TokenWireMessage};

fn signed_token_request_for(keypair: &Keypair, request_hash: &str, nonce: &str, ts: i64) -> TokenWireMessage {
    let encoded = keypair.to_protobuf_encoding().unwrap();
    signed_token_request(&encoded, request_hash, 1000, nonce, ts).unwrap()
}

#[test]
fn invalid_signature_rejected() {
    let keypair = Keypair::generate_ed25519();
    let peer = PeerId::from(keypair.public());
    let mut req = signed_token_request_for(&keypair, "hash-1", "nonce-1", chrono::Utc::now().timestamp());
    req.signature_b64 = Some(STANDARD.encode("tampered"));
    let result = validate_signed_token_request(&req, &peer.to_string());
    assert!(result.is_err(), "tampered signature should be rejected");
}

#[test]
fn key_never_in_message_verification() {
    let keypair = Keypair::generate_ed25519();
    let req = signed_token_request_for(&keypair, "hash-2", "nonce-2", chrono::Utc::now().timestamp());
    let serialized = format!("{:?}", req).to_lowercase();
    assert!(!serialized.contains("x-api-key"));
    assert!(!serialized.contains("authorization"));
    assert!(!serialized.contains("sk-"));
}

#[test]
fn signed_request_from_its_peer_accepted() {
    let keypair = Keypair::generate_ed25519();
    let peer = PeerId::from(keypair.public()).to_string();
    let req = signed_token_request_for(&keypair, "hash-3", "nonce-3", 1_700_000_000);
    assert_eq!(req.msg_type, "token_request");
    assert_eq!(req.requester_id, peer);
    assert_eq!(req.amount, Some(1000));
    assert_eq!(req.request_nonce.as_deref(), Some("nonce-3"));
    assert_eq!(req.request_ts, Some(1_700_000_000));
    assert_eq!(validate_signed_token_request(&req, &peer), Ok(()));
}

#[test]
fn signed_request_from_other_peer_rejected() {
    let keypair = Keypair::generate_ed25519();
    let other = PeerId::from(Keypair::generate_ed25519().public()).to_string();
    let req = signed_token_request_for(&keypair, "hash-4", "nonce-4", 5);
    assert_eq!(validate_signed_token_request(&req, &other), Err(SignatureError::SignerPeerMismatch));
}

#[test]
fn requester_must_be_the_connection_peer() {
    let keypair = Keypair::generate_ed25519();
    let peer = PeerId::from(keypair.public()).to_string();
    let mut req = signed_token_request_for(&keypair, "hash-5", "nonce-5", 5);
    req.requester_id = "someone-else".to_string();
    assert_eq!(validate_signed_token_request(&req, &peer), Err(SignatureError::RequesterIdMismatch));
}

#[test]
fn tampered_hash_fails_verification() {
    let keypair = Keypair::generate_ed25519();
    let peer = PeerId::from(keypair.public()).to_string();
    let mut req = signed_token_request_for(&keypair, "hash-6", "nonce-6", 5);
    req.request_hash = Some("hash-7".to_string());
    assert_eq!(validate_signed_token_request(&req, &peer), Err(SignatureError::VerifyFailed));
}

#[test]
fn missing_fields_reported_in_order() {
    let keypair = Keypair::generate_ed25519();
    let peer = PeerId::from(keypair.public()).to_string();
    let full = signed_token_request_for(&keypair, "hash-8", "nonce-8", 5);
    let mut m = full.clone();
    m.request_nonce = None;
    m.request_ts = None;
    assert_eq!(validate_signed_token_request(&m, &peer), Err(SignatureError::MissingNonce));
    let mut m = full.clone();
    m.request_ts = None;
    assert_eq!(validate_signed_token_request(&m, &peer), Err(SignatureError::MissingTimestamp));
    let mut m = full.clone();
    m.request_hash = None;
    assert_eq!(validate_signed_token_request(&m, &peer), Err(SignatureError::MissingRequestHash));
    let mut m = full.clone();
    m.signer_public_key_b64 = None;
    assert_eq!(validate_signed_token_request(&m, &peer), Err(SignatureError::MissingSignerKey));
    let mut m = full.clone();
    m.signature_b64 = None;
    assert_eq!(validate_signed_token_request(&m, &peer), Err(SignatureError::MissingSignature));
    let mut m = full.clone();
    m.signer_public_key_b64 = Some("***".to_string());
    assert_eq!(validate_signed_token_request(&m, &peer), Err(SignatureError::InvalidSignerKeyBase64));
    let mut m = full.clone();
    m.signature_b64 = Some("***".to_string());
    assert_eq!(validate_signed_token_request(&m, &peer), Err(SignatureError::InvalidSignatureBase64));
    let mut m = full;
    m.signer_public_key_b64 = Some(STANDARD.encode("not a key"));
    assert_eq!(validate_signed_token_request(&m, &peer), Err(SignatureError::InvalidPublicKey));
    assert_eq!(SignatureError::InvalidPublicKey.message(), "invalid protobuf public key");
}

#[test]
fn signing_payload_joins_fields() {
    assert_eq!(signing_payload("peer", "hash", "nonce", -42), "peer|hash|nonce|-42");
    assert_eq!(signing_payload("", "", "", 0), "|||0");
}
