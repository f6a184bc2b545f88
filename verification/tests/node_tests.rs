use libp2p::identity::Keypair;
use libp2p::PeerId;

use tokenunion::identity::{
    decrypt_identity_blob, encrypt_identity_blob, identity_device_salt, identity_password, new_identity,
};
use tokenunion::messages::{
    availability_update, cancel_request_message, circle_key_request, is_grant, leave_circle_message,
    ledger_sync_request, lent_transaction, proxy_call_message, proxy_call_outcome,
};
use tokenunion::node::{
    first_query_value, fresh_identity, identity_keypair, invite_address, invite_json, invite_relay_circuit, invite_url,
    InviteError,
};
use tokenunion::wire::{base_wire, LocalNodeDto, ProxyRelayRequest, ProxyRelayResponse};

#[test]
fn identity_password_and_salt() {
    assert_eq!(identity_password(&Some("ann".to_string()), "linux"), "tokenunion-local-identity::ann::linux");
    assert_eq!(identity_password(&None, "macos"), "tokenunion-local-identity::unknown::macos");
    assert_eq!(identity_device_salt(&Some("box".to_string())), "identity::box");
    assert_eq!(identity_device_salt(&None), "identity::localhost");
}

#[test]
fn identity_blob_roundtrip() {
    let user = Some("ann".to_string());
    let host = Some("box".to_string());
    let sealed = encrypt_identity_blob("raw-key", &user, "linux", &host).unwrap();
    assert!(sealed.starts_with("v2:"));
    assert_eq!(decrypt_identity_blob(&sealed, &user, "linux", &host).unwrap(), "raw-key");
    assert!(decrypt_identity_blob(&sealed, &user, "linux", &Some("other".to_string())).is_err());
}

#[test]
fn fresh_identity_opens_to_its_keypair() {
    let user = Some("ann".to_string());
    let (pid, sealed) = fresh_identity(&user, "linux", &None).unwrap();
    let kp = identity_keypair(&sealed, &user, "linux", &None).unwrap();
    let keypair = Keypair::from_protobuf_encoding(&kp).unwrap();
    assert_eq!(PeerId::from(keypair.public()).to_string(), pid);
    let (kp2, pid2) = new_identity().unwrap();
    assert_ne!(pid, pid2);
    assert!(!kp2.is_empty());
}

#[test]
fn invite_links() {
    let url = invite_url(r#"{"peer_id":"p 1"}"#);
    assert_eq!(url, "tokenunion://invite?data=%7B%22peer_id%22%3A%22p%201%22%7D");
    assert_eq!(invite_json(&url).unwrap(), r#"{"peer_id":"p 1"}"#);
    assert_eq!(invite_json("not a url"), Err(InviteError::InvalidUrl));
    assert_eq!(invite_json("tokenunion://invite?x=1"), Err(InviteError::MissingData));
    assert_eq!(InviteError::MissingData.message(), "invite missing data payload");
    assert_eq!(invite_address(&None, None), Err("No active listen address yet".to_string()));
    assert_eq!(invite_address(&Some("/ip4/1.1.1.1/tcp/2".to_string()), None), Ok("/ip4/1.1.1.1/tcp/2".to_string()));
    assert_eq!(
        invite_address(&Some("l".to_string()), Some(Ok("/relay/p2p-circuit".to_string()))),
        Ok("/relay/p2p-circuit".to_string())
    );
}

fn relay_request() -> ProxyRelayRequest {
    ProxyRelayRequest {
        request_hash: "h".to_string(),
        provider: "anthropic".to_string(),
        method: "POST".to_string(),
        path: "/v1/messages".to_string(),
        query: None,
        headers: vec![],
        body_b64: String::new(),
    }
}

#[test]
fn outbound_messages() {
    let me = LocalNodeDto {
        peer_id: "me".to_string(),
        display_name: "Me".to_string(),
        timezone: "UTC".to_string(),
        availability_state: "available".to_string(),
    };
    let m = availability_update(&me, None, Some(5));
    assert_eq!(m.msg_type, "availability_update");
    assert_eq!((m.daily_limit_tokens, m.daily_used_tokens), (Some(100000), Some(5)));
    assert_eq!(m.availability_state.as_deref(), Some("available"));
    let m = cancel_request_message("me", "h");
    assert_eq!((m.msg_type.as_str(), m.reason.as_deref()), ("cancel_request", Some("winner_selected")));
    let m = leave_circle_message("me");
    assert_eq!(m.reason.as_deref(), Some("peer_revoked"));
    let m = ledger_sync_request("me", 42);
    assert_eq!(m.request_hash.as_deref(), Some("42"));
    let m = circle_key_request("me", "age1abc");
    assert_eq!(m.circle_key_recipient.as_deref(), Some("age1abc"));
    let m = proxy_call_message("me", relay_request());
    assert_eq!(m.request_hash.as_deref(), Some("h"));
    assert!(m.proxy_request.is_some());
}

#[test]
fn answers_to_outbound_requests() {
    let mut grant = base_wire("p".to_string(), None, "token_grant");
    assert!(!is_grant(&grant));
    grant.granted = Some(true);
    assert!(is_grant(&grant));
    let mut ack = base_wire("p".to_string(), None, "ack");
    ack.granted = Some(true);
    assert!(!is_grant(&ack));
    assert_eq!(proxy_call_outcome(ack.clone()).unwrap_err(), "invalid proxy response");
    ack.reason = Some("vault locked".to_string());
    assert_eq!(proxy_call_outcome(ack).unwrap_err(), "vault locked");
    let res = ProxyRelayResponse {
        request_hash: "h".to_string(),
        status: 200,
        headers: vec![],
        body_b64: String::new(),
        model: Some("m".to_string()),
        input_tokens: 1,
        output_tokens: 2,
        request_id: None,
        error: None,
    };
    let mut answer = base_wire("p".to_string(), None, "proxy_result");
    answer.proxy_response = Some(res);
    let mut call = base_wire("borrower".to_string(), Some("h".to_string()), "proxy_call");
    call.proxy_request = Some(relay_request());
    let tx = lent_transaction(&call, &answer).unwrap();
    assert_eq!((tx.tx_type.as_str(), tx.peer_id.as_deref(), tx.input_tokens), ("lent", Some("borrower"), 1));
    assert_eq!(proxy_call_outcome(answer).unwrap().status, 200);
    assert!(lent_transaction(&base_wire("b".to_string(), None, "proxy_call"), &call).is_none());
}

#[test]
fn identity_errors() {
    let user = Some("u".to_string());
    let sealed = encrypt_identity_blob("***", &user, "linux", &None).unwrap();
    assert!(matches!(identity_keypair(&sealed, &user, "linux", &None), Err(tokenunion::node::IdentityError::NotBase64)));
    let sealed = encrypt_identity_blob("AAAA", &user, "linux", &None).unwrap();
    assert!(matches!(identity_keypair(&sealed, &user, "linux", &None), Err(tokenunion::node::IdentityError::NotKeypair)));
    assert!(matches!(identity_keypair("v9:x:y", &user, "linux", &None), Err(tokenunion::node::IdentityError::Sealed(_))));
}

#[test]
fn invite_data_must_decode() {
    assert_eq!(invite_json("tokenunion://invite?data=%25FF"), Err(InviteError::BadEncoding));
    assert_eq!(InviteError::BadEncoding.message(), "invalid invite data encoding");
}

#[test]
fn first_query_value_takes_the_first_match() {
    let pairs = vec![
        ("a".to_string(), "1".to_string()),
        ("data".to_string(), "x".to_string()),
        ("data".to_string(), "y".to_string()),
    ];
    assert_eq!(first_query_value(&pairs, "data").as_deref(), Some("x"));
    assert_eq!(first_query_value(&pairs, "b"), None);
    assert_eq!(invite_json("tokenunion://invite?a=1&data=%7B%7D&data=zz").unwrap(), "{}");
}

#[test]
fn invite_circuit_follows_relay_mode() {
    let peer = PeerId::from(Keypair::generate_ed25519().public()).to_string();
    let relay = Some("/ip4/1.2.3.4/tcp/4001".to_string());
    assert_eq!(invite_relay_circuit(&Some("off".to_string()), &relay, &peer), None);
    assert_eq!(invite_relay_circuit(&None, &None, &peer), None);
    let c = invite_relay_circuit(&None, &relay, &peer).unwrap().unwrap();
    assert_eq!(c, format!("/ip4/1.2.3.4/tcp/4001/p2p-circuit/p2p/{peer}"));
    assert_eq!(
        invite_relay_circuit(&Some("community".to_string()), &Some("nonsense".to_string()), &peer),
        Some(Err("invalid relay address in settings".to_string()))
    );
    assert_eq!(
        invite_relay_circuit(&None, &relay, "not-a-peer"),
        Some(Err("invalid local peer id".to_string()))
    );
}

#[test]
fn invite_link_reads_back() {
    let doc = r#"{"peer_id":"12D3KooW","display_name":"Ada & Bob = friends+","timezone":"Europe/Paris","multiaddr":"/ip4/1.2.3.4/tcp/4001"}"#;
    assert_eq!(invite_json(&invite_url(doc)).unwrap(), doc);
    assert_eq!(invite_json(&invite_url("")).unwrap(), "");
}
