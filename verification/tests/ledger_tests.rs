use base64::engine::general_purpose::STANDARD;
use base64::Engine;
use libp2p::identity::Keypair;

use tokenunion::ledger::{
    build_ledger_envelope, circle_key_password, ledger_body_json, new_circle_key, open_circle_key,
    open_ledger_entry, rotated_key_version, seal_circle_key, seal_ledger_entry, strip_hyphens,
    LedgerError,
};
use tokenunion::records::TransactionInsert;
use tokenunion::security::ledger_entry_is_newer;
use tokenunion::wire::{verify_ledger_entry, LedgerSignatureError};

fn tx() -> TransactionInsert {
    TransactionInsert {
        tx_type: "lent".to_string(),
        peer_id: Some("peer-\"q\"".to_string()),
        provider: "anthropic".to_string(),
        model: None,
        input_tokens: -3,
        output_tokens: 20,
        request_hash: "hash-1".to_string(),
    }
}

#[test]
fn ledger_body_is_json_of_its_fields() {
    let text = ledger_body_json("e1", &tx());
    assert_eq!(
        text,
        r#"{"entry_id":"e1","tx_type":"lent","peer_id":"peer-\"q\"","provider":"anthropic","model":null,"input_tokens":-3,"output_tokens":20,"request_hash":"hash-1"}"#
    );
    let parsed: serde_json::Value = serde_json::from_str(&text).unwrap();
    assert_eq!(parsed["peer_id"], "peer-\"q\"");
}

#[test]
fn sealed_entry_verifies_and_opens() {
    let keypair = Keypair::generate_ed25519().to_protobuf_encoding().unwrap();
    let entry = seal_ledger_entry(&keypair, "circle-key", 4, &tx(), "e1".to_string(), "n1".to_string(), "t".to_string()).unwrap();
    assert_eq!(entry.lamport_ts, 4);
    assert_eq!(verify_ledger_entry(&entry), Ok(()));
    let back = open_ledger_entry(&entry, "circle-key").unwrap();
    assert_eq!(back.tx_type, "lent");
    assert_eq!(back.peer_id.as_deref(), Some("peer-\"q\""));
    assert_eq!(back.model, None);
    assert_eq!((back.input_tokens, back.output_tokens), (-3, 20));
    assert!(matches!(open_ledger_entry(&entry, "other-key"), Err(LedgerError::OpenFailed(_))));
    let mut tampered = entry.clone();
    tampered.lamport_ts = 5;
    assert_eq!(verify_ledger_entry(&tampered), Err(LedgerSignatureError::InvalidSignature));
    let mut bad = entry;
    bad.cipher_b64 = "%%".to_string();
    assert!(matches!(open_ledger_entry(&bad, "circle-key"), Err(LedgerError::CipherNotBase64)));
}

#[test]
fn built_envelope_has_fresh_ids() {
    let keypair = Keypair::generate_ed25519().to_protobuf_encoding().unwrap();
    let a = build_ledger_envelope(&keypair, "k", 1, &tx()).unwrap();
    let b = build_ledger_envelope(&keypair, "k", 1, &tx()).unwrap();
    assert_ne!(a.entry_id, b.entry_id);
    assert_eq!(a.entry_id.len(), 36);
    assert_eq!(verify_ledger_entry(&b), Ok(()));
    assert!(matches!(build_ledger_envelope(b"junk", "k", 1, &tx()), Err(LedgerError::BadKeypair)));
    let key_bytes = STANDARD.decode(&a.signer_pubkey_b64).unwrap();
    assert!(!key_bytes.is_empty());
}

#[test]
fn circle_keys() {
    let k = new_circle_key();
    assert_eq!(k.len(), 32);
    assert!(k.chars().all(|c| c.is_ascii_hexdigit()));
    assert_eq!(strip_hyphens("a-b--c"), "abc");
    assert_eq!(circle_key_password("salt"), "tokenunion-circle-key::salt");
    let sealed = seal_circle_key(&k, "salt").unwrap();
    assert_eq!(open_circle_key(&sealed, "salt").unwrap(), k);
    assert_eq!(rotated_key_version(None), 2);
    assert_eq!(rotated_key_version(Some(7)), 8);
}

#[test]
fn newer_entries_replace_older() {
    assert!(ledger_entry_is_newer(None, 1));
    assert!(ledger_entry_is_newer(Some(1), 2));
    assert!(!ledger_entry_is_newer(Some(2), 2));
    assert!(!ledger_entry_is_newer(Some(3), 2));
}

#[test]
fn unreadable_body_refused() {
    let encryptor = age::Encryptor::with_user_passphrase(age::secrecy::SecretString::from("circle".to_string()));
    let mut out = vec![];
    let mut writer = encryptor.wrap_output(&mut out).unwrap();
    std::io::Write::write_all(&mut writer, b"not json").unwrap();
    writer.finish().unwrap();
    let keypair = Keypair::generate_ed25519().to_protobuf_encoding().unwrap();
    let mut entry = seal_ledger_entry(&keypair, "circle", 1, &tx(), "e".to_string(), "n".to_string(), "t".to_string()).unwrap();
    entry.cipher_b64 = STANDARD.encode(&out);
    assert!(matches!(open_ledger_entry(&entry, "circle"), Err(LedgerError::BadBody)));
}
