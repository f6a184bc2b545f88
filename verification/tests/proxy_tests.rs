use base64::engine::general_purpose::STANDARD;
use base64::Engine;
use sha2::Digest;

use tokenunion::proxy::{
    aggregate_event_stream, compute_request_hash, enforce_content_filter, error_json, failure_reply,
    infer_provider_and_path, local_available, local_credential, local_relay_response,
    is_event_stream, local_upstream_headers, model_blocked, provider_auth_header, relay_reply, relay_request_for,
    should_skip_header, transaction_for, upstream_url, usage_rows, ProxyError,
};
use tokenunion::records::StoredKey;
use tokenunion::tracker::UsageStats;
use tokenunion::vault::encrypt_api_key;
use tokenunion::wire::ProxyRelayResponse;

fn h(k: &str, v: &str) -> (String, String) {
    (k.to_string(), v.to_string())
}

#[test]
fn provider_from_path_prefix() {
    assert_eq!(
        infer_provider_and_path("/openai/v1/chat/completions", None),
        ("openai".to_string(), "/v1/chat/completions".to_string())
    );
    assert_eq!(
        infer_provider_and_path("/anthropic/v1/messages", Some("openai")),
        ("anthropic".to_string(), "/v1/messages".to_string())
    );
    assert_eq!(
        infer_provider_and_path("/openai/openai/v1", None),
        ("openai".to_string(), "/v1".to_string())
    );
}

#[test]
fn provider_from_header_or_default() {
    assert_eq!(
        infer_provider_and_path("/v1/messages", Some("openai")),
        ("openai".to_string(), "/v1/messages".to_string())
    );
    assert_eq!(
        infer_provider_and_path("/v1/messages", None),
        ("anthropic".to_string(), "/v1/messages".to_string())
    );
    assert_eq!(infer_provider_and_path("/openai", None), ("anthropic".to_string(), "/openai".to_string()));
}

#[test]
fn host_and_length_headers_skipped() {
    assert!(should_skip_header("host"));
    assert!(should_skip_header("Content-Length"));
    assert!(!should_skip_header("content-type"));
    assert!(!should_skip_header("x-api-key"));
}

#[test]
fn request_hash_is_sha256_of_parts() {
    let got = compute_request_hash("anthropic", "POST", "/v1/messages", Some("beta=1"), b"{}");
    let expected = format!("{:x}", sha2::Sha256::digest(b"anthropicPOST/v1/messagesbeta=1{}"));
    assert_eq!(got, expected);
    assert_eq!(got.len(), 64);
    let no_query = compute_request_hash("openai", "GET", "/v1/models", None, b"");
    assert_eq!(no_query, format!("{:x}", sha2::Sha256::digest(b"openaiGET/v1/models")));
    assert_ne!(got, no_query);
}

#[test]
fn block_list_matching() {
    assert!(model_blocked("alpha-4, max", "model-max-4"));
    assert!(!model_blocked(" , ", "model-max-4"));
    assert!(!model_blocked("alpha", "model-mid"));
    assert!(model_blocked("mid", "model-mid"));
}

#[test]
fn content_filter_refuses_blocked_model() {
    let body = br#"{"model":"model-max-4","messages":[]}"#;
    assert_eq!(enforce_content_filter(&Some("max".to_string()), body), Err(ProxyError::ModelBlocked));
    assert_eq!(enforce_content_filter(&Some("  ".to_string()), body), Ok(()));
    assert_eq!(enforce_content_filter(&None, body), Ok(()));
    assert_eq!(enforce_content_filter(&Some("max".to_string()), b"not json"), Ok(()));
    assert_eq!(enforce_content_filter(&Some("max".to_string()), br#"{"model":7}"#), Ok(()));
    assert_eq!(ProxyError::ModelBlocked.message(), "model blocked by local content filter");
    assert_eq!(ProxyError::PeerServiceUnavailable.message(), "P2P unavailable");
    assert_eq!(ProxyError::NoGrant.message(), "local key unavailable and no peers granted request");
    assert_eq!(ProxyError::VaultLocked.message(), "vault locked; unlock from Vault tab");
    assert_eq!(ProxyError::NoProviderKey.message(), "no provider key in vault");
}

#[test]
fn local_key_availability() {
    assert!(local_available(true, "available"));
    assert!(!local_available(true, "sleeping"));
    assert!(!local_available(true, "paused"));
    assert!(!local_available(false, "available"));
}

#[test]
fn upstream_urls() {
    assert_eq!(upstream_url("openai", "/v1/models", &None), "https://api.openai.com/v1/models");
    assert_eq!(
        upstream_url("anthropic", "/v1/messages", &Some("beta=true".to_string())),
        "https://api.anthropic.com/v1/messages?beta=true"
    );
    assert_eq!(upstream_url("other", "/x", &None), "https://api.anthropic.com/x");
}

#[test]
fn credential_headers_by_provider() {
    assert_eq!(provider_auth_header("openai", "sk-1"), h("authorization", "Bearer sk-1"));
    assert_eq!(provider_auth_header("anthropic", "sk-2"), h("x-api-key", "sk-2"));
}

#[test]
fn local_headers_drop_host_and_length_then_add_key() {
    let headers = vec![h("Host", "localhost"), h("content-type", "application/json"), h("content-length", "2")];
    let out = local_upstream_headers(&headers, "anthropic", "sk-3");
    assert_eq!(out, vec![h("content-type", "application/json"), h("x-api-key", "sk-3")]);
}

#[test]
fn local_credential_outcomes() {
    assert_eq!(local_credential(&None, &None, "salt"), Err(ProxyError::VaultLocked));
    assert_eq!(local_credential(&Some("pw".to_string()), &None, "salt"), Err(ProxyError::NoProviderKey));
    let sealed = encrypt_api_key("sk-live", "pw", "salt").unwrap();
    let stored = StoredKey {
        id: 1,
        provider: "anthropic".to_string(),
        label: "main".to_string(),
        encrypted_key: sealed,
    };
    assert_eq!(local_credential(&Some("pw".to_string()), &Some(stored.clone()), "salt"), Ok("sk-live".to_string()));
    assert!(matches!(
        local_credential(&Some("wrong".to_string()), &Some(stored), "salt"),
        Err(ProxyError::KeyUnreadable(_))
    ));
}

#[test]
fn event_stream_usage_takes_largest_counts_and_latest_model() {
    let chunks = vec![
        b"data: {\"message\":{\"model\":\"m1\",\"usage\":{\"input_tokens\":5,\"output_tokens\":1}}}\n".to_vec(),
        vec![0xff, 0xfe],
        b"data: {\"usage\":{\"output_tokens\":9}}\n\ndata: [DONE]\n".to_vec(),
    ];
    let (usage, bytes) = aggregate_event_stream(&chunks);
    assert_eq!(usage.input_tokens, 5);
    assert_eq!(usage.output_tokens, 9);
    assert_eq!(usage.model.as_deref(), Some("m1"));
    assert_eq!(bytes, chunks.concat());
}

#[test]
fn local_response_fields() {
    let usage = UsageStats { input_tokens: 3, output_tokens: 4, model: Some("m".to_string()) };
    let r = local_relay_response(200, vec![h("a", "b")], b"hello", usage, Some("req".to_string()));
    assert_eq!(r.request_hash, "local");
    assert_eq!(r.body_b64, STANDARD.encode("hello"));
    assert_eq!((r.input_tokens, r.output_tokens), (3, 4));
    assert!(r.error.is_none());
}

#[test]
fn relay_reply_decodes_body_or_reports_error() {
    let ok = ProxyRelayResponse {
        request_hash: "h".to_string(),
        status: 201,
        headers: vec![h("content-length", "5"), h("x-request-id", "r1")],
        body_b64: STANDARD.encode("hello"),
        model: None,
        input_tokens: 0,
        output_tokens: 0,
        request_id: None,
        error: None,
    };
    let reply = relay_reply(&ok);
    assert_eq!(reply.status, 201);
    assert_eq!(reply.headers, vec![h("x-request-id", "r1")]);
    assert_eq!(reply.body, b"hello".to_vec());
    let bad = ProxyRelayResponse { error: Some("vault \"locked\"".to_string()), status: 401, ..ok };
    let reply = relay_reply(&bad);
    assert_eq!(reply.status, 401);
    assert_eq!(reply.headers, vec![h("content-type", "application/json")]);
    assert_eq!(String::from_utf8(reply.body).unwrap(), r#"{"error":"vault \"locked\""}"#);
}

#[test]
fn error_json_escapes_like_serde() {
    for msg in ["plain", "quote\" back\\slash", "line\nfeed\ttab\r\u{8}\u{c}", "ctl\u{1}\u{1f}", "é ☃"] {
        let mut map = serde_json::Map::new();
        map.insert("error".to_string(), serde_json::Value::String(msg.to_string()));
        let expected = serde_json::Value::Object(map).to_string();
        assert_eq!(error_json(msg), expected);
    }
    let reply = failure_reply("no grant");
    assert_eq!(reply.status, 502);
    assert_eq!(reply.body, br#"{"error":"no grant"}"#.to_vec());
}

#[test]
fn relay_request_carries_request() {
    let r = relay_request_for("h", "openai", "POST", "/v1/x", &Some("q=1".to_string()), vec![h("a", "b")], b"body");
    assert_eq!(r.request_hash, "h");
    assert_eq!(r.method, "POST");
    assert_eq!(r.query.as_deref(), Some("q=1"));
    assert_eq!(r.body_b64, STANDARD.encode("body"));
}

#[test]
fn relayed_request_drops_client_credentials() {
    let headers = vec![h("a", "b"), h("X-Api-Key", "sk-client"), h("Authorization", "Bearer t"), h("c", "d")];
    let r = relay_request_for("h", "anthropic", "POST", "/v1/x", &None, headers, b"body");
    assert_eq!(r.headers, vec![h("a", "b"), h("c", "d")]);
}

#[test]
fn event_stream_content_types() {
    assert!(is_event_stream("text/event-stream; charset=utf-8"));
    assert!(!is_event_stream("application/json"));
}

#[test]
fn prompt_content_never_persisted_in_logs() {
    let res = ProxyRelayResponse {
        request_hash: "local".to_string(),
        status: 200,
        headers: vec![],
        body_b64: STANDARD.encode("PROMPT_SECRET_123"),
        model: Some("model-max-4".to_string()),
        input_tokens: 10,
        output_tokens: 20,
        request_id: Some("req-1".to_string()),
        error: None,
    };
    let rows = usage_rows("anthropic", "self", &None, "hash-1", &res, "local_proxy");
    assert_eq!(rows.request.source, "local_proxy");
    assert_eq!(rows.request.request_id.as_deref(), Some("req-1"));
    assert_eq!(rows.transaction.tx_type, "self");
    assert_eq!(rows.transaction.request_hash, "hash-1");
    assert_eq!((rows.audit.input_tokens, rows.audit.output_tokens), (10, 20));
    assert_eq!(rows.audit.direction, "self");
    let borrowed = usage_rows("anthropic", "borrowed", &Some("peer".to_string()), "hash-1", &res, "peer_proxy");
    assert_eq!(borrowed.audit.direction, "borrowed");
    let dump = format!("{:?}{:?}{:?}", rows.request, rows.transaction, rows.audit);
    assert!(!dump.contains("PROMPT_SECRET_123"));
    let t = transaction_for("borrowed", &Some("peer".to_string()), "openai", &res, "h2");
    assert_eq!(t.peer_id.as_deref(), Some("peer"));
    assert_eq!(t.model.as_deref(), Some("model-max-4"));
}

#[test]
fn proxy_error_messages() {
    assert_eq!(ProxyError::ModelBlocked.message(), "model blocked by local content filter");
    assert_eq!(ProxyError::PeerServiceUnavailable.message(), "P2P unavailable");
    assert_eq!(ProxyError::NoProviderKey.message(), "no provider key in vault");
    assert_eq!(
        ProxyError::KeyUnreadable(tokenunion::vault::VaultError::DecryptFailed).message(),
        "failed to decrypt key (wrong password/device salt?)"
    );
}
