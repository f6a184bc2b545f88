use base64::engine::general_purpose::STANDARD;
use base64::Engine;

use tokenunion::lending::{
    lender_drops_header, lending_admission, lending_barred_model, lending_key, lending_upstream_call,
    lent_outcome, raw_error_body, relay_method, upstream_failure,
};
use tokenunion::records::StoredKey;
use tokenunion::vault::encrypt_api_key;
use tokenunion::wire::ProxyRelayRequest;

fn h(k: &str, v: &str) -> (String, String) {
    (k.to_string(), v.to_string())
}

fn payload(provider: &str, body: &str) -> ProxyRelayRequest {
    ProxyRelayRequest {
        request_hash: "hash-9".to_string(),
        provider: provider.to_string(),
        method: "POST".to_string(),
        path: "/v1/messages".to_string(),
        query: None,
        headers: vec![
            h("Host", "127.0.0.1"),
            h("X-Api-Key", "borrower-key"),
            h("Authorization", "Bearer borrower"),
            h("content-type", "application/json"),
            h("content-length", "10"),
        ],
        body_b64: STANDARD.encode(body),
    }
}

fn body_text(b64: &str) -> String {
    String::from_utf8(STANDARD.decode(b64).unwrap()).unwrap()
}

#[test]
fn lender_forwards_only_its_own_credential() {
    let call = lending_upstream_call(&payload("anthropic", "{}"), "lender-key");
    assert_eq!(call.headers, vec![h("content-type", "application/json"), h("x-api-key", "lender-key")]);
    assert_eq!(call.url, "https://api.anthropic.com/v1/messages");
    assert_eq!(call.method, "POST");
    assert_eq!(call.body, b"{}".to_vec());
    let call = lending_upstream_call(&payload("openai", "{}"), "lender-key");
    assert_eq!(call.headers.last().unwrap(), &h("authorization", "Bearer lender-key"));
    assert_eq!(call.headers.len(), 2);
}

#[test]
fn lender_drops_credentials_in_any_case() {
    assert!(lender_drops_header("AUTHORIZATION"));
    assert!(lender_drops_header("x-api-key"));
    assert!(lender_drops_header("Host"));
    assert!(!lender_drops_header("anthropic-version"));
}

#[test]
fn relay_methods() {
    assert_eq!(relay_method("GET"), "GET");
    assert_eq!(relay_method("PATCH"), "PATCH");
    assert_eq!(relay_method(""), "POST");
    assert_eq!(relay_method("BAD METHOD"), "POST");
}

#[test]
fn admission_refusals_in_order() {
    let p = payload("anthropic", r#"{"model":"model-max-4"}"#);
    let r = lending_admission(&p, false, &Ok((true, "available".to_string())), &None).unwrap();
    assert_eq!(r.status, 403);
    assert_eq!(r.error.as_deref(), Some("circle key missing"));
    assert_eq!(body_text(&r.body_b64), r#"{"error":"circle key missing"}"#);
    assert_eq!(r.headers, vec![h("content-type", "application/json")]);

    let r = lending_admission(&p, true, &Err("db down".to_string()), &None).unwrap();
    assert_eq!(r.status, 503);
    assert!(r.headers.is_empty());
    assert_eq!(body_text(&r.body_b64), r#"{"error":"db down"}"#);
    assert_eq!(r.error.as_deref(), Some("local availability check failed"));

    let r = lending_admission(&p, true, &Ok((false, "daily limit reached".to_string())), &None).unwrap();
    assert_eq!(r.status, 429);
    assert_eq!(r.error.as_deref(), Some("daily limit reached"));
    assert_eq!(body_text(&r.body_b64), r#"{"error":"daily limit reached"}"#);

    let r = lending_admission(&p, true, &Ok((true, "available".to_string())), &Some("max".to_string())).unwrap();
    assert_eq!(r.status, 403);
    assert_eq!(r.model.as_deref(), Some("model-max-4"));
    assert_eq!(r.error.as_deref(), Some("blocked by model policy"));
    assert_eq!(r.request_hash, "hash-9");

    assert!(lending_admission(&p, true, &Ok((true, "available".to_string())), &Some("alpha".to_string())).is_none());
}

#[test]
fn barred_model_needs_nonempty_list() {
    let b64 = STANDARD.encode(r#"{"model":"model-max-4"}"#);
    assert_eq!(lending_barred_model(&Some("max".to_string()), &b64), Some("model-max-4".to_string()));
    assert_eq!(lending_barred_model(&Some(String::new()), &b64), None);
    assert_eq!(lending_barred_model(&Some("max".to_string()), "%%%"), None);
}

#[test]
fn lending_key_outcomes() {
    let r = lending_key("h", &None, &None, &Ok("salt".to_string())).unwrap_err();
    assert_eq!(r.status, 401);
    assert_eq!(r.error.as_deref(), Some("vault locked"));
    let r = lending_key("h", &Some("pw".to_string()), &None, &Ok("salt".to_string())).unwrap_err();
    assert_eq!(r.status, 404);
    assert_eq!(body_text(&r.body_b64), r#"{"error":"no provider key"}"#);
    let sealed = encrypt_api_key("sk-lender", "pw", "salt").unwrap();
    let key = StoredKey { id: 1, provider: "anthropic".to_string(), label: "l".to_string(), encrypted_key: sealed };
    let r = lending_key("h", &Some("pw".to_string()), &Some(key.clone()), &Err("salt gone".to_string())).unwrap_err();
    assert_eq!(r.status, 500);
    assert_eq!(r.error.as_deref(), Some("device salt unavailable"));
    assert_eq!(lending_key("h", &Some("pw".to_string()), &Some(key.clone()), &Ok("salt".to_string())).unwrap(), "sk-lender");
    let r = lending_key("h", &Some("wrong".to_string()), &Some(key), &Ok("salt".to_string())).unwrap_err();
    assert_eq!(r.status, 401);
    assert_eq!(r.error.as_deref(), Some("key decrypt failed"));
}

#[test]
fn lent_outcome_counts_usage() {
    let p = payload("anthropic", "{}");
    let body = br#"{"model":"model-3","usage":{"input_tokens":7,"output_tokens":11}}"#;
    let o = lent_outcome(&p, "borrower", 200, vec![h("x", "y")], body, Some("rid".to_string()));
    assert_eq!(o.used_tokens, 18);
    assert_eq!(o.response.model.as_deref(), Some("model-3"));
    assert_eq!(o.response.body_b64, STANDARD.encode(body));
    assert_eq!(o.transaction.tx_type, "lent");
    assert_eq!(o.transaction.peer_id.as_deref(), Some("borrower"));
    assert_eq!(o.audit.direction, "lent");
    assert_eq!(o.audit.request_nonce, "hash-9");
    let o = lent_outcome(&p, "borrower", 200, vec![], b"not json", None);
    assert_eq!((o.used_tokens, o.response.input_tokens), (0, 0));
    let o = lent_outcome(&p, "b", 200, vec![], br#"{"usage":{"input_tokens":9223372036854775807,"output_tokens":1}}"#, None);
    assert_eq!(o.used_tokens, i64::MIN);
}

#[test]
fn upstream_failure_reports_502() {
    let r = upstream_failure("h", "timeout");
    assert_eq!(r.status, 502);
    assert_eq!(body_text(&r.body_b64), r#"{"error":"timeout"}"#);
    assert_eq!(r.error.as_deref(), Some("upstream request failed"));
    assert_eq!(raw_error_body("a\"b"), "{\"error\":\"a\"b\"}");
}
