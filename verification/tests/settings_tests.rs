use base64::engine::general_purpose::URL_SAFE_NO_PAD;
use base64::Engine;
use sha2::Digest;

use tokenunion::records::TransactionRecord;
use tokenunion::settings::{
    anthropic_oauth_config, app_preferences, default_settings, authorize_payload, create_anthropic_oauth_authorize_url,
    export_ledger_csv, flag_text, initial_settings, leak_probe_pattern, normalize_relay_mode,
    oauth_exchange_password, onboarding_completed, read_proxy_port, relay_mode, relay_switch_off,
    relay_to_dial, token_exchange_failure, token_request_body, OAuthError,
};

#[test]
fn proxy_port_setting() {
    assert_eq!(read_proxy_port(&None).unwrap(), 47821);
    assert_eq!(read_proxy_port(&Some("8080".to_string())).unwrap(), 8080);
    let err = read_proxy_port(&Some("99999".to_string())).unwrap_err();
    assert_eq!(err.message(), "invalid proxy port in settings: 99999");
    assert!(read_proxy_port(&Some("-1".to_string())).is_err());
    assert_eq!(read_proxy_port(&Some("+80".to_string())).unwrap(), 80);
}

#[test]
fn relay_mode_settings() {
    assert_eq!(relay_mode(&None), "self_hosted");
    assert_eq!(normalize_relay_mode("community".to_string()), Ok("community".to_string()));
    assert_eq!(
        normalize_relay_mode("everywhere".to_string()),
        Err("relay_mode must be one of: off|self_hosted|community".to_string())
    );
    assert_eq!(relay_to_dial(&Some("off".to_string()), &Some("/ip4/1.2.3.4/tcp/1".to_string())), None);
    assert_eq!(relay_to_dial(&None, &Some("/ip4/1.2.3.4/tcp/1".to_string())), Some("/ip4/1.2.3.4/tcp/1".to_string()));
    assert!(relay_switch_off(false, false));
    assert!(!relay_switch_off(true, false));
    assert!(!relay_switch_off(false, true));
}

#[test]
fn preferences_and_flags() {
    assert!(!onboarding_completed(&None));
    assert!(onboarding_completed(&Some("1".to_string())));
    let p = app_preferences(&None, &None, &None, 1234);
    assert!(!p.auto_start);
    assert!(p.notifications_enabled);
    assert_eq!(p.appearance, "dark");
    let p = app_preferences(&Some("1".to_string()), &Some("0".to_string()), &Some("light".to_string()), 1);
    assert!(p.auto_start && !p.notifications_enabled);
    assert_eq!(flag_text(true), "1");
    let init = initial_settings(&None, &Some("1".to_string()), &None, &None);
    assert_eq!(
        init,
        vec![
            ("onboarding_completed".to_string(), "0".to_string()),
            ("pref_notifications".to_string(), "1".to_string()),
            ("pref_appearance".to_string(), "dark".to_string()),
        ]
    );
}

#[test]
fn oauth_defaults() {
    let c = anthropic_oauth_config(&None, &None, &None, &None, &None);
    assert_eq!(c.client_id, "");
    assert_eq!(c.authorize_url, "");
    assert_eq!(c.redirect_uri, "http://127.0.0.1:8787/oauth/callback");
    assert_eq!(c.scopes, "user:profile user:inference user:sessions:claude_code user:mcp_servers");
}

#[test]
fn authorize_url_layout() {
    let p = authorize_payload(&[1u8; 32], &[2u8; 24], "client id", "http://x/cb", "a b", &Some("https://auth.example/authorize".to_string()));
    let verifier = URL_SAFE_NO_PAD.encode([1u8; 32]);
    let challenge = URL_SAFE_NO_PAD.encode(sha2::Sha256::digest(verifier.as_bytes()));
    let state = URL_SAFE_NO_PAD.encode([2u8; 24]);
    assert_eq!(p.code_verifier, verifier);
    assert_eq!(p.state, state);
    assert_eq!(
        p.authorize_url,
        format!(
            "https://auth.example/authorize?code=true&client_id=client%20id&response_type=code&scope=a%20b&code_challenge={}&code_challenge_method=S256&state={}&redirect_uri=http%3A%2F%2Fx%2Fcb",
            challenge, state
        )
    );
    let a = create_anthropic_oauth_authorize_url("c", "r", "s", &Some("https://auth".to_string()));
    let b = create_anthropic_oauth_authorize_url("c", "r", "s", &Some("https://auth".to_string()));
    assert!(a.authorize_url.starts_with("https://auth?code=true&client_id=c&"));
    assert_eq!(a.code_verifier.len(), 43);
    assert_ne!(a.state, b.state);
}

#[test]
fn oauth_exchange_checks() {
    assert_eq!(oauth_exchange_password("a", "b", &Some("pw".to_string())), Err(OAuthError::StateMismatch));
    assert_eq!(oauth_exchange_password("a", "a", &None), Err(OAuthError::VaultLocked));
    assert_eq!(oauth_exchange_password("a", "a", &Some("pw".to_string())), Ok("pw".to_string()));
    assert_eq!(OAuthError::VaultLocked.message(), "Vault is locked. Unlock vault before OAuth connect.");
    let body = token_request_body("cid", "http://r", "code\"1", "ver");
    let mut m = serde_json::Map::new();
    m.insert("grant_type".to_string(), serde_json::Value::String("authorization_code".to_string()));
    m.insert("client_id".to_string(), serde_json::Value::String("cid".to_string()));
    m.insert("redirect_uri".to_string(), serde_json::Value::String("http://r".to_string()));
    m.insert("code".to_string(), serde_json::Value::String("code\"1".to_string()));
    m.insert("code_verifier".to_string(), serde_json::Value::String("ver".to_string()));
    assert_eq!(body, serde_json::Value::Object(m).to_string());
    assert_eq!(token_exchange_failure("nope"), "OAuth token exchange failed: nope");
}

#[test]
fn ledger_csv_export() {
    let rows = vec![
        TransactionRecord {
            id: 1,
            ts: "2024-01-01".to_string(),
            tx_type: "self".to_string(),
            peer_id: None,
            provider: "anthropic".to_string(),
            model: Some("m".to_string()),
            input_tokens: 10,
            output_tokens: -2,
            request_hash: "h".to_string(),
        },
    ];
    assert_eq!(
        export_ledger_csv(&rows),
        "id,ts,type,peer_id,provider,model,input_tokens,output_tokens,request_hash\n1,2024-01-01,self,,anthropic,m,10,-2,h\n"
    );
    assert_eq!(export_ledger_csv(&vec![]), "id,ts,type,peer_id,provider,model,input_tokens,output_tokens,request_hash\n");
    assert_eq!(leak_probe_pattern("P"), "%P%");
}

#[test]
fn store_default_settings() {
    let d = default_settings();
    assert_eq!(d.len(), 6);
    assert_eq!(d[0], ("proxy_port".to_string(), "47821".to_string()));
    assert_eq!(d[4], ("relay_mode".to_string(), "self_hosted".to_string()));
    assert_eq!(d[5], ("lamport_clock".to_string(), "0".to_string()));
}
