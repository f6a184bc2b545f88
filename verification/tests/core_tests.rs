use tokenunion::numbers::{i64_text, parse_i64, parse_u16, u16_text};
use tokenunion::records::{mask_ciphertext, Db, PeerRecord, ScheduleConfig};
use tokenunion::security::{
    default_rate_limit, effective_rate_limit, lamport_from_setting, lamport_next, lamport_observe,
    nonce_is_fresh, nonce_purge_before, rate_limit_verdict, rate_window_start, recent_call_count,
};
use tokenunion::sharing::{
    daily_used_after_lending, daily_used_after_reset, evaluate_schedule, fair_use_record,
    full_week_bitmap, lend_decision, online_peers, pool_status,
};
use tokenunion::tracker::{usage_from_json_body, usage_from_sse_chunk};
use tokenunion::vault::{decrypt_api_key, encrypt_api_key, VaultError};
use tokenunion::wire::ledger_sync_cursor;

#[test]
fn replay_nonce_rejected() {
    let now = 1_700_000_000;
    let first = nonce_is_fresh(now, now, None);
    let second = nonce_is_fresh(now, now, Some(now));
    assert!(first);
    assert!(!second, "second use of same nonce should be rejected");
    assert!(!nonce_is_fresh(now, now - 31, None));
    assert!(nonce_is_fresh(now, now + 30, None));
    assert!(nonce_is_fresh(now, now, Some(now - 31)));
    assert!(!nonce_is_fresh(0, i64::MIN, None));
    assert_eq!(nonce_purge_before(now), now - 30);
}

#[test]
fn content_logging_is_off() {
    let db = Db::new("store.db".to_string());
    assert!(!db.no_content_logging_hardcoded());
}

#[test]
fn rate_limits() {
    assert_eq!(rate_limit_verdict(&vec![], 1000, 30), (true, 1, 30));
    let calls: Vec<i64> = (0..29).map(|i| 950 + i).collect();
    assert_eq!(rate_limit_verdict(&calls, 1000, 30), (true, 30, 30));
    let calls: Vec<i64> = (0..30).map(|i| 950 + i).collect();
    assert_eq!(rate_limit_verdict(&calls, 1000, 30), (false, 31, 30));
    assert_eq!(rate_window_start(125), 65);
    assert_eq!(default_rate_limit(&None), 30);
    assert_eq!(default_rate_limit(&Some("x".to_string())), 30);
    assert_eq!(effective_rate_limit(None, &Some("5".to_string())), 5);
    assert_eq!(effective_rate_limit(Some(9), &Some("5".to_string())), 9);
}

#[test]
fn lamport_clock() {
    assert_eq!(lamport_from_setting(&None), 0);
    assert_eq!(lamport_from_setting(&Some("12".to_string())), 12);
    assert_eq!(lamport_from_setting(&Some("abc".to_string())), 0);
    assert_eq!(lamport_next(4), 5);
    assert_eq!(lamport_observe(4, 9), 10);
    assert_eq!(lamport_observe(9, 4), 10);
    assert_eq!(ledger_sync_cursor(&Some("17".to_string())), 17);
    assert_eq!(ledger_sync_cursor(&None), 0);
}

#[test]
fn lending_decisions() {
    assert_eq!(lend_decision("available", "none", 100, 0, 50), (true, "available".to_string()));
    assert_eq!(lend_decision("available", "paused", 100, 0, 50), (false, "paused".to_string()));
    assert_eq!(lend_decision("sleeping", "none", 100, 0, 50), (false, "sleeping".to_string()));
    assert_eq!(lend_decision("available", "none", 100, 60, 50), (false, "daily limit reached".to_string()));
    assert_eq!(lend_decision("available", "none", 100, 50, 50), (true, "available".to_string()));
    assert_eq!(daily_used_after_reset(40, &Some("2024-01-01".to_string()), "2024-01-01"), 40);
    assert_eq!(daily_used_after_reset(40, &Some("2023-12-31".to_string()), "2024-01-01"), 0);
    assert_eq!(daily_used_after_lending(10, 5), 15);
    assert_eq!(daily_used_after_lending(10, -5), 10);
}

#[test]
fn schedule_evaluation() {
    let mut bits = "1".repeat(168);
    bits.replace_range(26..27, "0");
    let cfg = ScheduleConfig { timezone: "UTC".to_string(), weekly_active_bitmap: bits, sharing_override: "auto".to_string() };
    assert_eq!(evaluate_schedule(&cfg, 1, 2), "sleeping");
    assert_eq!(evaluate_schedule(&cfg, 1, 3), "available");
    let now = ScheduleConfig { sharing_override: "share_now".to_string(), ..cfg.clone() };
    assert_eq!(evaluate_schedule(&now, 1, 2), "available");
    let paused = ScheduleConfig { sharing_override: "paused".to_string(), ..cfg };
    assert_eq!(evaluate_schedule(&paused, 0, 0), "paused");
    assert_eq!(full_week_bitmap(), "1".repeat(168));
}

fn peer(id: &str, online: bool) -> PeerRecord {
    PeerRecord {
        peer_id: id.to_string(),
        display_name: id.to_uppercase(),
        timezone: "UTC".to_string(),
        multiaddr: None,
        online,
        last_seen: None,
        availability_state: "available".to_string(),
        daily_limit_tokens: 10,
        daily_used_tokens: 1,
    }
}

#[test]
fn pool_views() {
    let online = online_peers(vec![peer("a", true), peer("b", false), peer("c", true)]);
    assert_eq!(online.iter().map(|p| p.peer_id.as_str()).collect::<Vec<_>>(), vec!["a", "c"]);
    let rows = pool_status("me", "Me", "UTC", None, None, Some(3), vec![peer("a", true)]);
    assert_eq!(rows.len(), 2);
    assert_eq!((rows[0].availability_state.as_str(), rows[0].daily_limit_tokens, rows[0].daily_used_tokens), ("unknown", 100000, 3));
    assert_eq!(rows[1].peer_id, "a");
    let f = fair_use_record("p".to_string(), 50, 80);
    assert_eq!(f.balance_tokens, -30);
}

#[test]
fn usage_from_bodies() {
    let u = usage_from_json_body(br#"{"model":"m","usage":{"prompt_tokens":3,"completion_tokens":4}}"#).unwrap();
    assert_eq!((u.input_tokens, u.output_tokens, u.model.as_deref()), (3, 4, Some("m")));
    assert!(usage_from_json_body(b"[]").is_none());
    assert!(usage_from_json_body(br#"{"usage":{}}"#).is_none());
    let s = "event: x\ndata: {\"usage\":{\"input_tokens\":2}}\ndata: {\"message\":{\"model\":\"m2\",\"usage\":{\"output_tokens\":5}}}\ndata: [DONE]";
    let u = usage_from_sse_chunk(s).unwrap();
    assert_eq!((u.input_tokens, u.output_tokens, u.model.as_deref()), (0, 5, Some("m2")));
    assert!(usage_from_sse_chunk("data: [DONE]\n").is_none());
}

#[test]
fn vault_roundtrip_and_errors() {
    let sealed = encrypt_api_key("sk-test", "pw", "salt").unwrap();
    assert!(sealed.starts_with("v2:"));
    assert_eq!(decrypt_api_key(&sealed, "pw", "salt").unwrap(), "sk-test");
    assert_eq!(decrypt_api_key(&sealed, "pw", "other"), Err(VaultError::DecryptFailed));
    assert_eq!(decrypt_api_key("v1:a:b", "pw", "salt"), Err(VaultError::UnsupportedFormat));
    assert_eq!(decrypt_api_key("v2", "pw", "salt"), Err(VaultError::MissingSalt));
    assert_eq!(decrypt_api_key("v2:abc", "pw", "salt"), Err(VaultError::MissingPayload));
    assert_eq!(decrypt_api_key("v2:*:abc", "pw", "salt"), Err(VaultError::InvalidSalt));
    assert_eq!(decrypt_api_key("v2:AAAA:*", "pw", "salt"), Err(VaultError::InvalidPayload));
    assert_eq!(decrypt_api_key("v2:AAAA:AAAA", "pw", "salt"), Err(VaultError::InvalidEnvelope));
    assert_eq!(VaultError::MissingSalt.message(), "missing pbkdf2 salt");
}

#[test]
fn numbers_and_masks() {
    assert_eq!(parse_i64("-42"), Some(-42));
    assert_eq!(parse_i64("+7"), Some(7));
    assert_eq!(parse_i64("9223372036854775808"), None);
    assert_eq!(parse_i64(""), None);
    assert_eq!(parse_u16("65535"), Some(65535));
    assert_eq!(parse_u16("65536"), None);
    assert_eq!(i64_text(i64::MIN), "-9223372036854775808");
    assert_eq!(u16_text(0), "0");
    assert_eq!(mask_ciphertext("v2:abcdefgh"), "v2:abc******");
    assert_eq!(mask_ciphertext("ab"), "ab******");
}

#[test]
fn rate_limit_counts_the_last_sixty_seconds() {
    // A call at second 60 after one at second 59 is the second within 60 seconds.
    assert_eq!(rate_limit_verdict(&vec![59], 60, 1), (false, 2, 1));
    // A call exactly 60 seconds old no longer counts.
    assert_eq!(rate_limit_verdict(&vec![0], 60, 1), (true, 1, 1));
    assert_eq!(recent_call_count(&vec![0, 1, 59, 61, 100], 100), 3);
}

#[test]
fn sealed_key_shape_and_colon_in_password() {
    let sealed = encrypt_api_key("sk-test", "a:b", "c").unwrap();
    assert!(sealed.starts_with("v2:"));
    assert_eq!(sealed.split(':').count(), 3);
    assert_eq!(decrypt_api_key(&sealed, "a:b", "c").unwrap(), "sk-test");
    assert_eq!(decrypt_api_key(&sealed, "a", "b:c"), Err(VaultError::DecryptFailed));
}

#[test]
fn read_failure_reports_the_readers_text() {
    let e = VaultError::ReadFailed("message is truncated".to_string());
    assert_eq!(e.message(), "message is truncated");
}
