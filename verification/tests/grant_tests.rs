use tokenunion::grants::GrantTracker;

fn tracker_with_three_peers() -> GrantTracker {
    let mut t = GrantTracker::new();
    assert_eq!(t.await_grant("h1".to_string()), false);
    t.record_sent(1, "h1".to_string(), "peer-a".to_string());
    t.record_sent(2, "h1".to_string(), "peer-b".to_string());
    t.record_sent(3, "h1".to_string(), "peer-c".to_string());
    t
}

#[test]
fn grant_names_the_granting_peer_and_cancels_rivals() {
    let mut t = tracker_with_three_peers();
    let out = t.answer(2, true, Some("available".to_string()));
    let (hash, decision) = out.decided.expect("a waiting caller is answered");
    assert_eq!(hash, "h1");
    assert_eq!(decision.peer_id, "peer-b");
    assert_eq!(decision.reason.as_deref(), Some("available"));
    let mut cancelled: Vec<String> = out.cancel.iter().map(|g| g.peer_id.clone()).collect();
    cancelled.sort();
    assert_eq!(cancelled, vec!["peer-a".to_string(), "peer-c".to_string()]);
    assert!(!t.is_waiting("h1"));
}

#[test]
fn grant_decides_only_once() {
    let mut t = tracker_with_three_peers();
    t.record_sent(4, "h1".to_string(), "peer-b".to_string());
    let first = t.answer(2, true, None);
    assert!(first.decided.is_some());
    let second = t.answer(4, true, None);
    assert!(second.decided.is_none());
    assert!(!t.time_out("h1"));
}

#[test]
fn refusal_decides_nothing() {
    let mut t = tracker_with_three_peers();
    let out = t.answer(1, false, Some("paused".to_string()));
    assert!(out.decided.is_none());
    assert!(out.cancel.is_empty());
    assert!(t.is_waiting("h1"));
}

#[test]
fn unknown_answer_changes_nothing() {
    let mut t = tracker_with_three_peers();
    let out = t.answer(99, true, None);
    assert!(out.decided.is_none());
    assert!(out.cancel.is_empty());
    assert!(t.is_waiting("h1"));
    let granted = t.answer(3, true, None);
    assert_eq!(granted.decided.unwrap().1.peer_id, "peer-c");
}

#[test]
fn timeout_releases_waiting_caller() {
    let mut t = tracker_with_three_peers();
    assert!(t.time_out("h1"));
    assert!(!t.is_waiting("h1"));
    assert!(t.answer(1, true, None).decided.is_none());
    assert!(!t.time_out("h1"));
}

#[test]
fn last_failure_releases_caller() {
    let mut t = tracker_with_three_peers();
    assert_eq!(t.fail(1), None);
    assert_eq!(t.fail(2), None);
    assert_eq!(t.fail(3), Some("h1".to_string()));
    assert!(!t.is_waiting("h1"));
    assert_eq!(t.fail(3), None);
}

#[test]
fn second_caller_replaces_first() {
    let mut t = GrantTracker::new();
    assert_eq!(t.begin_grant(false, "h2".to_string()), None);
    assert!(!t.is_waiting("h2"));
    assert_eq!(t.begin_grant(true, "h2".to_string()), Some(false));
    assert_eq!(t.begin_grant(true, "h2".to_string()), Some(true));
    assert!(t.is_waiting("h2"));
}

#[test]
fn resending_an_id_replaces_its_entry() {
    let mut t = GrantTracker::new();
    t.await_grant("h3".to_string());
    t.await_grant("h4".to_string());
    t.record_sent(7, "h3".to_string(), "peer-a".to_string());
    t.record_sent(7, "h4".to_string(), "peer-b".to_string());
    let out = t.answer(7, true, None);
    let (hash, d) = out.decided.unwrap();
    assert_eq!(hash, "h4");
    assert_eq!(d.peer_id, "peer-b");
    assert!(t.is_waiting("h3"));
}
