use vstd::prelude::*;

use crate::numbers::{parse_i64, parsed_i64};
use crate::records::LedgerGossipRecord;
use crate::tracker::opt_chars;

verus! {

/// Seconds either side of now within which a signed request's timestamp is accepted.
pub const REPLAY_WINDOW_SECS: i64 = 30;

/// Requests a peer may make in any 60 seconds unless configured otherwise.
pub const DEFAULT_RATE_LIMIT_PER_MIN: i64 = 30;

// ---------------------------------------------------------------------------------------------
// Replay protection
// ---------------------------------------------------------------------------------------------

/// `ts` lies within the replay window around `now`.
pub open spec fn is_fresh(now: int, ts: int) -> bool {
    now - ts <= REPLAY_WINDOW_SECS && ts - now <= REPLAY_WINDOW_SECS
}

/// The seen-nonce table (nonce to timestamp) once entries older than the window are dropped.
pub open spec fn purged_nonces(seen: Map<Seq<char>, i64>, now: int) -> Map<Seq<char>, i64> {
    Map::new(
        |k: Seq<char>| seen.contains_key(k) && seen[k] >= now - REPLAY_WINDOW_SECS,
        |k: Seq<char>| seen[k],
    )
}

/// Presenting `nonce` stamped `ts` at time `now`: the table afterwards, and whether the
/// request is accepted. A stale stamp leaves the table alone; otherwise old entries are purged
/// and the nonce is accepted, and recorded, only if it is not in the table.
pub open spec fn remember_nonce(seen: Map<Seq<char>, i64>, nonce: Seq<char>, ts: i64, now: i64) -> (
    Map<Seq<char>, i64>,
    bool,
) {
    if !is_fresh(now as int, ts as int) {
        (seen, false)
    } else {
        let p = purged_nonces(seen, now as int);
        if p.contains_key(nonce) {
            (p, false)
        } else {
            (p.insert(nonce, ts), true)
        }
    }
}

/// The table entry for `key`, if any.
pub open spec fn lookup<K, V>(m: Map<K, V>, key: K) -> Option<V> {
    if m.contains_key(key) {
        Some(m[key])
    } else {
        None
    }
}

/// Whether a nonce stamped `ts`, whose stored stamp is `stored`, is accepted at `now`.
pub open spec fn nonce_accepted(now: i64, ts: i64, stored: Option<i64>) -> bool {
    is_fresh(now as int, ts as int) && !(stored matches Some(s) && s >= now - REPLAY_WINDOW_SECS)
}

/// Whether a request stamped `ts_epoch` whose nonce was stored with stamp `stored_ts` (if
/// any) is fresh and not a replay at `now`.
pub fn nonce_is_fresh(now: i64, ts_epoch: i64, stored_ts: Option<i64>) -> (r: bool)
    ensures
        r == nonce_accepted(now, ts_epoch, stored_ts),
{
    let diff = (now as i128) - (ts_epoch as i128);
    if diff > 30 || diff < -30 {
        return false;
    }
    match stored_ts {
        Some(s) => (s as i128) < (now as i128) - 30,
        None => true,
    }
}

/// The stamp below which stored nonces are purged at `now`.
pub fn nonce_purge_before(now: i64) -> (r: i64)
    requires
        now >= i64::MIN + REPLAY_WINDOW_SECS,
    ensures
        r == now - REPLAY_WINDOW_SECS,
{
    now - 30
}

/// The decision on a nonce is the table's: accepted exactly when `remember_nonce` accepts.
pub proof fn lemma_nonce_decision_matches_table(
    seen: Map<Seq<char>, i64>,
    nonce: Seq<char>,
    ts: i64,
    now: i64,
)
    ensures
        remember_nonce(seen, nonce, ts, now).1 == nonce_accepted(now, ts, lookup(seen, nonce)),
{
}

/// A request stamped outside the window is refused and leaves the table as it was.
pub proof fn lemma_stale_request_rejected(
    seen: Map<Seq<char>, i64>,
    nonce: Seq<char>,
    ts: i64,
    now: i64,
)
    requires
        !is_fresh(now as int, ts as int),
    ensures
        remember_nonce(seen, nonce, ts, now) == (seen, false),
{
}

/// A nonce accepted once is refused when presented again, as long as its first stamp has not
/// yet left the window at the second presentation.
pub proof fn lemma_replayed_nonce_rejected(
    seen: Map<Seq<char>, i64>,
    nonce: Seq<char>,
    ts: i64,
    now: i64,
    ts2: i64,
    now2: i64,
)
    requires
        remember_nonce(seen, nonce, ts, now).1,
        ts >= now2 - REPLAY_WINDOW_SECS,
    ensures
        !remember_nonce(remember_nonce(seen, nonce, ts, now).0, nonce, ts2, now2).1,
{
    let t1 = remember_nonce(seen, nonce, ts, now).0;
    assert(t1.contains_key(nonce) && t1[nonce] == ts);
    if is_fresh(now2 as int, ts2 as int) {
        assert(purged_nonces(t1, now2 as int).contains_key(nonce));
    }
}

/// In particular, the same nonce presented twice at the same instant is refused the second time.
pub proof fn lemma_second_use_rejected(seen: Map<Seq<char>, i64>, nonce: Seq<char>, ts: i64, now: i64)
    requires
        remember_nonce(seen, nonce, ts, now).1,
    ensures
        !remember_nonce(remember_nonce(seen, nonce, ts, now).0, nonce, ts, now).1,
{
    lemma_replayed_nonce_rejected(seen, nonce, ts, now, ts, now);
}

// ---------------------------------------------------------------------------------------------
// Per-peer rate limiting
// ---------------------------------------------------------------------------------------------

/// Seconds over which a peer's requests are counted against its limit.
pub const RATE_WINDOW_SECS: i64 = 60;

/// The calls among `calls` (timestamps, oldest first) made in the 60 seconds up to `now`:
/// those stamped after `now - 60`.
pub open spec fn recent(calls: Seq<i64>, now: int) -> Seq<i64>
    decreases calls.len(),
{
    if calls.len() == 0 {
        Seq::empty()
    } else {
        let r = recent(calls.drop_last(), now);
        if calls.last() > now - RATE_WINDOW_SECS {
            r.push(calls.last())
        } else {
            r
        }
    }
}

/// The outcome of a request at `now` from a peer whose earlier calls were at `calls`: it is
/// counted with the calls of the last 60 seconds, and allowed while that count is within
/// `limit`. The outcome is whether it is allowed, the count, and the limit.
pub open spec fn rate_verdict(calls: Seq<i64>, now: int, limit: i64) -> (bool, int, i64) {
    let c: int = recent(calls, now).len() as int + 1;
    (c <= limit, c, limit)
}

/// The calls a peer has on record in the table `t` (peer to call times).
pub open spec fn calls_of(t: Map<Seq<char>, Seq<i64>>, peer: Seq<char>) -> Seq<i64> {
    if t.contains_key(peer) {
        t[peer]
    } else {
        Seq::empty()
    }
}

/// One request from `peer` at `now` under `limit`: the table afterwards (the peer's calls of
/// the last 60 seconds, then this one) and the outcome.
pub open spec fn rate_step(t: Map<Seq<char>, Seq<i64>>, peer: Seq<char>, now: i64, limit: i64) -> (
    Map<Seq<char>, Seq<i64>>,
    (bool, int, i64),
) {
    let calls = calls_of(t, peer);
    (t.insert(peer, recent(calls, now as int).push(now)), rate_verdict(calls, now as int, limit))
}

/// Requests from `peer` at the times `times`, in order.
pub open spec fn rate_run(t: Map<Seq<char>, Seq<i64>>, peer: Seq<char>, times: Seq<i64>, limit: i64) -> Map<
    Seq<char>,
    Seq<i64>,
>
    decreases times.len(),
{
    if times.len() == 0 {
        t
    } else {
        rate_step(rate_run(t, peer, times.drop_last(), limit), peer, times.last(), limit).0
    }
}

/// Keeping the calls of the window up to `now1`, then those of the window up to a later
/// `now2`, keeps the calls of the window up to `now2`.
proof fn lemma_recent_recent(calls: Seq<i64>, now1: int, now2: int)
    requires
        now1 <= now2,
    ensures
        recent(recent(calls, now1), now2) == recent(calls, now2),
    decreases calls.len(),
{
    if calls.len() > 0 {
        lemma_recent_recent(calls.drop_last(), now1, now2);
        let r1 = recent(calls.drop_last(), now1);
        if calls.last() > now1 - RATE_WINDOW_SECS {
            assert(r1.push(calls.last()).drop_last() =~= r1);
        }
    }
}

/// No call older than the window up to `now` counts at `now`.
proof fn lemma_recent_none(calls: Seq<i64>, now: int)
    requires
        forall|i: int| 0 <= i < calls.len() ==> calls[i] <= now - RATE_WINDOW_SECS,
    ensures
        recent(calls, now) == Seq::<i64>::empty(),
    decreases calls.len(),
{
    if calls.len() > 0 {
        lemma_recent_none(calls.drop_last(), now);
    }
}

/// The count of the calls at `calls` made in the 60 seconds up to `now`.
pub fn recent_call_count(calls: &Vec<i64>, now: i64) -> (r: usize)
    ensures
        r == recent(calls@, now as int).len(),
        r <= calls@.len(),
{
    let mut count: usize = 0;
    let mut i: usize = 0;
    while i < calls.len()
        invariant
            i <= calls@.len(),
            count == recent(calls@.take(i as int), now as int).len(),
            count <= i,
        decreases calls.len() - i,
    {
        assert(calls@.take(i + 1).drop_last() =~= calls@.take(i as int));
        let t = calls[i];
        if (t as i128) > (now as i128) - 60 {
            count = count + 1;
        }
        i = i + 1;
    }
    assert(calls@.take(calls@.len() as int) =~= calls@);
    count
}

/// Counts a request at `now` from a peer whose stored calls are `calls`: whether it is
/// allowed, its count in the last 60 seconds, and the limit.
pub fn rate_limit_verdict(calls: &Vec<i64>, now: i64, limit: i64) -> (r: (bool, i64, i64))
    requires
        calls@.len() < i64::MAX,
    ensures
        (r.0, r.1 as int, r.2) == rate_verdict(calls@, now as int, limit),
{
    let n = recent_call_count(calls, now);
    let count = (n as i64) + 1;
    (count <= limit, count, limit)
}

/// The stamp at or below which a stored call no longer counts at `now`.
pub fn rate_window_start(now: i64) -> (r: i64)
    requires
        now >= i64::MIN + RATE_WINDOW_SECS,
    ensures
        r == now - RATE_WINDOW_SECS,
{
    now - 60
}

/// The limit for a peer: its own if set, else the configured default, else 30.
pub open spec fn effective_limit(peer_limit: Option<i64>, default_setting: Option<Seq<char>>) -> i64 {
    match peer_limit {
        Some(n) => n,
        None => default_limit(default_setting),
    }
}

/// The configured default limit, 30 when unset or not a number.
pub open spec fn default_limit(default_setting: Option<Seq<char>>) -> i64 {
    match default_setting {
        Some(s) => match parsed_i64(s) {
            Some(n) => n,
            None => DEFAULT_RATE_LIMIT_PER_MIN,
        },
        None => DEFAULT_RATE_LIMIT_PER_MIN,
    }
}

/// The configured default per-peer limit.
pub fn default_rate_limit(default_setting: &Option<String>) -> (r: i64)
    ensures
        r == default_limit(opt_chars(*default_setting)),
{
    match default_setting {
        Some(s) => match parse_i64(s.as_str()) {
            Some(n) => n,
            None => DEFAULT_RATE_LIMIT_PER_MIN,
        },
        None => DEFAULT_RATE_LIMIT_PER_MIN,
    }
}

/// The limit that applies to a peer.
pub fn effective_rate_limit(peer_limit: Option<i64>, default_setting: &Option<String>) -> (r: i64)
    ensures
        r == effective_limit(peer_limit, opt_chars(*default_setting)),
{
    match peer_limit {
        Some(n) => n,
        None => default_rate_limit(default_setting),
    }
}

/// The decision on a request is the table's, and a request changes no other peer's calls.
pub proof fn lemma_rate_decision_matches_table(
    t: Map<Seq<char>, Seq<i64>>,
    peer: Seq<char>,
    other: Seq<char>,
    now: i64,
    limit: i64,
)
    requires
        other != peer,
    ensures
        rate_step(t, peer, now, limit).1 == rate_verdict(calls_of(t, peer), now as int, limit),
        calls_of(rate_step(t, peer, now, limit).0, other) == calls_of(t, other),
{
}

/// A peer with no calls in the 60 seconds up to `now`, whose next `k` requests all come within
/// those 60 seconds, is allowed its first `limit` requests there and refused every one after:
/// the request at `now` after those `k` is counted `k + 1`, and allowed exactly when
/// `k + 1 <= limit`.
pub proof fn lemma_rate_limit_allows_limit_per_window(
    t: Map<Seq<char>, Seq<i64>>,
    peer: Seq<char>,
    times: Seq<i64>,
    now: i64,
    limit: i64,
)
    requires
        forall|i: int| 0 <= i < calls_of(t, peer).len() ==> calls_of(t, peer)[i] <= now - RATE_WINDOW_SECS,
        forall|i: int| 0 <= i < times.len() ==> now - RATE_WINDOW_SECS < #[trigger] times[i] <= now,
    ensures
        rate_step(rate_run(t, peer, times, limit), peer, now, limit).1 == (
            times.len() + 1 <= limit,
            times.len() as int + 1,
            limit,
        ),
{
    lemma_run_recent(t, peer, times, now, limit);
}

/// The calls of a run that count at `now` are the run's own.
proof fn lemma_run_recent(t: Map<Seq<char>, Seq<i64>>, peer: Seq<char>, times: Seq<i64>, now: i64, limit: i64)
    requires
        forall|i: int| 0 <= i < calls_of(t, peer).len() ==> calls_of(t, peer)[i] <= now - RATE_WINDOW_SECS,
        forall|i: int| 0 <= i < times.len() ==> now - RATE_WINDOW_SECS < #[trigger] times[i] <= now,
    ensures
        recent(calls_of(rate_run(t, peer, times, limit), peer), now as int) == times,
    decreases times.len(),
{
    if times.len() == 0 {
        lemma_recent_none(calls_of(t, peer), now as int);
        assert(times =~= Seq::<i64>::empty());
    } else {
        let prev = times.drop_last();
        assert forall|i: int| 0 <= i < prev.len() implies now - RATE_WINDOW_SECS < #[trigger] prev[i] <= now by {
            assert(prev[i] == times[i]);
        }
        lemma_run_recent(t, peer, prev, now, limit);
        let last = times.last();
        assert(times[times.len() - 1] == last);
        let l = calls_of(rate_run(t, peer, prev, limit), peer);
        let kept = recent(l, last as int);
        lemma_recent_recent(l, last as int, now as int);
        assert(kept.push(last).drop_last() =~= kept);
        assert(recent(kept.push(last), now as int) == recent(kept, now as int).push(last));
        assert(prev.push(last) =~= times);
    }
}

// ---------------------------------------------------------------------------------------------
// Lamport clock
// ---------------------------------------------------------------------------------------------

/// The clock value stored in settings, 0 when unset or unreadable.
pub open spec fn stored_clock(setting: Option<Seq<char>>) -> i64 {
    match setting {
        Some(s) => match parsed_i64(s) {
            Some(n) => n,
            None => 0,
        },
        None => 0,
    }
}

/// The Lamport clock value kept in settings.
pub fn lamport_from_setting(setting: &Option<String>) -> (r: i64)
    ensures
        r == stored_clock(opt_chars(*setting)),
{
    match setting {
        Some(s) => match parse_i64(s.as_str()) {
            Some(n) => n,
            None => 0,
        },
        None => 0,
    }
}

/// The clock after a local event: one past the current value.
pub fn lamport_next(current: i64) -> (r: i64)
    requires
        current < i64::MAX,
    ensures
        r == current + 1,
        r > current,
{
    current + 1
}

/// The clock after observing a remote stamp: one past the larger of the two, so later than
/// both.
pub fn lamport_observe(current: i64, remote: i64) -> (r: i64)
    requires
        current < i64::MAX,
        remote < i64::MAX,
    ensures
        r == (if current >= remote {
            current
        } else {
            remote
        }) + 1,
        r > current,
        r > remote,
{
    if current >= remote {
        current + 1
    } else {
        remote + 1
    }
}

// ---------------------------------------------------------------------------------------------
// Ledger gossip merge (last writer wins by Lamport stamp)
// ---------------------------------------------------------------------------------------------

/// The content of a gossiped ledger entry.
pub struct LedgerEntryView {
    pub entry_id: Seq<char>,
    pub signer_peer_id: Seq<char>,
    pub lamport_ts: i64,
    pub cipher_b64: Seq<char>,
    pub nonce: Seq<char>,
    pub signature_b64: Seq<char>,
    pub signer_pubkey_b64: Seq<char>,
    pub observed_ts: Seq<char>,
}

impl View for LedgerGossipRecord {
    type V = LedgerEntryView;

    open spec fn view(&self) -> LedgerEntryView {
        LedgerEntryView {
            entry_id: self.entry_id@,
            signer_peer_id: self.signer_peer_id@,
            lamport_ts: self.lamport_ts,
            cipher_b64: self.cipher_b64@,
            nonce: self.nonce@,
            signature_b64: self.signature_b64@,
            signer_pubkey_b64: self.signer_pubkey_b64@,
            observed_ts: self.observed_ts@,
        }
    }
}

/// Merging entry `e` into the ledger (entry id to entry): replaced only when `e` carries a
/// newer stamp than what is stored for its id; the flag says whether anything changed.
pub open spec fn ledger_merge(store: Map<Seq<char>, LedgerEntryView>, e: LedgerEntryView) -> (
    Map<Seq<char>, LedgerEntryView>,
    bool,
) {
    if store.contains_key(e.entry_id) && store[e.entry_id].lamport_ts >= e.lamport_ts {
        (store, false)
    } else {
        (store.insert(e.entry_id, e), true)
    }
}

/// Whether an incoming entry stamped `incoming` replaces a stored one stamped `existing`.
pub open spec fn supersedes(existing: Option<i64>, incoming: i64) -> bool {
    !(existing matches Some(c) && c >= incoming)
}

/// Whether an incoming gossip entry stamped `incoming` is to be stored over the entry stamped
/// `existing` kept for its id, if any.
pub fn ledger_entry_is_newer(existing: Option<i64>, incoming: i64) -> (r: bool)
    ensures
        r == supersedes(existing, incoming),
{
    match existing {
        Some(c) => c < incoming,
        None => true,
    }
}

/// The decision on an entry is the ledger's: stored exactly when `ledger_merge` stores it.
pub proof fn lemma_ledger_decision_matches_merge(store: Map<Seq<char>, LedgerEntryView>, e: LedgerEntryView)
    ensures
        ledger_merge(store, e).1 == supersedes(
            match lookup(store, e.entry_id) {
                Some(x) => Some(x.lamport_ts),
                None => None,
            },
            e.lamport_ts,
        ),
{
}

/// Merging the same entry twice changes nothing the second time.
pub proof fn lemma_ledger_merge_idempotent(store: Map<Seq<char>, LedgerEntryView>, e: LedgerEntryView)
    ensures
        ledger_merge(ledger_merge(store, e).0, e) == (ledger_merge(store, e).0, false),
{
}

/// After a merge the ledger holds, for the entry's id, the entry with the larger stamp, and
/// every other id is untouched.
pub proof fn lemma_ledger_merge_keeps_newest(store: Map<Seq<char>, LedgerEntryView>, e: LedgerEntryView)
    ensures
        ledger_merge(store, e).0.contains_key(e.entry_id),
        ledger_merge(store, e).0[e.entry_id].lamport_ts == (if store.contains_key(e.entry_id)
            && store[e.entry_id].lamport_ts >= e.lamport_ts {
            store[e.entry_id].lamport_ts
        } else {
            e.lamport_ts
        }),
        forall|k: Seq<char>|
            k != e.entry_id ==> (#[trigger] ledger_merge(store, e).0.contains_key(k)
                == store.contains_key(k)) && (store.contains_key(k) ==> ledger_merge(store, e).0[k]
                == store[k]),
{
}

/// Replicas that receive the same two entries in either order end with the same ledger,
/// unless the entries share both id and stamp.
pub proof fn lemma_ledger_merge_order_independent(
    store: Map<Seq<char>, LedgerEntryView>,
    a: LedgerEntryView,
    b: LedgerEntryView,
)
    requires
        a.entry_id != b.entry_id || a.lamport_ts != b.lamport_ts,
    ensures
        ledger_merge(ledger_merge(store, a).0, b).0 == ledger_merge(ledger_merge(store, b).0, a).0,
{
    let ab = ledger_merge(ledger_merge(store, a).0, b).0;
    let ba = ledger_merge(ledger_merge(store, b).0, a).0;
    assert(ab =~= ba);
}

} // verus!
