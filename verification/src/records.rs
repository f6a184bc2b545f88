use vstd::prelude::*;

use crate::text::{chars_of, push_char, string_of_range};

verus! {

/// Handle on the local store: where its database file lives. Reading and writing the file is
/// the application's part; the rules that decide what to read and write are in this crate.
pub struct Db {
    pub path: String,
}

impl Db {
    pub fn new(path: String) -> (db: Db)
        ensures
            db.path@ == path@,
    {
        Db { path }
    }

    /// Content logging is hard-wired off: prompts and responses are never persisted, and
    /// nothing can switch that on.
    pub fn no_content_logging_hardcoded(&self) -> (enabled: bool)
        ensures
            !enabled,
    {
        false
    }
}

/// What a listing shows of a ciphertext: its first six characters, then six stars.
pub open spec fn masked(cipher: Seq<char>) -> Seq<char> {
    (if cipher.len() <= 6 {
        cipher
    } else {
        cipher.take(6)
    }) + seq!['*', '*', '*', '*', '*', '*']
}

/// The masked form of a ciphertext, for listings.
pub fn mask_ciphertext(cipher: &str) -> (s: String)
    ensures
        s@ == masked(cipher@),
{
    let v = chars_of(cipher);
    let n = if v.len() <= 6 {
        v.len()
    } else {
        6
    };
    let mut s = string_of_range(v.as_slice(), 0, n);
    let mut k: usize = 0;
    while k < 6
        invariant
            k <= 6,
            s@ == v@.subrange(0, n as int) + Seq::new(k as nat, |i: int| '*'),
        decreases 6 - k,
    {
        push_char(&mut s, '*');
        assert(v@.subrange(0, n as int) + Seq::new((k + 1) as nat, |i: int| '*') =~= (v@.subrange(
            0,
            n as int,
        ) + Seq::new(k as nat, |i: int| '*')).push('*'));
        k = k + 1;
    }
    assert(Seq::new(6, |i: int| '*') =~= seq!['*', '*', '*', '*', '*', '*']);
    assert(v@.subrange(0, n as int) =~= (if v@.len() <= 6 {
        v@
    } else {
        v@.take(6)
    }));
    s
}

/// A provider key as stored: sealed, never in the clear.
#[derive(Debug, Clone)]
pub struct StoredKey {
    pub id: i64,
    pub provider: String,
    pub label: String,
    pub encrypted_key: String,
}

/// This node's identity: its peer id and sealed private key.
#[derive(Debug, Clone)]
pub struct LocalIdentityRecord {
    pub peer_id: String,
    pub encrypted_private_key: String,
    pub display_name: String,
    pub timezone: String,
}

/// A known circle member.
#[derive(Debug, Clone)]
pub struct PeerRecord {
    pub peer_id: String,
    pub display_name: String,
    pub timezone: String,
    pub multiaddr: Option<String>,
    pub online: bool,
    pub last_seen: Option<String>,
    pub availability_state: String,
    pub daily_limit_tokens: i64,
    pub daily_used_tokens: i64,
}

/// One control message exchanged with a peer.
#[derive(Debug, Clone)]
pub struct TokenMessageRecord {
    pub id: i64,
    pub ts: String,
    pub direction: String,
    pub peer_id: String,
    pub msg_type: String,
    pub amount: i64,
    pub granted: Option<bool>,
    pub reason: Option<String>,
}

/// A stored key as listed to the user, with its ciphertext masked.
#[derive(Debug, Clone)]
pub struct VaultKeyDto {
    pub id: i64,
    pub provider: String,
    pub label: String,
    pub masked_key: String,
    pub created_at: String,
}

/// Today's totals for the dashboard.
#[derive(Debug, Clone)]
pub struct DashboardStats {
    pub total_tokens_today: i64,
    pub requests_today: i64,
    pub active_key_label: Option<String>,
    pub proxy_running: bool,
    pub proxy_port: u16,
}

/// Metadata of one proxied request: counts and identifiers, never content.
#[derive(Debug, Clone)]
pub struct RequestInsert {
    pub model: Option<String>,
    pub input_tokens: i64,
    pub output_tokens: i64,
    pub source: String,
    pub request_id: Option<String>,
}

/// An audit row to record: who a request went to or came from, and its counts; the request
/// hash stands in for the content.
#[derive(Debug, Clone)]
pub struct AuditInsert {
    pub direction: String,
    pub peer_id: Option<String>,
    pub model: Option<String>,
    pub input_tokens: i64,
    pub output_tokens: i64,
    pub request_nonce: String,
}

/// A ledger transaction to record.
#[derive(Debug, Clone)]
pub struct TransactionInsert {
    pub tx_type: String,
    pub peer_id: Option<String>,
    pub provider: String,
    pub model: Option<String>,
    pub input_tokens: i64,
    pub output_tokens: i64,
    pub request_hash: String,
}

/// What a transaction to record holds.
pub struct TransactionView {
    pub tx_type: Seq<char>,
    pub peer_id: Option<Seq<char>>,
    pub provider: Seq<char>,
    pub model: Option<Seq<char>>,
    pub input_tokens: i64,
    pub output_tokens: i64,
    pub request_hash: Seq<char>,
}

impl View for TransactionInsert {
    type V = TransactionView;

    open spec fn view(&self) -> TransactionView {
        TransactionView {
            tx_type: self.tx_type@,
            peer_id: crate::tracker::opt_chars(self.peer_id),
            provider: self.provider@,
            model: crate::tracker::opt_chars(self.model),
            input_tokens: self.input_tokens,
            output_tokens: self.output_tokens,
            request_hash: self.request_hash@,
        }
    }
}

/// A recorded ledger transaction.
#[derive(Debug, Clone)]
pub struct TransactionRecord {
    pub id: i64,
    pub ts: String,
    pub tx_type: String,
    pub peer_id: Option<String>,
    pub provider: String,
    pub model: Option<String>,
    pub input_tokens: i64,
    pub output_tokens: i64,
    pub request_hash: String,
}

/// Tokens a peer contributed and consumed over the last week.
#[derive(Debug, Clone)]
pub struct FairUseRecord {
    pub peer_id: String,
    pub contributed_tokens: i64,
    pub consumed_tokens: i64,
    pub balance_tokens: i64,
}

/// One member of the pool as shown in the pool overview.
#[derive(Debug, Clone)]
pub struct PoolStatusRecord {
    pub peer_id: String,
    pub display_name: String,
    pub availability_state: String,
    pub online: bool,
    pub timezone: String,
    pub daily_limit_tokens: i64,
    pub daily_used_tokens: i64,
}

/// The weekly sharing schedule: a 7 x 24 bitmap of active hours and an override.
#[derive(Debug, Clone)]
pub struct ScheduleConfig {
    pub timezone: String,
    pub weekly_active_bitmap: String,
    pub sharing_override: String,
}

/// One audited transaction: direction, peer, model, counts and nonce.
#[derive(Debug, Clone)]
pub struct AuditLogRecord {
    pub id: i64,
    pub ts: String,
    pub direction: String,
    pub peer_id: Option<String>,
    pub model: Option<String>,
    pub input_tokens: i64,
    pub output_tokens: i64,
    pub request_nonce: String,
}

/// A security-relevant event (replay, bad signature, rate limit, revocation).
#[derive(Debug, Clone)]
pub struct SecurityEventRecord {
    pub id: i64,
    pub ts: String,
    pub event_type: String,
    pub detail: String,
}

/// A peer's request limit and its count in the current minute.
#[derive(Debug, Clone)]
pub struct RateLimitStat {
    pub peer_id: String,
    pub max_requests_per_min: i64,
    pub current_window_count: i64,
}

/// A signed, encrypted ledger entry as gossiped between peers.
#[derive(Debug, Clone)]
pub struct LedgerGossipRecord {
    pub entry_id: String,
    pub signer_peer_id: String,
    pub lamport_ts: i64,
    pub cipher_b64: String,
    pub nonce: String,
    pub signature_b64: String,
    pub signer_pubkey_b64: String,
    pub observed_ts: String,
}

/// A stored OAuth session, without its tokens.
#[derive(Debug, Clone)]
pub struct OAuthSessionRecord {
    pub provider: String,
    pub account_label: Option<String>,
    pub scopes: Option<String>,
    pub expires_at: Option<String>,
    pub created_at: String,
    pub updated_at: String,
}

} // verus!
