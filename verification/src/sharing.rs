use vstd::prelude::*;

use crate::records::{FairUseRecord, PeerRecord, PoolStatusRecord, ScheduleConfig};
use crate::text::{chars_of, owned, push_char, same_text};
use crate::tracker::opt_chars;

verus! {

broadcast use vstd::string::group_string_axioms;

/// Daily lending limit a node starts with.
pub const DEFAULT_DAILY_LIMIT_TOKENS: i64 = 100000;

/// Hours in the weekly schedule bitmap.
pub const WEEK_HOURS: usize = 168;

/// Whether lending `amount` more tokens today is allowed, and the reason reported.
pub open spec fn lend_verdict(
    availability: Seq<char>,
    override_mode: Seq<char>,
    limit: i64,
    used: i64,
    amount: i64,
) -> (bool, Seq<char>) {
    if availability == "paused"@ || override_mode == "paused"@ {
        (false, "paused"@)
    } else if availability == "sleeping"@ {
        (false, "sleeping"@)
    } else if used + amount > limit {
        (false, "daily limit reached"@)
    } else {
        (true, "available"@)
    }
}

/// Decides whether this node can lend `amount` tokens now, from its sharing state: pausing
/// (by state or override) wins, then sleeping, then the daily limit.
pub fn lend_decision(
    availability: &str,
    override_mode: &str,
    limit: i64,
    used: i64,
    amount: i64,
) -> (r: (bool, String))
    ensures
        (r.0, r.1@) == lend_verdict(availability@, override_mode@, limit, used, amount),
{
    if same_text(availability, "paused") || same_text(override_mode, "paused") {
        return (false, owned("paused"));
    }
    if same_text(availability, "sleeping") {
        return (false, owned("sleeping"));
    }
    if (used as i128) + (amount as i128) > limit as i128 {
        return (false, owned("daily limit reached"));
    }
    (true, owned("available"))
}

/// Today's used tokens after the daily reset: kept when they were counted today, else 0.
pub fn daily_used_after_reset(used: i64, used_date: &Option<String>, today: &str) -> (r: i64)
    ensures
        r == (if opt_chars(*used_date) == Some(today@) {
            used
        } else {
            0
        }),
{
    match used_date {
        Some(d) => if same_text(d.as_str(), today) {
            used
        } else {
            0
        },
        None => 0,
    }
}

/// Today's used tokens after lending `amount` more; a negative amount counts as none.
pub fn daily_used_after_lending(used: i64, amount: i64) -> (r: i64)
    requires
        used + (if amount > 0 {
            amount
        } else {
            0
        }) <= i64::MAX,
    ensures
        r == used + (if amount > 0 {
            amount
        } else {
            0
        }),
{
    if amount > 0 {
        used + amount
    } else {
        used
    }
}

/// The availability the schedule gives for hour `hour` of weekday `day` (Monday is 0): the
/// override `share_now` or `paused` wins; otherwise the bitmap decides, an hour beyond it
/// counting as active.
pub open spec fn scheduled_state(
    sharing_override: Seq<char>,
    bitmap: Seq<char>,
    day: int,
    hour: int,
) -> Seq<char> {
    if sharing_override == "share_now"@ {
        "available"@
    } else if sharing_override == "paused"@ {
        "paused"@
    } else {
        let idx = day * 24 + hour;
        if idx < bitmap.len() && bitmap[idx] != '1' {
            "sleeping"@
        } else {
            "available"@
        }
    }
}

/// The availability state for the current hour under the schedule `cfg`.
pub fn evaluate_schedule(cfg: &ScheduleConfig, day_index: usize, hour: usize) -> (r: String)
    requires
        day_index < 7,
        hour < 24,
    ensures
        r@ == scheduled_state(
            cfg.sharing_override@,
            cfg.weekly_active_bitmap@,
            day_index as int,
            hour as int,
        ),
{
    if same_text(cfg.sharing_override.as_str(), "share_now") {
        return owned("available");
    }
    if same_text(cfg.sharing_override.as_str(), "paused") {
        return owned("paused");
    }
    let bits = chars_of(cfg.weekly_active_bitmap.as_str());
    let idx = day_index * 24 + hour;
    if idx < bits.len() && bits[idx] != '1' {
        owned("sleeping")
    } else {
        owned("available")
    }
}

/// A schedule bitmap active every hour of the week.
pub fn full_week_bitmap() -> (s: String)
    ensures
        s@.len() == WEEK_HOURS,
        forall|i: int| 0 <= i < s@.len() ==> #[trigger] s@[i] == '1',
{
    let mut s = String::new();
    let mut k: usize = 0;
    while k < WEEK_HOURS
        invariant
            k <= WEEK_HOURS,
            s@.len() == k,
            forall|i: int| 0 <= i < s@.len() ==> #[trigger] s@[i] == '1',
        decreases WEEK_HOURS - k,
    {
        push_char(&mut s, '1');
        k = k + 1;
    }
    s
}

/// The peers that are online, in their order.
pub fn online_peers(peers: Vec<PeerRecord>) -> (r: Vec<PeerRecord>)
    ensures
        r@ == peers@.filter(|p: PeerRecord| p.online),
{
    let mut r: Vec<PeerRecord> = Vec::new();
    let ghost all = peers@;
    assert(all.take(0).filter(|p: PeerRecord| p.online) =~= Seq::<PeerRecord>::empty());
    for p in it: peers
        invariant
            it.seq() == all,
            r@ == all.take(it.index() as int).filter(|p: PeerRecord| p.online),
    {
        assert(all.take(it.index() + 1).drop_last() =~= all.take(it.index() as int));
        reveal_with_fuel(Seq::filter, 1);
        if p.online {
            r.push(p);
        }
    }
    assert(all.take(all.len() as int) =~= all);
    r
}

/// A pool-overview row shows a peer as it is recorded.
pub open spec fn shows_peer(row: PoolStatusRecord, peer: PeerRecord) -> bool {
    &&& row.peer_id@ == peer.peer_id@
    &&& row.display_name@ == peer.display_name@
    &&& row.availability_state@ == peer.availability_state@
    &&& row.online == peer.online
    &&& row.timezone@ == peer.timezone@
    &&& row.daily_limit_tokens == peer.daily_limit_tokens
    &&& row.daily_used_tokens == peer.daily_used_tokens
}

/// The pool overview: this node first, always online, with `unknown`, the default limit and
/// no use standing in for state it could not read; then every peer as recorded.
pub fn pool_status(
    local_peer_id: &str,
    local_name: &str,
    local_timezone: &str,
    local_state: Option<String>,
    local_limit: Option<i64>,
    local_used: Option<i64>,
    peers: Vec<PeerRecord>,
) -> (r: Vec<PoolStatusRecord>)
    ensures
        r@.len() == peers@.len() + 1,
        r@[0].peer_id@ == local_peer_id@,
        r@[0].display_name@ == local_name@,
        r@[0].timezone@ == local_timezone@,
        r@[0].online,
        r@[0].availability_state@ == (match local_state {
            Some(s) => s@,
            None => "unknown"@,
        }),
        r@[0].daily_limit_tokens == (match local_limit {
            Some(n) => n,
            None => DEFAULT_DAILY_LIMIT_TOKENS,
        }),
        r@[0].daily_used_tokens == (match local_used {
            Some(n) => n,
            None => 0,
        }),
        forall|k: int| 0 <= k < peers@.len() ==> shows_peer(#[trigger] r@[k + 1], peers@[k]),
{
    let mut out: Vec<PoolStatusRecord> = Vec::new();
    let state = match local_state {
        Some(s) => s,
        None => owned("unknown"),
    };
    out.push(
        PoolStatusRecord {
            peer_id: owned(local_peer_id),
            display_name: owned(local_name),
            availability_state: state,
            online: true,
            timezone: owned(local_timezone),
            daily_limit_tokens: match local_limit {
                Some(n) => n,
                None => DEFAULT_DAILY_LIMIT_TOKENS,
            },
            daily_used_tokens: match local_used {
                Some(n) => n,
                None => 0,
            },
        },
    );
    let ghost all = peers@;
    for peer in it: peers
        invariant
            it.seq() == all,
            out@.len() == it.index() + 1,
            out@[0].peer_id@ == local_peer_id@,
            out@[0].display_name@ == local_name@,
            out@[0].timezone@ == local_timezone@,
            out@[0].online,
            out@[0].availability_state@ == (match local_state {
                Some(s) => s@,
                None => "unknown"@,
            }),
            out@[0].daily_limit_tokens == (match local_limit {
                Some(n) => n,
                None => DEFAULT_DAILY_LIMIT_TOKENS,
            }),
            out@[0].daily_used_tokens == (match local_used {
                Some(n) => n,
                None => 0,
            }),
            forall|k: int| 0 <= k < it.index() ==> shows_peer(#[trigger] out@[k + 1], all[k]),
    {
        out.push(
            PoolStatusRecord {
                peer_id: peer.peer_id,
                display_name: peer.display_name,
                availability_state: peer.availability_state,
                online: peer.online,
                timezone: peer.timezone,
                daily_limit_tokens: peer.daily_limit_tokens,
                daily_used_tokens: peer.daily_used_tokens,
            },
        );
    }
    out
}

/// A peer's fair-use row: what it contributed, what it consumed, and the difference.
pub fn fair_use_record(peer_id: String, contributed: i64, consumed: i64) -> (r: FairUseRecord)
    requires
        i64::MIN <= contributed - consumed <= i64::MAX,
    ensures
        r.peer_id@ == peer_id@,
        r.contributed_tokens == contributed,
        r.consumed_tokens == consumed,
        r.balance_tokens == contributed - consumed,
{
    FairUseRecord {
        peer_id,
        contributed_tokens: contributed,
        consumed_tokens: consumed,
        balance_tokens: contributed - consumed,
    }
}

} // verus!
