use vstd::prelude::*;

use crate::text::same_text;
use crate::tracker::opt_chars;
use crate::wire::GrantDecision;

verus! {

broadcast use vstd::string::group_string_axioms;

/// A grant request sent to one peer and not yet answered.
pub struct PendingGrant {
    pub request_id: u64,
    pub request_hash: String,
    pub peer_id: String,
}

/// The view of a pending grant request: id, request hash, peer.
pub type PendingView = (u64, Seq<char>, Seq<char>);

impl View for PendingGrant {
    type V = PendingView;

    open spec fn view(&self) -> PendingView {
        (self.request_id, self.request_hash@, self.peer_id@)
    }
}

/// The views of a sequence of pending grant requests.
pub open spec fn pending_views(s: Seq<PendingGrant>) -> Seq<PendingView> {
    s.map_values(|g: PendingGrant| g@)
}

/// The grant protocol's bookkeeping: the request hashes whose caller awaits a decision, and
/// the grant requests sent to peers and not yet answered.
pub struct GrantTracker {
    waiters: Vec<String>,
    outbound: Vec<PendingGrant>,
}

/// What the bookkeeping holds.
pub struct TrackerView {
    pub waiters: Seq<Seq<char>>,
    pub pending: Seq<PendingView>,
}

/// The views of a sequence of strings.
pub open spec fn texts(s: Seq<String>) -> Seq<Seq<char>> {
    s.map_values(|x: String| x@)
}

impl View for GrantTracker {
    type V = TrackerView;

    closed spec fn view(&self) -> TrackerView {
        TrackerView { waiters: texts(self.waiters@), pending: pending_views(self.outbound@) }
    }
}

/// How an answer to a grant request settles things.
pub struct GrantOutcome {
    /// The request hash decided and the decision, if a waiting caller gets one.
    pub decided: Option<(String, GrantDecision)>,
    /// The requests to other peers for the same hash, to be cancelled.
    pub cancel: Vec<PendingGrant>,
}

/// The view of a decision: request hash, granting peer, reason.
pub type DecisionView = (Seq<char>, Seq<char>, Option<Seq<char>>);

/// The entries for request `id`.
pub open spec fn with_id(p: Seq<PendingView>, id: u64) -> Seq<PendingView> {
    p.filter(|e: PendingView| e.0 == id)
}

/// The entries not for request `id`.
pub open spec fn without_id(p: Seq<PendingView>, id: u64) -> Seq<PendingView> {
    p.filter(|e: PendingView| e.0 != id)
}

/// The entries for `hash` sent to a peer other than `peer`.
pub open spec fn rivals(p: Seq<PendingView>, hash: Seq<char>, peer: Seq<char>) -> Seq<PendingView> {
    p.filter(|e: PendingView| e.1 == hash && e.2 != peer)
}

/// The entries that are not rivals of `peer` for `hash`.
pub open spec fn not_rivals(p: Seq<PendingView>, hash: Seq<char>, peer: Seq<char>) -> Seq<PendingView> {
    p.filter(|e: PendingView| !(e.1 == hash && e.2 != peer))
}

/// The entries not for `hash`.
pub open spec fn without_hash(p: Seq<PendingView>, hash: Seq<char>) -> Seq<PendingView> {
    p.filter(|e: PendingView| e.1 != hash)
}

/// Whether some entry is for `hash`.
pub open spec fn has_hash(p: Seq<PendingView>, hash: Seq<char>) -> bool {
    exists|k: int| 0 <= k < p.len() && (#[trigger] p[k]).1 == hash
}

/// The waiting hashes other than `hash`.
pub open spec fn without_waiter(w: Seq<Seq<char>>, hash: Seq<char>) -> Seq<Seq<char>> {
    w.filter(|x: Seq<char>| x != hash)
}

/// Recording that the caller for `hash` awaits a decision (once, however often it is asked).
pub open spec fn await_spec(s: TrackerView, hash: Seq<char>) -> TrackerView {
    if s.waiters.contains(hash) {
        s
    } else {
        TrackerView { waiters: s.waiters.push(hash), ..s }
    }
}

/// Recording request `id` for `hash` sent to `peer`; an earlier entry with the same id is
/// replaced.
pub open spec fn sent_spec(s: TrackerView, id: u64, hash: Seq<char>, peer: Seq<char>) -> TrackerView {
    TrackerView { pending: without_id(s.pending, id).push((id, hash, peer)), ..s }
}

/// The answer to request `id`, a grant when `granted`: the bookkeeping afterwards, the
/// decision handed to the waiting caller, and the rival requests to cancel. An answer to an
/// unknown request changes nothing. A grant decides its hash for the granting peer if a caller
/// still waits, and withdraws the requests for that hash sent to other peers.
pub open spec fn answer_spec(s: TrackerView, id: u64, granted: bool, reason: Option<Seq<char>>) -> (
    TrackerView,
    Option<DecisionView>,
    Seq<PendingView>,
) {
    let m = with_id(s.pending, id);
    if m.len() == 0 {
        (s, None, Seq::empty())
    } else {
        let hash = m[0].1;
        let peer = m[0].2;
        let rest = without_id(s.pending, id);
        if !granted {
            (TrackerView { pending: rest, ..s }, None, Seq::empty())
        } else {
            let decided = if s.waiters.contains(hash) {
                Some((hash, peer, reason))
            } else {
                None
            };
            (
                TrackerView {
                    waiters: without_waiter(s.waiters, hash),
                    pending: not_rivals(rest, hash, peer),
                },
                decided,
                rivals(rest, hash, peer),
            )
        }
    }
}

/// The grant window for `hash` closing: its caller, if still waiting, gets no grant, and its
/// requests are forgotten.
pub open spec fn timeout_spec(s: TrackerView, hash: Seq<char>) -> (TrackerView, bool) {
    (
        TrackerView {
            waiters: without_waiter(s.waiters, hash),
            pending: without_hash(s.pending, hash),
        },
        s.waiters.contains(hash),
    )
}

/// Request `id` failing: it is forgotten, and when it was the last one out for its hash the
/// caller, if still waiting, gets no grant (the hash is returned).
pub open spec fn failure_spec(s: TrackerView, id: u64) -> (TrackerView, Option<Seq<char>>) {
    let m = with_id(s.pending, id);
    if m.len() == 0 {
        (s, None)
    } else {
        let hash = m[0].1;
        let rest = without_id(s.pending, id);
        if !has_hash(rest, hash) && s.waiters.contains(hash) {
            (TrackerView { waiters: without_waiter(s.waiters, hash), pending: rest }, Some(hash))
        } else {
            (TrackerView { pending: rest, ..s }, None)
        }
    }
}

/// Which pending requests a partition picks out.
enum Selector {
    Id(u64),
    Hash(String),
    RivalsOf(String, String),
}

spec fn picks(sel: Selector, e: PendingView) -> bool {
    match sel {
        Selector::Id(id) => e.0 == id,
        Selector::Hash(h) => e.1 == h@,
        Selector::RivalsOf(h, p) => e.1 == h@ && e.2 != p@,
    }
}

fn picks_exec(sel: &Selector, g: &PendingGrant) -> (b: bool)
    ensures
        b == picks(*sel, g@),
{
    match sel {
        Selector::Id(id) => g.request_id == *id,
        Selector::Hash(h) => same_text(g.request_hash.as_str(), h.as_str()),
        Selector::RivalsOf(h, p) => same_text(g.request_hash.as_str(), h.as_str()) && !same_text(
            g.peer_id.as_str(),
            p.as_str(),
        ),
    }
}

/// Splits `v` into the requests `sel` does not pick and those it picks, keeping their order.
fn partition(v: Vec<PendingGrant>, sel: &Selector) -> (r: (Vec<PendingGrant>, Vec<PendingGrant>))
    ensures
        pending_views(r.0@) == kept_by(pending_views(v@), *sel),
        pending_views(r.1@) == taken_by(pending_views(v@), *sel),
{
    let ghost all = pending_views(v@);
    let ghost f_keep = |e: PendingView| !picks(*sel, e);
    let ghost f_take = |e: PendingView| picks(*sel, e);
    let mut kept: Vec<PendingGrant> = Vec::new();
    let mut taken: Vec<PendingGrant> = Vec::new();
    assert(all.take(0).filter(f_keep) =~= Seq::<PendingView>::empty());
    assert(all.take(0).filter(f_take) =~= Seq::<PendingView>::empty());
    assert(pending_views(kept@) =~= Seq::<PendingView>::empty());
    let ghost vv = v@;
    for g in it: v
        invariant
            it.seq() == vv,
            all == pending_views(vv),
            f_keep == (|e: PendingView| !picks(*sel, e)),
            f_take == (|e: PendingView| picks(*sel, e)),
            pending_views(kept@) == all.take(it.index() as int).filter(f_keep),
            pending_views(taken@) == all.take(it.index() as int).filter(f_take),
    {
        let ghost i = it.index();
        assert(all.take(i + 1).drop_last() =~= all.take(i as int));
        assert(all[i as int] == g@);
        reveal_with_fuel(Seq::filter, 1);
        let b = picks_exec(sel, &g);
        if b {
            let ghost old_taken = taken@;
            taken.push(g);
            assert(pending_views(taken@) =~= pending_views(old_taken).push(all[i as int]));
        } else {
            let ghost old_kept = kept@;
            kept.push(g);
            assert(pending_views(kept@) =~= pending_views(old_kept).push(all[i as int]));
        }
    }
    assert(all.take(all.len() as int) =~= all);
    proof {
        lemma_selector_filters(all, *sel);
    }
    (kept, taken)
}

proof fn lemma_id_filters(p: Seq<PendingView>, id: u64)
    ensures
        kept_by(p, Selector::Id(id)) == without_id(p, id),
        taken_by(p, Selector::Id(id)) == with_id(p, id),
    decreases p.len(),
{
    reveal_with_fuel(Seq::filter, 1);
    if p.len() > 0 {
        lemma_id_filters(p.drop_last(), id);
    }
}

spec fn kept_by(p: Seq<PendingView>, sel: Selector) -> Seq<PendingView> {
    p.filter(|e: PendingView| !picks(sel, e))
}

spec fn taken_by(p: Seq<PendingView>, sel: Selector) -> Seq<PendingView> {
    p.filter(|e: PendingView| picks(sel, e))
}

/// What each selector keeps and takes, in the terms of the bookkeeping's specification.
proof fn lemma_selector_filters(p: Seq<PendingView>, sel: Selector)
    ensures
        sel matches Selector::Id(id) ==> kept_by(p, sel) == without_id(p, id) && taken_by(p, sel)
            == with_id(p, id),
        sel matches Selector::Hash(h) ==> kept_by(p, sel) == without_hash(p, h@),
        sel matches Selector::RivalsOf(h, q) ==> kept_by(p, sel) == not_rivals(p, h@, q@)
            && taken_by(p, sel) == rivals(p, h@, q@),
{
    match sel {
        Selector::Id(id) => {
            lemma_id_filters(p, id);
        },
        Selector::Hash(h) => {
            assert((|e: PendingView| !picks(sel, e)) =~= (|e: PendingView| e.1 != h@));
        },
        Selector::RivalsOf(h, q) => {
            assert((|e: PendingView| !picks(sel, e)) =~= (|e: PendingView|
                !(e.1 == h@ && e.2 != q@)));
            assert((|e: PendingView| picks(sel, e)) =~= (|e: PendingView| e.1 == h@ && e.2 != q@));
        },
    }
}

/// The hashes of `v` other than `h`, and whether `h` was among them.
fn drop_waiter(v: Vec<String>, h: &str) -> (r: (Vec<String>, bool))
    ensures
        texts(r.0@) == without_waiter(texts(v@), h@),
        r.1 == texts(v@).contains(h@),
{
    let ghost all = texts(v@);
    let ghost f = |x: Seq<char>| x != h@;
    let mut kept: Vec<String> = Vec::new();
    let mut found = false;
    assert(all.take(0).filter(f) =~= Seq::<Seq<char>>::empty());
    assert(texts(kept@) =~= Seq::<Seq<char>>::empty());
    let ghost vv = v@;
    for x in it: v
        invariant
            it.seq() == vv,
            all == texts(vv),
            f == (|x: Seq<char>| x != h@),
            texts(kept@) == all.take(it.index() as int).filter(f),
            found == all.take(it.index() as int).contains(h@),
    {
        let ghost i = it.index();
        assert(all.take(i + 1).drop_last() =~= all.take(i as int));
        assert(all[i as int] == x@);
        assert(all.take(i + 1) =~= all.take(i as int).push(x@));
        reveal_with_fuel(Seq::filter, 1);
        let same = same_text(x.as_str(), h);
        if same {
            found = true;
            assert(all.take(i + 1)[i as int] == h@);
        } else {
            let ghost old_kept = kept@;
            kept.push(x);
            assert(texts(kept@) =~= texts(old_kept).push(all[i as int]));
            assert(all.take(i + 1).contains(h@) ==> all.take(i as int).contains(h@)) by {
                if all.take(i + 1).contains(h@) {
                    let k = choose|k: int| 0 <= k < i + 1 && #[trigger] all.take(i + 1)[k] == h@;
                    assert(k != i);
                    assert(all.take(i as int)[k] == h@);
                }
            }
        }
        assert(all.take(i as int).contains(h@) ==> all.take(i + 1).contains(h@)) by {
            if all.take(i as int).contains(h@) {
                let k = choose|k: int| 0 <= k < i && #[trigger] all.take(i as int)[k] == h@;
                assert(all.take(i + 1)[k] == h@);
            }
        }
    }
    assert(all.take(all.len() as int) =~= all);
    (kept, found)
}

impl GrantTracker {
    pub fn new() -> (t: GrantTracker)
        ensures
            t@.waiters == Seq::<Seq<char>>::empty(),
            t@.pending == Seq::<PendingView>::empty(),
    {
        let t = GrantTracker { waiters: Vec::new(), outbound: Vec::new() };
        assert(texts(t.waiters@) =~= Seq::<Seq<char>>::empty());
        assert(pending_views(t.outbound@) =~= Seq::<PendingView>::empty());
        t
    }

    /// Whether a caller awaits a decision for `hash`.
    pub fn is_waiting(&self, hash: &str) -> (b: bool)
        ensures
            b == self@.waiters.contains(hash@),
    {
        let mut i: usize = 0;
        while i < self.waiters.len()
            invariant
                i <= self.waiters@.len(),
                forall|k: int| 0 <= k < i ==> self@.waiters[k] != hash@,
            decreases self.waiters.len() - i,
        {
            if same_text(self.waiters[i].as_str(), hash) {
                assert(self@.waiters[i as int] == hash@);
                return true;
            }
            i = i + 1;
        }
        false
    }

    /// Records that the caller for `hash` awaits a decision; returns whether one already did
    /// (the newer caller takes its place).
    pub fn await_grant(&mut self, hash: String) -> (already: bool)
        ensures
            already == old(self)@.waiters.contains(hash@),
            final(self)@ == await_spec(old(self)@, hash@),
    {
        let already = self.is_waiting(hash.as_str());
        if !already {
            let ghost w = self.waiters@;
            self.waiters.push(hash);
            assert(texts(self.waiters@) =~= texts(w).push(self.waiters@.last()@));
        }
        already
    }

    /// Starts asking peers to grant `hash`: without the circle key nothing is asked and the
    /// caller is answered with no grant at once (`None`); otherwise the caller now waits, and
    /// `Some(replaced)` says whether it took the place of an earlier caller for the same hash
    /// (who is answered with no grant).
    pub fn begin_grant(&mut self, circle_key_present: bool, hash: String) -> (r: Option<bool>)
        ensures
            !circle_key_present ==> r is None && final(self)@ == old(self)@,
            circle_key_present ==> r == Some(old(self)@.waiters.contains(hash@)) && final(self)@
                == await_spec(old(self)@, hash@),
    {
        if !circle_key_present {
            return None;
        }
        Some(self.await_grant(hash))
    }

    /// Records grant request `request_id` for `hash`, sent to `peer_id`.
    pub fn record_sent(&mut self, request_id: u64, hash: String, peer_id: String)
        ensures
            final(self)@ == sent_spec(old(self)@, request_id, hash@, peer_id@),
    {
        let mut outbound = Vec::new();
        std::mem::swap(&mut outbound, &mut self.outbound);
        let (mut kept, _) = partition(outbound, &Selector::Id(request_id));
        proof {
            lemma_id_filters(old(self)@.pending, request_id);
        }
        let ghost k = kept@;
        let g = PendingGrant { request_id, request_hash: hash, peer_id };
        kept.push(g);
        assert(pending_views(kept@) =~= pending_views(k).push(kept@.last()@));
        self.outbound = kept;
        assert(self@.waiters == old(self)@.waiters);
    }

    /// Takes the answer to grant request `request_id`; `granted` says it is a grant.
    pub fn answer(&mut self, request_id: u64, granted: bool, reason: Option<String>) -> (out:
        GrantOutcome)
        ensures
            ({
                let (s, d, c) = answer_spec(old(self)@, request_id, granted, opt_chars(reason));
                &&& final(self)@ == s
                &&& pending_views(out.cancel@) == c
                &&& match out.decided {
                    Some((h, dec)) => d == Some((h@, dec.peer_id@, opt_chars(dec.reason))),
                    None => d is None,
                }
            }),
    {
        let mut outbound = Vec::new();
        std::mem::swap(&mut outbound, &mut self.outbound);
        let (rest, hit) = partition(outbound, &Selector::Id(request_id));
        proof {
            lemma_id_filters(old(self)@.pending, request_id);
        }
        if hit.len() == 0 {
            proof {
                lemma_without_absent_id(old(self)@.pending, request_id);
            }
            self.outbound = rest;
            let out = GrantOutcome { decided: None, cancel: Vec::new() };
            assert(pending_views(out.cancel@) =~= Seq::<PendingView>::empty());
            return out;
        }
        let hash = hit[0].request_hash.clone();
        let peer = hit[0].peer_id.clone();
        assert(hash@ == pending_views(hit@)[0].1);
        assert(peer@ == pending_views(hit@)[0].2);
        if !granted {
            self.outbound = rest;
            let out = GrantOutcome { decided: None, cancel: Vec::new() };
            assert(pending_views(out.cancel@) =~= Seq::<PendingView>::empty());
            return out;
        }
        let mut waiters = Vec::new();
        std::mem::swap(&mut waiters, &mut self.waiters);
        let (kept_waiters, was_waiting) = drop_waiter(waiters, hash.as_str());
        self.waiters = kept_waiters;
        let sel = Selector::RivalsOf(hash.clone(), peer.clone());
        let (remaining, cancel) = partition(rest, &sel);
        proof {
            lemma_selector_filters(without_id(old(self)@.pending, request_id), sel);
        }
        self.outbound = remaining;
        let decided = if was_waiting {
            Some((hash, GrantDecision { peer_id: peer, reason }))
        } else {
            None
        };
        GrantOutcome { decided, cancel }
    }

    /// Closes the grant window for `hash`; returns whether a caller was still waiting (it
    /// gets no grant).
    pub fn time_out(&mut self, hash: &str) -> (was_waiting: bool)
        ensures
            (final(self)@, was_waiting) == timeout_spec(old(self)@, hash@),
    {
        let mut waiters = Vec::new();
        std::mem::swap(&mut waiters, &mut self.waiters);
        let (kept_waiters, was_waiting) = drop_waiter(waiters, hash);
        self.waiters = kept_waiters;
        let mut outbound = Vec::new();
        std::mem::swap(&mut outbound, &mut self.outbound);
        let sel = Selector::Hash(crate::text::owned(hash));
        let (rest, _) = partition(outbound, &sel);
        proof {
            lemma_selector_filters(old(self)@.pending, sel);
        }
        self.outbound = rest;
        was_waiting
    }

    /// Takes the failure of grant request `request_id`; returns the hash whose waiting caller
    /// gets no grant, when that request was the last one out for it.
    pub fn fail(&mut self, request_id: u64) -> (r: Option<String>)
        ensures
            ({
                let (s, h) = failure_spec(old(self)@, request_id);
                &&& final(self)@ == s
                &&& opt_chars(r) == h
            }),
    {
        let mut outbound = Vec::new();
        std::mem::swap(&mut outbound, &mut self.outbound);
        let (rest, hit) = partition(outbound, &Selector::Id(request_id));
        proof {
            lemma_id_filters(old(self)@.pending, request_id);
        }
        if hit.len() == 0 {
            proof {
                lemma_without_absent_id(old(self)@.pending, request_id);
            }
            self.outbound = rest;
            return None;
        }
        let hash = hit[0].request_hash.clone();
        assert(hash@ == pending_views(hit@)[0].1);
        let others = any_with_hash(&rest, hash.as_str());
        self.outbound = rest;
        if others {
            return None;
        }
        let mut waiters = Vec::new();
        std::mem::swap(&mut waiters, &mut self.waiters);
        let (kept_waiters, was_waiting) = drop_waiter(waiters, hash.as_str());
        if !was_waiting {
            proof {
                lemma_without_absent_waiter(old(self)@.waiters, hash@);
            }
        }
        self.waiters = kept_waiters;
        if was_waiting {
            Some(hash)
        } else {
            None
        }
    }
}

/// Whether some request in `v` is for `h`.
fn any_with_hash(v: &Vec<PendingGrant>, h: &str) -> (b: bool)
    ensures
        b == has_hash(pending_views(v@), h@),
{
    let ghost p = pending_views(v@);
    let mut i: usize = 0;
    while i < v.len()
        invariant
            i <= v@.len(),
            p == pending_views(v@),
            forall|k: int| 0 <= k < i ==> p[k].1 != h@,
        decreases v.len() - i,
    {
        if same_text(v[i].request_hash.as_str(), h) {
            assert(p[i as int].1 == h@);
            return true;
        }
        i = i + 1;
    }
    false
}

/// Without an entry for request `id`, dropping that id changes nothing.
proof fn lemma_without_absent_id(p: Seq<PendingView>, id: u64)
    requires
        with_id(p, id).len() == 0,
    ensures
        without_id(p, id) == p,
    decreases p.len(),
{
    reveal_with_fuel(Seq::filter, 1);
    if p.len() > 0 {
        lemma_without_absent_id(p.drop_last(), id);
        assert(p.drop_last().push(p.last()) =~= p);
    } else {
        assert(without_id(p, id) =~= p);
    }
}

/// Dropping a hash that is not waiting changes nothing.
proof fn lemma_without_absent_waiter(w: Seq<Seq<char>>, hash: Seq<char>)
    requires
        !w.contains(hash),
    ensures
        without_waiter(w, hash) == w,
    decreases w.len(),
{
    reveal_with_fuel(Seq::filter, 1);
    if w.len() > 0 {
        assert(!w.drop_last().contains(hash)) by {
            if w.drop_last().contains(hash) {
                let k = choose|k: int| 0 <= k < w.drop_last().len() && #[trigger] w.drop_last()[k]
                    == hash;
                assert(w[k] == hash);
            }
        }
        lemma_without_absent_waiter(w.drop_last(), hash);
        assert(w.last() != hash) by {
            if w.last() == hash {
                assert(w[w.len() - 1] == hash);
            }
        }
        assert(w.drop_last().push(w.last()) =~= w);
    } else {
        assert(without_waiter(w, hash) =~= w);
    }
}

/// No entry for request `id` remains once that id is dropped.
proof fn lemma_with_id_absent(p: Seq<PendingView>, id: u64)
    requires
        forall|k: int| 0 <= k < p.len() ==> (#[trigger] p[k]).0 != id,
    ensures
        with_id(p, id).len() == 0,
    decreases p.len(),
{
    reveal_with_fuel(Seq::filter, 1);
    if p.len() > 0 {
        assert forall|k: int| 0 <= k < p.drop_last().len() implies (
        #[trigger] p.drop_last()[k]).0 != id by {
            assert(p.drop_last()[k] == p[k]);
        }
        lemma_with_id_absent(p.drop_last(), id);
        assert(p[p.len() - 1].0 != id);
    }
}

/// The answer to a request just recorded for a waiting caller's hash is that request: a
/// grant decides the hash for the peer the request went to, with the peer's reason.
pub proof fn lemma_grant_names_the_asked_peer(
    s: TrackerView,
    id: u64,
    hash: Seq<char>,
    peer: Seq<char>,
    reason: Option<Seq<char>>,
)
    requires
        s.waiters.contains(hash),
    ensures
        answer_spec(sent_spec(s, id, hash, peer), id, true, reason).1 == Some(
            (hash, peer, reason),
        ),
{
    broadcast use vstd::seq_lib::group_filter_ensures;

    let q = without_id(s.pending, id);
    assert forall|k: int| 0 <= k < q.len() implies (#[trigger] q[k]).0 != id by {
        assert((|e: PendingView| e.0 != id)(q[k]));
    }
    lemma_with_id_absent(q, id);
    let e: PendingView = (id, hash, peer);
    reveal_with_fuel(Seq::filter, 1);
    assert(q.push(e).drop_last() =~= q);
    assert(with_id(q.push(e), id) =~= seq![e]);
}

/// Once a grant has decided a request hash, its caller no longer waits: no later answer
/// decides that hash again, and its window closing finds nobody waiting.
pub proof fn lemma_grant_decides_once(
    s: TrackerView,
    id: u64,
    reason: Option<Seq<char>>,
    later_id: u64,
    later_granted: bool,
    later_reason: Option<Seq<char>>,
)
    requires
        answer_spec(s, id, true, reason).1 is Some,
    ensures
        ({
            let (s1, d1, _) = answer_spec(s, id, true, reason);
            let hash = (d1->0).0;
            &&& !s1.waiters.contains(hash)
            &&& match answer_spec(s1, later_id, later_granted, later_reason).1 {
                Some(d2) => d2.0 != hash,
                None => true,
            }
            &&& !timeout_spec(s1, hash).1
        }),
{
    broadcast use vstd::seq_lib::group_filter_ensures;

    let (s1, d1, _) = answer_spec(s, id, true, reason);
    let hash = (d1->0).0;
    let w = s1.waiters;
    assert(w == without_waiter(s.waiters, hash));
    if w.contains(hash) {
        let k = choose|k: int| 0 <= k < w.len() && #[trigger] w[k] == hash;
        assert((|x: Seq<char>| x != hash)(w[k]));
    }
}

/// After a grant from `peer` for a hash, no request for that hash to another peer is still
/// pending: each went out in the cancel list.
pub proof fn lemma_grant_cancels_rivals(
    s: TrackerView,
    id: u64,
    reason: Option<Seq<char>>,
)
    requires
        with_id(s.pending, id).len() > 0,
    ensures
        ({
            let m = with_id(s.pending, id);
            let (hash, peer) = (m[0].1, m[0].2);
            let (s1, _, cancel) = answer_spec(s, id, true, reason);
            &&& forall|k: int| 0 <= k < s1.pending.len() && (#[trigger] s1.pending[k]).1 == hash
                ==> s1.pending[k].2 == peer
            &&& forall|k: int| 0 <= k < cancel.len() ==> (#[trigger] cancel[k]).1 == hash
                && cancel[k].2 != peer
            &&& forall|k: int| 0 <= k < s1.pending.len() ==> (#[trigger] s1.pending[k]).0 != id
        }),
{
    broadcast use vstd::seq_lib::group_filter_ensures;

    broadcast use vstd::seq::Seq::lemma_filter_contains_rev;

    let m = with_id(s.pending, id);
    let (hash, peer) = (m[0].1, m[0].2);
    let rest = without_id(s.pending, id);
    let (s1, _, cancel) = answer_spec(s, id, true, reason);
    assert forall|k: int| 0 <= k < s1.pending.len() && (#[trigger] s1.pending[k]).1 == hash
        implies s1.pending[k].2 == peer && s1.pending[k].0 != id by {
        assert((|e: PendingView| !(e.1 == hash && e.2 != peer))(s1.pending[k]));
        assert(s1.pending.contains(s1.pending[k]));
        assert(rest.contains(s1.pending[k]));
        let j = choose|j: int| 0 <= j < rest.len() && #[trigger] rest[j] == s1.pending[k];
        assert((|e: PendingView| e.0 != id)(rest[j]));
    }
    assert forall|k: int| 0 <= k < s1.pending.len() implies (#[trigger] s1.pending[k]).0 != id by {
        assert(s1.pending.contains(s1.pending[k]));
        assert(rest.contains(s1.pending[k]));
        let j = choose|j: int| 0 <= j < rest.len() && #[trigger] rest[j] == s1.pending[k];
        assert((|e: PendingView| e.0 != id)(rest[j]));
    }
    assert forall|k: int| 0 <= k < cancel.len() implies (#[trigger] cancel[k]).1 == hash
        && cancel[k].2 != peer by {
        assert((|e: PendingView| e.1 == hash && e.2 != peer)(cancel[k]));
    }
}

/// When the grant window for a hash closes, nobody waits for it and no request for it is
/// pending.
pub proof fn lemma_timeout_clears(s: TrackerView, hash: Seq<char>)
    ensures
        !timeout_spec(s, hash).0.waiters.contains(hash),
        !has_hash(timeout_spec(s, hash).0.pending, hash),
{
    broadcast use vstd::seq_lib::group_filter_ensures;

    let s1 = timeout_spec(s, hash).0;
    if s1.waiters.contains(hash) {
        let k = choose|k: int| 0 <= k < s1.waiters.len() && #[trigger] s1.waiters[k] == hash;
        assert((|x: Seq<char>| x != hash)(s1.waiters[k]));
    }
    if has_hash(s1.pending, hash) {
        let k = choose|k: int| 0 <= k < s1.pending.len() && (#[trigger] s1.pending[k]).1 == hash;
        assert((|e: PendingView| e.1 != hash)(s1.pending[k]));
    }
}

/// A failed request is forgotten, and its hash's waiting caller is released exactly when no
/// other request for that hash is still out.
pub proof fn lemma_failure_releases_last(s: TrackerView, id: u64)
    requires
        with_id(s.pending, id).len() > 0,
    ensures
        ({
            let hash = with_id(s.pending, id)[0].1;
            let (s1, released) = failure_spec(s, id);
            &&& forall|k: int| 0 <= k < s1.pending.len() ==> (#[trigger] s1.pending[k]).0 != id
            &&& (released == Some(hash)) == (s.waiters.contains(hash) && !has_hash(s1.pending, hash))
            &&& released is Some ==> !s1.waiters.contains(hash)
        }),
{
    broadcast use vstd::seq_lib::group_filter_ensures;

    let hash = with_id(s.pending, id)[0].1;
    let (s1, released) = failure_spec(s, id);
    assert(s1.pending == without_id(s.pending, id));
    assert((|e: PendingView| e.0 != id) =~= (|e: PendingView| e.0 != id));
    assert forall|k: int| 0 <= k < s1.pending.len() implies (#[trigger] s1.pending[k]).0 != id by {
        assert((|e: PendingView| e.0 != id)(s1.pending[k]));
    }
    if released is Some && s1.waiters.contains(hash) {
        let k = choose|k: int| 0 <= k < s1.waiters.len() && #[trigger] s1.waiters[k] == hash;
        assert((|x: Seq<char>| x != hash)(s1.waiters[k]));
    }
}

proof fn lemma_id_of_other_kept(p: Seq<PendingView>, id1: u64, id2: u64)
    requires
        id1 != id2,
    ensures
        with_id(without_id(p, id1), id2) == with_id(p, id2),
    decreases p.len(),
{
    reveal_with_fuel(Seq::filter, 1);
    if p.len() > 0 {
        lemma_id_of_other_kept(p.drop_last(), id1, id2);
        let q = without_id(p.drop_last(), id1);
        if p.last().0 != id1 {
            assert(q.push(p.last()).drop_last() =~= q);
        }
    }
}

/// A refusal of request `id` forgets that request and nothing else: every other request
/// stays pending, in order, including those sent to other peers for the same hash; the
/// waiting callers stay as they were, nobody gets a decision and nothing is cancelled.
pub proof fn lemma_refusal_forgets_only_that_request(s: TrackerView, id: u64, reason: Option<Seq<char>>)
    ensures
        answer_spec(s, id, false, reason).0.waiters == s.waiters,
        answer_spec(s, id, false, reason).0.pending == without_id(s.pending, id),
        answer_spec(s, id, false, reason).1 is None,
        answer_spec(s, id, false, reason).2.len() == 0,
{
    if with_id(s.pending, id).len() == 0 {
        lemma_without_absent_id(s.pending, id);
    }
}

/// After one peer refuses, a grant from another peer asked for the same hash still decides
/// that hash, for the granting peer, while its caller waits.
pub proof fn lemma_refusal_leaves_other_grants(
    s: TrackerView,
    refused: u64,
    why: Option<Seq<char>>,
    granted: u64,
    reason: Option<Seq<char>>,
)
    requires
        refused != granted,
        with_id(s.pending, refused).len() > 0,
        with_id(s.pending, granted).len() > 0,
        with_id(s.pending, granted)[0].1 == with_id(s.pending, refused)[0].1,
        s.waiters.contains(with_id(s.pending, refused)[0].1),
    ensures
        ({
            let s1 = answer_spec(s, refused, false, why).0;
            answer_spec(s1, granted, true, reason).1 == Some(
                (with_id(s.pending, refused)[0].1, with_id(s.pending, granted)[0].2, reason),
            )
        }),
{
    lemma_id_of_other_kept(s.pending, refused, granted);
}

} // verus!
