use vstd::prelude::*;

use crate::numbers::{i64_text, int_text};
use crate::records::LedgerGossipRecord;
use crate::text::{append_str, owned, same_text};
use crate::tracker::opt_chars;
use crate::wire::{
    base_wire, is_bare, token_request_check, validate_signed_token_request, ProxyRelayRequest,
    ProxyRelayResponse, SignatureError, TokenWireMessage,
};

verus! {

broadcast use vstd::string::group_string_axioms;

/// The kinds of request a node answers.
#[derive(PartialEq, Eq, Structural, Debug, Clone, Copy)]
pub enum InboundKind {
    CircleKeyRequest,
    AvailabilityUpdate,
    LedgerSyncRequest,
    TokenRequest,
    CancelRequest,
    ProxyCall,
    LeaveCircle,
    Unsupported,
}

/// The kind of a request, by its type field.
pub open spec fn kind_of(msg_type: Seq<char>) -> InboundKind {
    if msg_type == "circle_key_request"@ {
        InboundKind::CircleKeyRequest
    } else if msg_type == "availability_update"@ {
        InboundKind::AvailabilityUpdate
    } else if msg_type == "ledger_sync_request"@ {
        InboundKind::LedgerSyncRequest
    } else if msg_type == "token_request"@ {
        InboundKind::TokenRequest
    } else if msg_type == "cancel_request"@ {
        InboundKind::CancelRequest
    } else if msg_type == "proxy_call"@ {
        InboundKind::ProxyCall
    } else if msg_type == "leave_circle"@ {
        InboundKind::LeaveCircle
    } else {
        InboundKind::Unsupported
    }
}

/// The kind of a request.
pub fn inbound_kind(msg_type: &str) -> (k: InboundKind)
    ensures
        k == kind_of(msg_type@),
{
    if same_text(msg_type, "circle_key_request") {
        InboundKind::CircleKeyRequest
    } else if same_text(msg_type, "availability_update") {
        InboundKind::AvailabilityUpdate
    } else if same_text(msg_type, "ledger_sync_request") {
        InboundKind::LedgerSyncRequest
    } else if same_text(msg_type, "token_request") {
        InboundKind::TokenRequest
    } else if same_text(msg_type, "cancel_request") {
        InboundKind::CancelRequest
    } else if same_text(msg_type, "proxy_call") {
        InboundKind::ProxyCall
    } else if same_text(msg_type, "leave_circle") {
        InboundKind::LeaveCircle
    } else {
        InboundKind::Unsupported
    }
}

/// Why a request cannot be answered at all.
#[derive(PartialEq, Eq, Structural, Debug, Clone, Copy)]
pub enum InboundError {
    MissingCircleKeyRecipient,
    MissingProxyPayload,
}

impl InboundError {
    /// The message the failure is reported with.
    pub open spec fn text(self) -> Seq<char> {
        match self {
            InboundError::MissingCircleKeyRecipient => "missing circle key recipient"@,
            InboundError::MissingProxyPayload => "proxy_call missing payload"@,
        }
    }

    /// The message the failure is reported with.
    pub fn message(&self) -> (s: String)
        ensures
            s@ == self.text(),
    {
        match self {
            InboundError::MissingCircleKeyRecipient => owned("missing circle key recipient"),
            InboundError::MissingProxyPayload => owned("proxy_call missing payload"),
        }
    }
}

/// `m` answers with type `msg_type` from `local`, echoing `hash`, with `granted`, `reason`
/// and nothing else.
pub open spec fn plain_answer(
    m: TokenWireMessage,
    local: Seq<char>,
    hash: Option<Seq<char>>,
    msg_type: Seq<char>,
    granted: bool,
    reason: Option<Seq<char>>,
) -> bool {
    &&& m.msg_type@ == msg_type
    &&& m.requester_id@ == local
    &&& opt_chars(m.request_hash) == hash
    &&& m.granted == Some(granted)
    &&& opt_chars(m.reason) == reason
    &&& is_bare(TokenWireMessage { granted: None, reason: None, ..m })
}

/// The answer with type `msg_type`, `granted`, and `reason` where one is given.
fn answer(local: &str, hash: &Option<String>, msg_type: &str, granted: bool, reason: Option<&str>) -> (m:
    TokenWireMessage)
    ensures
        plain_answer(m, local@, opt_chars(*hash), msg_type@, granted, match reason {
            Some(r) => Some(r@),
            None => None,
        }),
{
    let base = base_wire(owned(local), crate::proxy::clone_opt(hash), msg_type);
    match reason {
        Some(r) => base.with_granted(granted).with_reason(r),
        None => base.with_granted(granted),
    }
}

/// The recipient a circle key request names.
pub fn circle_key_recipient(request: &TokenWireMessage) -> (r: Result<String, InboundError>)
    ensures
        match request.circle_key_recipient {
            Some(p) => r matches Ok(q) && q@ == p@,
            None => r == Err::<String, InboundError>(InboundError::MissingCircleKeyRecipient),
        },
{
    match &request.circle_key_recipient {
        Some(p) => Ok(p.clone()),
        None => Err(InboundError::MissingCircleKeyRecipient),
    }
}

/// The answer sharing the circle key, sealed to the requester's recipient.
pub fn circle_key_share(local: &str, request: &TokenWireMessage, boxed: String) -> (m: TokenWireMessage)
    ensures
        m.msg_type@ == "circle_key_share"@,
        m.requester_id@ == local@,
        opt_chars(m.request_hash) == opt_chars(request.request_hash),
        m.granted == Some(true),
        opt_chars(m.reason) == Some("circle key shared"@),
        opt_chars(m.circle_key_box) == Some(boxed@),
        is_bare(TokenWireMessage { granted: None, reason: None, circle_key_box: None, ..m }),
{
    let base = answer(local, &request.request_hash, "circle_key_share", true, Some("circle key shared"));
    base.with_circle_key_box(Some(boxed))
}

/// The availability state a peer reports, `unknown` where it reports none.
pub fn reported_availability(request: &TokenWireMessage) -> (s: String)
    ensures
        s@ == match request.availability_state {
            Some(a) => a@,
            None => "unknown"@,
        },
{
    match &request.availability_state {
        Some(a) => a.clone(),
        None => owned("unknown"),
    }
}

/// The acknowledgement of an availability update.
pub fn availability_ack(local: &str, request: &TokenWireMessage) -> (m: TokenWireMessage)
    ensures
        plain_answer(m, local@, opt_chars(request.request_hash), "ack"@, true, None),
{
    answer(local, &request.request_hash, "ack", true, None)
}

/// The answer to a ledger sync request, carrying the entries newer than its cursor.
pub fn ledger_sync_response(local: &str, request: &TokenWireMessage, entries: Vec<LedgerGossipRecord>) -> (m:
    TokenWireMessage)
    ensures
        m.msg_type@ == "ledger_sync_response"@,
        m.requester_id@ == local@,
        opt_chars(m.request_hash) == opt_chars(request.request_hash),
        m.granted == Some(true),
        m.ledger_entries == Some(entries),
        is_bare(TokenWireMessage { granted: None, ledger_entries: None, ..m }),
{
    answer(local, &request.request_hash, "ledger_sync_response", true, None).with_ledger_entries(
        Some(entries),
    )
}

/// The acknowledgement of a withdrawn grant request: reason `cancelled`.
pub fn cancel_ack(local: &str, request: &TokenWireMessage) -> (m: TokenWireMessage)
    ensures
        plain_answer(m, local@, opt_chars(request.request_hash), "ack"@, true, Some("cancelled"@)),
{
    answer(local, &request.request_hash, "ack", true, Some("cancelled"))
}

/// The payload of a proxy call.
pub fn proxy_payload(request: TokenWireMessage) -> (r: Result<ProxyRelayRequest, InboundError>)
    ensures
        match request.proxy_request {
            Some(p) => r == Ok::<ProxyRelayRequest, InboundError>(p),
            None => r == Err::<ProxyRelayRequest, InboundError>(InboundError::MissingProxyPayload),
        },
{
    match request.proxy_request {
        Some(p) => Ok(p),
        None => Err(InboundError::MissingProxyPayload),
    }
}

/// The answer to a proxy call: granted exactly when the relayed response carries no error,
/// with that error as reason, and the response itself.
pub fn proxy_result(local: &str, request_hash: &Option<String>, res: ProxyRelayResponse) -> (m:
    TokenWireMessage)
    ensures
        m.msg_type@ == "proxy_result"@,
        m.requester_id@ == local@,
        opt_chars(m.request_hash) == opt_chars(*request_hash),
        m.granted == Some(res.error is None),
        opt_chars(m.reason) == opt_chars(res.error),
        m.proxy_response == Some(res),
        is_bare(TokenWireMessage { granted: None, reason: None, proxy_response: None, ..m }),
{
    let granted = res.error.is_none();
    let reason = crate::proxy::clone_opt(&res.error);
    base_wire(owned(local), crate::proxy::clone_opt(request_hash), "proxy_result").with_granted(
        granted,
    ).with_reason_opt(reason).with_proxy_response(Some(res))
}

/// The acknowledgement of a peer leaving the circle: reason `peer removed`.
pub fn leave_ack(local: &str, request: &TokenWireMessage) -> (m: TokenWireMessage)
    ensures
        plain_answer(m, local@, opt_chars(request.request_hash), "ack"@, true, Some("peer removed"@)),
{
    answer(local, &request.request_hash, "ack", true, Some("peer removed"))
}

/// The answer to a request of a kind this node does not serve.
pub fn unsupported_reply(local: &str, request: &TokenWireMessage) -> (m: TokenWireMessage)
    ensures
        plain_answer(
            m,
            local@,
            opt_chars(request.request_hash),
            "ack"@,
            false,
            Some("unsupported message"@),
        ),
{
    answer(local, &request.request_hash, "ack", false, Some("unsupported message"))
}

/// A security event to record: its kind and what happened.
pub struct SecurityNote {
    pub kind: String,
    pub detail: String,
}

/// The note recorded when a peer leaves: `peer <peer> left circle`.
pub fn peer_left_note(peer: &str) -> (n: SecurityNote)
    ensures
        n.kind@ == "peer_left_circle"@,
        n.detail@ == "peer "@ + peer@ + " left circle"@,
{
    let mut d = owned("peer ");
    append_str(&mut d, peer);
    append_str(&mut d, " left circle");
    SecurityNote { kind: owned("peer_left_circle"), detail: d }
}

/// `m` answers a token request from `local`: a `token_grant` echoing the request's hash, with
/// `amount`, `granted` and `reason`, and nothing else.
pub open spec fn grant_answer(
    m: TokenWireMessage,
    local: Seq<char>,
    request: TokenWireMessage,
    amount: Option<i64>,
    granted: bool,
    reason: Seq<char>,
) -> bool {
    &&& m.msg_type@ == "token_grant"@
    &&& m.requester_id@ == local
    &&& opt_chars(m.request_hash) == opt_chars(request.request_hash)
    &&& m.amount == amount
    &&& m.granted == Some(granted)
    &&& opt_chars(m.reason) == Some(reason)
    &&& is_bare(TokenWireMessage { amount: None, granted: None, reason: None, ..m })
}

fn grant_answer_for(local: &str, request: &TokenWireMessage, amount: Option<i64>, granted: bool, reason: &str) -> (m:
    TokenWireMessage)
    ensures
        grant_answer(m, local@, *request, amount, granted, reason@),
{
    base_wire(owned(local), crate::proxy::clone_opt(&request.request_hash), "token_grant").with_amount(
        amount,
    ).with_granted(granted).with_reason(reason)
}

/// What to do next with a token request.
pub enum TokenStep {
    /// Answer with a refusal and record the security event.
    Refuse { reply: TokenWireMessage, event: SecurityNote },
    /// Ask the nonce store whether this nonce and timestamp are fresh (and remember them).
    CheckNonce { nonce: String, ts: i64 },
    /// Count the request against the peer's per-minute limit.
    CheckRateLimit,
    /// Ask whether `amount` tokens can be lent.
    CheckLending { amount: i64 },
    /// Answer with this decision.
    Answer(TokenWireMessage),
}

/// The next step for a token request from connection peer `peer`, given the checks made so
/// far: `fresh` is the nonce store's verdict, `rate` the rate limiter's (allowed, count,
/// limit), `lending` the lending verdict and reason. The checks come in this order, each only
/// once the ones before pass: the signature (refused as `invalid signature`), the nonce
/// (`replay/timestamp rejected`), the rate (`rate limit exceeded`), then lending, whose
/// verdict and reason are the answer, for the requested amount or a thousand tokens.
pub open spec fn token_step_ok(
    local: Seq<char>,
    peer: Seq<char>,
    request: TokenWireMessage,
    fresh: Option<bool>,
    rate: Option<(bool, i64, i64)>,
    lending: Option<(bool, Seq<char>)>,
    r: TokenStep,
) -> bool {
    let nonce = match request.request_nonce {
        Some(n) => n@,
        None => Seq::empty(),
    };
    match token_request_check(request, peer) {
        Err(e) => r matches TokenStep::Refuse { reply, event } && grant_answer(
            reply,
            local,
            request,
            request.amount,
            false,
            "invalid signature"@,
        ) && event.kind@ == "signature_rejected"@ && event.detail@ == peer + ": "@ + e.text(),
        Ok(()) => match fresh {
            None => r matches TokenStep::CheckNonce { nonce: n, ts } && n@ == nonce && ts == match request.request_ts {
                Some(t) => t,
                None => 0,
            },
            Some(false) => r matches TokenStep::Refuse { reply, event } && grant_answer(
                reply,
                local,
                request,
                request.amount,
                false,
                "replay/timestamp rejected"@,
            ) && event.kind@ == "replay_rejected"@ && event.detail@ == peer + " nonce="@ + nonce,
            Some(true) => match rate {
                None => r is CheckRateLimit,
                Some((false, count, limit)) => r matches TokenStep::Refuse { reply, event }
                    && grant_answer(reply, local, request, request.amount, false, "rate limit exceeded"@)
                    && event.kind@ == "rate_limited"@ && event.detail@ == "peer "@ + peer
                    + " exceeded limit "@ + int_text(limit as int) + "/min with "@ + int_text(count as int),
                Some((true, _, _)) => {
                    let amount = match request.amount {
                        Some(a) => a,
                        None => 1000,
                    };
                    match lending {
                        None => r matches TokenStep::CheckLending { amount: a } && a == amount,
                        Some((can, reason)) => r matches TokenStep::Answer(reply) && grant_answer(
                            reply,
                            local,
                            request,
                            Some(amount),
                            can,
                            reason,
                        ),
                    }
                },
            },
        },
    }
}

/// Decides the next step for a token request.
pub fn token_request_step(
    local: &str,
    peer: &str,
    request: &TokenWireMessage,
    fresh: Option<bool>,
    rate: Option<(bool, i64, i64)>,
    lending: &Option<(bool, String)>,
) -> (r: TokenStep)
    ensures
        token_step_ok(local@, peer@, *request, fresh, rate, match lending {
            Some((b, reason)) => Some((*b, reason@)),
            None => None,
        }, r),
{
    if let Err(e) = validate_signed_token_request(request, peer) {
        let mut detail = owned(peer);
        append_str(&mut detail, ": ");
        let m = e.message();
        append_str(&mut detail, m.as_str());
        return TokenStep::Refuse {
            reply: grant_answer_for(local, request, request.amount, false, "invalid signature"),
            event: SecurityNote { kind: owned("signature_rejected"), detail },
        };
    }
    let nonce = match &request.request_nonce {
        Some(n) => n.clone(),
        None => String::new(),
    };
    match fresh {
        None => {
            let ts = match request.request_ts {
                Some(t) => t,
                None => 0,
            };
            return TokenStep::CheckNonce { nonce, ts };
        },
        Some(false) => {
            let mut detail = owned(peer);
            append_str(&mut detail, " nonce=");
            append_str(&mut detail, nonce.as_str());
            return TokenStep::Refuse {
                reply: grant_answer_for(
                    local,
                    request,
                    request.amount,
                    false,
                    "replay/timestamp rejected",
                ),
                event: SecurityNote { kind: owned("replay_rejected"), detail },
            };
        },
        Some(true) => {},
    }
    match rate {
        None => {
            return TokenStep::CheckRateLimit;
        },
        Some((false, count, limit)) => {
            let mut detail = owned("peer ");
            append_str(&mut detail, peer);
            append_str(&mut detail, " exceeded limit ");
            let l = i64_text(limit);
            append_str(&mut detail, l.as_str());
            append_str(&mut detail, "/min with ");
            let c = i64_text(count);
            append_str(&mut detail, c.as_str());
            return TokenStep::Refuse {
                reply: grant_answer_for(local, request, request.amount, false, "rate limit exceeded"),
                event: SecurityNote { kind: owned("rate_limited"), detail },
            };
        },
        Some((true, _, _)) => {},
    }
    let amount = match request.amount {
        Some(a) => a,
        None => 1000,
    };
    match lending {
        None => TokenStep::CheckLending { amount },
        Some((can, reason)) => TokenStep::Answer(
            grant_answer_for(local, request, Some(amount), *can, reason.as_str()),
        ),
    }
}

/// A token request whose signature fails is refused before any other check is made: no nonce
/// is spent, nothing is counted against the peer, and nothing is lent.
pub proof fn lemma_bad_signature_refused_first(
    local: Seq<char>,
    peer: Seq<char>,
    request: TokenWireMessage,
    fresh: Option<bool>,
    rate: Option<(bool, i64, i64)>,
    lending: Option<(bool, Seq<char>)>,
    r: TokenStep,
)
    requires
        token_request_check(request, peer) is Err,
        token_step_ok(local, peer, request, fresh, rate, lending, r),
    ensures
        r matches TokenStep::Refuse { reply, .. } && reply.granted == Some(false),
{
}

/// A token request is granted only once its signature, nonce and rate all pass and the
/// lending verdict allows it.
pub proof fn lemma_grant_needs_every_check(
    local: Seq<char>,
    peer: Seq<char>,
    request: TokenWireMessage,
    fresh: Option<bool>,
    rate: Option<(bool, i64, i64)>,
    lending: Option<(bool, Seq<char>)>,
    r: TokenStep,
)
    requires
        token_step_ok(local, peer, request, fresh, rate, lending, r),
        r matches TokenStep::Answer(reply) && reply.granted == Some(true),
    ensures
        token_request_check(request, peer) is Ok,
        fresh == Some(true),
        rate matches Some((true, _, _)),
        lending matches Some((true, _)),
{
}

} // verus!
