use vstd::prelude::*;

use crate::numbers::{i64_text, int_text};
use crate::records::TransactionInsert;
use crate::sharing::DEFAULT_DAILY_LIMIT_TOKENS;
use crate::text::{owned, same_text};
use crate::tracker::opt_chars;
use crate::wire::{base_wire, is_bare, LocalNodeDto, ProxyRelayRequest, ProxyRelayResponse, TokenWireMessage};

verus! {

broadcast use vstd::string::group_string_axioms;

/// `m` has type `msg_type`, comes from `requester`, carries `hash`, and holds nothing else
/// but the fields named next to it.
pub open spec fn message_head(
    m: TokenWireMessage,
    msg_type: Seq<char>,
    requester: Seq<char>,
    hash: Option<Seq<char>>,
) -> bool {
    &&& m.msg_type@ == msg_type
    &&& m.requester_id@ == requester
    &&& opt_chars(m.request_hash) == hash
}

/// The availability a node announces: its state, and its daily limit and use (a limit of
/// 100000 and a use of 0 where they cannot be read).
pub fn availability_update(me: &LocalNodeDto, limit: Option<i64>, used: Option<i64>) -> (m:
    TokenWireMessage)
    ensures
        message_head(m, "availability_update"@, me.peer_id@, None),
        opt_chars(m.availability_state) == Some(me.availability_state@),
        m.daily_limit_tokens == Some(
            match limit {
                Some(l) => l,
                None => DEFAULT_DAILY_LIMIT_TOKENS,
            },
        ),
        m.daily_used_tokens == Some(
            match used {
                Some(u) => u,
                None => 0i64,
            },
        ),
        is_bare(TokenWireMessage { availability_state: None, daily_limit_tokens: None, daily_used_tokens: None, ..m }),
{
    let base = base_wire(me.peer_id.clone(), None, "availability_update");
    TokenWireMessage {
        availability_state: Some(me.availability_state.clone()),
        daily_limit_tokens: Some(
            match limit {
                Some(l) => l,
                None => DEFAULT_DAILY_LIMIT_TOKENS,
            },
        ),
        daily_used_tokens: Some(
            match used {
                Some(u) => u,
                None => 0,
            },
        ),
        ..base
    }
}

/// The request asking the peer that granted a request to serve it.
pub fn proxy_call_message(local_peer_id: &str, payload: ProxyRelayRequest) -> (m: TokenWireMessage)
    ensures
        message_head(m, "proxy_call"@, local_peer_id@, Some(payload.request_hash@)),
        m.proxy_request == Some(payload),
        is_bare(TokenWireMessage { proxy_request: None, ..m }),
{
    let base = base_wire(owned(local_peer_id), Some(payload.request_hash.clone()), "proxy_call");
    TokenWireMessage { proxy_request: Some(payload), ..base }
}

/// The notice withdrawing a grant request from a peer that lost to another: reason
/// `winner_selected`.
pub fn cancel_request_message(local_peer_id: &str, request_hash: &str) -> (m: TokenWireMessage)
    ensures
        message_head(m, "cancel_request"@, local_peer_id@, Some(request_hash@)),
        opt_chars(m.reason) == Some("winner_selected"@),
        is_bare(TokenWireMessage { reason: None, ..m }),
{
    let base = base_wire(owned(local_peer_id), Some(owned(request_hash)), "cancel_request");
    TokenWireMessage { reason: Some(owned("winner_selected")), ..base }
}

/// The notice a node sends its online peers when it leaves the circle: reason `peer_revoked`.
pub fn leave_circle_message(local_peer_id: &str) -> (m: TokenWireMessage)
    ensures
        message_head(m, "leave_circle"@, local_peer_id@, None),
        opt_chars(m.reason) == Some("peer_revoked"@),
        is_bare(TokenWireMessage { reason: None, ..m }),
{
    let base = base_wire(owned(local_peer_id), None, "leave_circle");
    TokenWireMessage { reason: Some(owned("peer_revoked")), ..base }
}

/// The request for ledger entries newer than `cursor`, which travels as decimal text in the
/// hash field.
pub fn ledger_sync_request(local_peer_id: &str, cursor: i64) -> (m: TokenWireMessage)
    ensures
        message_head(m, "ledger_sync_request"@, local_peer_id@, Some(int_text(cursor as int))),
        is_bare(m),
{
    base_wire(owned(local_peer_id), Some(i64_text(cursor)), "ledger_sync_request")
}

/// The request for the circle key, sealed to the joining node's one-time age recipient.
pub fn circle_key_request(local_peer_id: &str, recipient: &str) -> (m: TokenWireMessage)
    ensures
        message_head(m, "circle_key_request"@, local_peer_id@, None),
        opt_chars(m.circle_key_recipient) == Some(recipient@),
        is_bare(TokenWireMessage { circle_key_recipient: None, ..m }),
{
    let base = base_wire(owned(local_peer_id), None, "circle_key_request");
    TokenWireMessage { circle_key_recipient: Some(owned(recipient)), ..base }
}

/// An answer grants a token request: it is a `token_grant` with `granted` set to true.
pub open spec fn grants(m: TokenWireMessage) -> bool {
    m.msg_type@ == "token_grant"@ && m.granted == Some(true)
}

/// Whether an answer grants the token request it answers.
pub fn is_grant(response: &TokenWireMessage) -> (b: bool)
    ensures
        b == grants(*response),
{
    same_text(response.msg_type.as_str(), "token_grant") && match response.granted {
        Some(g) => g,
        None => false,
    }
}

/// What a borrower makes of a lender's answer to a proxy call: the relayed response where it
/// carries one, else the lender's reason, else `invalid proxy response`.
pub fn proxy_call_outcome(response: TokenWireMessage) -> (r: Result<ProxyRelayResponse, String>)
    ensures
        match response.proxy_response {
            Some(p) => r == Ok::<ProxyRelayResponse, String>(p),
            None => r matches Err(e) && e@ == match response.reason {
                Some(reason) => reason@,
                None => "invalid proxy response"@,
            },
        },
{
    match response.proxy_response {
        Some(p) => Ok(p),
        None => match response.reason {
            Some(reason) => Err(reason),
            None => Err(owned("invalid proxy response")),
        },
    }
}

/// The transaction a lender records and gossips after answering a proxy call with a relayed
/// response: lent to the requester, with the provider and hash of the call and the model and
/// counts of the response. `None` where the call or the answer carries no payload.
pub fn lent_transaction(request: &TokenWireMessage, response: &TokenWireMessage) -> (r: Option<
    TransactionInsert,
>)
    ensures
        match (request.proxy_request, response.proxy_response) {
            (Some(call), Some(res)) => r matches Some(t) && {
                &&& t.tx_type@ == "lent"@
                &&& opt_chars(t.peer_id) == Some(request.requester_id@)
                &&& t.provider@ == call.provider@
                &&& opt_chars(t.model) == opt_chars(res.model)
                &&& t.input_tokens == res.input_tokens
                &&& t.output_tokens == res.output_tokens
                &&& t.request_hash@ == call.request_hash@
            },
            _ => r is None,
        },
{
    match (&request.proxy_request, &response.proxy_response) {
        (Some(call), Some(res)) => Some(
            TransactionInsert {
                tx_type: owned("lent"),
                peer_id: Some(request.requester_id.clone()),
                provider: call.provider.clone(),
                model: crate::proxy::clone_opt(&res.model),
                input_tokens: res.input_tokens,
                output_tokens: res.output_tokens,
                request_hash: call.request_hash.clone(),
            },
        ),
        _ => None,
    }
}

} // verus!
