use vstd::prelude::*;
use vstd::utf8::encode_utf8;

use crate::encoding::{base64_bytes, base64_decode, base64_encode, base64_text};
use crate::json::{json_of_bytes, member_str, parse_json, get_str};
use crate::proxy::{
    ascii_lower, auth_header_of, clone_opt, header_views, headers_where, json_body_usage,
    body_usage_or_zero, list_bars, model_blocked, provider_auth_header, to_ascii_lower, upstream_url,
    url_of,
};
use crate::records::{AuditInsert, StoredKey, TransactionInsert};
use crate::text::{append_str, chars_of, owned, push_char, range_equals};
use crate::tracker::opt_chars;
use crate::vault::{decrypt_api_key, opens_to, VaultError};
use crate::wire::{ProxyRelayRequest, ProxyRelayResponse};

verus! {

broadcast use vstd::string::group_string_axioms;

/// The body a lender writes around an error text, as it is, with no escaping:
/// `{"error":"<msg>"}`.
pub open spec fn raw_error_text(msg: Seq<char>) -> Seq<char> {
    "{\"error\":\""@ + msg + "\"}"@
}

/// The body `{"error":"<msg>"}`, the text put in as it is.
pub fn raw_error_body(msg: &str) -> (s: String)
    ensures
        s@ == raw_error_text(msg@),
{
    let mut s = owned("{\"error\":\"");
    append_str(&mut s, msg);
    append_str(&mut s, "\"}");
    s
}

/// A lender's refusal: the request hash, `status`, a JSON content type where `json` holds, the
/// body text in base64, no usage, and the error text.
pub open spec fn is_refusal(
    r: ProxyRelayResponse,
    request_hash: Seq<char>,
    status: u16,
    json: bool,
    body: Seq<char>,
    model: Option<Seq<char>>,
    error: Seq<char>,
) -> bool {
    &&& r.request_hash@ == request_hash
    &&& r.status == status
    &&& header_views(r.headers@) == if json {
        seq![("content-type"@, "application/json"@)]
    } else {
        Seq::empty()
    }
    &&& r.body_b64@ == base64_text(encode_utf8(body))
    &&& opt_chars(r.model) == model
    &&& r.input_tokens == 0
    &&& r.output_tokens == 0
    &&& r.request_id is None
    &&& opt_chars(r.error) == Some(error)
}

/// Builds a refusal.
pub fn refusal(
    request_hash: &str,
    status: u16,
    json: bool,
    body: &str,
    model: Option<String>,
    error: &str,
) -> (r: ProxyRelayResponse)
    ensures
        is_refusal(r, request_hash@, status, json, body@, opt_chars(model), error@),
{
    let headers = if json {
        vec![(owned("content-type"), owned("application/json"))]
    } else {
        Vec::new()
    };
    assert(header_views(headers@) =~= if json {
        seq![("content-type"@, "application/json"@)]
    } else {
        Seq::<(Seq<char>, Seq<char>)>::empty()
    });
    ProxyRelayResponse {
        request_hash: owned(request_hash),
        status,
        headers,
        body_b64: base64_encode(body.as_bytes()),
        model,
        input_tokens: 0,
        output_tokens: 0,
        request_id: None,
        error: Some(owned(error)),
    }
}

/// The model a lender's block list bars in a relayed body: the list is not empty, the body is
/// base64 of a JSON document with a string `model`, and the list bars it.
pub open spec fn barred_model(blocked_setting: Option<Seq<char>>, body_b64: Seq<char>) -> Option<
    Seq<char>,
> {
    let blocked = match blocked_setting {
        Some(b) => b,
        None => Seq::empty(),
    };
    if blocked.len() == 0 {
        None
    } else {
        match base64_bytes(body_b64) {
            None => None,
            Some(body) => match json_of_bytes(body) {
                None => None,
                Some(doc) => match member_str(doc, "model"@) {
                    Some(model) => if list_bars(blocked, model) {
                        Some(model)
                    } else {
                        None
                    },
                    None => None,
                },
            },
        }
    }
}

/// The model of a relayed request that the lender's block list bars, if any.
pub fn lending_barred_model(blocked_setting: &Option<String>, body_b64: &str) -> (r: Option<
    String,
>)
    ensures
        opt_chars(r) == barred_model(opt_chars(*blocked_setting), body_b64@),
{
    let blocked: &str = match blocked_setting {
        Some(b) => b.as_str(),
        None => "",
    };
    proof {
        reveal_strlit("");
    }
    if blocked.is_empty() {
        return None;
    }
    let body = match base64_decode(body_b64) {
        Some(b) => b,
        None => return None,
    };
    let doc = match parse_json(body.as_slice()) {
        Some(d) => d,
        None => return None,
    };
    match get_str(&doc, "model") {
        Some(model) => if model_blocked(blocked, model.as_str()) {
            Some(model.clone())
        } else {
            None
        },
        None => None,
    }
}

/// The checks a lender makes before it spends anything on a relayed request, in order: it holds
/// the circle key (else 403), its lending state can be read (else 503) and allows lending
/// (else 429 with the reason), and its block list does not bar the model (else 403). `None`
/// admits the request.
pub open spec fn admission_ok(
    request_hash: Seq<char>,
    circle_key_present: bool,
    can_lend: Result<(bool, Seq<char>), Seq<char>>,
    blocked_setting: Option<Seq<char>>,
    body_b64: Seq<char>,
    r: Option<ProxyRelayResponse>,
) -> bool {
    if !circle_key_present {
        r matches Some(res) && is_refusal(
            res,
            request_hash,
            403,
            true,
            "{\"error\":\"circle key missing\"}"@,
            None,
            "circle key missing"@,
        )
    } else {
        match can_lend {
            Err(err) => r matches Some(res) && is_refusal(
                res,
                request_hash,
                503,
                false,
                raw_error_text(err),
                None,
                "local availability check failed"@,
            ),
            Ok((false, reason)) => r matches Some(res) && is_refusal(
                res,
                request_hash,
                429,
                true,
                raw_error_text(reason),
                None,
                reason,
            ),
            Ok((true, _)) => match barred_model(blocked_setting, body_b64) {
                Some(model) => r matches Some(res) && is_refusal(
                    res,
                    request_hash,
                    403,
                    true,
                    "{\"error\":\"model blocked by policy\"}"@,
                    Some(model),
                    "blocked by model policy"@,
                ),
                None => r is None,
            },
        }
    }
}

/// Decides whether a relayed request may be served from the local key; `can_lend` is the
/// lending verdict for a thousand tokens, or the error reading it.
pub fn lending_admission(
    payload: &ProxyRelayRequest,
    circle_key_present: bool,
    can_lend: &Result<(bool, String), String>,
    blocked_setting: &Option<String>,
) -> (r: Option<ProxyRelayResponse>)
    ensures
        admission_ok(
            payload.request_hash@,
            circle_key_present,
            match can_lend {
                Ok((b, reason)) => Ok((*b, reason@)),
                Err(e) => Err(e@),
            },
            opt_chars(*blocked_setting),
            payload.body_b64@,
            r,
        ),
{
    let hash = payload.request_hash.as_str();
    if !circle_key_present {
        return Some(
            refusal(hash, 403, true, "{\"error\":\"circle key missing\"}", None, "circle key missing"),
        );
    }
    match can_lend {
        Err(err) => {
            let body = raw_error_body(err.as_str());
            return Some(
                refusal(hash, 503, false, body.as_str(), None, "local availability check failed"),
            );
        },
        Ok((false, reason)) => {
            let body = raw_error_body(reason.as_str());
            return Some(refusal(hash, 429, true, body.as_str(), None, reason.as_str()));
        },
        Ok((true, _)) => {},
    }
    match lending_barred_model(blocked_setting, payload.body_b64.as_str()) {
        Some(model) => Some(
            refusal(
                hash,
                403,
                true,
                "{\"error\":\"model blocked by policy\"}",
                Some(model),
                "blocked by model policy",
            ),
        ),
        None => None,
    }
}

/// What the lender needs to call upstream with its own key, in order: an unlocked vault
/// (else 401), a stored key for the provider (else 404), the device salt (else 500), and a key
/// that opens (else 401 with the vault's message).
pub open spec fn lending_key_ok(
    request_hash: Seq<char>,
    password: Option<Seq<char>>,
    stored: Option<Seq<char>>,
    device_salt: Result<Seq<char>, Seq<char>>,
    r: Result<Seq<char>, ProxyRelayResponse>,
) -> bool {
    match password {
        None => r matches Err(res) && is_refusal(
            res,
            request_hash,
            401,
            false,
            "{\"error\":\"vault locked\"}"@,
            None,
            "vault locked"@,
        ),
        Some(pw) => match stored {
            None => r matches Err(res) && is_refusal(
                res,
                request_hash,
                404,
                false,
                "{\"error\":\"no provider key\"}"@,
                None,
                "no provider key"@,
            ),
            Some(sealed) => match device_salt {
                Err(err) => r matches Err(res) && is_refusal(
                    res,
                    request_hash,
                    500,
                    false,
                    raw_error_text(err),
                    None,
                    "device salt unavailable"@,
                ),
                Ok(salt) => match r {
                    Ok(key) => opens_to(sealed, pw, salt, Ok(key)),
                    Err(res) => exists|e: VaultError|
                        opens_to(sealed, pw, salt, Err(e)) && #[trigger] is_refusal(
                            res,
                            request_hash,
                            401,
                            false,
                            raw_error_text(e.text()),
                            None,
                            "key decrypt failed"@,
                        ),
                },
            },
        },
    }
}

/// Opens the lender's provider key. `stored` is the sealed key, `None` where there is none or
/// it cannot be read; `device_salt` is only looked at once a key is found.
pub fn lending_key(
    request_hash: &str,
    password: &Option<String>,
    stored: &Option<StoredKey>,
    device_salt: &Result<String, String>,
) -> (r: Result<String, ProxyRelayResponse>)
    ensures
        lending_key_ok(
            request_hash@,
            opt_chars(*password),
            match stored {
                Some(k) => Some(k.encrypted_key@),
                None => None,
            },
            match device_salt {
                Ok(s) => Ok(s@),
                Err(e) => Err(e@),
            },
            match r {
                Ok(k) => Ok(k@),
                Err(res) => Err(res),
            },
        ),
{
    let pw = match password {
        Some(p) => p,
        None => return Err(
            refusal(request_hash, 401, false, "{\"error\":\"vault locked\"}", None, "vault locked"),
        ),
    };
    let key = match stored {
        Some(k) => k,
        None => return Err(
            refusal(
                request_hash,
                404,
                false,
                "{\"error\":\"no provider key\"}",
                None,
                "no provider key",
            ),
        ),
    };
    let salt = match device_salt {
        Ok(s) => s,
        Err(err) => {
            let body = raw_error_body(err.as_str());
            return Err(
                refusal(request_hash, 500, false, body.as_str(), None, "device salt unavailable"),
            );
        },
    };
    match decrypt_api_key(key.encrypted_key.as_str(), pw.as_str(), salt.as_str()) {
        Ok(k) => Ok(k),
        Err(e) => {
            let msg = e.message();
            let body = raw_error_body(msg.as_str());
            let res = refusal(request_hash, 401, false, body.as_str(), None, "key decrypt failed");
            assert(is_refusal(
                res,
                request_hash@,
                401,
                false,
                raw_error_text(e.text()),
                None,
                "key decrypt failed"@,
            ));
            Err(res)
        },
    }
}

/// A character HTTP allows in a method name (a token character).
pub open spec fn is_token_char(c: char) -> bool {
    ||| 'a' <= c <= 'z'
    ||| 'A' <= c <= 'Z'
    ||| '0' <= c <= '9'
    ||| c == '!' || c == '#' || c == '$' || c == '%' || c == '&' || c == '\'' || c == '*'
    ||| c == '+' || c == '-' || c == '.' || c == '^' || c == '_' || c == '`' || c == '|'
    ||| c == '~'
}

/// The method a relayed request is sent with: its own where that is a valid HTTP method
/// name (a non-empty token), `POST` otherwise.
pub open spec fn method_of(requested: Seq<char>) -> Seq<char> {
    if requested.len() > 0 && forall|i: int| 0 <= i < requested.len() ==> is_token_char(
        #[trigger] requested[i],
    ) {
        requested
    } else {
        "POST"@
    }
}

/// The method to send a relayed request with.
pub fn relay_method(requested: &str) -> (m: String)
    ensures
        m@ == method_of(requested@),
{
    let v = chars_of(requested);
    if v.len() == 0 {
        return owned("POST");
    }
    let mut i: usize = 0;
    while i < v.len()
        invariant
            i <= v@.len(),
            v@ == requested@,
            forall|k: int| 0 <= k < i ==> is_token_char(#[trigger] v@[k]),
        decreases v.len() - i,
    {
        let c = v[i];
        let ok = ('a' <= c && c <= 'z') || ('A' <= c && c <= 'Z') || ('0' <= c && c <= '9') || c
            == '!' || c == '#' || c == '$' || c == '%' || c == '&' || c == '\'' || c == '*' || c
            == '+' || c == '-' || c == '.' || c == '^' || c == '_' || c == '`' || c == '|' || c
            == '~';
        if !ok {
            return owned("POST");
        }
        i = i + 1;
    }
    owned(requested)
}

/// A header a lender drops from a relayed request: `host`, `content-length`, and any
/// credential the borrower sent (`x-api-key`, `authorization`), in any letter case.
pub open spec fn dropped_by_lender(name: Seq<char>) -> bool {
    let n = ascii_lower(name);
    n == "host"@ || n == "content-length"@ || n == "x-api-key"@ || n == "authorization"@
}

/// A header the lender passes on.
pub open spec fn passed_by_lender(name: Seq<char>) -> bool {
    !dropped_by_lender(name)
}

/// Whether a lender drops the header `name`.
pub fn lender_drops_header(name: &str) -> (b: bool)
    ensures
        b == dropped_by_lender(name@),
{
    let lower = to_ascii_lower(name);
    let n = lower.len();
    assert(lower@.subrange(0, n as int) =~= lower@);
    range_equals(lower.as_slice(), 0, n, chars_of("host").as_slice()) || range_equals(
        lower.as_slice(),
        0,
        n,
        chars_of("content-length").as_slice(),
    ) || range_equals(lower.as_slice(), 0, n, chars_of("x-api-key").as_slice()) || range_equals(
        lower.as_slice(),
        0,
        n,
        chars_of("authorization").as_slice(),
    )
}

/// The call a lender makes upstream for a relayed request.
pub struct UpstreamCall {
    pub method: String,
    pub url: String,
    pub headers: Vec<(String, String)>,
    pub body: Vec<u8>,
}

/// The upstream call for a relayed request, with the lender's key: the method (or `POST`),
/// the provider's URL with path and query, the borrower's headers less `host`,
/// `content-length` and any credential, then the lender's own credential header, and the body
/// decoded from base64 (empty where that fails).
pub fn lending_upstream_call(payload: &ProxyRelayRequest, key: &str) -> (c: UpstreamCall)
    ensures
        c.method@ == method_of(payload.method@),
        c.url@ == url_of(payload.provider@, payload.path@, opt_chars(payload.query)),
        header_views(c.headers@) == headers_where(
            header_views(payload.headers@),
            |n: Seq<char>| passed_by_lender(n),
        ).push(auth_header_of(payload.provider@, key@)),
        c.body@ == match base64_bytes(payload.body_b64@) {
            Some(b) => b,
            None => Seq::empty(),
        },
{
    let headers = &payload.headers;
    let mut r: Vec<(String, String)> = Vec::new();
    let ghost hv = header_views(headers@);
    let ghost keep = |n: Seq<char>| passed_by_lender(n);
    let mut i: usize = 0;
    while i < headers.len()
        invariant
            i <= headers@.len(),
            hv == header_views(headers@),
            keep == (|n: Seq<char>| passed_by_lender(n)),
            header_views(r@) == headers_where(hv.take(i as int), keep),
        decreases headers.len() - i,
    {
        let (name, value) = &headers[i];
        assert(hv.take(i + 1).drop_last() =~= hv.take(i as int));
        assert(hv.take(i + 1).last() == (name@, value@));
        if !lender_drops_header(name.as_str()) {
            let ghost before = r@;
            r.push((name.clone(), value.clone()));
            assert(header_views(r@) =~= header_views(before).push((name@, value@)));
        }
        i = i + 1;
    }
    assert(hv.take(hv.len() as int) =~= hv);
    let ghost before = r@;
    let auth = provider_auth_header(payload.provider.as_str(), key);
    r.push(auth);
    assert(header_views(r@) =~= header_views(before).push(auth_header_of(payload.provider@, key@)));
    let body = match base64_decode(payload.body_b64.as_str()) {
        Some(b) => b,
        None => Vec::new(),
    };
    UpstreamCall {
        method: relay_method(payload.method.as_str()),
        url: upstream_url(payload.provider.as_str(), payload.path.as_str(), &payload.query),
        headers: r,
        body,
    }
}

/// The refusal a lender sends when its upstream call fails: 502 with the failure's text.
pub fn upstream_failure(request_hash: &str, err: &str) -> (r: ProxyRelayResponse)
    ensures
        is_refusal(r, request_hash@, 502, false, raw_error_text(err@), None, "upstream request failed"@),
{
    let body = raw_error_body(err);
    refusal(request_hash, 502, false, body.as_str(), None, "upstream request failed")
}

/// What serving a relayed request leaves: the answer for the borrower, the tokens to add to
/// today's lent total, and the lender's ledger transaction and its audit row, marked `lent`.
pub struct LentOutcome {
    pub response: ProxyRelayResponse,
    pub used_tokens: i64,
    pub transaction: TransactionInsert,
    pub audit: AuditInsert,
}

/// The outcome of a served relayed request: the upstream status, headers and body (base64) go
/// back with the usage the body reports and the upstream request id; the usage's two counts
/// are added (wrapping) to the lent total and recorded as lent to the requester.
pub fn lent_outcome(
    payload: &ProxyRelayRequest,
    requester_peer_id: &str,
    status: u16,
    headers: Vec<(String, String)>,
    body: &[u8],
    request_id: Option<String>,
) -> (r: LentOutcome)
    ensures
        ({
            let u = body_usage_or_zero(body@);
            &&& r.response.request_hash == payload.request_hash
            &&& r.response.status == status
            &&& r.response.headers == headers
            &&& r.response.body_b64@ == base64_text(body@)
            &&& opt_chars(r.response.model) == u.model
            &&& r.response.input_tokens == u.input_tokens
            &&& r.response.output_tokens == u.output_tokens
            &&& r.response.request_id == request_id
            &&& r.response.error is None
            &&& r.used_tokens == u.input_tokens.wrapping_add(u.output_tokens)
            &&& r.transaction.tx_type@ == "lent"@
            &&& opt_chars(r.transaction.peer_id) == Some(requester_peer_id@)
            &&& r.transaction.provider == payload.provider
            &&& opt_chars(r.transaction.model) == u.model
            &&& r.transaction.input_tokens == u.input_tokens
            &&& r.transaction.output_tokens == u.output_tokens
            &&& r.transaction.request_hash == payload.request_hash
            &&& r.audit.direction@ == "lent"@
            &&& opt_chars(r.audit.peer_id) == Some(requester_peer_id@)
            &&& opt_chars(r.audit.model) == u.model
            &&& r.audit.input_tokens == u.input_tokens
            &&& r.audit.output_tokens == u.output_tokens
            &&& r.audit.request_nonce == payload.request_hash
        }),
{
    let usage = json_body_usage(body);
    let used = usage.input_tokens.wrapping_add(usage.output_tokens);
    let transaction = TransactionInsert {
        tx_type: owned("lent"),
        peer_id: Some(owned(requester_peer_id)),
        provider: payload.provider.clone(),
        model: clone_opt(&usage.model),
        input_tokens: usage.input_tokens,
        output_tokens: usage.output_tokens,
        request_hash: payload.request_hash.clone(),
    };
    let audit = AuditInsert {
        direction: owned("lent"),
        peer_id: Some(owned(requester_peer_id)),
        model: clone_opt(&usage.model),
        input_tokens: usage.input_tokens,
        output_tokens: usage.output_tokens,
        request_nonce: payload.request_hash.clone(),
    };
    let response = ProxyRelayResponse {
        request_hash: payload.request_hash.clone(),
        status,
        headers,
        body_b64: base64_encode(body),
        model: usage.model,
        input_tokens: usage.input_tokens,
        output_tokens: usage.output_tokens,
        request_id,
        error: None,
    };
    LentOutcome { response, used_tokens: used, transaction, audit }
}

/// A lender never passes a borrower's credential upstream: of the headers it sends, only the
/// last is a credential header, and that one carries the lender's own key.
pub proof fn lemma_only_lender_credential_forwarded(
    borrower_headers: Seq<(Seq<char>, Seq<char>)>,
    provider: Seq<char>,
    key: Seq<char>,
)
    ensures
        ({
            let sent = headers_where(borrower_headers, |n: Seq<char>| passed_by_lender(n)).push(
                auth_header_of(provider, key),
            );
            &&& forall|i: int|
                0 <= i < sent.len() - 1 ==> ascii_lower(#[trigger] sent[i].0) != "x-api-key"@
                    && ascii_lower(sent[i].0) != "authorization"@
            &&& sent.last() == auth_header_of(provider, key)
        }),
{
    lemma_headers_where_keep(borrower_headers, |n: Seq<char>| passed_by_lender(n));
}

/// Every header a filter keeps passes it.
pub proof fn lemma_headers_where_keep(
    h: Seq<(Seq<char>, Seq<char>)>,
    keep: spec_fn(Seq<char>) -> bool,
)
    ensures
        forall|i: int|
            0 <= i < headers_where(h, keep).len() ==> keep(#[trigger] headers_where(h, keep)[i].0),
        headers_where(h, keep).len() <= h.len(),
    decreases h.len(),
{
    if h.len() > 0 {
        lemma_headers_where_keep(h.drop_last(), keep);
    }
}

} // verus!
