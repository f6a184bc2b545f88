use vstd::prelude::*;
use vstd::utf8::{decode_utf8, encode_utf8, valid_utf8};

use crate::encoding::{utf8_string, lower_hex_digit, hex_lower_digit, base64_bytes, base64_decode, base64_encode, base64_text, hex_lower, sha256, sha256_of, to_hex_lower};
use crate::records::{AuditInsert, RequestInsert, StoredKey, TransactionInsert};
use crate::tracker::{last_usage, opt_chars, opt_usage, usage_from_json_body, usage_from_sse_chunk, usage_of_body, UsageStats, UsageView};
use crate::vault::{decrypt_api_key, opens_to, VaultError};
use crate::wire::{ProxyRelayRequest, ProxyRelayResponse};
use crate::numbers::int_text;
use crate::json::{member_str, json_of_bytes, get_str, parse_json};
use crate::text::{
    chars_of, contains_seq, has_prefix, lacks, lemma_split_join, lemma_split_single, owned, range_equals, range_has_prefix, split_bounds,
    split_on, string_of_range, strip_prefixes, strip_prefixes_bound, trim, trim_bounds,
};

verus! {

broadcast use vstd::string::group_string_axioms;

/// The provider a proxied request goes to and the path it is forwarded on: a `/openai/` or
/// `/anthropic/` prefix picks the provider and is removed (every leading repetition of it);
/// otherwise the provider header decides, and Anthropic is the default.
pub open spec fn provider_and_path(path: Seq<char>, provider_header: Option<Seq<char>>) -> (
    Seq<char>,
    Seq<char>,
) {
    if has_prefix(path, "/openai/"@) {
        ("openai"@, strip_prefixes(path, "/openai"@))
    } else if has_prefix(path, "/anthropic/"@) {
        ("anthropic"@, strip_prefixes(path, "/anthropic"@))
    } else {
        match provider_header {
            Some(p) => (p, path),
            None => ("anthropic"@, path),
        }
    }
}

/// The provider and upstream path of a proxied request; `provider_header` is the value of its
/// `x-tokenunion-provider` header, where it has one that is visible text.
pub fn infer_provider_and_path(path: &str, provider_header: Option<&str>) -> (r: (String, String))
    ensures
        (r.0@, r.1@) == provider_and_path(path@, match provider_header {
            Some(h) => Some(h@),
            None => None,
        }),
{
    let v = chars_of(path);
    let openai_dir = chars_of("/openai/");
    let openai = chars_of("/openai");
    let anthropic_dir = chars_of("/anthropic/");
    let anthropic = chars_of("/anthropic");
    assert(v@.subrange(0, v@.len() as int) =~= v@);
    if range_has_prefix(v.as_slice(), 0, v.len(), openai_dir.as_slice()) {
        let a = strip_prefixes_bound(v.as_slice(), 0, v.len(), openai.as_slice());
        return (owned("openai"), string_of_range(v.as_slice(), a, v.len()));
    }
    if range_has_prefix(v.as_slice(), 0, v.len(), anthropic_dir.as_slice()) {
        let a = strip_prefixes_bound(v.as_slice(), 0, v.len(), anthropic.as_slice());
        return (owned("anthropic"), string_of_range(v.as_slice(), a, v.len()));
    }
    match provider_header {
        Some(p) => (owned(p), owned(path)),
        None => (owned("anthropic"), owned(path)),
    }
}

/// `c` with an ASCII capital letter turned into its small letter.
pub open spec fn ascii_lower_char(c: char) -> char {
    if 'A' <= c <= 'Z' {
        ((c as u32) + 32) as char
    } else {
        c
    }
}

/// `s` with its ASCII capital letters turned into small ones, as `str::to_ascii_lowercase`.
pub open spec fn ascii_lower(s: Seq<char>) -> Seq<char> {
    s.map_values(|c: char| ascii_lower_char(c))
}

/// `s` with its ASCII capital letters turned into small ones.
pub fn to_ascii_lower(s: &str) -> (r: Vec<char>)
    ensures
        r@ == ascii_lower(s@),
{
    let v = chars_of(s);
    let mut r: Vec<char> = Vec::new();
    let mut i: usize = 0;
    while i < v.len()
        invariant
            i <= v@.len(),
            v@ == s@,
            r@ == ascii_lower(v@.take(i as int)),
        decreases v.len() - i,
    {
        let c = v[i];
        let d = if 'A' <= c && c <= 'Z' {
            let b: u8 = (c as u8) + 32;
            assert(b as char == ascii_lower_char(c)) by {
                assert((c as u8) as u32 == c as u32);
            }
            b as char
        } else {
            c
        };
        r.push(d);
        assert(ascii_lower(v@.take(i + 1)) =~= ascii_lower(v@.take(i as int)).push(
            ascii_lower_char(c),
        ));
        i = i + 1;
    }
    assert(v@.take(v@.len() as int) =~= v@);
    r
}

/// The headers a proxy never copies: `host` and `content-length`, in any letter case.
pub open spec fn skipped_header(name: Seq<char>) -> bool {
    ascii_lower(name) == "host"@ || ascii_lower(name) == "content-length"@
}

/// Whether a header is left out when a request or response is copied through the proxy.
pub fn should_skip_header(name: &str) -> (b: bool)
    ensures
        b == skipped_header(name@),
{
    let lower = to_ascii_lower(name);
    let host = chars_of("host");
    let length = chars_of("content-length");
    assert(lower@.subrange(0, lower@.len() as int) =~= lower@);
    range_equals(lower.as_slice(), 0, lower.len(), host.as_slice()) || range_equals(
        lower.as_slice(),
        0,
        lower.len(),
        length.as_slice(),
    )
}

/// Appends `b` to `v`.
pub fn append_bytes(v: &mut Vec<u8>, b: &[u8])
    ensures
        final(v)@ == old(v)@ + b@,
{
    let mut i: usize = 0;
    while i < b.len()
        invariant
            i <= b@.len(),
            v@ == old(v)@ + b@.take(i as int),
        decreases b.len() - i,
    {
        v.push(b[i]);
        assert(b@.take(i + 1) =~= b@.take(i as int).push(b@[i as int]));
        i = i + 1;
    }
    assert(b@.take(b@.len() as int) =~= b@);
}

/// The bytes a request's identity is hashed from: provider, method, path, query (where there
/// is one) and body, one after the other.
pub open spec fn request_identity(
    provider: Seq<char>,
    method: Seq<char>,
    path: Seq<char>,
    query: Option<Seq<char>>,
    body: Seq<u8>,
) -> Seq<u8> {
    encode_utf8(provider) + encode_utf8(method) + encode_utf8(path) + match query {
        Some(q) => encode_utf8(q),
        None => Seq::empty(),
    } + body
}

/// The identity of a proxied request: the lowercase hex SHA-256 of provider, method, path,
/// query and body. Peers use it to tell requests apart.
pub fn compute_request_hash(
    provider: &str,
    method: &str,
    path: &str,
    query: Option<&str>,
    body: &[u8],
) -> (h: String)
    ensures
        h@ == hex_lower(
            sha256_of(
                request_identity(provider@, method@, path@, match query {
                    Some(q) => Some(q@),
                    None => None,
                }, body@),
            ),
        ),
{
    let mut bytes: Vec<u8> = Vec::new();
    append_bytes(&mut bytes, provider.as_bytes());
    append_bytes(&mut bytes, method.as_bytes());
    append_bytes(&mut bytes, path.as_bytes());
    match query {
        Some(q) => append_bytes(&mut bytes, q.as_bytes()),
        None => {},
    }
    append_bytes(&mut bytes, body);
    assert(bytes@ =~= request_identity(provider@, method@, path@, match query {
        Some(q) => Some(q@),
        None => None,
    }, body@));
    let digest = sha256(bytes.as_slice());
    to_hex_lower(digest.as_slice())
}

/// Whether `t` occurs in `v[lo..hi]`.
pub fn range_contains(v: &[char], lo: usize, hi: usize, t: &[char]) -> (b: bool)
    requires
        lo <= hi <= v@.len(),
    ensures
        b == contains_seq(v@.subrange(lo as int, hi as int), t@),
{
    let ghost s = v@.subrange(lo as int, hi as int);
    if t.len() > hi - lo {
        assert forall|i: int| 0 <= i && i + t@.len() <= s.len() implies #[trigger] s.subrange(
            i,
            i + t@.len(),
        ) != t@ by {}
        return false;
    }
    let last = hi - lo - t.len();
    let mut i: usize = 0;
    while i <= last
        invariant
            lo <= hi <= v@.len(),
            s == v@.subrange(lo as int, hi as int),
            last == hi - lo - t@.len(),
            t@.len() <= hi - lo,
            i <= last,
            forall|j: int| 0 <= j < i ==> #[trigger] s.subrange(j, j + t@.len()) != t@,
        decreases last - i,
    {
        let found = range_equals(v, lo + i, lo + i + t.len(), t);
        assert(s.subrange(i as int, i + t@.len()) =~= v@.subrange(lo + i, lo + i + t@.len()));
        if found {
            return true;
        }
        if i == last {
            assert forall|j: int| 0 <= j && j + t@.len() <= s.len() implies #[trigger] s.subrange(
                j,
                j + t@.len(),
            ) != t@ by {
                assert(j <= i);
            }
            return false;
        }
        i = i + 1;
    }
    false
}

/// One comma-separated piece of a block list bars a model: trimmed, it is not empty and
/// occurs in the model's name.
pub open spec fn piece_bars(piece: Seq<char>, model: Seq<char>) -> bool {
    trim(piece).len() > 0 && contains_seq(model, trim(piece))
}

/// A comma-separated block list bars a model: one of its pieces does.
pub open spec fn list_bars(blocked: Seq<char>, model: Seq<char>) -> bool {
    exists|k: int|
        0 <= k < split_on(blocked, ',').len() && #[trigger] piece_bars(
            split_on(blocked, ',')[k],
            model,
        )
}

/// Two block lists joined by a comma bar a model exactly when one of them does: every entry
/// of the list is compared, not only the last.
pub proof fn lemma_block_lists_join(a: Seq<char>, b: Seq<char>, model: Seq<char>)
    ensures
        list_bars(a + seq![','] + b, model) == (list_bars(a, model) || list_bars(b, model)),
{
    lemma_split_join(a, b, ',');
    let pa = split_on(a, ',');
    let pb = split_on(b, ',');
    let ps = split_on(a + seq![','] + b, ',');
    assert(ps == pa + pb);
    if list_bars(a + seq![','] + b, model) {
        let k = choose|k: int| 0 <= k < ps.len() && #[trigger] piece_bars(ps[k], model);
        if k < pa.len() {
            assert(ps[k] == pa[k]);
            assert(piece_bars(pa[k], model));
        } else {
            assert(ps[k] == pb[k - pa.len()]);
            assert(piece_bars(pb[k - pa.len()], model));
        }
    }
    if list_bars(a, model) {
        let k = choose|k: int| 0 <= k < pa.len() && #[trigger] piece_bars(pa[k], model);
        assert(ps[k] == pa[k]);
        assert(piece_bars(ps[k], model));
    }
    if list_bars(b, model) {
        let k = choose|k: int| 0 <= k < pb.len() && #[trigger] piece_bars(pb[k], model);
        assert(ps[k + pa.len()] == pb[k]);
        assert(piece_bars(ps[k + pa.len()], model));
    }
}

/// A list of one entry bars a model exactly when the entry, trimmed, is not empty and occurs
/// in the model's name.
pub proof fn lemma_single_entry_bars(entry: Seq<char>, model: Seq<char>)
    requires
        lacks(entry, ','),
    ensures
        list_bars(entry, model) == (trim(entry).len() > 0 && contains_seq(model, trim(entry))),
{
    lemma_split_single(entry, ',');
    assert(split_on(entry, ',')[0] == entry);
    if trim(entry).len() > 0 && contains_seq(model, trim(entry)) {
        assert(piece_bars(split_on(entry, ',')[0], model));
    }
}

/// Whether the comma-separated block list `blocked` bars `model`.
pub fn model_blocked(blocked: &str, model: &str) -> (b: bool)
    ensures
        b == list_bars(blocked@, model@),
{
    let v = chars_of(blocked);
    let m = chars_of(model);
    let bounds = split_bounds(v.as_slice(), ',');
    let ghost pieces = split_on(v@, ',');
    assert(m@.subrange(0, m@.len() as int) =~= m@);
    let mut k: usize = 0;
    while k < bounds.len()
        invariant
            v@ == blocked@,
            m@ == model@,
            m@.subrange(0, m@.len() as int) == m@,
            pieces == split_on(v@, ','),
            bounds@.len() == pieces.len(),
            forall|i: int|
                #![trigger bounds@[i]]
                0 <= i < bounds@.len() ==> bounds@[i].0 <= bounds@[i].1 <= v@.len()
                    && v@.subrange(bounds@[i].0 as int, bounds@[i].1 as int) == pieces[i],
            k <= bounds@.len(),
            forall|i: int| 0 <= i < k ==> !#[trigger] piece_bars(pieces[i], model@),
        decreases bounds.len() - k,
    {
        let (lo, hi) = bounds[k];
        let (a, b) = trim_bounds(v.as_slice(), lo, hi);
        assert(bounds@[k as int] == (lo, hi));
        if a < b {
            let pat = string_of_range(v.as_slice(), a, b);
            let pv = chars_of(pat.as_str());
            if range_contains(m.as_slice(), 0, m.len(), pv.as_slice()) {
                assert(piece_bars(pieces[k as int], model@));
                return true;
            }
        }
        k = k + 1;
    }
    false
}

/// Why the proxy refuses or fails a request.
#[derive(PartialEq, Eq, Debug, Clone)]
pub enum ProxyError {
    /// The request names a model that the local block list bars.
    ModelBlocked,
    /// The peer-to-peer service is not running.
    PeerServiceUnavailable,
    /// No local key can serve the request and no peer granted it.
    NoGrant,
    /// The vault is locked.
    VaultLocked,
    /// No key is stored for the provider.
    NoProviderKey,
    /// The stored key could not be opened.
    KeyUnreadable(VaultError),
}

impl ProxyError {
    /// The message the client is told: a fixed text for each refusal, and the vault's own
    /// message where the stored key could not be opened.
    pub open spec fn text(self) -> Seq<char> {
        match self {
            ProxyError::ModelBlocked => "model blocked by local content filter"@,
            ProxyError::PeerServiceUnavailable => "P2P unavailable"@,
            ProxyError::NoGrant => "local key unavailable and no peers granted request"@,
            ProxyError::VaultLocked => "vault locked; unlock from Vault tab"@,
            ProxyError::NoProviderKey => "no provider key in vault"@,
            ProxyError::KeyUnreadable(e) => e.text(),
        }
    }

    /// The message the client is told.
    pub fn message(&self) -> (s: String)
        ensures
            s@ == self.text(),
    {
        match self {
            ProxyError::ModelBlocked => owned("model blocked by local content filter"),
            ProxyError::PeerServiceUnavailable => owned("P2P unavailable"),
            ProxyError::NoGrant => owned("local key unavailable and no peers granted request"),
            ProxyError::VaultLocked => owned("vault locked; unlock from Vault tab"),
            ProxyError::NoProviderKey => owned("no provider key in vault"),
            ProxyError::KeyUnreadable(e) => e.message(),
        }
    }
}

/// The verdict of the local content filter: a request is refused when the block list is not
/// blank, the body is a JSON document with a string `model`, and the list bars that model.
pub open spec fn content_filter_verdict(blocked_setting: Option<Seq<char>>, body: Seq<u8>) -> Result<
    (),
    ProxyError,
> {
    let blocked = match blocked_setting {
        Some(b) => b,
        None => Seq::empty(),
    };
    if trim(blocked).len() == 0 {
        Ok(())
    } else {
        match json_of_bytes(body) {
            Some(doc) => match member_str(doc, "model"@) {
                Some(model) => if list_bars(blocked, model) {
                    Err(ProxyError::ModelBlocked)
                } else {
                    Ok(())
                },
                None => Ok(()),
            },
            None => Ok(()),
        }
    }
}

/// Applies the local content filter, `blocked_setting` being the stored block list.
pub fn enforce_content_filter(blocked_setting: &Option<String>, request_body: &[u8]) -> (r: Result<
    (),
    ProxyError,
>)
    ensures
        r == content_filter_verdict(crate::tracker::opt_chars(*blocked_setting), request_body@),
{
    let blocked: &str = match blocked_setting {
        Some(b) => b.as_str(),
        None => "",
    };
    let v = chars_of(blocked);
    let (a, b) = trim_bounds(v.as_slice(), 0, v.len());
    assert(v@.subrange(0, v@.len() as int) =~= v@);
    proof {
        reveal_strlit("");
    }
    if a == b {
        return Ok(());
    }
    let doc = match parse_json(request_body) {
        Some(d) => d,
        None => return Ok(()),
    };
    match get_str(&doc, "model") {
        Some(model) => if model_blocked(blocked, model.as_str()) {
            Err(ProxyError::ModelBlocked)
        } else {
            Ok(())
        },
        None => Ok(()),
    }
}

/// Whether the local key can serve a request: one is stored, and the node is neither
/// sleeping nor paused.
pub fn local_available(key_exists: bool, availability_state: &str) -> (b: bool)
    ensures
        b == (key_exists && availability_state@ != "sleeping"@ && availability_state@
            != "paused"@),
{
    key_exists && !crate::text::same_text(availability_state, "sleeping")
        && !crate::text::same_text(availability_state, "paused")
}

/// The API host a provider's requests go to: OpenAI's for `openai`, Anthropic's otherwise.
pub open spec fn base_url_of(provider: Seq<char>) -> Seq<char> {
    if provider == "openai"@ {
        "https://api.openai.com"@
    } else {
        "https://api.anthropic.com"@
    }
}

/// The upstream URL: the provider's host, the path, and `?query` where there is a query.
pub open spec fn url_of(provider: Seq<char>, path: Seq<char>, query: Option<Seq<char>>) -> Seq<char> {
    base_url_of(provider) + path + match query {
        Some(q) => seq!['?'] + q,
        None => Seq::empty(),
    }
}

/// The upstream URL of a request for `provider` on `path` with `query`.
pub fn upstream_url(provider: &str, path: &str, query: &Option<String>) -> (u: String)
    ensures
        u@ == url_of(provider@, path@, opt_chars(*query)),
{
    let mut u = if crate::text::same_text(provider, "openai") {
        owned("https://api.openai.com")
    } else {
        owned("https://api.anthropic.com")
    };
    crate::text::append_str(&mut u, path);
    match query {
        Some(q) => {
            crate::text::push_char(&mut u, '?');
            crate::text::append_str(&mut u, q.as_str());
        },
        None => {},
    }
    u
}

/// The credential header a provider expects: `authorization: Bearer <key>` for OpenAI,
/// `x-api-key: <key>` otherwise.
pub open spec fn auth_header_of(provider: Seq<char>, key: Seq<char>) -> (Seq<char>, Seq<char>) {
    if provider == "openai"@ {
        ("authorization"@, "Bearer "@ + key)
    } else {
        ("x-api-key"@, key)
    }
}

/// The credential header for `provider` carrying `key`.
pub fn provider_auth_header(provider: &str, key: &str) -> (h: (String, String))
    ensures
        (h.0@, h.1@) == auth_header_of(provider@, key@),
{
    if crate::text::same_text(provider, "openai") {
        let mut v = owned("Bearer ");
        crate::text::append_str(&mut v, key);
        (owned("authorization"), v)
    } else {
        (owned("x-api-key"), owned(key))
    }
}

/// The views of a list of headers.
pub open spec fn header_views(h: Seq<(String, String)>) -> Seq<(Seq<char>, Seq<char>)> {
    h.map_values(|p: (String, String)| (p.0@, p.1@))
}

/// The headers of `h` that `keep` lets through, in order.
pub open spec fn headers_where(
    h: Seq<(Seq<char>, Seq<char>)>,
    keep: spec_fn(Seq<char>) -> bool,
) -> Seq<(Seq<char>, Seq<char>)>
    decreases h.len(),
{
    if h.len() == 0 {
        Seq::empty()
    } else {
        let rest = headers_where(h.drop_last(), keep);
        if keep(h.last().0) {
            rest.push(h.last())
        } else {
            rest
        }
    }
}

/// The headers a request keeps on its way from the client to the provider through the local
/// key: all but `host` and `content-length`.
pub open spec fn kept_locally(name: Seq<char>) -> bool {
    !skipped_header(name)
}

/// The headers sent upstream with the local key: the client's, less `host` and
/// `content-length`, then the provider's credential header.
pub fn local_upstream_headers(headers: &Vec<(String, String)>, provider: &str, key: &str) -> (r: Vec<
    (String, String),
>)
    ensures
        header_views(r@) == headers_where(header_views(headers@), |n: Seq<char>| kept_locally(n)).push(
            auth_header_of(provider@, key@),
        ),
{
    let mut r: Vec<(String, String)> = Vec::new();
    let ghost hv = header_views(headers@);
    let ghost keep = |n: Seq<char>| kept_locally(n);
    let mut i: usize = 0;
    while i < headers.len()
        invariant
            i <= headers@.len(),
            hv == header_views(headers@),
            keep == (|n: Seq<char>| kept_locally(n)),
            header_views(r@) == headers_where(hv.take(i as int), keep),
        decreases headers.len() - i,
    {
        let (name, value) = &headers[i];
        assert(hv.take(i + 1).drop_last() =~= hv.take(i as int));
        assert(hv.take(i + 1).last() == (name@, value@));
        if !should_skip_header(name.as_str()) {
            let ghost before = r@;
            r.push((name.clone(), value.clone()));
            assert(header_views(r@) =~= header_views(before).push((name@, value@)));
        }
        i = i + 1;
    }
    assert(hv.take(hv.len() as int) =~= hv);
    let ghost before = r@;
    let auth = provider_auth_header(provider, key);
    r.push(auth);
    assert(header_views(r@) =~= header_views(before).push(auth_header_of(provider@, key@)));
    r
}

/// What opening the stored key needs, in order: an unlocked vault, a stored key, and a sealed
/// key that opens with the vault password and device salt.
pub open spec fn local_credential_ok(
    password: Option<Seq<char>>,
    stored: Option<Seq<char>>,
    device_salt: Seq<char>,
    r: Result<Seq<char>, ProxyError>,
) -> bool {
    match password {
        None => r == Err::<Seq<char>, ProxyError>(ProxyError::VaultLocked),
        Some(pw) => match stored {
            None => r == Err::<Seq<char>, ProxyError>(ProxyError::NoProviderKey),
            Some(sealed) => match r {
                Ok(k) => opens_to(sealed, pw, device_salt, Ok(k)),
                Err(ProxyError::KeyUnreadable(e)) => opens_to(sealed, pw, device_salt, Err(e)),
                Err(_) => false,
            },
        },
    }
}

/// The provider key the local proxy calls with, opened from its sealed form.
pub fn local_credential(password: &Option<String>, stored: &Option<StoredKey>, device_salt: &str) -> (r:
    Result<String, ProxyError>)
    ensures
        local_credential_ok(opt_chars(*password), match stored {
            Some(k) => Some(k.encrypted_key@),
            None => None,
        }, device_salt@, match r {
            Ok(k) => Ok(k@),
            Err(e) => Err(e),
        }),
{
    let pw = match password {
        Some(p) => p,
        None => return Err(ProxyError::VaultLocked),
    };
    let key = match stored {
        Some(k) => k,
        None => return Err(ProxyError::NoProviderKey),
    };
    match decrypt_api_key(key.encrypted_key.as_str(), pw.as_str(), device_salt) {
        Ok(k) => Ok(k),
        Err(e) => Err(ProxyError::KeyUnreadable(e)),
    }
}

/// The usage one chunk of an event stream reports: that of its last reporting line, where the
/// chunk is valid UTF-8.
pub open spec fn chunk_usage(chunk: Seq<u8>) -> Option<UsageView> {
    if valid_utf8(chunk) {
        last_usage(split_on(decode_utf8(chunk), '\n'))
    } else {
        None
    }
}

/// Running usage of a stream after a chunk: the larger of each count, and the chunk's model
/// where it names one.
pub open spec fn merged_usage(acc: UsageView, u: Option<UsageView>) -> UsageView {
    match u {
        Some(u) => UsageView {
            input_tokens: if u.input_tokens >= acc.input_tokens {
                u.input_tokens
            } else {
                acc.input_tokens
            },
            output_tokens: if u.output_tokens >= acc.output_tokens {
                u.output_tokens
            } else {
                acc.output_tokens
            },
            model: if u.model is Some {
                u.model
            } else {
                acc.model
            },
        },
        None => acc,
    }
}

/// The usage of a whole event stream, chunk by chunk from zero counts and no model.
pub open spec fn stream_usage(chunks: Seq<Seq<u8>>) -> UsageView
    decreases chunks.len(),
{
    if chunks.len() == 0 {
        UsageView { input_tokens: 0, output_tokens: 0, model: None }
    } else {
        merged_usage(stream_usage(chunks.drop_last()), chunk_usage(chunks.last()))
    }
}

/// The chunks of a stream, one after the other.
pub open spec fn joined(chunks: Seq<Seq<u8>>) -> Seq<u8>
    decreases chunks.len(),
{
    if chunks.len() == 0 {
        Seq::empty()
    } else {
        joined(chunks.drop_last()) + chunks.last()
    }
}

/// The views of a list of byte buffers.
pub open spec fn byte_views(v: Seq<Vec<u8>>) -> Seq<Seq<u8>> {
    v.map_values(|b: Vec<u8>| b@)
}

/// Reads a streamed response: the usage it reports, and all its bytes in order.
pub fn aggregate_event_stream(chunks: &Vec<Vec<u8>>) -> (r: (UsageStats, Vec<u8>))
    ensures
        r.0@ == stream_usage(byte_views(chunks@)),
        r.1@ == joined(byte_views(chunks@)),
{
    let ghost cv = byte_views(chunks@);
    let mut acc = UsageStats { input_tokens: 0, output_tokens: 0, model: None };
    let mut all: Vec<u8> = Vec::new();
    let mut i: usize = 0;
    while i < chunks.len()
        invariant
            i <= chunks@.len(),
            cv == byte_views(chunks@),
            acc@ == stream_usage(cv.take(i as int)),
            all@ == joined(cv.take(i as int)),
        decreases chunks.len() - i,
    {
        let chunk = &chunks[i];
        assert(cv.take(i + 1).drop_last() =~= cv.take(i as int));
        assert(cv.take(i + 1).last() == chunk@);
        let copy = vstd::slice::slice_to_vec(chunk.as_slice());
        let found = match utf8_string(copy) {
            Some(text) => usage_from_sse_chunk(text.as_str()),
            None => None,
        };
        match found {
            Some(u) => {
                if u.input_tokens >= acc.input_tokens {
                    acc.input_tokens = u.input_tokens;
                }
                if u.output_tokens >= acc.output_tokens {
                    acc.output_tokens = u.output_tokens;
                }
                if u.model.is_some() {
                    acc.model = u.model;
                }
            },
            None => {},
        }
        append_bytes(&mut all, chunk.as_slice());
        i = i + 1;
    }
    assert(cv.take(cv.len() as int) =~= cv);
    (acc, all)
}

/// What the local proxy reports of an upstream response: its status, headers and bytes
/// (base64), the usage found in it, and the upstream request id. The request hash field holds
/// `local`.
pub fn local_relay_response(
    status: u16,
    headers: Vec<(String, String)>,
    body: &[u8],
    usage: UsageStats,
    request_id: Option<String>,
) -> (r: ProxyRelayResponse)
    ensures
        r.request_hash@ == "local"@,
        r.status == status,
        r.headers == headers,
        r.body_b64@ == base64_text(body@),
        r.model == usage.model,
        r.input_tokens == usage.input_tokens,
        r.output_tokens == usage.output_tokens,
        r.request_id == request_id,
        r.error is None,
{
    ProxyRelayResponse {
        request_hash: owned("local"),
        status,
        headers,
        body_b64: base64_encode(body),
        model: usage.model,
        input_tokens: usage.input_tokens,
        output_tokens: usage.output_tokens,
        request_id,
        error: None,
    }
}

/// The usage a whole JSON response body reports, zero counts and no model where it reports
/// none.
pub open spec fn body_usage_or_zero(body: Seq<u8>) -> UsageView {
    match usage_of_body(body) {
        Some(u) => u,
        None => UsageView { input_tokens: 0, output_tokens: 0, model: None },
    }
}

/// The usage of a JSON response body, zero where it reports none.
pub fn json_body_usage(body: &[u8]) -> (u: UsageStats)
    ensures
        u@ == body_usage_or_zero(body@),
{
    match usage_from_json_body(body) {
        Some(u) => u,
        None => UsageStats { input_tokens: 0, output_tokens: 0, model: None },
    }
}

/// The transaction a served request records and publishes: its type, the peer involved, the
/// provider, the response's model and counts, and the request hash.
pub fn transaction_for(
    tx_type: &str,
    peer_id: &Option<String>,
    provider: &str,
    response: &ProxyRelayResponse,
    request_hash: &str,
) -> (t: TransactionInsert)
    ensures
        t.tx_type@ == tx_type@,
        opt_chars(t.peer_id) == opt_chars(*peer_id),
        t.provider@ == provider@,
        opt_chars(t.model) == opt_chars(response.model),
        t.input_tokens == response.input_tokens,
        t.output_tokens == response.output_tokens,
        t.request_hash@ == request_hash@,
{
    TransactionInsert {
        tx_type: owned(tx_type),
        peer_id: clone_opt(peer_id),
        provider: owned(provider),
        model: clone_opt(&response.model),
        input_tokens: response.input_tokens,
        output_tokens: response.output_tokens,
        request_hash: owned(request_hash),
    }
}

/// A copy of an optional string.
pub fn clone_opt(o: &Option<String>) -> (r: Option<String>)
    ensures
        opt_chars(r) == opt_chars(*o),
{
    match o {
        Some(s) => Some(s.clone()),
        None => None,
    }
}

/// The three rows a served request leaves: its metadata (counts, never content), its ledger
/// transaction, and an audit entry marked with the transaction's type.
pub struct UsageRows {
    pub request: RequestInsert,
    pub transaction: TransactionInsert,
    pub audit: AuditInsert,
}

/// The rows a request served through the proxy records, `source` naming how it was served.
pub fn usage_rows(
    provider: &str,
    tx_type: &str,
    peer_id: &Option<String>,
    request_hash: &str,
    response: &ProxyRelayResponse,
    source: &str,
) -> (r: UsageRows)
    ensures
        opt_chars(r.request.model) == opt_chars(response.model),
        r.request.input_tokens == response.input_tokens,
        r.request.output_tokens == response.output_tokens,
        r.request.source@ == source@,
        opt_chars(r.request.request_id) == opt_chars(response.request_id),
        r.transaction.tx_type@ == tx_type@,
        opt_chars(r.transaction.peer_id) == opt_chars(*peer_id),
        r.transaction.provider@ == provider@,
        opt_chars(r.transaction.model) == opt_chars(response.model),
        r.transaction.input_tokens == response.input_tokens,
        r.transaction.output_tokens == response.output_tokens,
        r.transaction.request_hash@ == request_hash@,
        r.audit.direction@ == tx_type@,
        opt_chars(r.audit.peer_id) == opt_chars(*peer_id),
        opt_chars(r.audit.model) == opt_chars(response.model),
        r.audit.input_tokens == response.input_tokens,
        r.audit.output_tokens == response.output_tokens,
        r.audit.request_nonce@ == request_hash@,
{
    UsageRows {
        request: RequestInsert {
            model: clone_opt(&response.model),
            input_tokens: response.input_tokens,
            output_tokens: response.output_tokens,
            source: owned(source),
            request_id: clone_opt(&response.request_id),
        },
        transaction: transaction_for(tx_type, peer_id, provider, response, request_hash),
        audit: AuditInsert {
            direction: owned(tx_type),
            peer_id: clone_opt(peer_id),
            model: clone_opt(&response.model),
            input_tokens: response.input_tokens,
            output_tokens: response.output_tokens,
            request_nonce: owned(request_hash),
        },
    }
}

/// `c` as it stands inside a JSON string: quote, backslash and control characters escaped,
/// the usual short forms where there is one and `\u00XX` (small hex digits) otherwise.
pub open spec fn json_escaped_char(c: char) -> Seq<char> {
    if c == '"' {
        seq!['\\', '"']
    } else if c == '\\' {
        seq!['\\', '\\']
    } else if c == '\n' {
        seq!['\\', 'n']
    } else if c == '\r' {
        seq!['\\', 'r']
    } else if c == '\t' {
        seq!['\\', 't']
    } else if c == '\x08' {
        seq!['\\', 'b']
    } else if c == '\x0c' {
        seq!['\\', 'f']
    } else if (c as u32) < 0x20 {
        seq!['\\', 'u', '0', '0', hex_lower_digit(((c as u32) / 16) as u8), hex_lower_digit(((c as u32) % 16) as u8)]
    } else {
        seq![c]
    }
}

/// The characters of `s`, each escaped for a JSON string.
pub open spec fn json_escaped(s: Seq<char>) -> Seq<char>
    decreases s.len(),
{
    if s.len() == 0 {
        Seq::empty()
    } else {
        json_escaped(s.drop_last()) + json_escaped_char(s.last())
    }
}

/// `s` as a JSON string literal.
pub open spec fn json_quoted(s: Seq<char>) -> Seq<char> {
    seq!['"'] + json_escaped(s) + seq!['"']
}

/// The JSON document `{"error":<msg>}`, as the proxy answers a failure.
pub open spec fn error_document(msg: Seq<char>) -> Seq<char> {
    "{\"error\":"@ + json_quoted(msg) + seq!['}']
}

/// Appends `c` to `out`, escaped for a JSON string.
fn push_json_escaped(out: &mut String, c: char)
    ensures
        final(out)@ == old(out)@ + json_escaped_char(c),
{
    let u = c as u32;
    if c == '"' {
        crate::text::push_char(out, '\\');
        crate::text::push_char(out, '"');
    } else if c == '\\' {
        crate::text::push_char(out, '\\');
        crate::text::push_char(out, '\\');
    } else if c == '\n' {
        crate::text::push_char(out, '\\');
        crate::text::push_char(out, 'n');
    } else if c == '\r' {
        crate::text::push_char(out, '\\');
        crate::text::push_char(out, 'r');
    } else if c == '\t' {
        crate::text::push_char(out, '\\');
        crate::text::push_char(out, 't');
    } else if c == '\x08' {
        crate::text::push_char(out, '\\');
        crate::text::push_char(out, 'b');
    } else if c == '\x0c' {
        crate::text::push_char(out, '\\');
        crate::text::push_char(out, 'f');
    } else if u < 0x20 {
        let b = u as u8;
        crate::text::push_char(out, '\\');
        crate::text::push_char(out, 'u');
        crate::text::push_char(out, '0');
        crate::text::push_char(out, '0');
        crate::text::push_char(out, lower_hex_digit(b / 16));
        crate::text::push_char(out, lower_hex_digit(b % 16));
        assert(((c as u32) / 16) as u8 == b / 16 && ((c as u32) % 16) as u8 == b % 16);
    } else {
        crate::text::push_char(out, c);
    }
    assert(final(out)@ =~= old(out)@ + json_escaped_char(c));
}

/// Appends `t` to `out` as a JSON string literal.
pub fn append_json_string(out: &mut String, t: &str)
    ensures
        final(out)@ == old(out)@ + json_quoted(t@),
{
    let v = chars_of(t);
    crate::text::push_char(out, '"');
    let ghost start = out@;
    let mut i: usize = 0;
    while i < v.len()
        invariant
            i <= v@.len(),
            v@ == t@,
            start == old(out)@.push('"'),
            out@ == start + json_escaped(v@.take(i as int)),
        decreases v.len() - i,
    {
        push_json_escaped(out, v[i]);
        assert(v@.take(i + 1).drop_last() =~= v@.take(i as int));
        assert(out@ =~= start + json_escaped(v@.take(i + 1)));
        i = i + 1;
    }
    crate::text::push_char(out, '"');
    assert(v@.take(v@.len() as int) =~= v@);
    assert(out@ =~= old(out)@ + json_quoted(t@));
}

/// The JSON document `{"error":<msg>}`.
pub fn error_json(msg: &str) -> (s: String)
    ensures
        s@ == error_document(msg@),
{
    let mut s = owned("{\"error\":");
    append_json_string(&mut s, msg);
    crate::text::push_char(&mut s, '}');
    s
}

/// What the proxy answers its client: a status, headers and body bytes.
pub struct ProxyReply {
    pub status: u16,
    pub headers: Vec<(String, String)>,
    pub body: Vec<u8>,
}

/// The headers a reply copies from a relayed response: all but `host` and `content-length`.
pub fn reply_headers(headers: &Vec<(String, String)>) -> (r: Vec<(String, String)>)
    ensures
        header_views(r@) == headers_where(header_views(headers@), |n: Seq<char>| kept_locally(n)),
{
    let mut r: Vec<(String, String)> = Vec::new();
    let ghost hv = header_views(headers@);
    let ghost keep = |n: Seq<char>| kept_locally(n);
    let mut i: usize = 0;
    while i < headers.len()
        invariant
            i <= headers@.len(),
            hv == header_views(headers@),
            keep == (|n: Seq<char>| kept_locally(n)),
            header_views(r@) == headers_where(hv.take(i as int), keep),
        decreases headers.len() - i,
    {
        let (name, value) = &headers[i];
        assert(hv.take(i + 1).drop_last() =~= hv.take(i as int));
        assert(hv.take(i + 1).last() == (name@, value@));
        if !should_skip_header(name.as_str()) {
            let ghost before = r@;
            r.push((name.clone(), value.clone()));
            assert(header_views(r@) =~= header_views(before).push((name@, value@)));
        }
        i = i + 1;
    }
    assert(hv.take(hv.len() as int) =~= hv);
    r
}

/// The reply to the client for a relayed response: where the lender reports an error, its
/// status with a JSON `{"error":..}` body; otherwise its status, its headers less `host` and
/// `content-length`, and its body decoded from base64 (empty where that fails).
pub fn relay_reply(res: &ProxyRelayResponse) -> (r: ProxyReply)
    ensures
        r.status == res.status,
        match res.error {
            Some(e) => {
                &&& header_views(r.headers@) == seq![("content-type"@, "application/json"@)]
                &&& r.body@ == encode_utf8(error_document(e@))
            },
            None => {
                &&& header_views(r.headers@) == headers_where(
                    header_views(res.headers@),
                    |n: Seq<char>| kept_locally(n),
                )
                &&& r.body@ == match base64_bytes(res.body_b64@) {
                    Some(b) => b,
                    None => Seq::empty(),
                }
            },
        },
{
    match &res.error {
        Some(e) => {
            let body = error_json(e.as_str());
            let headers = vec![(owned("content-type"), owned("application/json"))];
            assert(header_views(headers@) =~= seq![("content-type"@, "application/json"@)]);
            ProxyReply {
                status: res.status,
                headers,
                body: vstd::slice::slice_to_vec(body.as_str().as_bytes()),
            }
        },
        None => {
            let body = match base64_decode(res.body_b64.as_str()) {
                Some(b) => b,
                None => Vec::new(),
            };
            ProxyReply { status: res.status, headers: reply_headers(&res.headers), body }
        },
    }
}

/// The reply for a request the proxy could not serve: 502 with a JSON `{"error":..}` body.
pub fn failure_reply(msg: &str) -> (r: ProxyReply)
    ensures
        r.status == 502,
        header_views(r.headers@) == seq![("content-type"@, "application/json"@)],
        r.body@ == encode_utf8(error_document(msg@)),
{
    let body = error_json(msg);
    let headers = vec![(owned("content-type"), owned("application/json"))];
    assert(header_views(headers@) =~= seq![("content-type"@, "application/json"@)]);
    ProxyReply { status: 502, headers, body: vstd::slice::slice_to_vec(body.as_str().as_bytes()) }
}

/// Whether an upstream reply with this `content-type` is a stream of server-sent events.
pub fn is_event_stream(content_type: &str) -> (b: bool)
    ensures
        b == contains_seq(content_type@, "text/event-stream"@),
{
    let v = chars_of(content_type);
    let t = chars_of("text/event-stream");
    assert(v@.subrange(0, v@.len() as int) =~= v@);
    range_contains(v.as_slice(), 0, v.len(), t.as_slice())
}

/// A header that carries the client's own credential: `x-api-key` or `authorization`, in any
/// case. Such a header never leaves this node.
pub open spec fn credential_header(name: Seq<char>) -> bool {
    ascii_lower(name) == "x-api-key"@ || ascii_lower(name) == "authorization"@
}

/// A header relayed to the peer: any but a credential.
pub open spec fn relayed_header(name: Seq<char>) -> bool {
    !credential_header(name)
}

/// Whether `name` carries the client's own credential.
pub fn is_credential_header(name: &str) -> (b: bool)
    ensures
        b == credential_header(name@),
{
    let lower = to_ascii_lower(name);
    let n = lower.len();
    assert(lower@.subrange(0, n as int) =~= lower@);
    range_equals(lower.as_slice(), 0, n, chars_of("x-api-key").as_slice()) || range_equals(
        lower.as_slice(),
        0,
        n,
        chars_of("authorization").as_slice(),
    )
}

/// The request a borrower relays to the peer that granted it: hash, provider, method, path,
/// query and headers as the client sent them, less its credentials, and the body in base64.
pub fn relay_request_for(
    request_hash: &str,
    provider: &str,
    method: &str,
    path: &str,
    query: &Option<String>,
    headers: Vec<(String, String)>,
    body: &[u8],
) -> (r: ProxyRelayRequest)
    ensures
        r.request_hash@ == request_hash@,
        r.provider@ == provider@,
        r.method@ == method@,
        r.path@ == path@,
        opt_chars(r.query) == opt_chars(*query),
        header_views(r.headers@) == headers_where(header_views(headers@), |n: Seq<char>| relayed_header(n)),
        r.body_b64@ == base64_text(body@),
{
    let mut kept: Vec<(String, String)> = Vec::new();
    let ghost hv = header_views(headers@);
    let ghost keep = |n: Seq<char>| relayed_header(n);
    let mut i: usize = 0;
    while i < headers.len()
        invariant
            i <= headers@.len(),
            hv == header_views(headers@),
            keep == (|n: Seq<char>| relayed_header(n)),
            header_views(kept@) == headers_where(hv.take(i as int), keep),
        decreases headers.len() - i,
    {
        let (name, value) = &headers[i];
        assert(hv.take(i + 1).drop_last() =~= hv.take(i as int));
        assert(hv.take(i + 1).last() == (name@, value@));
        if !is_credential_header(name.as_str()) {
            let ghost before = kept@;
            kept.push((name.clone(), value.clone()));
            assert(header_views(kept@) =~= header_views(before).push((name@, value@)));
        }
        i = i + 1;
    }
    assert(hv.take(hv.len() as int) =~= hv);
    ProxyRelayRequest {
        request_hash: owned(request_hash),
        provider: owned(provider),
        method: owned(method),
        path: owned(path),
        query: clone_opt(query),
        headers: kept,
        body_b64: base64_encode(body),
    }
}

} // verus!
