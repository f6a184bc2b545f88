use vstd::prelude::*;
use vstd::utf8::encode_utf8;

use crate::encoding::{
    base64url_encode, base64url_text, percent_encoded, random_bytes, sha256, sha256_of, url_encode,
};
use crate::numbers::{i64_text, int_text, lemma_int_text_lacks_comma, parse_u16, parsed_u16};
use crate::proxy::{append_json_string, json_quoted};
use crate::records::TransactionRecord;
use crate::text::{append_str, lacks, lemma_split_join, lemma_split_single, owned, same_text, split_on};
use crate::tracker::opt_chars;

verus! {

broadcast use vstd::string::group_string_axioms;

/// The port the local proxy listens on when none is stored.
pub const DEFAULT_PROXY_PORT: u16 = 47821;

/// Why the stored proxy port cannot be used.
#[derive(Debug, Clone)]
pub enum PortError {
    /// The stored value is not a port number; it is kept for the message.
    Invalid(String),
}

impl PortError {
    /// The message the failure is reported with: `invalid proxy port in settings: <value>`.
    pub fn message(&self) -> (s: String)
        ensures
            match self {
                PortError::Invalid(v) => s@ == "invalid proxy port in settings: "@ + v@,
            },
    {
        match self {
            PortError::Invalid(v) => {
                let mut s = owned("invalid proxy port in settings: ");
                append_str(&mut s, v.as_str());
                s
            },
        }
    }
}

/// The proxy port from its stored setting: the setting read as a port number, `47821` where
/// none is stored, and an error naming the value where it is not a port number.
pub fn read_proxy_port(setting: &Option<String>) -> (r: Result<u16, PortError>)
    ensures
        ({
            let value = match setting {
                Some(v) => v@,
                None => "47821"@,
            };
            match parsed_u16(value) {
                Some(p) => r == Ok::<u16, PortError>(p),
                None => r matches Err(PortError::Invalid(v)) && v@ == value,
            }
        }),
{
    let value = match setting {
        Some(v) => v.clone(),
        None => owned("47821"),
    };
    match parse_u16(value.as_str()) {
        Some(p) => Ok(p),
        None => Err(PortError::Invalid(value)),
    }
}

/// The relay mode in use: the stored one, `self_hosted` where none is stored.
pub fn relay_mode(setting: &Option<String>) -> (m: String)
    ensures
        m@ == match setting {
            Some(s) => s@,
            None => "self_hosted"@,
        },
{
    match setting {
        Some(s) => s.clone(),
        None => owned("self_hosted"),
    }
}

/// The relay modes a user can choose.
pub open spec fn is_relay_mode(m: Seq<char>) -> bool {
    m == "off"@ || m == "self_hosted"@ || m == "community"@
}

/// A relay mode to store: one of `off`, `self_hosted`, `community`, or the refusal
/// `relay_mode must be one of: off|self_hosted|community`.
pub fn normalize_relay_mode(mode: String) -> (r: Result<String, String>)
    ensures
        is_relay_mode(mode@) ==> r == Ok::<String, String>(mode),
        !is_relay_mode(mode@) ==> (r matches Err(e) && e@
            == "relay_mode must be one of: off|self_hosted|community"@),
{
    if same_text(mode.as_str(), "off") || same_text(mode.as_str(), "self_hosted") || same_text(
        mode.as_str(),
        "community",
    ) {
        Ok(mode)
    } else {
        Err(owned("relay_mode must be one of: off|self_hosted|community"))
    }
}

/// The relay a starting node dials: the stored relay address, unless the relay mode (by
/// default `self_hosted`) is `off` or no address is stored.
pub fn relay_to_dial(mode_setting: &Option<String>, relay_addr: &Option<String>) -> (r: Option<
    String,
>)
    ensures
        ({
            let mode = match mode_setting {
                Some(s) => s@,
                None => "self_hosted"@,
            };
            if mode == "off"@ {
                r is None
            } else {
                opt_chars(r) == opt_chars(*relay_addr)
            }
        }),
{
    let mode = relay_mode(mode_setting);
    if same_text(mode.as_str(), "off") {
        None
    } else {
        crate::proxy::clone_opt(relay_addr)
    }
}

/// Whether a new connection switches the relay off: the first direct (not relayed)
/// connection does, once.
pub fn relay_switch_off(already_switched: bool, via_relay: bool) -> (b: bool)
    ensures
        b == (!already_switched && !via_relay),
{
    !already_switched && !via_relay
}

/// A stored flag read as a boolean: it is set when it reads `1`, and `default` stands for a
/// missing value.
pub open spec fn flag_of(setting: Option<Seq<char>>, default: Seq<char>) -> bool {
    match setting {
        Some(s) => s == "1"@,
        None => default == "1"@,
    }
}

/// A stored flag, `default` standing for a missing value.
pub fn read_flag(setting: &Option<String>, default: &str) -> (b: bool)
    ensures
        b == flag_of(opt_chars(*setting), default@),
{
    match setting {
        Some(s) => same_text(s.as_str(), "1"),
        None => same_text(default, "1"),
    }
}

/// The text a flag is stored as: `1` or `0`.
pub fn flag_text(b: bool) -> (s: String)
    ensures
        s@ == if b {
            "1"@
        } else {
            "0"@
        },
{
    if b {
        owned("1")
    } else {
        owned("0")
    }
}

/// Whether onboarding was completed (stored `1`; `0` by default).
pub fn onboarding_completed(setting: &Option<String>) -> (b: bool)
    ensures
        b == flag_of(opt_chars(*setting), "0"@),
{
    read_flag(setting, "0")
}

/// The user's preferences.
pub struct AppPreferences {
    pub auto_start: bool,
    pub notifications_enabled: bool,
    pub appearance: String,
    pub proxy_port: u16,
}

/// The preferences from their stored settings: auto start off, notifications on and a dark
/// appearance by default.
pub fn app_preferences(
    auto_start: &Option<String>,
    notifications: &Option<String>,
    appearance: &Option<String>,
    proxy_port: u16,
) -> (p: AppPreferences)
    ensures
        p.auto_start == flag_of(opt_chars(*auto_start), "0"@),
        p.notifications_enabled == flag_of(opt_chars(*notifications), "1"@),
        p.appearance@ == match appearance {
            Some(a) => a@,
            None => "dark"@,
        },
        p.proxy_port == proxy_port,
{
    AppPreferences {
        auto_start: read_flag(auto_start, "0"),
        notifications_enabled: read_flag(notifications, "1"),
        appearance: match appearance {
            Some(a) => a.clone(),
            None => owned("dark"),
        },
        proxy_port,
    }
}

/// The settings the store starts with, each written where it is not stored yet, as
/// (key, value) in order: the proxy port, the default per-peer rate limit, an empty model
/// block list, content logging off, the self-hosted relay, and a Lamport clock at zero.
pub open spec fn default_settings_spec() -> Seq<(Seq<char>, Seq<char>)> {
    seq![
        ("proxy_port"@, "47821"@),
        ("peer_default_rate_limit_per_min"@, "30"@),
        ("blocked_model_patterns"@, ""@),
        ("log_content"@, "false"@),
        ("relay_mode"@, "self_hosted"@),
        ("lamport_clock"@, "0"@),
    ]
}

/// The settings the store starts with.
pub fn default_settings() -> (r: Vec<(String, String)>)
    ensures
        crate::proxy::header_views(r@) == default_settings_spec(),
{
    let r = vec![
        (owned("proxy_port"), owned("47821")),
        (owned("peer_default_rate_limit_per_min"), owned("30")),
        (owned("blocked_model_patterns"), owned("")),
        (owned("log_content"), owned("false")),
        (owned("relay_mode"), owned("self_hosted")),
        (owned("lamport_clock"), owned("0")),
    ];
    assert(crate::proxy::header_views(r@) =~= default_settings_spec());
    r
}

/// A setting entry, where `missing` says the setting is not stored yet.
pub open spec fn entry_if(missing: bool, key: Seq<char>, value: Seq<char>) -> Seq<(Seq<char>, Seq<char>)> {
    if missing {
        seq![(key, value)]
    } else {
        Seq::empty()
    }
}

/// The settings a first start stores, where they are not stored yet: onboarding not done,
/// auto start off, notifications on, dark appearance; each as (key, value), in that order.
pub fn initial_settings(
    onboarding: &Option<String>,
    auto_start: &Option<String>,
    notifications: &Option<String>,
    appearance: &Option<String>,
) -> (r: Vec<(String, String)>)
    ensures
        crate::proxy::header_views(r@) == entry_if(onboarding is None, "onboarding_completed"@, "0"@)
            + entry_if(auto_start is None, "pref_auto_start"@, "0"@) + entry_if(
            notifications is None,
            "pref_notifications"@,
            "1"@,
        ) + entry_if(appearance is None, "pref_appearance"@, "dark"@),
{
    let mut r: Vec<(String, String)> = Vec::new();
    let ghost e1 = entry_if(onboarding is None, "onboarding_completed"@, "0"@);
    let ghost e2 = entry_if(auto_start is None, "pref_auto_start"@, "0"@);
    let ghost e3 = entry_if(notifications is None, "pref_notifications"@, "1"@);
    let ghost e4 = entry_if(appearance is None, "pref_appearance"@, "dark"@);
    if onboarding.is_none() {
        r.push((owned("onboarding_completed"), owned("0")));
    }
    assert(crate::proxy::header_views(r@) =~= e1);
    if auto_start.is_none() {
        r.push((owned("pref_auto_start"), owned("0")));
    }
    assert(crate::proxy::header_views(r@) =~= e1 + e2);
    if notifications.is_none() {
        r.push((owned("pref_notifications"), owned("1")));
    }
    assert(crate::proxy::header_views(r@) =~= e1 + e2 + e3);
    if appearance.is_none() {
        r.push((owned("pref_appearance"), owned("dark")));
    }
    assert(crate::proxy::header_views(r@) =~= e1 + e2 + e3 + e4);
    r
}

/// Anthropic's sign-in settings.
pub struct AnthropicOAuthConfig {
    pub client_id: String,
    pub authorize_url: String,
    pub token_url: String,
    pub redirect_uri: String,
    pub scopes: String,
}

/// `setting`'s text, `default` where none is stored.
pub open spec fn or_default(setting: Option<Seq<char>>, default: Seq<char>) -> Seq<char> {
    match setting {
        Some(s) => s,
        None => default,
    }
}

fn text_or(setting: &Option<String>, default: &str) -> (s: String)
    ensures
        s@ == or_default(opt_chars(*setting), default@),
{
    match setting {
        Some(v) => v.clone(),
        None => owned(default),
    }
}

/// Anthropic's sign-in settings from their stored values, with the defaults: no client id, no
/// authorize page, no token URL, the local callback on port 8787, and the scopes for profile,
/// inference, sessions and MCP servers.
pub fn anthropic_oauth_config(
    client_id: &Option<String>,
    authorize_url: &Option<String>,
    token_url: &Option<String>,
    redirect_uri: &Option<String>,
    scopes: &Option<String>,
) -> (c: AnthropicOAuthConfig)
    ensures
        c.client_id@ == or_default(opt_chars(*client_id), ""@),
        c.authorize_url@ == or_default(opt_chars(*authorize_url), ""@),
        c.token_url@ == or_default(opt_chars(*token_url), ""@),
        c.redirect_uri@ == or_default(opt_chars(*redirect_uri), "http://127.0.0.1:8787/oauth/callback"@),
        c.scopes@ == or_default(
            opt_chars(*scopes),
            "user:profile user:inference user:sessions:claude_code user:mcp_servers"@,
        ),
{
    AnthropicOAuthConfig {
        client_id: text_or(client_id, ""),
        authorize_url: text_or(authorize_url, ""),
        token_url: text_or(token_url, ""),
        redirect_uri: text_or(redirect_uri, "http://127.0.0.1:8787/oauth/callback"),
        scopes: text_or(scopes, "user:profile user:inference user:sessions:claude_code user:mcp_servers"),
    }
}

/// What starting an OAuth sign-in gives the interface.
pub struct OAuthAuthorizePayload {
    pub authorize_url: String,
    pub state: String,
    pub code_verifier: String,
}

/// The authorize URL of a PKCE sign-in: the base, then the fixed and encoded parameters in
/// order (client id, scope and redirect URI percent-encoded; challenge and state as they are).
pub open spec fn authorize_url_text(
    base: Seq<char>,
    client_id: Seq<char>,
    scopes: Seq<char>,
    challenge: Seq<char>,
    state: Seq<char>,
    redirect_uri: Seq<char>,
) -> Seq<char> {
    base + "?code=true&client_id="@ + percent_encoded(encode_utf8(client_id)) + "&response_type=code&scope="@
        + percent_encoded(encode_utf8(scopes)) + "&code_challenge="@ + challenge
        + "&code_challenge_method=S256&state="@ + state + "&redirect_uri="@ + percent_encoded(
        encode_utf8(redirect_uri),
    )
}

/// The sign-in payload for given random bytes: the verifier is the unpadded URL-safe base64
/// of `verifier_bytes`, the challenge that of the verifier's SHA-256 (S256), the state that
/// of `state_bytes`; the base is the stored authorize page (empty where none is given).
pub fn authorize_payload(
    verifier_bytes: &[u8],
    state_bytes: &[u8],
    client_id: &str,
    redirect_uri: &str,
    scopes: &str,
    authorize_base_url: &Option<String>,
) -> (p: OAuthAuthorizePayload)
    ensures
        p.code_verifier@ == base64url_text(verifier_bytes@),
        p.state@ == base64url_text(state_bytes@),
        p.authorize_url@ == authorize_url_text(
            or_default(opt_chars(*authorize_base_url), ""@),
            client_id@,
            scopes@,
            base64url_text(sha256_of(encode_utf8(base64url_text(verifier_bytes@)))),
            base64url_text(state_bytes@),
            redirect_uri@,
        ),
{
    let code_verifier = base64url_encode(verifier_bytes);
    let digest = sha256(code_verifier.as_str().as_bytes());
    let challenge = base64url_encode(digest.as_slice());
    let state = base64url_encode(state_bytes);
    let mut url = text_or(authorize_base_url, "");
    append_str(&mut url, "?code=true&client_id=");
    let c = url_encode(client_id);
    append_str(&mut url, c.as_str());
    append_str(&mut url, "&response_type=code&scope=");
    let s = url_encode(scopes);
    append_str(&mut url, s.as_str());
    append_str(&mut url, "&code_challenge=");
    append_str(&mut url, challenge.as_str());
    append_str(&mut url, "&code_challenge_method=S256&state=");
    append_str(&mut url, state.as_str());
    append_str(&mut url, "&redirect_uri=");
    let r = url_encode(redirect_uri);
    append_str(&mut url, r.as_str());
    OAuthAuthorizePayload { authorize_url: url, state, code_verifier }
}

/// Starts a PKCE sign-in with Anthropic: 32 random verifier bytes and 24 random state bytes,
/// as `authorize_payload` lays them out.
pub fn create_anthropic_oauth_authorize_url(
    client_id: &str,
    redirect_uri: &str,
    scopes: &str,
    authorize_base_url: &Option<String>,
) -> (p: OAuthAuthorizePayload)
    ensures
        exists|v: Seq<u8>, st: Seq<u8>|
            v.len() == 32 && st.len() == 24 && #[trigger] base64url_text(v) == p.code_verifier@
                && #[trigger] base64url_text(st) == p.state@ && p.authorize_url@ == authorize_url_text(
                or_default(opt_chars(*authorize_base_url), ""@),
                client_id@,
                scopes@,
                base64url_text(sha256_of(encode_utf8(base64url_text(v)))),
                base64url_text(st),
                redirect_uri@,
            ),
{
    let verifier_bytes = random_bytes(32);
    let state_bytes = random_bytes(24);
    authorize_payload(
        verifier_bytes.as_slice(),
        state_bytes.as_slice(),
        client_id,
        redirect_uri,
        scopes,
        authorize_base_url,
    )
}

/// Why an OAuth code cannot be exchanged.
#[derive(PartialEq, Eq, Structural, Debug, Clone, Copy)]
pub enum OAuthError {
    /// The state that came back is not the one sent.
    StateMismatch,
    /// The vault is locked, so the tokens could not be stored.
    VaultLocked,
}

impl OAuthError {
    /// The message the failure is reported with.
    pub open spec fn text(self) -> Seq<char> {
        match self {
            OAuthError::StateMismatch => "OAuth state mismatch"@,
            OAuthError::VaultLocked => "Vault is locked. Unlock vault before OAuth connect."@,
        }
    }

    /// The message the failure is reported with.
    pub fn message(&self) -> (s: String)
        ensures
            s@ == self.text(),
    {
        match self {
            OAuthError::StateMismatch => owned("OAuth state mismatch"),
            OAuthError::VaultLocked => owned("Vault is locked. Unlock vault before OAuth connect."),
        }
    }
}

/// Checks an OAuth callback before the code is exchanged: the returned state must be the
/// expected one, then the vault must be unlocked; its password is returned.
pub fn oauth_exchange_password(
    expected_state: &str,
    returned_state: &str,
    vault_password: &Option<String>,
) -> (r: Result<String, OAuthError>)
    ensures
        expected_state@ != returned_state@ ==> r == Err::<String, OAuthError>(OAuthError::StateMismatch),
        expected_state@ == returned_state@ ==> match vault_password {
            Some(p) => (r matches Ok(q) && q@ == p@),
            None => r == Err::<String, OAuthError>(OAuthError::VaultLocked),
        },
{
    if !same_text(expected_state, returned_state) {
        return Err(OAuthError::StateMismatch);
    }
    match vault_password {
        Some(p) => Ok(p.clone()),
        None => Err(OAuthError::VaultLocked),
    }
}

/// The JSON body of the token request: the grant type and the four values, keys in sorted
/// order as `serde_json` writes an object.
pub open spec fn token_request_text(
    client_id: Seq<char>,
    redirect_uri: Seq<char>,
    code: Seq<char>,
    code_verifier: Seq<char>,
) -> Seq<char> {
    "{\"client_id\":"@ + json_quoted(client_id) + ",\"code\":"@ + json_quoted(code)
        + ",\"code_verifier\":"@ + json_quoted(code_verifier)
        + ",\"grant_type\":\"authorization_code\",\"redirect_uri\":"@ + json_quoted(redirect_uri)
        + "}"@
}

/// The JSON body of the authorization-code token request.
pub fn token_request_body(client_id: &str, redirect_uri: &str, code: &str, code_verifier: &str) -> (s:
    String)
    ensures
        s@ == token_request_text(client_id@, redirect_uri@, code@, code_verifier@),
{
    let mut s = owned("{\"client_id\":");
    append_json_string(&mut s, client_id);
    append_str(&mut s, ",\"code\":");
    append_json_string(&mut s, code);
    append_str(&mut s, ",\"code_verifier\":");
    append_json_string(&mut s, code_verifier);
    append_str(&mut s, ",\"grant_type\":\"authorization_code\",\"redirect_uri\":");
    append_json_string(&mut s, redirect_uri);
    append_str(&mut s, "}");
    s
}

/// The failure reported when the token endpoint refuses: `OAuth token exchange failed: <body>`.
pub fn token_exchange_failure(body: &str) -> (s: String)
    ensures
        s@ == "OAuth token exchange failed: "@ + body@,
{
    let mut s = owned("OAuth token exchange failed: ");
    append_str(&mut s, body);
    s
}

/// One line of the ledger export: the record's fields, comma-separated, empty for a missing
/// peer or model, ending with a newline.
pub open spec fn csv_line(r: TransactionRecord) -> Seq<char> {
    int_text(r.id as int) + ","@ + r.ts@ + ","@ + r.tx_type@ + ","@ + or_default(opt_chars(r.peer_id), ""@)
        + ","@ + r.provider@ + ","@ + or_default(opt_chars(r.model), ""@) + ","@ + int_text(
        r.input_tokens as int,
    ) + ","@ + int_text(r.output_tokens as int) + ","@ + r.request_hash@ + "\n"@
}

/// An optional text field of the export: the text, or nothing.
pub open spec fn field_or_empty(o: Option<Seq<char>>) -> Seq<char> {
    match o {
        Some(t) => t,
        None => Seq::empty(),
    }
}

/// Fields joined by commas.
pub open spec fn comma_joined(fields: Seq<Seq<char>>) -> Seq<char>
    decreases fields.len(),
{
    if fields.len() <= 1 {
        if fields.len() == 1 {
            fields[0]
        } else {
            Seq::empty()
        }
    } else {
        comma_joined(fields.drop_last()) + seq![','] + fields.last()
    }
}

/// Comma-free fields joined by commas split back into those fields.
proof fn lemma_comma_joined_splits(fields: Seq<Seq<char>>)
    requires
        fields.len() >= 1,
        forall|k: int| 0 <= k < fields.len() ==> lacks(#[trigger] fields[k], ','),
    ensures
        split_on(comma_joined(fields), ',') == fields,
    decreases fields.len(),
{
    if fields.len() == 1 {
        lemma_split_single(fields[0], ',');
        assert(fields =~= seq![fields[0]]);
    } else {
        let front = fields.drop_last();
        assert forall|k: int| 0 <= k < front.len() implies lacks(#[trigger] front[k], ',') by {
            assert(front[k] == fields[k]);
        }
        lemma_comma_joined_splits(front);
        assert(lacks(fields[fields.len() - 1], ','));
        lemma_split_single(fields.last(), ',');
        lemma_split_join(comma_joined(front), fields.last(), ',');
        assert(front + seq![fields.last()] =~= fields);
    }
}

/// The fields of an exported line, in order.
pub open spec fn csv_fields(r: TransactionRecord) -> Seq<Seq<char>> {
    seq![
        int_text(r.id as int),
        r.ts@,
        r.tx_type@,
        field_or_empty(opt_chars(r.peer_id)),
        r.provider@,
        field_or_empty(opt_chars(r.model)),
        int_text(r.input_tokens as int),
        int_text(r.output_tokens as int),
        r.request_hash@,
    ]
}

proof fn lemma_csv_line_layout(r: TransactionRecord)
    ensures
        csv_line(r) == comma_joined(csv_fields(r)) + "\n"@,
{
    reveal_strlit(",");
    reveal_strlit("");
    let f = csv_fields(r);
    assert(","@ =~= seq![',']);
    assert(or_default(opt_chars(r.peer_id), ""@) =~= f[3]);
    assert(or_default(opt_chars(r.model), ""@) =~= f[5]);
    assert(comma_joined(f.take(1)) == f[0]) by {
        assert(f.take(1).len() == 1);
    }
    assert(f.take(2).drop_last() =~= f.take(1));
    assert(f.take(3).drop_last() =~= f.take(2));
    assert(f.take(4).drop_last() =~= f.take(3));
    assert(f.take(5).drop_last() =~= f.take(4));
    assert(f.take(6).drop_last() =~= f.take(5));
    assert(f.take(7).drop_last() =~= f.take(6));
    assert(f.take(8).drop_last() =~= f.take(7));
    assert(f.take(9).drop_last() =~= f.take(8));
    assert(f.take(9) =~= f);
    assert(comma_joined(f.take(2)) == f[0] + ","@ + f[1]);
    assert(comma_joined(f.take(3)) == f[0] + ","@ + f[1] + ","@ + f[2]);
    assert(comma_joined(f.take(4)) == f[0] + ","@ + f[1] + ","@ + f[2] + ","@ + f[3]);
    assert(comma_joined(f.take(5)) == f[0] + ","@ + f[1] + ","@ + f[2] + ","@ + f[3] + ","@ + f[4]);
    assert(comma_joined(f.take(6)) == f[0] + ","@ + f[1] + ","@ + f[2] + ","@ + f[3] + ","@ + f[4]
        + ","@ + f[5]);
    assert(comma_joined(f.take(7)) == f[0] + ","@ + f[1] + ","@ + f[2] + ","@ + f[3] + ","@ + f[4]
        + ","@ + f[5] + ","@ + f[6]);
    assert(comma_joined(f.take(8)) == f[0] + ","@ + f[1] + ","@ + f[2] + ","@ + f[3] + ","@ + f[4]
        + ","@ + f[5] + ","@ + f[6] + ","@ + f[7]);
    assert(comma_joined(f) == f[0] + ","@ + f[1] + ","@ + f[2] + ","@ + f[3] + ","@ + f[4] + ","@
        + f[5] + ","@ + f[6] + ","@ + f[7] + ","@ + f[8]);
}

/// An exported line ends with a newline, and read back by commas it gives the record's
/// fields in order, where no text field holds a comma: the id, the time, the type, the peer
/// (empty only where there is none), the provider, the model (empty only where there is none),
/// the two counts and the request hash.
pub proof fn lemma_csv_line_fields(r: TransactionRecord)
    requires
        lacks(r.ts@, ','),
        lacks(r.tx_type@, ','),
        lacks(field_or_empty(opt_chars(r.peer_id)), ','),
        lacks(r.provider@, ','),
        lacks(field_or_empty(opt_chars(r.model)), ','),
        lacks(r.request_hash@, ','),
    ensures
        csv_line(r).len() > 0,
        csv_line(r).last() == '\n',
        split_on(csv_line(r).drop_last(), ',') == seq![
            int_text(r.id as int),
            r.ts@,
            r.tx_type@,
            field_or_empty(opt_chars(r.peer_id)),
            r.provider@,
            field_or_empty(opt_chars(r.model)),
            int_text(r.input_tokens as int),
            int_text(r.output_tokens as int),
            r.request_hash@,
        ],
{
    let f = csv_fields(r);
    lemma_int_text_lacks_comma(r.id as int);
    lemma_int_text_lacks_comma(r.input_tokens as int);
    lemma_int_text_lacks_comma(r.output_tokens as int);
    lemma_csv_line_layout(r);
    assert forall|k: int| 0 <= k < f.len() implies lacks(#[trigger] f[k], ',') by {
        if k == 0 {
        } else if k == 1 {
        } else if k == 2 {
        } else if k == 3 {
        } else if k == 4 {
        } else if k == 5 {
        } else if k == 6 {
        } else if k == 7 {
        } else {
        }
    }
    lemma_comma_joined_splits(f);
    reveal_strlit("\n");
    assert((comma_joined(f) + "\n"@).drop_last() =~= comma_joined(f));
}

/// The header line of the ledger export.
pub open spec fn csv_header() -> Seq<char> {
    "id,ts,type,peer_id,provider,model,input_tokens,output_tokens,request_hash\n"@
}

/// The export of `rows`: the header, then one line a row.
pub open spec fn csv_text(rows: Seq<TransactionRecord>) -> Seq<char>
    decreases rows.len(),
{
    if rows.len() == 0 {
        csv_header()
    } else {
        csv_text(rows.drop_last()) + csv_line(rows.last())
    }
}

#[verifier::spinoff_prover]
#[verifier::rlimit(40)]
fn append_csv_line(s: &mut String, row: &TransactionRecord)
    ensures
        final(s)@ == old(s)@ + csv_line(*row),
{
    let t = i64_text(row.id);
    append_str(s, t.as_str());
    append_str(s, ",");
    append_str(s, row.ts.as_str());
    append_str(s, ",");
    append_str(s, row.tx_type.as_str());
    append_str(s, ",");
    match &row.peer_id {
        Some(p) => append_str(s, p.as_str()),
        None => append_str(s, ""),
    }
    append_str(s, ",");
    append_str(s, row.provider.as_str());
    append_str(s, ",");
    match &row.model {
        Some(m) => append_str(s, m.as_str()),
        None => append_str(s, ""),
    }
    append_str(s, ",");
    let a = i64_text(row.input_tokens);
    append_str(s, a.as_str());
    append_str(s, ",");
    let b = i64_text(row.output_tokens);
    append_str(s, b.as_str());
    append_str(s, ",");
    append_str(s, row.request_hash.as_str());
    append_str(s, "\n");
    assert(final(s)@ =~= old(s)@ + csv_line(*row));
}

/// The ledger as CSV.
pub fn export_ledger_csv(rows: &Vec<TransactionRecord>) -> (s: String)
    ensures
        s@ == csv_text(rows@),
{
    let mut s = owned("id,ts,type,peer_id,provider,model,input_tokens,output_tokens,request_hash\n");
    let mut i: usize = 0;
    while i < rows.len()
        invariant
            i <= rows@.len(),
            s@ == csv_text(rows@.take(i as int)),
        decreases rows.len() - i,
    {
        assert(rows@.take(i + 1).drop_last() =~= rows@.take(i as int));
        append_csv_line(&mut s, &rows[i]);
        i = i + 1;
    }
    assert(rows@.take(rows@.len() as int) =~= rows@);
    s
}

/// The SQL `LIKE` pattern that finds `probe` anywhere in a column: `%<probe>%`.
pub fn leak_probe_pattern(probe: &str) -> (s: String)
    ensures
        s@ == "%"@ + probe@ + "%"@,
{
    let mut s = owned("%");
    append_str(&mut s, probe);
    append_str(&mut s, "%");
    s
}

/// Whether the local proxy runs, and on which port.
pub struct ProxyRuntimeState {
    pub running: bool,
    pub port: u16,
}

impl ProxyRuntimeState {
    /// Asks to start the proxy on `port`: when it already runs nothing changes and `false`
    /// says not to start another; otherwise it is marked running on `port` and `true` says to
    /// start it.
    pub fn begin_start(&mut self, port: u16) -> (start: bool)
        ensures
            old(self).running ==> !start && final(self).running == old(self).running
                && final(self).port == old(self).port,
            !old(self).running ==> start && final(self).running && final(self).port == port,
    {
        if self.running {
            return false;
        }
        self.running = true;
        self.port = port;
        true
    }

    /// The proxy stopped (asked to, or on its own): it is marked not running.
    pub fn mark_stopped(&mut self)
        ensures
            !final(self).running,
            final(self).port == old(self).port,
    {
        self.running = false;
    }

    /// The port setting changed: it applies to the next start.
    pub fn set_port(&mut self, port: u16)
        ensures
            final(self).running == old(self).running,
            final(self).port == port,
    {
        self.port = port;
    }
}

/// The tokens of an OAuth session, sealed with the vault password and device salt: the access
/// token, then the refresh token where there is one.
pub fn seal_oauth_tokens(
    access_token: &str,
    refresh_token: &Option<String>,
    password: &str,
    device_salt: &str,
) -> (r: Result<(String, Option<String>), crate::vault::VaultError>)
    ensures
        r matches Ok((a, rf)) ==> crate::vault::seals(a@, access_token@, password@, device_salt@)
            && match (refresh_token, rf) {
            (Some(t), Some(s)) => crate::vault::seals(s@, t@, password@, device_salt@),
            (None, None) => true,
            _ => false,
        },
        r is Ok,
{
    let access = crate::vault::encrypt_api_key(access_token, password, device_salt)?;
    let refresh = match refresh_token {
        Some(t) => Some(crate::vault::encrypt_api_key(t.as_str(), password, device_salt)?),
        None => None,
    };
    Ok((access, refresh))
}

} // verus!
