use vstd::prelude::*;
use vstd::utf8::encode_utf8;

use crate::encoding::{base64_bytes, base64_decode, base64_encode, base64_text, percent_encoded, url_encode};
use crate::identity::{
    decrypt_identity_blob, encrypt_identity_blob, generate_keypair, identity_password_text,
    identity_salt_text, keypair_public, public_key_of,
};
use crate::proxy::header_views;
use crate::text::{append_str, owned, same_text};
use crate::tracker::opt_chars;
use crate::vault::{opens_to, outcome_chars, seals, VaultError};
use crate::wire::peer_id_of_key;

verus! {

broadcast use vstd::string::group_string_axioms;

/// An invite link: the invite scheme and the invite document (JSON), percent-encoded, as its
/// `data` parameter.
pub open spec fn invite_link(payload_json: Seq<char>) -> Seq<char> {
    "tokenunion://invite?data="@ + percent_encoded(encode_utf8(payload_json))
}

/// The invite link carrying the invite document `payload_json`.
pub fn invite_url(payload_json: &str) -> (s: String)
    ensures
        s@ == invite_link(payload_json@),
{
    let mut s = owned("tokenunion://invite?data=");
    let e = url_encode(payload_json);
    append_str(&mut s, e.as_str());
    s
}

/// The query pairs of the URL `url`, in order, each name and value decoded as `url` decodes
/// them; `None` where `url` is not a URL.
pub uninterp spec fn url_query_pairs_of(url: Seq<char>) -> Option<Seq<(Seq<char>, Seq<char>)>>;

/// The text `urlencoding::decode` gives for `text`, `None` where the decoded bytes are not
/// UTF-8.
pub uninterp spec fn percent_decoded(text: Seq<char>) -> Option<Seq<char>>;

/// `url::Url::parse`, then `query_pairs()`, each pair taken as owned text: named
/// `url_query_pairs_of`. On an invite link the source shows more: the link parses (a
/// non-special scheme, an opaque host, and a query whose characters, those
/// `urlencoding::encode` writes, the parser keeps as they are), and `form_urlencoded::parse`
/// yields the one pair `data` with its value percent-decoded back to the UTF-8 bytes of the
/// document (the encoded text holds no `&`, `=` or `+`, and decodes to valid UTF-8, which
/// `decode_utf8_lossy` keeps).
#[verifier::external_body]
pub(crate) fn url_query_pairs(url: &str) -> (r: Option<Vec<(String, String)>>)
    ensures
        match r {
            None => url_query_pairs_of(url@) is None,
            Some(v) => url_query_pairs_of(url@) == Some(header_views(v@)),
        },
        forall|doc: Seq<char>|
            #[trigger] invite_link(doc) == url@ ==> r is Some && header_views(r.unwrap()@) == seq![
                ("data"@, doc),
            ],
{
    let parsed = url::Url::parse(url).ok()?;
    Some(parsed.query_pairs().map(|(k, v)| (k.into_owned(), v.into_owned())).collect())
}

/// The value of the first pair in `pairs` whose name is `key`.
pub open spec fn first_value(pairs: Seq<(Seq<char>, Seq<char>)>, key: Seq<char>) -> Option<Seq<char>>
    decreases pairs.len(),
{
    if pairs.len() == 0 {
        None
    } else if pairs[0].0 == key {
        Some(pairs[0].1)
    } else {
        first_value(pairs.drop_first(), key)
    }
}

/// The value of the first pair in `pairs` whose name is `key`, `None` where no pair has it.
pub fn first_query_value(pairs: &Vec<(String, String)>, key: &str) -> (r: Option<String>)
    ensures
        opt_chars(r) == first_value(header_views(pairs@), key@),
{
    let ghost hv = header_views(pairs@);
    assert(hv.subrange(0, hv.len() as int) =~= hv);
    let mut i: usize = 0;
    while i < pairs.len()
        invariant
            i <= pairs@.len(),
            hv == header_views(pairs@),
            first_value(hv, key@) == first_value(hv.subrange(i as int, hv.len() as int), key@),
        decreases pairs.len() - i,
    {
        let ghost rest = hv.subrange(i as int, hv.len() as int);
        assert(rest[0] == (pairs@[i as int].0@, pairs@[i as int].1@));
        if same_text(pairs[i].0.as_str(), key) {
            return Some(pairs[i].1.clone());
        }
        assert(rest.drop_first() =~= hv.subrange(i + 1, hv.len() as int));
        i = i + 1;
    }
    assert(hv.subrange(i as int, hv.len() as int) =~= Seq::<(Seq<char>, Seq<char>)>::empty());
    None
}

/// `urlencoding::decode`: named `percent_decoded`. A text without `%` comes back as it is
/// (`decode_binary` borrows its input when it finds no `%`).
#[verifier::external_body]
pub(crate) fn percent_decode(text: &str) -> (r: Option<String>)
    ensures
        opt_chars(r) == percent_decoded(text@),
        no_percent(text@) ==> opt_chars(r) == Some(text@),
{
    urlencoding::decode(text).ok().map(|c| c.into_owned())
}

/// Why an invite link cannot be read.
#[derive(PartialEq, Eq, Structural, Debug, Clone, Copy)]
pub enum InviteError {
    /// The link is not a URL.
    InvalidUrl,
    /// The link has no `data` parameter.
    MissingData,
    /// The parameter does not decode to text.
    BadEncoding,
}

impl InviteError {
    /// The message the failure is reported with.
    pub open spec fn text(self) -> Seq<char> {
        match self {
            InviteError::InvalidUrl => "invalid invite url"@,
            InviteError::MissingData => "invite missing data payload"@,
            InviteError::BadEncoding => "invalid invite data encoding"@,
        }
    }

    /// The message the failure is reported with.
    pub fn message(&self) -> (s: String)
        ensures
            s@ == self.text(),
    {
        match self {
            InviteError::InvalidUrl => owned("invalid invite url"),
            InviteError::MissingData => owned("invite missing data payload"),
            InviteError::BadEncoding => owned("invalid invite data encoding"),
        }
    }
}

/// The invite document an invite link carries: its `data` parameter, decoded once more.
pub open spec fn invite_document(invite: Seq<char>) -> Result<Seq<char>, InviteError> {
    match url_query_pairs_of(invite) {
        None => Err(InviteError::InvalidUrl),
        Some(pairs) => match first_value(pairs, "data"@) {
            None => Err(InviteError::MissingData),
            Some(data) => match percent_decoded(data) {
                None => Err(InviteError::BadEncoding),
                Some(doc) => Ok(doc),
            },
        },
    }
}
/// `t` holds no `%`.
pub open spec fn no_percent(t: Seq<char>) -> bool {
    forall|i: int| 0 <= i < t.len() ==> t[i] != '%'
}

/// The invite document (JSON) of an invite link. An invite link made by `invite_url` from a
/// document without `%` reads back as that document.
pub fn invite_json(invite: &str) -> (r: Result<String, InviteError>)
    ensures
        match r {
            Ok(doc) => invite_document(invite@) == Ok::<Seq<char>, InviteError>(doc@),
            Err(e) => invite_document(invite@) == Err::<Seq<char>, InviteError>(e),
        },
        forall|doc: Seq<char>|
            #[trigger] invite_link(doc) == invite@ && no_percent(doc) ==> (r matches Ok(d) && d@ == doc),
{
    let pairs = match url_query_pairs(invite) {
        None => return Err(InviteError::InvalidUrl),
        Some(p) => p,
    };
    let data = match first_query_value(&pairs, "data") {
        None => return Err(InviteError::MissingData),
        Some(d) => d,
    };
    match percent_decode(data.as_str()) {
        Some(doc) => Ok(doc),
        None => Err(InviteError::BadEncoding),
    }
}

/// The relay circuit address through the relay at `relay` to the peer `peer`, as libp2p writes
/// it; `None` where `relay` is not a multiaddr, `Some(None)` where `peer` is not a peer id.
pub uninterp spec fn relay_circuit_text(relay: Seq<char>, peer: Seq<char>) -> Option<Option<Seq<char>>>;

/// `Multiaddr::from_str` of `relay` and `PeerId::from_str` of `peer`, then
/// `with(Protocol::P2pCircuit).with(Protocol::P2p(peer))` and `to_string`: named
/// `relay_circuit_text`.
#[verifier::external_body]
pub(crate) fn circuit_address(relay: &str, peer: &str) -> (r: Option<Option<String>>)
    ensures
        match r {
            None => relay_circuit_text(relay@, peer@) is None,
            Some(a) => relay_circuit_text(relay@, peer@) == Some(opt_chars(a)),
        },
{
    let base: libp2p::Multiaddr = relay.parse().ok()?;
    let peer: libp2p::PeerId = match peer.parse() {
        Ok(p) => p,
        Err(_) => return Some(None),
    };
    Some(Some(
        base.with(libp2p::multiaddr::Protocol::P2pCircuit).with(libp2p::multiaddr::Protocol::P2p(peer)).to_string(),
    ))
}

/// The relay circuit an invite offers: none where the relay mode is `off` or no relay is
/// stored (an unset mode is `self_hosted`); otherwise the circuit through the stored relay to
/// `peer`, or why it cannot be written.
pub open spec fn invite_circuit(mode: Option<Seq<char>>, relay: Option<Seq<char>>, peer: Seq<char>) -> Option<
    Result<Seq<char>, Seq<char>>,
> {
    let m = match mode {
        Some(x) => x,
        None => "self_hosted"@,
    };
    if m == "off"@ {
        None
    } else {
        match relay {
            None => None,
            Some(r) => Some(
                match relay_circuit_text(r, peer) {
                    None => Err("invalid relay address in settings"@),
                    Some(None) => Err("invalid local peer id"@),
                    Some(Some(a)) => Ok(a),
                },
            ),
        }
    }
}

/// The relay circuit an invite offers under the relay mode `mode`, with the stored relay
/// address `relay`, for the local peer `peer`.
pub fn invite_relay_circuit(mode: &Option<String>, relay: &Option<String>, peer: &str) -> (r: Option<
    Result<String, String>,
>)
    ensures
        match (r, invite_circuit(opt_chars(*mode), opt_chars(*relay), peer@)) {
            (None, None) => true,
            (Some(Ok(a)), Some(Ok(b))) => a@ == b,
            (Some(Err(a)), Some(Err(b))) => a@ == b,
            _ => false,
        },
{
    let dial = crate::settings::relay_to_dial(mode, relay);
    let relay_addr = match dial {
        None => return None,
        Some(a) => a,
    };
    match circuit_address(relay_addr.as_str(), peer) {
        None => Some(Err(owned("invalid relay address in settings"))),
        Some(None) => Some(Err(owned("invalid local peer id"))),
        Some(Some(a)) => Some(Ok(a)),
    }
}

/// The address an invite offers: the relay circuit address where a relay is configured,
/// otherwise the listen address; there is none before the node listens.
pub fn invite_address(listen_addr: &Option<String>, relay_circuit: Option<Result<String, String>>) -> (r:
    Result<String, String>)
    ensures
        match listen_addr {
            None => (r matches Err(e) && e@ == "No active listen address yet"@),
            Some(l) => match relay_circuit {
                Some(c) => r == c,
                None => (r matches Ok(a) && a@ == l@),
            },
        },
{
    let listen = match listen_addr {
        Some(l) => l,
        None => return Err(owned("No active listen address yet")),
    };
    match relay_circuit {
        Some(c) => c,
        None => Ok(listen.clone()),
    }
}

/// Why the node's identity key cannot be used.
#[derive(PartialEq, Eq, Debug, Clone)]
pub enum IdentityError {
    /// The sealed key does not open.
    Sealed(VaultError),
    /// The opened key is not base64.
    NotBase64,
    /// The decoded bytes are not a keypair.
    NotKeypair,
    /// A new keypair could not be made.
    GenerateFailed,
}

/// The node's encoded keypair from its sealed form: opened for this user, system and host,
/// then decoded from base64, and readable as a keypair.
pub fn identity_keypair(sealed: &str, user: &Option<String>, os: &str, host: &Option<String>) -> (r:
    Result<Vec<u8>, IdentityError>)
    ensures
        match r {
            Ok(kp) => exists|text: Seq<char>|
                opens_to(
                    sealed@,
                    identity_password_text(opt_chars(*user), os@),
                    identity_salt_text(opt_chars(*host)),
                    Ok(text),
                ) && #[trigger] base64_bytes(text) == Some(kp@) && public_key_of(kp@) is Some,
            Err(IdentityError::Sealed(e)) => opens_to(
                sealed@,
                identity_password_text(opt_chars(*user), os@),
                identity_salt_text(opt_chars(*host)),
                Err(e),
            ),
            Err(IdentityError::NotBase64) => exists|text: Seq<char>|
                opens_to(
                    sealed@,
                    identity_password_text(opt_chars(*user), os@),
                    identity_salt_text(opt_chars(*host)),
                    Ok(text),
                ) && #[trigger] base64_bytes(text) is None,
            Err(IdentityError::NotKeypair) => exists|text: Seq<char>|
                opens_to(
                    sealed@,
                    identity_password_text(opt_chars(*user), os@),
                    identity_salt_text(opt_chars(*host)),
                    Ok(text),
                ) && (#[trigger] base64_bytes(text) matches Some(b) && public_key_of(b) is None),
            Err(IdentityError::GenerateFailed) => false,
        },
{
    let text = match decrypt_identity_blob(sealed, user, os, host) {
        Ok(t) => t,
        Err(e) => return Err(IdentityError::Sealed(e)),
    };
    let bytes = match base64_decode(text.as_str()) {
        Some(b) => b,
        None => return Err(IdentityError::NotBase64),
    };
    match keypair_public(bytes.as_slice()) {
        Some(_) => Ok(bytes),
        None => Err(IdentityError::NotKeypair),
    }
}

/// A new identity for this user, system and host: a fresh keypair's peer id, and the keypair
/// in base64, sealed.
pub fn fresh_identity(user: &Option<String>, os: &str, host: &Option<String>) -> (r: Result<
    (String, String),
    IdentityError,
>)
    ensures
        match r {
            Ok((pid, sealed)) => exists|kp: Seq<u8>, pk: Seq<u8>|
                #[trigger] public_key_of(kp) == Some(pk) && #[trigger] peer_id_of_key(pk) == Some(pid@) && seals(
                    sealed@,
                    base64_text(kp),
                    identity_password_text(opt_chars(*user), os@),
                    identity_salt_text(opt_chars(*host)),
                ),
            Err(_) => false,
        },
{
    let kp = match generate_keypair() {
        Some(k) => k,
        None => return Err(IdentityError::GenerateFailed),
    };
    let (pk, pid) = match keypair_public(kp.as_slice()) {
        Some(x) => x,
        None => return Err(IdentityError::NotKeypair),
    };
    let encoded = base64_encode(kp.as_slice());
    match encrypt_identity_blob(encoded.as_str(), user, os, host) {
        Ok(sealed) => {
            assert(peer_id_of_key(pk@) == Some(pid@));
            Ok((pid, sealed))
        },
        Err(e) => Err(IdentityError::Sealed(e)),
    }
}

/// The security note recorded when this node leaves its circle and takes a new identity.
pub fn revocation_note() -> (n: crate::inbound::SecurityNote)
    ensures
        n.kind@ == "revocation"@,
        n.detail@
            == "leave_circle invoked; new identity generated (restart app to bind new swarm identity)"@,
{
    crate::inbound::SecurityNote {
        kind: owned("revocation"),
        detail: owned(
            "leave_circle invoked; new identity generated (restart app to bind new swarm identity)",
        ),
    }
}

/// The text that the age file `cipher` holds for the X25519 identity `identity`, if the
/// identity parses, opens the file, and the content is UTF-8.
pub uninterp spec fn age_identity_text(cipher: Seq<u8>, identity: Seq<char>) -> Option<Seq<char>>;

/// age X25519 decryption (`x25519::Identity::from_str`, `Decryptor::new`, `decrypt`,
/// `read_to_string`): named `age_identity_text`.
#[verifier::external_body]
pub(crate) fn age_open_for_identity(cipher: &[u8], identity: &str) -> (r: Option<String>)
    ensures
        opt_chars(r) == age_identity_text(cipher@, identity@),
{
    let id = <age::x25519::Identity as std::str::FromStr>::from_str(identity).ok()?;
    let decryptor = age::Decryptor::new(cipher).ok()?;
    let mut reader = decryptor.decrypt(std::iter::once(&id as &dyn age::Identity)).ok()?;
    let mut out = String::new();
    std::io::Read::read_to_string(&mut reader, &mut out).ok()?;
    Some(out)
}

/// The circle key in a box sealed to this node's one-time join identity: the box decoded from
/// base64 and opened with the identity; `None` where either step fails.
pub fn open_circle_key_box(cipher_b64: &str, join_identity: &str) -> (r: Option<String>)
    ensures
        opt_chars(r) == match base64_bytes(cipher_b64@) {
            Some(c) => age_identity_text(c, join_identity@),
            None => None,
        },
{
    match base64_decode(cipher_b64) {
        Some(c) => age_open_for_identity(c.as_slice(), join_identity),
        None => None,
    }
}

} // verus!
