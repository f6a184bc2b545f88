use vstd::prelude::*;
use vstd::utf8::encode_utf8;

use crate::encoding::{base64_bytes, base64_decode, base64_encode, base64_text};
use crate::text::{append_str, owned};
use crate::tracker::opt_chars;
use crate::vault::{decrypt_api_key, encrypt_api_key, opens_to, outcome_chars, seals, VaultError};
use crate::wire::{key_verifies, peer_id_of_key, signing_payload, signing_text, TokenWireMessage};

verus! {

broadcast use vstd::string::group_string_axioms;

/// The password the node's identity key is sealed with:
/// `tokenunion-local-identity::<user>::<os>`, with `unknown` where no user is known.
pub open spec fn identity_password_text(user: Option<Seq<char>>, os: Seq<char>) -> Seq<char> {
    "tokenunion-local-identity::"@ + match user {
        Some(u) => u,
        None => "unknown"@,
    } + "::"@ + os
}

/// The device salt of the node's identity key: `identity::<host>`, with `localhost` where no
/// host name is known.
pub open spec fn identity_salt_text(host: Option<Seq<char>>) -> Seq<char> {
    "identity::"@ + match host {
        Some(h) => h,
        None => "localhost"@,
    }
}

/// The password the identity key is sealed with, from the user name (`USER`) and the
/// operating system's name.
pub fn identity_password(user: &Option<String>, os: &str) -> (s: String)
    ensures
        s@ == identity_password_text(opt_chars(*user), os@),
{
    let mut s = owned("tokenunion-local-identity::");
    match user {
        Some(u) => append_str(&mut s, u.as_str()),
        None => append_str(&mut s, "unknown"),
    }
    append_str(&mut s, "::");
    append_str(&mut s, os);
    s
}

/// The device salt of the identity key, from the host name (`HOSTNAME`).
pub fn identity_device_salt(host: &Option<String>) -> (s: String)
    ensures
        s@ == identity_salt_text(opt_chars(*host)),
{
    let mut s = owned("identity::");
    match host {
        Some(h) => append_str(&mut s, h.as_str()),
        None => append_str(&mut s, "localhost"),
    }
    s
}

/// Seals the node's encoded identity key for this user, system and host.
pub fn encrypt_identity_blob(raw: &str, user: &Option<String>, os: &str, host: &Option<String>) -> (r:
    Result<String, VaultError>)
    ensures
        r matches Ok(s) ==> seals(
            s@,
            raw@,
            identity_password_text(opt_chars(*user), os@),
            identity_salt_text(opt_chars(*host)),
        ),
        r is Ok,
{
    let password = identity_password(user, os);
    let salt = identity_device_salt(host);
    encrypt_api_key(raw, password.as_str(), salt.as_str())
}

/// Opens the node's sealed identity key for this user, system and host.
pub fn decrypt_identity_blob(ciphertext: &str, user: &Option<String>, os: &str, host: &Option<String>) -> (r:
    Result<String, VaultError>)
    ensures
        opens_to(
            ciphertext@,
            identity_password_text(opt_chars(*user), os@),
            identity_salt_text(opt_chars(*host)),
            outcome_chars(r),
        ),
{
    let password = identity_password(user, os);
    let salt = identity_device_salt(host);
    decrypt_api_key(ciphertext, password.as_str(), salt.as_str())
}

/// The protobuf encoding of the public half of the keypair whose protobuf encoding is
/// `keypair`, if it is one.
pub uninterp spec fn public_key_of(keypair: Seq<u8>) -> Option<Seq<u8>>;

/// The signature of `msg` by the keypair whose protobuf encoding is `keypair`, if it is one
/// and can sign.
pub uninterp spec fn signature_by(keypair: Seq<u8>, msg: Seq<u8>) -> Option<Seq<u8>>;

/// `libp2p::identity::Keypair::generate_ed25519`, then `to_protobuf_encoding`: a fresh random
/// Ed25519 keypair, encoded. Nothing is stated of which keypair comes out. What is stated is
/// what the source shows: `to_protobuf_encoding` returns `Ok` for an Ed25519 keypair (only the
/// RSA arm returns an error), and the encoding reads back as a keypair, so it has a public key
/// (`from_protobuf_encoding` decodes the same protobuf message and `Keypair::try_from_bytes`
/// accepts the 64 bytes of `to_keypair_bytes`, whose public half ed25519-dalek guarantees to
/// be the one derived from the secret half).
#[verifier::external_body]
pub(crate) fn generate_keypair() -> (r: Option<Vec<u8>>)
    ensures
        r is Some,
        r matches Some(kp) ==> public_key_of(kp@) is Some,
{
    libp2p::identity::Keypair::generate_ed25519().to_protobuf_encoding().ok()
}

/// `libp2p::identity::Keypair::from_protobuf_encoding`, then `public().encode_protobuf()` and
/// `PeerId::from`: the encoded public key and peer id of an encoded keypair (named
/// `public_key_of`), `None` where the bytes are not a keypair. The public key decodes back
/// and belongs to that peer id (`PublicKey::try_decode_protobuf` reads what
/// `encode_protobuf` writes, and `PeerId::from` a public key is `PeerId::from_public_key`).
#[verifier::external_body]
pub(crate) fn keypair_public(keypair: &[u8]) -> (r: Option<(Vec<u8>, String)>)
    ensures
        match r {
            Some((pk, pid)) => public_key_of(keypair@) == Some(pk@) && peer_id_of_key(pk@) == Some(
                pid@,
            ),
            None => public_key_of(keypair@) is None,
        },
{
    let kp = libp2p::identity::Keypair::from_protobuf_encoding(keypair).ok()?;
    let pk = kp.public();
    Some((pk.encode_protobuf(), libp2p::PeerId::from(pk).to_string()))
}

/// `libp2p::identity::Keypair::from_protobuf_encoding`, then `sign`: the keypair's signature
/// of `msg` (named `signature_by`), `None` where the bytes are not a keypair or signing fails.
/// As `Keypair::sign` documents, the signature verifies under the keypair's public key.
/// Signing fails for a keypair that decodes only in the RSA arm of `Keypair::sign`; this
/// crate enables the `ed25519` key type alone (no RSA), so a keypair that has a public key
/// always signs.
#[verifier::external_body]
pub(crate) fn keypair_sign(keypair: &[u8], msg: &[u8]) -> (r: Option<Vec<u8>>)
    ensures
        public_key_of(keypair@) is Some ==> r is Some,
        match r {
            Some(sig) => signature_by(keypair@, msg@) == Some(sig@) && (forall|pk: Seq<u8>|
                public_key_of(keypair@) == Some(pk) ==> #[trigger] key_verifies(pk, msg@, sig@)),
            None => signature_by(keypair@, msg@) is None,
        },
{
    let kp = libp2p::identity::Keypair::from_protobuf_encoding(keypair).ok()?;
    kp.sign(msg).ok()
}

/// A fresh identity: an encoded keypair and its peer id.
pub fn new_identity() -> (r: Option<(Vec<u8>, String)>)
    ensures
        r matches Some((kp, pid)) && public_key_of(kp@) is Some && peer_id_of_key(
            public_key_of(kp@)->0,
        ) == Some(pid@),
{
    let kp = generate_keypair()?;
    match keypair_public(kp.as_slice()) {
        Some((_, pid)) => Some((kp, pid)),
        None => None,
    }
}

/// A token request for `request_hash` and `amount` from the node whose encoded keypair is
/// `keypair`, signed over `requester|hash|nonce|ts`, with its public key and signature in
/// base64. `None` where the keypair cannot be read or cannot sign.
pub open spec fn signed_request_ok(
    keypair: Seq<u8>,
    request_hash: Seq<char>,
    amount: i64,
    nonce: Seq<char>,
    ts: i64,
    r: Option<TokenWireMessage>,
) -> bool {
    match public_key_of(keypair) {
        None => r is None,
        Some(pk) => match peer_id_of_key(pk) {
            None => r is None,
            Some(pid) => match signature_by(keypair, encode_utf8(signing_text(pid, request_hash, nonce, ts))) {
                None => r is None,
                Some(sig) => r matches Some(m) && {
                    &&& m.msg_type@ == "token_request"@
                    &&& opt_chars(m.request_hash) == Some(request_hash)
                    &&& m.requester_id@ == pid
                    &&& m.amount == Some(amount)
                    &&& m.granted is None
                    &&& m.reason is None
                    &&& m.availability_state is None
                    &&& m.daily_limit_tokens is None
                    &&& m.daily_used_tokens is None
                    &&& m.proxy_request is None
                    &&& m.proxy_response is None
                    &&& opt_chars(m.request_nonce) == Some(nonce)
                    &&& m.request_ts == Some(ts)
                    &&& opt_chars(m.signer_public_key_b64) == Some(base64_text(pk))
                    &&& opt_chars(m.signature_b64) == Some(base64_text(sig))
                    &&& m.circle_key_recipient is None
                    &&& m.circle_key_box is None
                    &&& m.ledger_entries is None
                    &&& key_verifies(pk, encode_utf8(signing_text(pid, request_hash, nonce, ts)), sig)
                    &&& base64_bytes(base64_text(pk)) == Some(pk)
                    &&& base64_bytes(base64_text(sig)) == Some(sig)
                },
            },
        },
    }
}

/// Builds and signs a token request with the node's encoded keypair.
pub fn signed_token_request(
    keypair: &[u8],
    request_hash: &str,
    amount: i64,
    nonce: &str,
    ts: i64,
) -> (r: Option<TokenWireMessage>)
    ensures
        signed_request_ok(keypair@, request_hash@, amount, nonce@, ts, r),
{
    let (pk, pid) = match keypair_public(keypair) {
        Some(x) => x,
        None => return None,
    };
    let payload = signing_payload(pid.as_str(), request_hash, nonce, ts);
    let sig = match keypair_sign(keypair, payload.as_str().as_bytes()) {
        Some(s) => s,
        None => return None,
    };
    let key_b64 = base64_encode(pk.as_slice());
    let sig_b64 = base64_encode(sig.as_slice());
    Some(
        TokenWireMessage {
            msg_type: owned("token_request"),
            request_hash: Some(owned(request_hash)),
            requester_id: pid,
            amount: Some(amount),
            granted: None,
            reason: None,
            availability_state: None,
            daily_limit_tokens: None,
            daily_used_tokens: None,
            proxy_request: None,
            proxy_response: None,
            request_nonce: Some(owned(nonce)),
            request_ts: Some(ts),
            signer_public_key_b64: Some(key_b64),
            signature_b64: Some(sig_b64),
            circle_key_recipient: None,
            circle_key_box: None,
            ledger_entries: None,
        },
    )
}

/// A token request signed with a node's keypair passes the signature check when it arrives
/// over a connection from that node.
pub proof fn lemma_signed_request_accepted(
    keypair: Seq<u8>,
    request_hash: Seq<char>,
    amount: i64,
    nonce: Seq<char>,
    ts: i64,
    m: TokenWireMessage,
)
    requires
        signed_request_ok(keypair, request_hash, amount, nonce, ts, Some(m)),
    ensures
        crate::wire::token_request_check(m, m.requester_id@) == Ok::<(), crate::wire::SignatureError>(()),
{
}

/// An identity key sealed for a user, system and host opens, for the same user, system and
/// host, to that key whenever opening succeeds.
pub proof fn lemma_identity_blob_roundtrip(
    sealed: Seq<char>,
    raw: Seq<char>,
    user: Option<Seq<char>>,
    os: Seq<char>,
    host: Option<Seq<char>>,
    opened: Seq<char>,
)
    requires
        seals(sealed, raw, identity_password_text(user, os), identity_salt_text(host)),
        opens_to(sealed, identity_password_text(user, os), identity_salt_text(host), Ok(opened)),
    ensures
        opened == raw,
{
    crate::vault::lemma_open_gives_back_sealed(
        sealed,
        raw,
        identity_password_text(user, os),
        identity_salt_text(host),
        opened,
    );
}

} // verus!
