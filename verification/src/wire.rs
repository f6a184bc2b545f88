use vstd::prelude::*;
use vstd::utf8::encode_utf8;

use crate::encoding::{base64_bytes, base64_decode};
use crate::numbers::{i64_text, int_text, parse_i64, parsed_i64};
use crate::records::LedgerGossipRecord;
use crate::text::{append_str, owned, push_char};
use crate::tracker::opt_chars;

verus! {

broadcast use vstd::string::group_string_axioms;

/// What this node tells the user interface about itself.
#[derive(Debug, Clone)]
pub struct LocalNodeDto {
    pub peer_id: String,
    pub display_name: String,
    pub timezone: String,
    pub availability_state: String,
}

/// What an invite link carries: how to reach the inviting peer.
#[derive(Debug, Clone)]
pub struct InvitePayload {
    pub peer_id: String,
    pub display_name: String,
    pub timezone: String,
    pub multiaddr: String,
}

/// The peer that granted a request, and its reason.
#[derive(Debug, Clone)]
pub struct GrantDecision {
    pub peer_id: String,
    pub reason: Option<String>,
}

/// An API request relayed to a lending peer.
#[derive(Debug, Clone)]
pub struct ProxyRelayRequest {
    pub request_hash: String,
    pub provider: String,
    pub method: String,
    pub path: String,
    pub query: Option<String>,
    pub headers: Vec<(String, String)>,
    pub body_b64: String,
}

/// A lending peer's answer to a relayed request.
#[derive(Debug, Clone)]
pub struct ProxyRelayResponse {
    pub request_hash: String,
    pub status: u16,
    pub headers: Vec<(String, String)>,
    pub body_b64: String,
    pub model: Option<String>,
    pub input_tokens: i64,
    pub output_tokens: i64,
    pub request_id: Option<String>,
    pub error: Option<String>,
}

/// A control message of the token protocol.
#[derive(Debug, Clone)]
pub struct TokenWireMessage {
    pub msg_type: String,
    pub request_hash: Option<String>,
    pub requester_id: String,
    pub amount: Option<i64>,
    pub granted: Option<bool>,
    pub reason: Option<String>,
    pub availability_state: Option<String>,
    pub daily_limit_tokens: Option<i64>,
    pub daily_used_tokens: Option<i64>,
    pub proxy_request: Option<ProxyRelayRequest>,
    pub proxy_response: Option<ProxyRelayResponse>,
    pub request_nonce: Option<String>,
    pub request_ts: Option<i64>,
    pub signer_public_key_b64: Option<String>,
    pub signature_b64: Option<String>,
    pub circle_key_recipient: Option<String>,
    pub circle_key_box: Option<String>,
    pub ledger_entries: Option<Vec<LedgerGossipRecord>>,
}

/// `m` carries a type, a request hash and a requester, and nothing else.
pub open spec fn is_bare(m: TokenWireMessage) -> bool {
    &&& m.amount is None
    &&& m.granted is None
    &&& m.reason is None
    &&& m.availability_state is None
    &&& m.daily_limit_tokens is None
    &&& m.daily_used_tokens is None
    &&& m.proxy_request is None
    &&& m.proxy_response is None
    &&& m.request_nonce is None
    &&& m.request_ts is None
    &&& m.signer_public_key_b64 is None
    &&& m.signature_b64 is None
    &&& m.circle_key_recipient is None
    &&& m.circle_key_box is None
    &&& m.ledger_entries is None
}

/// A message of type `msg_type` from `requester_id` about `request_hash`, with no other field.
pub fn base_wire(requester_id: String, request_hash: Option<String>, msg_type: &str) -> (m:
    TokenWireMessage)
    ensures
        m.msg_type@ == msg_type@,
        m.requester_id == requester_id,
        m.request_hash == request_hash,
        is_bare(m),
{
    TokenWireMessage {
        msg_type: owned(msg_type),
        request_hash,
        requester_id,
        amount: None,
        granted: None,
        reason: None,
        availability_state: None,
        daily_limit_tokens: None,
        daily_used_tokens: None,
        proxy_request: None,
        proxy_response: None,
        request_nonce: None,
        request_ts: None,
        signer_public_key_b64: None,
        signature_b64: None,
        circle_key_recipient: None,
        circle_key_box: None,
        ledger_entries: None,
    }
}

impl TokenWireMessage {
    pub fn with_amount(self, amount: Option<i64>) -> (m: Self)
        ensures
            m == (TokenWireMessage { amount, ..self }),
    {
        TokenWireMessage { amount, ..self }
    }

    pub fn with_granted(self, granted: bool) -> (m: Self)
        ensures
            m == (TokenWireMessage { granted: Some(granted), ..self }),
    {
        TokenWireMessage { granted: Some(granted), ..self }
    }

    pub fn with_reason(self, reason: &str) -> (m: Self)
        ensures
            m.reason matches Some(r) && r@ == reason@,
            m == (TokenWireMessage { reason: m.reason, ..self }),
    {
        TokenWireMessage { reason: Some(owned(reason)), ..self }
    }

    pub fn with_reason_opt(self, reason: Option<String>) -> (m: Self)
        ensures
            m == (TokenWireMessage { reason, ..self }),
    {
        TokenWireMessage { reason, ..self }
    }

    pub fn with_proxy_response(self, response: Option<ProxyRelayResponse>) -> (m: Self)
        ensures
            m == (TokenWireMessage { proxy_response: response, ..self }),
    {
        TokenWireMessage { proxy_response: response, ..self }
    }

    pub fn with_circle_key_box(self, boxed: Option<String>) -> (m: Self)
        ensures
            m == (TokenWireMessage { circle_key_box: boxed, ..self }),
    {
        TokenWireMessage { circle_key_box: boxed, ..self }
    }

    pub fn with_ledger_entries(self, entries: Option<Vec<LedgerGossipRecord>>) -> (m: Self)
        ensures
            m == (TokenWireMessage { ledger_entries: entries, ..self }),
    {
        TokenWireMessage { ledger_entries: entries, ..self }
    }
}

/// The text a token request's signature covers: `requester|hash|nonce|ts`.
pub open spec fn signing_text(requester_id: Seq<char>, request_hash: Seq<char>, nonce: Seq<char>, ts: i64) -> Seq<char> {
    requester_id + seq!['|'] + request_hash + seq!['|'] + nonce + seq!['|'] + int_text(ts as int)
}

/// The text a token request's signature covers.
pub fn signing_payload(requester_id: &str, request_hash: &str, nonce: &str, ts: i64) -> (s: String)
    ensures
        s@ == signing_text(requester_id@, request_hash@, nonce@, ts),
{
    let mut s = owned(requester_id);
    push_char(&mut s, '|');
    append_str(&mut s, request_hash);
    push_char(&mut s, '|');
    append_str(&mut s, nonce);
    push_char(&mut s, '|');
    let t = i64_text(ts);
    append_str(&mut s, t.as_str());
    s
}

/// The text a ledger entry's signature covers: `entry|signer|lamport|cipher`.
pub open spec fn ledger_signing_text(entry_id: Seq<char>, signer: Seq<char>, lamport: i64, cipher: Seq<char>) -> Seq<char> {
    entry_id + seq!['|'] + signer + seq!['|'] + int_text(lamport as int) + seq!['|'] + cipher
}

/// The text a ledger entry's signature covers.
pub fn ledger_signing_payload(entry_id: &str, signer: &str, lamport: i64, cipher_b64: &str) -> (s:
    String)
    ensures
        s@ == ledger_signing_text(entry_id@, signer@, lamport, cipher_b64@),
{
    let mut s = owned(entry_id);
    push_char(&mut s, '|');
    append_str(&mut s, signer);
    push_char(&mut s, '|');
    let t = i64_text(lamport);
    append_str(&mut s, t.as_str());
    push_char(&mut s, '|');
    append_str(&mut s, cipher_b64);
    s
}

/// The peer id of the libp2p public key whose protobuf encoding is `key`, if it is one.
pub uninterp spec fn peer_id_of_key(key: Seq<u8>) -> Option<Seq<char>>;

/// Whether `sig` is a valid signature of `msg` under the public key whose protobuf encoding
/// is `key`.
pub uninterp spec fn key_verifies(key: Seq<u8>, msg: Seq<u8>, sig: Seq<u8>) -> bool;

/// `libp2p::identity::PublicKey::try_decode_protobuf`, then `PeerId::from_public_key` and its
/// text form: the peer id the key belongs to, `None` where the bytes are not a key. Named
/// `peer_id_of_key`.
#[verifier::external_body]
pub(crate) fn public_key_peer_id(key: &[u8]) -> (r: Option<String>)
    ensures
        match r {
            Some(p) => peer_id_of_key(key@) == Some(p@),
            None => peer_id_of_key(key@) is None,
        },
{
    match libp2p::identity::PublicKey::try_decode_protobuf(key) {
        Ok(pk) => Some(libp2p::PeerId::from_public_key(&pk).to_string()),
        Err(_) => None,
    }
}

/// `libp2p::identity::PublicKey::verify` on the key decoded from `key`, `false` where the
/// bytes are not a key. Named `key_verifies`.
#[verifier::external_body]
pub(crate) fn signature_verifies(key: &[u8], msg: &[u8], sig: &[u8]) -> (r: bool)
    ensures
        r == key_verifies(key@, msg@, sig@),
{
    match libp2p::identity::PublicKey::try_decode_protobuf(key) {
        Ok(pk) => pk.verify(msg, sig),
        Err(_) => false,
    }
}

/// Why a signed token request is refused.
#[derive(PartialEq, Eq, Structural, Debug, Clone, Copy)]
pub enum SignatureError {
    MissingNonce,
    MissingTimestamp,
    MissingRequestHash,
    MissingSignerKey,
    MissingSignature,
    InvalidSignerKeyBase64,
    InvalidSignatureBase64,
    InvalidPublicKey,
    SignerPeerMismatch,
    RequesterIdMismatch,
    VerifyFailed,
}

impl SignatureError {
    /// The message the refusal is reported with.
    pub open spec fn text(self) -> Seq<char> {
        match self {
            SignatureError::MissingNonce => "missing nonce"@,
            SignatureError::MissingTimestamp => "missing timestamp"@,
            SignatureError::MissingRequestHash => "missing request hash"@,
            SignatureError::MissingSignerKey => "missing signer key"@,
            SignatureError::MissingSignature => "missing signature"@,
            SignatureError::InvalidSignerKeyBase64 => "invalid signer key b64"@,
            SignatureError::InvalidSignatureBase64 => "invalid signature b64"@,
            SignatureError::InvalidPublicKey => "invalid protobuf public key"@,
            SignatureError::SignerPeerMismatch => "signer peer mismatch"@,
            SignatureError::RequesterIdMismatch => "requester id mismatch"@,
            SignatureError::VerifyFailed => "signature verify failed"@,
        }
    }

    /// The message the refusal is reported with.
    pub fn message(&self) -> (s: String)
        ensures
            s@ == self.text(),
    {
        match self {
            SignatureError::MissingNonce => owned("missing nonce"),
            SignatureError::MissingTimestamp => owned("missing timestamp"),
            SignatureError::MissingRequestHash => owned("missing request hash"),
            SignatureError::MissingSignerKey => owned("missing signer key"),
            SignatureError::MissingSignature => owned("missing signature"),
            SignatureError::InvalidSignerKeyBase64 => owned("invalid signer key b64"),
            SignatureError::InvalidSignatureBase64 => owned("invalid signature b64"),
            SignatureError::InvalidPublicKey => owned("invalid protobuf public key"),
            SignatureError::SignerPeerMismatch => owned("signer peer mismatch"),
            SignatureError::RequesterIdMismatch => owned("requester id mismatch"),
            SignatureError::VerifyFailed => owned("signature verify failed"),
        }
    }
}

/// The verdict on a token request received from the connection peer `peer`: every field the
/// signature needs is present, the key decodes and belongs to `peer`, the request names `peer`
/// as requester, and the signature covers `requester|hash|nonce|ts`.
pub open spec fn token_request_check(m: TokenWireMessage, peer: Seq<char>) -> Result<(), SignatureError> {
    match (m.request_nonce, m.request_ts, m.request_hash, m.signer_public_key_b64, m.signature_b64) {
        (None, _, _, _, _) => Err(SignatureError::MissingNonce),
        (Some(_), None, _, _, _) => Err(SignatureError::MissingTimestamp),
        (Some(_), Some(_), None, _, _) => Err(SignatureError::MissingRequestHash),
        (Some(_), Some(_), Some(_), None, _) => Err(SignatureError::MissingSignerKey),
        (Some(_), Some(_), Some(_), Some(_), None) => Err(SignatureError::MissingSignature),
        (Some(nonce), Some(ts), Some(hash), Some(key_b64), Some(sig_b64)) => match base64_bytes(
            key_b64@,
        ) {
            None => Err(SignatureError::InvalidSignerKeyBase64),
            Some(key) => match base64_bytes(sig_b64@) {
                None => Err(SignatureError::InvalidSignatureBase64),
                Some(sig) => match peer_id_of_key(key) {
                    None => Err(SignatureError::InvalidPublicKey),
                    Some(signer) => if signer != peer {
                        Err(SignatureError::SignerPeerMismatch)
                    } else if m.requester_id@ != peer {
                        Err(SignatureError::RequesterIdMismatch)
                    } else if !key_verifies(
                        key,
                        encode_utf8(signing_text(m.requester_id@, hash@, nonce@, ts)),
                        sig,
                    ) {
                        Err(SignatureError::VerifyFailed)
                    } else {
                        Ok(())
                    },
                },
            },
        },
    }
}

/// Checks the signature of a token request received from the connection peer `peer`.
pub fn validate_signed_token_request(request: &TokenWireMessage, peer: &str) -> (r: Result<
    (),
    SignatureError,
>)
    ensures
        r == token_request_check(*request, peer@),
{
    let nonce = match &request.request_nonce {
        Some(n) => n,
        None => return Err(SignatureError::MissingNonce),
    };
    let ts = match request.request_ts {
        Some(t) => t,
        None => return Err(SignatureError::MissingTimestamp),
    };
    let req_hash = match &request.request_hash {
        Some(h) => h,
        None => return Err(SignatureError::MissingRequestHash),
    };
    let pub_b64 = match &request.signer_public_key_b64 {
        Some(k) => k,
        None => return Err(SignatureError::MissingSignerKey),
    };
    let sig_b64 = match &request.signature_b64 {
        Some(s) => s,
        None => return Err(SignatureError::MissingSignature),
    };
    let pub_bytes = match base64_decode(pub_b64.as_str()) {
        Some(b) => b,
        None => return Err(SignatureError::InvalidSignerKeyBase64),
    };
    let sig = match base64_decode(sig_b64.as_str()) {
        Some(b) => b,
        None => return Err(SignatureError::InvalidSignatureBase64),
    };
    let expected_peer = match public_key_peer_id(pub_bytes.as_slice()) {
        Some(p) => p,
        None => return Err(SignatureError::InvalidPublicKey),
    };
    if !crate::text::same_text(expected_peer.as_str(), peer) {
        return Err(SignatureError::SignerPeerMismatch);
    }
    if !crate::text::same_text(request.requester_id.as_str(), peer) {
        return Err(SignatureError::RequesterIdMismatch);
    }
    let payload = signing_payload(request.requester_id.as_str(), req_hash.as_str(), nonce.as_str(), ts);
    if !signature_verifies(pub_bytes.as_slice(), payload.as_str().as_bytes(), sig.as_slice()) {
        return Err(SignatureError::VerifyFailed);
    }
    Ok(())
}

/// Why a gossiped ledger entry is refused before it is merged.
#[derive(PartialEq, Eq, Structural, Debug, Clone, Copy)]
pub enum LedgerSignatureError {
    InvalidKeyBase64,
    InvalidPublicKey,
    SignerMismatch,
    InvalidSignatureBase64,
    InvalidSignature,
}

/// The verdict on a gossiped ledger entry: its key decodes and belongs to the named signer,
/// and its signature covers `entry|signer|lamport|cipher`.
pub open spec fn ledger_entry_check(e: LedgerGossipRecord) -> Result<(), LedgerSignatureError> {
    match base64_bytes(e.signer_pubkey_b64@) {
        None => Err(LedgerSignatureError::InvalidKeyBase64),
        Some(key) => match peer_id_of_key(key) {
            None => Err(LedgerSignatureError::InvalidPublicKey),
            Some(signer) => if signer != e.signer_peer_id@ {
                Err(LedgerSignatureError::SignerMismatch)
            } else {
                match base64_bytes(e.signature_b64@) {
                    None => Err(LedgerSignatureError::InvalidSignatureBase64),
                    Some(sig) => if key_verifies(
                        key,
                        encode_utf8(
                            ledger_signing_text(
                                e.entry_id@,
                                e.signer_peer_id@,
                                e.lamport_ts,
                                e.cipher_b64@,
                            ),
                        ),
                        sig,
                    ) {
                        Ok(())
                    } else {
                        Err(LedgerSignatureError::InvalidSignature)
                    },
                }
            },
        },
    }
}

/// Checks who signed a gossiped ledger entry and that the signature holds.
pub fn verify_ledger_entry(envelope: &LedgerGossipRecord) -> (r: Result<(), LedgerSignatureError>)
    ensures
        r == ledger_entry_check(*envelope),
{
    let pub_bytes = match base64_decode(envelope.signer_pubkey_b64.as_str()) {
        Some(b) => b,
        None => return Err(LedgerSignatureError::InvalidKeyBase64),
    };
    let expected = match public_key_peer_id(pub_bytes.as_slice()) {
        Some(p) => p,
        None => return Err(LedgerSignatureError::InvalidPublicKey),
    };
    if !crate::text::same_text(expected.as_str(), envelope.signer_peer_id.as_str()) {
        return Err(LedgerSignatureError::SignerMismatch);
    }
    let payload = ledger_signing_payload(
        envelope.entry_id.as_str(),
        envelope.signer_peer_id.as_str(),
        envelope.lamport_ts,
        envelope.cipher_b64.as_str(),
    );
    let sig = match base64_decode(envelope.signature_b64.as_str()) {
        Some(b) => b,
        None => return Err(LedgerSignatureError::InvalidSignatureBase64),
    };
    if !signature_verifies(pub_bytes.as_slice(), payload.as_str().as_bytes(), sig.as_slice()) {
        return Err(LedgerSignatureError::InvalidSignature);
    }
    Ok(())
}

/// The Lamport cursor a sync request carries in its hash field, 0 when absent or unreadable.
pub open spec fn sync_cursor(request_hash: Option<Seq<char>>) -> i64 {
    match request_hash {
        Some(h) => match parsed_i64(h) {
            Some(n) => n,
            None => 0,
        },
        None => 0,
    }
}

/// The Lamport cursor of a ledger sync request.
pub fn ledger_sync_cursor(request_hash: &Option<String>) -> (r: i64)
    ensures
        r == sync_cursor(opt_chars(*request_hash)),
{
    match request_hash {
        Some(h) => match parse_i64(h.as_str()) {
            Some(n) => n,
            None => 0,
        },
        None => 0,
    }
}

} // verus!
