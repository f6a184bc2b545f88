use vstd::prelude::*;
use vstd::utf8::encode_utf8;

use crate::encoding::{base64_bytes, base64_decode, base64_encode, base64_text};
use crate::identity::{keypair_public, keypair_sign, public_key_of, signature_by};
use crate::json::{get, get_i64, get_str, json_get, json_of_bytes, member_i64, member_str, parse_json, JsonValue};
use crate::numbers::{i64_text, int_text};
use crate::proxy::{append_json_string, json_quoted};
use crate::records::{LedgerGossipRecord, TransactionInsert, TransactionView};
use crate::text::{append_str, chars_of, owned, push_char};
use crate::tracker::opt_chars;
use crate::vault::{age_open, age_plaintext, age_seal, VaultError};
use crate::wire::{
    key_verifies, ledger_entry_check, ledger_signing_payload, ledger_signing_text, peer_id_of_key,
    LedgerSignatureError,
};

verus! {

broadcast use vstd::string::group_string_axioms;

/// An optional text as JSON: the string literal, or `null`.
pub open spec fn json_opt(o: Option<Seq<char>>) -> Seq<char> {
    match o {
        Some(s) => json_quoted(s),
        None => "null"@,
    }
}

/// The JSON text of a ledger entry's body: the entry id, then the transaction's fields in
/// order, as one object without spaces.
pub open spec fn ledger_body_text(entry_id: Seq<char>, tx: TransactionView) -> Seq<char> {
    "{\"entry_id\":"@ + json_quoted(entry_id) + ",\"tx_type\":"@ + json_quoted(tx.tx_type)
        + ",\"peer_id\":"@ + json_opt(tx.peer_id) + ",\"provider\":"@ + json_quoted(tx.provider)
        + ",\"model\":"@ + json_opt(tx.model) + ",\"input_tokens\":"@ + int_text(
        tx.input_tokens as int,
    ) + ",\"output_tokens\":"@ + int_text(tx.output_tokens as int) + ",\"request_hash\":"@
        + json_quoted(tx.request_hash) + "}"@
}

fn append_json_opt(out: &mut String, o: &Option<String>)
    ensures
        final(out)@ == old(out)@ + json_opt(opt_chars(*o)),
{
    match o {
        Some(s) => append_json_string(out, s.as_str()),
        None => append_str(out, "null"),
    }
}

/// The JSON body of a ledger entry.
pub fn ledger_body_json(entry_id: &str, tx: &TransactionInsert) -> (s: String)
    ensures
        s@ == ledger_body_text(entry_id@, tx@),
{
    let mut s = owned("{\"entry_id\":");
    append_json_string(&mut s, entry_id);
    append_str(&mut s, ",\"tx_type\":");
    append_json_string(&mut s, tx.tx_type.as_str());
    append_str(&mut s, ",\"peer_id\":");
    append_json_opt(&mut s, &tx.peer_id);
    append_str(&mut s, ",\"provider\":");
    append_json_string(&mut s, tx.provider.as_str());
    append_str(&mut s, ",\"model\":");
    append_json_opt(&mut s, &tx.model);
    append_str(&mut s, ",\"input_tokens\":");
    let a = i64_text(tx.input_tokens);
    append_str(&mut s, a.as_str());
    append_str(&mut s, ",\"output_tokens\":");
    let b = i64_text(tx.output_tokens);
    append_str(&mut s, b.as_str());
    append_str(&mut s, ",\"request_hash\":");
    append_json_string(&mut s, tx.request_hash.as_str());
    append_str(&mut s, "}");
    s
}

/// An optional text member: absent or `null` gives `Some(None)`, a string gives its text,
/// anything else `None` (the body is refused).
pub open spec fn optional_text(doc: JsonValue, key: Seq<char>) -> Option<Option<Seq<char>>> {
    match json_get(doc, key) {
        None => Some(None),
        Some(JsonValue::Null) => Some(None),
        Some(JsonValue::Str(s)) => Some(Some(s@)),
        Some(_) => None,
    }
}

/// The transaction a ledger body document holds: an object with a string `entry_id`,
/// `tx_type`, `provider` and `request_hash`, integer counts, and optional `peer_id` and
/// `model`; `None` where one of these is missing or of another kind.
pub open spec fn body_transaction(doc: JsonValue) -> Option<TransactionView> {
    match (
        member_str(doc, "entry_id"@),
        member_str(doc, "tx_type"@),
        optional_text(doc, "peer_id"@),
        member_str(doc, "provider"@),
        optional_text(doc, "model"@),
        member_i64(doc, "input_tokens"@),
        member_i64(doc, "output_tokens"@),
        member_str(doc, "request_hash"@),
    ) {
        (Some(_), Some(t), Some(p), Some(pr), Some(m), Some(i), Some(o), Some(h)) => Some(
            TransactionView {
                tx_type: t,
                peer_id: p,
                provider: pr,
                model: m,
                input_tokens: i,
                output_tokens: o,
                request_hash: h,
            },
        ),
        _ => None,
    }
}

/// The optional text member `key` of `doc` is `o`: the string `o` where `o` is given, and an
/// absent or `null` member where it is not.
pub open spec fn member_is_optional(doc: JsonValue, key: Seq<char>, o: Option<Seq<char>>) -> bool {
    match o {
        Some(v) => member_str(doc, key) == Some(v),
        None => json_get(doc, key) is None || json_get(doc, key) == Some(JsonValue::Null),
    }
}

/// `doc` is a ledger body holding `tx`: it has a string entry id, and each field of `tx`
/// stands under its name (the type, provider and request hash as strings, the counts as
/// integers, the peer and model as optional strings).
pub open spec fn holds_transaction(doc: JsonValue, tx: TransactionView) -> bool {
    &&& member_str(doc, "entry_id"@) is Some
    &&& member_str(doc, "tx_type"@) == Some(tx.tx_type)
    &&& member_is_optional(doc, "peer_id"@, tx.peer_id)
    &&& member_str(doc, "provider"@) == Some(tx.provider)
    &&& member_is_optional(doc, "model"@, tx.model)
    &&& member_i64(doc, "input_tokens"@) == Some(tx.input_tokens)
    &&& member_i64(doc, "output_tokens"@) == Some(tx.output_tokens)
    &&& member_str(doc, "request_hash"@) == Some(tx.request_hash)
}

/// A ledger body holding a transaction reads back as exactly that transaction, every field
/// kept (the model and peer among them).
pub proof fn lemma_body_reads_back(doc: JsonValue, tx: TransactionView)
    requires
        holds_transaction(doc, tx),
    ensures
        body_transaction(doc) == Some(tx),
{
}

/// What a ledger body reads as is what it holds: each field of the transaction read stands
/// in the body under its name.
pub proof fn lemma_body_read_is_held(doc: JsonValue)
    ensures
        body_transaction(doc) matches Some(t) ==> holds_transaction(doc, t),
{
}

fn read_optional_text(doc: &JsonValue, key: &str) -> (r: Option<Option<String>>)
    ensures
        match r {
            Some(o) => optional_text(*doc, key@) == Some(opt_chars(o)),
            None => optional_text(*doc, key@) is None,
        },
{
    match get(doc, key) {
        None => Some(None),
        Some(JsonValue::Null) => Some(None),
        Some(JsonValue::Str(s)) => Some(Some(s.clone())),
        Some(_) => None,
    }
}

/// Reads the transaction of a ledger body document.
pub fn transaction_from_body(doc: &JsonValue) -> (r: Option<TransactionInsert>)
    ensures
        match r {
            Some(t) => body_transaction(*doc) == Some(t@),
            None => body_transaction(*doc) is None,
        },
{
    let _entry = get_str(doc, "entry_id")?;
    let tx_type = get_str(doc, "tx_type")?;
    let peer_id = read_optional_text(doc, "peer_id")?;
    let provider = get_str(doc, "provider")?;
    let model = read_optional_text(doc, "model")?;
    let input_tokens = get_i64(doc, "input_tokens")?;
    let output_tokens = get_i64(doc, "output_tokens")?;
    let request_hash = get_str(doc, "request_hash")?;
    Some(
        TransactionInsert {
            tx_type: tx_type.clone(),
            peer_id,
            provider: provider.clone(),
            model,
            input_tokens,
            output_tokens,
            request_hash: request_hash.clone(),
        },
    )
}

/// Why a ledger entry could not be sealed or opened.
#[derive(PartialEq, Eq, Debug, Clone)]
pub enum LedgerError {
    /// The node's keypair cannot be read.
    BadKeypair,
    /// The keypair could not sign.
    SigningFailed,
    /// age could not seal the body.
    SealFailed(VaultError),
    /// The ciphertext is not base64.
    CipherNotBase64,
    /// The circle key does not open the body.
    OpenFailed(VaultError),
    /// The opened body is not a ledger body document.
    BadBody,
}

/// A sealed ledger entry signed by the keypair `keypair`, under `circle_key`: the signer is
/// the keypair's peer id, its public key and signature are in base64, and the ciphertext in
/// base64 holds the entry's JSON body for the circle key.
pub open spec fn seals_entry(
    e: LedgerGossipRecord,
    keypair: Seq<u8>,
    circle_key: Seq<char>,
    lamport: i64,
    tx: TransactionView,
    entry_id: Seq<char>,
    nonce: Seq<char>,
    observed_ts: Seq<char>,
) -> bool {
    &&& e.entry_id@ == entry_id
    &&& e.lamport_ts == lamport
    &&& e.nonce@ == nonce
    &&& e.observed_ts@ == observed_ts
    &&& (public_key_of(keypair) matches Some(pk) && e.signer_pubkey_b64@ == base64_text(pk)
        && peer_id_of_key(pk) == Some(e.signer_peer_id@))
    &&& (base64_bytes(e.cipher_b64@) matches Some(cipher) && age_plaintext(cipher, circle_key)
        == Some(encode_utf8(ledger_body_text(entry_id, tx))))
    &&& (signature_by(
        keypair,
        encode_utf8(ledger_signing_text(entry_id, e.signer_peer_id@, lamport, e.cipher_b64@)),
    ) matches Some(sig) && e.signature_b64@ == base64_text(sig))
}

/// Seals and signs a ledger entry for `tx` with the node's keypair and the circle key.
pub fn seal_ledger_entry(
    keypair: &[u8],
    circle_key: &str,
    lamport: i64,
    tx: &TransactionInsert,
    entry_id: String,
    nonce: String,
    observed_ts: String,
) -> (r: Result<LedgerGossipRecord, LedgerError>)
    ensures
        r matches Ok(e) ==> seals_entry(e, keypair@, circle_key@, lamport, tx@, entry_id@, nonce@, observed_ts@)
            && ledger_entry_check(e) == Ok::<(), LedgerSignatureError>(()),
        r is Ok <==> public_key_of(keypair@) is Some,
        r is Err ==> r == Err::<LedgerGossipRecord, LedgerError>(LedgerError::BadKeypair),
{
    let (pk, signer) = match keypair_public(keypair) {
        Some(x) => x,
        None => return Err(LedgerError::BadKeypair),
    };
    let body = ledger_body_json(entry_id.as_str(), tx);
    let cipher = match age_seal(body.as_str().as_bytes(), circle_key) {
        Ok(c) => c,
        Err(e) => return Err(LedgerError::SealFailed(e)),
    };
    let cipher_b64 = base64_encode(cipher.as_slice());
    let payload = ledger_signing_payload(entry_id.as_str(), signer.as_str(), lamport, cipher_b64.as_str());
    let sig = match keypair_sign(keypair, payload.as_str().as_bytes()) {
        Some(s) => s,
        None => return Err(LedgerError::SigningFailed),
    };
    let record = LedgerGossipRecord {
        entry_id,
        signer_peer_id: signer,
        lamport_ts: lamport,
        cipher_b64,
        nonce,
        signature_b64: base64_encode(sig.as_slice()),
        signer_pubkey_b64: base64_encode(pk.as_slice()),
        observed_ts,
    };
    Ok(record)
}

/// Opens a gossiped ledger entry with the circle key and reads the transaction in it.
pub fn open_ledger_entry(envelope: &LedgerGossipRecord, circle_key: &str) -> (r: Result<
    TransactionInsert,
    LedgerError,
>)
    ensures
        match base64_bytes(envelope.cipher_b64@) {
            None => r == Err::<TransactionInsert, LedgerError>(LedgerError::CipherNotBase64),
            Some(cipher) => match r {
                Ok(t) => exists|plain: Seq<u8>|
                    age_plaintext(cipher, circle_key@) == Some(plain) && (#[trigger] json_of_bytes(plain)
                        matches Some(doc) && body_transaction(doc) == Some(t@)),
                Err(LedgerError::OpenFailed(_)) => true,
                Err(LedgerError::BadBody) => exists|plain: Seq<u8>|
                    age_plaintext(cipher, circle_key@) == Some(plain) && match #[trigger] json_of_bytes(plain) {
                        Some(doc) => body_transaction(doc) is None,
                        None => true,
                    },
                Err(_) => false,
            },
        },
{
    let cipher = match base64_decode(envelope.cipher_b64.as_str()) {
        Some(c) => c,
        None => return Err(LedgerError::CipherNotBase64),
    };
    let plain = match age_open(cipher.as_slice(), circle_key) {
        Ok(p) => p,
        Err(e) => return Err(LedgerError::OpenFailed(e)),
    };
    let doc = match parse_json(plain.as_slice()) {
        Some(d) => d,
        None => return Err(LedgerError::BadBody),
    };
    match transaction_from_body(&doc) {
        Some(t) => Ok(t),
        None => Err(LedgerError::BadBody),
    }
}

/// `uuid::Uuid::new_v4` in its text form: a random version-4 UUID, hyphenated, lowercase.
/// Which UUID is not stated; its shape is, as `Uuid`'s `Display` documents it: 36 characters,
/// hyphens at 8, 13, 18 and 23, lowercase hexadecimal digits elsewhere.
#[verifier::external_body]
pub(crate) fn uuid_v4_text() -> (s: String)
    ensures
        is_uuid_text(s@),
{
    uuid::Uuid::new_v4().to_string()
}

/// A lowercase hexadecimal digit.
pub open spec fn is_lower_hex(c: char) -> bool {
    ('0' <= c <= '9') || ('a' <= c <= 'f')
}

/// The shape of a hyphenated lowercase UUID.
pub open spec fn is_uuid_text(s: Seq<char>) -> bool {
    &&& s.len() == 36
    &&& forall|i: int|
        0 <= i < 36 ==> if i == 8 || i == 13 || i == 18 || i == 23 {
            #[trigger] s[i] == '-'
        } else {
            is_lower_hex(s[i])
        }
}

/// `chrono::Utc::now().to_rfc3339()`: the current time. Nothing is stated of it.
#[verifier::external_body]
pub(crate) fn now_rfc3339() -> (s: String) {
    chrono::Utc::now().to_rfc3339()
}

/// Builds the gossip envelope for a transaction: a fresh entry id and nonce, the current time,
/// sealed and signed as `seal_ledger_entry` does.
pub fn build_ledger_envelope(keypair: &[u8], circle_key: &str, lamport: i64, tx: &TransactionInsert) -> (r:
    Result<LedgerGossipRecord, LedgerError>)
    ensures
        r matches Ok(e) ==> is_uuid_text(e.entry_id@) && is_uuid_text(e.nonce@) && seals_entry(
            e,
            keypair@,
            circle_key@,
            lamport,
            tx@,
            e.entry_id@,
            e.nonce@,
            e.observed_ts@,
        ) && ledger_entry_check(e) == Ok::<(), LedgerSignatureError>(()),
        r is Ok <==> public_key_of(keypair@) is Some,
        r is Err ==> r == Err::<LedgerGossipRecord, LedgerError>(LedgerError::BadKeypair),
{
    let entry_id = uuid_v4_text();
    let nonce = uuid_v4_text();
    let observed = now_rfc3339();
    seal_ledger_entry(keypair, circle_key, lamport, tx, entry_id, nonce, observed)
}

/// The text of a circle key made from a UUID: the UUID without its hyphens.
pub open spec fn without_hyphens(s: Seq<char>) -> Seq<char> {
    s.filter(|c: char| c != '-')
}

/// `s` without its hyphens.
pub fn strip_hyphens(s: &str) -> (r: String)
    ensures
        r@ == without_hyphens(s@),
{
    let v = chars_of(s);
    let mut r = String::new();
    let mut i: usize = 0;
    while i < v.len()
        invariant
            i <= v@.len(),
            v@ == s@,
            r@ == without_hyphens(v@.take(i as int)),
        decreases v.len() - i,
    {
        assert(v@.take(i + 1).drop_last() =~= v@.take(i as int));
        reveal_with_fuel(Seq::filter, 1);
        if v[i] != '-' {
            push_char(&mut r, v[i]);
        }
        i = i + 1;
    }
    assert(v@.take(v@.len() as int) =~= v@);
    r
}

/// A fresh circle key: a random UUID without its hyphens.
pub fn new_circle_key() -> (k: String)
    ensures
        exists|u: Seq<char>| is_uuid_text(u) && k@ == #[trigger] without_hyphens(u),
{
    let u = uuid_v4_text();
    strip_hyphens(u.as_str())
}

/// The password the circle key is sealed with on this device: `tokenunion-circle-key::<salt>`.
pub open spec fn circle_key_password_text(device_salt: Seq<char>) -> Seq<char> {
    "tokenunion-circle-key::"@ + device_salt
}

/// The password the circle key is sealed with on a device with `device_salt`.
pub fn circle_key_password(device_salt: &str) -> (s: String)
    ensures
        s@ == circle_key_password_text(device_salt@),
{
    let mut s = owned("tokenunion-circle-key::");
    append_str(&mut s, device_salt);
    s
}

/// Seals the circle key for storage on this device.
pub fn seal_circle_key(key: &str, device_salt: &str) -> (r: Result<String, VaultError>)
    ensures
        r matches Ok(s) ==> crate::vault::seals(s@, key@, circle_key_password_text(device_salt@), device_salt@),
        r is Ok,
{
    let pw = circle_key_password(device_salt);
    crate::vault::encrypt_api_key(key, pw.as_str(), device_salt)
}

/// Opens the stored circle key on this device.
pub fn open_circle_key(sealed: &str, device_salt: &str) -> (r: Result<String, VaultError>)
    ensures
        crate::vault::opens_to(
            sealed@,
            circle_key_password_text(device_salt@),
            device_salt@,
            crate::vault::outcome_chars(r),
        ),
{
    let pw = circle_key_password(device_salt);
    crate::vault::decrypt_api_key(sealed, pw.as_str(), device_salt)
}

/// The version of a rotated circle key: one more than the stored version (1 where none is
/// stored), wrapping at the end of the range.
pub fn rotated_key_version(current: Option<i64>) -> (v: i64)
    ensures
        v == (match current {
            Some(c) => c,
            None => 1i64,
        }).wrapping_add(1),
{
    let c = match current {
        Some(c) => c,
        None => 1,
    };
    c.wrapping_add(1)
}

/// The stored circle key opens, on the same device, to the key that was sealed whenever
/// opening succeeds.
pub proof fn lemma_circle_key_roundtrip(
    sealed: Seq<char>,
    key: Seq<char>,
    device_salt: Seq<char>,
    opened: Seq<char>,
)
    requires
        crate::vault::seals(sealed, key, circle_key_password_text(device_salt), device_salt),
        crate::vault::opens_to(sealed, circle_key_password_text(device_salt), device_salt, Ok(opened)),
    ensures
        opened == key,
{
    crate::vault::lemma_open_gives_back_sealed(
        sealed,
        key,
        circle_key_password_text(device_salt),
        device_salt,
        opened,
    );
}

} // verus!
