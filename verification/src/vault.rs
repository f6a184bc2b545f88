use std::io::{Read, Write};

use vstd::prelude::*;
use vstd::utf8::{decode_utf8, encode_utf8, valid_utf8};

use crate::encoding::{
    base64_bytes, base64_decode, base64_encode, base64_text, is_base64_char, random_bytes,
    utf8_string,
};
use crate::numbers::{is_digit, lemma_nat_text_reads_back, nat_text};
use crate::text::{
    append_str, chars_of, lemma_split_on_nonempty, push_char, range_equals, split_bounds,
    split_on, string_of_range,
};

verus! {

broadcast use vstd::string::group_string_axioms;

/// Rounds of PBKDF2-HMAC-SHA256 that turn a password into an age passphrase.
pub const PBKDF2_ITERS: u32 = 120000;

/// Why sealing or opening a secret failed.
#[derive(PartialEq, Eq, Debug, Clone)]
pub enum VaultError {
    /// age could not set up its writer.
    WriterSetup,
    /// age could not write the sealed stream.
    WriteFailed,
    /// The sealed value does not start with the `v2` marker.
    UnsupportedFormat,
    /// The sealed value has no salt part.
    MissingSalt,
    /// The sealed value has no payload part.
    MissingPayload,
    /// The salt part is not base64.
    InvalidSalt,
    /// The payload part is not base64.
    InvalidPayload,
    /// The payload is not an age file.
    InvalidEnvelope,
    /// age refused the passphrase (wrong password or device salt).
    DecryptFailed,
    /// age failed while reading the plaintext; the reader's own error text.
    ReadFailed(String),
    /// The plaintext is not UTF-8.
    NotUtf8,
}

impl VaultError {
    /// The message the error is reported with.
    pub open spec fn text(self) -> Seq<char> {
        match self {
            VaultError::WriterSetup => "failed to initialize age writer"@,
            VaultError::WriteFailed => "failed to write age stream"@,
            VaultError::UnsupportedFormat => "unsupported key format; re-save key with current version"@,
            VaultError::MissingSalt => "missing pbkdf2 salt"@,
            VaultError::MissingPayload => "missing age payload"@,
            VaultError::InvalidSalt => "invalid pbkdf2 salt"@,
            VaultError::InvalidPayload => "invalid age payload"@,
            VaultError::InvalidEnvelope => "invalid age envelope"@,
            VaultError::DecryptFailed => "failed to decrypt key (wrong password/device salt?)"@,
            VaultError::ReadFailed(m) => m@,
            VaultError::NotUtf8 => "decrypted api key not utf-8"@,
        }
    }

    /// The message the error is reported with.
    pub fn message(&self) -> (s: String)
        ensures
            s@ == self.text(),
    {
        match self {
            VaultError::WriterSetup => crate::text::owned("failed to initialize age writer"),
            VaultError::WriteFailed => crate::text::owned("failed to write age stream"),
            VaultError::UnsupportedFormat => crate::text::owned("unsupported key format; re-save key with current version"),
            VaultError::MissingSalt => crate::text::owned("missing pbkdf2 salt"),
            VaultError::MissingPayload => crate::text::owned("missing age payload"),
            VaultError::InvalidSalt => crate::text::owned("invalid pbkdf2 salt"),
            VaultError::InvalidPayload => crate::text::owned("invalid age payload"),
            VaultError::InvalidEnvelope => crate::text::owned("invalid age envelope"),
            VaultError::DecryptFailed => crate::text::owned("failed to decrypt key (wrong password/device salt?)"),
            VaultError::ReadFailed(m) => crate::text::owned(m.as_str()),
            VaultError::NotUtf8 => crate::text::owned("decrypted api key not utf-8"),
        }
    }
}

/// The 32-byte PBKDF2-HMAC-SHA256 key of `material` under `salt` after `rounds` rounds.
pub uninterp spec fn pbkdf2_sha256_key(material: Seq<u8>, salt: Seq<u8>, rounds: u32) -> Seq<u8>;

/// The plaintext that the age file `cipher` holds for `passphrase`, if it holds one.
pub uninterp spec fn age_plaintext(cipher: Seq<u8>, passphrase: Seq<char>) -> Option<Seq<u8>>;

/// `pbkdf2::pbkdf2_hmac::<sha2::Sha256>` into a 32-byte buffer; named `pbkdf2_sha256_key`.
#[verifier::external_body]
fn pbkdf2_sha256(material: &[u8], salt: &[u8], rounds: u32) -> (key: Vec<u8>)
    ensures
        key@ == pbkdf2_sha256_key(material@, salt@, rounds),
        key@.len() == 32,
{
    let mut out = [0u8; 32];
    pbkdf2::pbkdf2_hmac::<sha2::Sha256>(material, salt, rounds, &mut out);
    out.to_vec()
}

/// age passphrase encryption (`Encryptor::with_user_passphrase`, `wrap_output`, `write_all`,
/// `finish`). The file key is random, so the bytes differ from call to call; what is claimed
/// is that the file holds `plain` for `passphrase`, and that sealing into memory succeeds:
/// `with_user_passphrase` cannot fail, `wrap_output` and the stream writer return only the
/// errors of the output they write to, which here is a `Vec<u8>` (whose `Write` never fails),
/// and the stream refuses a chunk only after `finish` has written the last one.
#[verifier::external_body]
pub(crate) fn age_seal(plain: &[u8], passphrase: &str) -> (r: Result<Vec<u8>, VaultError>)
    ensures
        r is Ok,
        r matches Ok(c) ==> age_plaintext(c@, passphrase@) == Some(plain@),
{
    let secret = age::secrecy::SecretString::from(passphrase.to_string());
    let encryptor = age::Encryptor::with_user_passphrase(secret);
    let mut out = vec![];
    let mut writer = match encryptor.wrap_output(&mut out) {
        Ok(w) => w,
        Err(_) => return Err(VaultError::WriterSetup),
    };
    if writer.write_all(plain).is_err() {
        return Err(VaultError::WriteFailed);
    }
    match writer.finish() {
        Ok(_) => Ok(out),
        Err(_) => Err(VaultError::WriteFailed),
    }
}

/// age passphrase decryption (`Decryptor::new`, `decrypt` with a `scrypt::Identity`,
/// `read_to_end`, whose error is reported by its own text). Whether it succeeds also rests on the scrypt work factor that this machine
/// accepts, so only the success case is stated: the plaintext is what `cipher` holds.
#[verifier::external_body]
pub(crate) fn age_open(cipher: &[u8], passphrase: &str) -> (r: Result<Vec<u8>, VaultError>)
    ensures
        r matches Ok(p) ==> age_plaintext(cipher@, passphrase@) == Some(p@),
        r matches Err(e) ==> e == VaultError::InvalidEnvelope || e == VaultError::DecryptFailed
            || e is ReadFailed,
{
    let decryptor = match age::Decryptor::new(cipher) {
        Ok(d) => d,
        Err(_) => return Err(VaultError::InvalidEnvelope),
    };
    let identity = age::scrypt::Identity::new(age::secrecy::SecretString::from(passphrase.to_string()));
    let mut reader = match decryptor.decrypt(std::iter::once(&identity as &dyn age::Identity)) {
        Ok(r) => r,
        Err(_) => return Err(VaultError::DecryptFailed),
    };
    let mut out = vec![];
    match reader.read_to_end(&mut out) {
        Ok(_) => Ok(out),
        Err(e) => Err(VaultError::ReadFailed(e.to_string())),
    }
}

/// The text the key derivation starts from: the password's length in characters, `:`, the
/// password, `:`, the device salt. The length keeps every pair of password and device salt
/// apart, also where either holds a `:`.
pub open spec fn key_material(password: Seq<char>, device_salt: Seq<char>) -> Seq<char> {
    nat_text(password.len()) + seq![':'] + password + seq![':'] + device_salt
}

/// Two passwords and device salts derive from the same key material only where they are the
/// same password and the same device salt.
pub proof fn lemma_key_material_injective(p1: Seq<char>, s1: Seq<char>, p2: Seq<char>, s2: Seq<char>)
    requires
        key_material(p1, s1) == key_material(p2, s2),
    ensures
        p1 == p2,
        s1 == s2,
{
    let m = key_material(p1, s1);
    let t1 = nat_text(p1.len());
    let t2 = nat_text(p2.len());
    lemma_nat_text_reads_back(p1.len());
    lemma_nat_text_reads_back(p2.len());
    assert(m[t1.len() as int] == ':');
    assert(key_material(p2, s2)[t2.len() as int] == ':');
    if t1.len() < t2.len() {
        assert(key_material(p2, s2)[t1.len() as int] == t2[t1.len() as int]);
        assert(is_digit(t2[t1.len() as int]));
        assert(false);
    }
    if t2.len() < t1.len() {
        assert(m[t2.len() as int] == t1[t2.len() as int]);
        assert(is_digit(t1[t2.len() as int]));
        assert(false);
    }
    assert(t1 =~= m.subrange(0, t1.len() as int));
    assert(t2 =~= key_material(p2, s2).subrange(0, t2.len() as int));
    assert(p1.len() == p2.len());
    let a: int = t1.len() as int + 1;
    assert(p1 =~= m.subrange(a, a + p1.len()));
    assert(p2 =~= key_material(p2, s2).subrange(a, a + p2.len()));
    let b: int = a + p1.len() + 1;
    assert(s1 =~= m.subrange(b, m.len() as int));
    assert(s2 =~= key_material(p2, s2).subrange(b, m.len() as int));
}

/// The age passphrase for `password` on a device with `device_salt`, under `kdf_salt`.
pub open spec fn derived_passphrase(password: Seq<char>, device_salt: Seq<char>, kdf_salt: Seq<u8>) -> Seq<char> {
    base64_text(pbkdf2_sha256_key(encode_utf8(key_material(password, device_salt)), kdf_salt, PBKDF2_ITERS))
}

/// The sealed form `v2:<salt>:<payload>`.
pub open spec fn envelope(salt_text: Seq<char>, payload_text: Seq<char>) -> Seq<char> {
    seq!['v', '2', ':'] + salt_text + seq![':'] + payload_text
}

/// `t` holds no `:`.
pub open spec fn colon_free(t: Seq<char>) -> bool {
    forall|i: int| 0 <= i < t.len() ==> t[i] != ':'
}

/// The salt and payload texts of a sealed value, or why it has none.
pub open spec fn envelope_parts(sealed: Seq<char>) -> Result<(Seq<char>, Seq<char>), VaultError> {
    let parts = split_on(sealed, ':');
    if parts[0] != seq!['v', '2'] {
        Err(VaultError::UnsupportedFormat)
    } else if parts.len() < 2 {
        Err(VaultError::MissingSalt)
    } else if parts.len() < 3 {
        Err(VaultError::MissingPayload)
    } else {
        Ok((parts[1], parts[2]))
    }
}

/// The age file and passphrase that opening `sealed` comes down to, or why it fails before.
pub open spec fn opening_plan(sealed: Seq<char>, password: Seq<char>, device_salt: Seq<char>) -> Result<(Seq<u8>, Seq<char>), VaultError> {
    match envelope_parts(sealed) {
        Err(e) => Err(e),
        Ok((salt_text, payload_text)) => match base64_bytes(salt_text) {
            None => Err(VaultError::InvalidSalt),
            Some(salt) => match base64_bytes(payload_text) {
                None => Err(VaultError::InvalidPayload),
                Some(payload) => Ok((payload, derived_passphrase(password, device_salt, salt))),
            },
        },
    }
}

/// `sealed` is a value that sealing `secret` with `password` and `device_salt` can give.
pub open spec fn seals(sealed: Seq<char>, secret: Seq<char>, password: Seq<char>, device_salt: Seq<char>) -> bool {
    exists|cipher: Seq<u8>, passphrase: Seq<char>|
        #![trigger age_plaintext(cipher, passphrase)]
        opening_plan(sealed, password, device_salt) == Ok::<(Seq<u8>, Seq<char>), VaultError>((cipher, passphrase))
            && age_plaintext(cipher, passphrase) == Some(encode_utf8(secret))
}

/// `r` is an outcome that opening `sealed` with `password` and `device_salt` can have.
pub open spec fn opens_to(sealed: Seq<char>, password: Seq<char>, device_salt: Seq<char>, r: Result<Seq<char>, VaultError>) -> bool {
    match opening_plan(sealed, password, device_salt) {
        Err(e) => r == Err::<Seq<char>, VaultError>(e),
        Ok((cipher, passphrase)) => match (r, age_plaintext(cipher, passphrase)) {
            (Ok(s), Some(b)) => valid_utf8(b) && s == decode_utf8(b),
            (Ok(_), None) => false,
            (Err(e), Some(b)) => e == VaultError::InvalidEnvelope || e == VaultError::DecryptFailed
                || e is ReadFailed || (e == VaultError::NotUtf8 && !valid_utf8(b)),
            (Err(e), None) => e == VaultError::InvalidEnvelope || e == VaultError::DecryptFailed
                || e is ReadFailed,
        },
    }
}

/// The characters of an outcome.
pub open spec fn outcome_chars(r: Result<String, VaultError>) -> Result<Seq<char>, VaultError> {
    match r {
        Ok(s) => Ok(s@),
        Err(e) => Err(e),
    }
}

proof fn lemma_split_no_sep(a: Seq<char>, sep: char)
    requires
        forall|i: int| 0 <= i < a.len() ==> a[i] != sep,
    ensures
        split_on(a, sep) == seq![a],
    decreases a.len(),
{
    if a.len() > 0 {
        lemma_split_no_sep(a.drop_last(), sep);
        assert(a.drop_last().push(a.last()) =~= a);
    } else {
        assert(a =~= Seq::<char>::empty());
    }
}

proof fn lemma_split_concat(x: Seq<char>, y: Seq<char>, sep: char)
    requires
        forall|i: int| 0 <= i < y.len() ==> y[i] != sep,
    ensures
        split_on(x + y, sep).len() == split_on(x, sep).len(),
        split_on(x + y, sep) == split_on(x, sep).update(
            split_on(x, sep).len() - 1,
            split_on(x, sep).last() + y,
        ),
    decreases y.len(),
{
    lemma_split_on_nonempty(x, sep);
    if y.len() == 0 {
        assert(x + y =~= x);
        assert(split_on(x, sep).last() + y =~= split_on(x, sep).last());
        assert(split_on(x, sep).update(split_on(x, sep).len() - 1, split_on(x, sep).last())
            =~= split_on(x, sep));
    } else {
        let y0 = y.drop_last();
        lemma_split_concat(x, y0, sep);
        let sx = split_on(x, sep);
        let n = sx.len() - 1;
        let r = split_on(x + y0, sep);
        assert((x + y).drop_last() =~= x + y0);
        assert((x + y).last() == y.last());
        assert(y[y.len() - 1] != sep);
        assert(split_on(x + y, sep) == r.update(r.len() - 1, r.last().push((x + y).last())));
        assert(r.last() == sx.last() + y0);
        assert((sx.last() + y0).push(y.last()) =~= sx.last() + y);
        assert(r.update(n, sx.last() + y) =~= sx.update(n, sx.last() + y));
    }
}

proof fn lemma_envelope_parts(s: Seq<char>, p: Seq<char>)
    requires
        forall|i: int| 0 <= i < s.len() ==> s[i] != ':',
        forall|i: int| 0 <= i < p.len() ==> p[i] != ':',
    ensures
        envelope_parts(envelope(s, p)) == Ok::<(Seq<char>, Seq<char>), VaultError>((s, p)),
{
    let v2 = seq!['v', '2'];
    lemma_split_no_sep(v2, ':');
    let a = v2.push(':');
    assert(split_on(a, ':') == split_on(v2, ':').push(Seq::<char>::empty())) by {
        assert(a.drop_last() =~= v2);
    }
    lemma_split_concat(a, s, ':');
    assert(Seq::<char>::empty() + s =~= s);
    let b = (a + s).push(':');
    assert(split_on(b, ':') == split_on(a + s, ':').push(Seq::<char>::empty())) by {
        assert(b.drop_last() =~= a + s);
    }
    lemma_split_concat(b, p, ':');
    assert(b + p =~= envelope(s, p));
    assert(split_on(envelope(s, p), ':') =~= seq![v2, s, p]);
}

/// The age passphrase for `password` on a device with `device_salt`, under `kdf_salt`.
pub fn derive_passphrase(password: &str, device_salt: &str, kdf_salt: &[u8]) -> (r: String)
    ensures
        r@ == derived_passphrase(password@, device_salt@, kdf_salt@),
{
    let mut material = String::new();
    let count = chars_of(password).len();
    crate::numbers::push_nat(&mut material, count as u64);
    push_char(&mut material, ':');
    append_str(&mut material, password);
    push_char(&mut material, ':');
    append_str(&mut material, device_salt);
    assert(material@ =~= key_material(password@, device_salt@));
    let key = pbkdf2_sha256(material.as_str().as_bytes(), kdf_salt, PBKDF2_ITERS);
    base64_encode(key.as_slice())
}

/// The salt and payload texts of a sealed value.
pub fn split_envelope(sealed: &str) -> (r: Result<(String, String), VaultError>)
    ensures
        match r {
            Ok((s, p)) => envelope_parts(sealed@) == Ok::<(Seq<char>, Seq<char>), VaultError>(
                (s@, p@),
            ),
            Err(e) => envelope_parts(sealed@) == Err::<(Seq<char>, Seq<char>), VaultError>(e),
        },
{
    let v = chars_of(sealed);
    let parts = split_bounds(v.as_slice(), ':');
    let mut v2: Vec<char> = Vec::new();
    v2.push('v');
    v2.push('2');
    assert(v2@ =~= seq!['v', '2']);
    proof {
        lemma_split_on_nonempty(v@, ':');
    }
    assert(parts@[0].0 <= parts@[0].1 <= v@.len());
    if !range_equals(v.as_slice(), parts[0].0, parts[0].1, v2.as_slice()) {
        return Err(VaultError::UnsupportedFormat);
    }
    if parts.len() < 2 {
        return Err(VaultError::MissingSalt);
    }
    if parts.len() < 3 {
        return Err(VaultError::MissingPayload);
    }
    assert(parts@[1].0 <= parts@[1].1 <= v@.len());
    assert(parts@[2].0 <= parts@[2].1 <= v@.len());
    let salt_text = string_of_range(v.as_slice(), parts[1].0, parts[1].1);
    let payload_text = string_of_range(v.as_slice(), parts[2].0, parts[2].1);
    Ok((salt_text, payload_text))
}

/// Seals `api_key` with a passphrase derived from `password` and `device_salt` under a fresh
/// random salt, as `v2:<salt>:<age file>` in base64.
pub fn encrypt_api_key(api_key: &str, password: &str, device_salt: &str) -> (r: Result<String, VaultError>)
    ensures
        r matches Ok(s) ==> seals(s@, api_key@, password@, device_salt@),
        r matches Ok(s) ==> exists|salt_text: Seq<char>, payload_text: Seq<char>|
            #![trigger envelope(salt_text, payload_text)]
            s@ == envelope(salt_text, payload_text) && colon_free(salt_text) && colon_free(payload_text),
        r is Ok,
{
    let kdf_salt = random_bytes(16);
    let passphrase = derive_passphrase(password, device_salt, kdf_salt.as_slice());
    let cipher = age_seal(api_key.as_bytes(), passphrase.as_str())?;
    let salt_text = base64_encode(kdf_salt.as_slice());
    let payload_text = base64_encode(cipher.as_slice());
    let mut out = String::new();
    push_char(&mut out, 'v');
    push_char(&mut out, '2');
    push_char(&mut out, ':');
    append_str(&mut out, salt_text.as_str());
    push_char(&mut out, ':');
    append_str(&mut out, payload_text.as_str());
    proof {
        assert(out@ =~= envelope(salt_text@, payload_text@));
        assert forall|i: int| 0 <= i < salt_text@.len() implies salt_text@[i] != ':' by {
            assert(is_base64_char(salt_text@[i]));
        }
        assert forall|i: int| 0 <= i < payload_text@.len() implies payload_text@[i] != ':' by {
            assert(is_base64_char(payload_text@[i]));
        }
        lemma_envelope_parts(salt_text@, payload_text@);
        assert(colon_free(salt_text@) && colon_free(payload_text@));
        assert(opening_plan(out@, password@, device_salt@) == Ok::<(Seq<u8>, Seq<char>), VaultError>((cipher@, passphrase@)));
        assert(age_plaintext(cipher@, passphrase@) == Some(encode_utf8(api_key@)));
    }
    Ok(out)
}

/// Opens a value sealed by `encrypt_api_key` with the same password and device salt.
pub fn decrypt_api_key(encrypted: &str, password: &str, device_salt: &str) -> (r: Result<String, VaultError>)
    ensures
        opens_to(encrypted@, password@, device_salt@, outcome_chars(r)),
{
    let (salt_text, payload_text) = split_envelope(encrypted)?;
    let salt = match base64_decode(salt_text.as_str()) {
        Some(b) => b,
        None => return Err(VaultError::InvalidSalt),
    };
    let payload = match base64_decode(payload_text.as_str()) {
        Some(b) => b,
        None => return Err(VaultError::InvalidPayload),
    };
    let passphrase = derive_passphrase(password, device_salt, salt.as_slice());
    let plain = age_open(payload.as_slice(), passphrase.as_str())?;
    let ghost plain_bytes = plain@;
    match utf8_string(plain) {
        Some(s) => Ok(s),
        None => {
            assert(!valid_utf8(plain_bytes));
            Err(VaultError::NotUtf8)
        },
    }
}

/// A secret sealed with a password and device salt opens, with the same password and device
/// salt, to that secret whenever opening succeeds; nothing else can come out of it.
pub proof fn lemma_open_gives_back_sealed(
    sealed: Seq<char>,
    secret: Seq<char>,
    password: Seq<char>,
    device_salt: Seq<char>,
    opened: Seq<char>,
)
    requires
        seals(sealed, secret, password, device_salt),
        opens_to(sealed, password, device_salt, Ok(opened)),
    ensures
        opened == secret,
{
    broadcast use vstd::utf8::encode_utf8_decode_utf8;

    let (cipher, passphrase) = choose|cipher: Seq<u8>, passphrase: Seq<char>|
        #![trigger age_plaintext(cipher, passphrase)]
        opening_plan(sealed, password, device_salt) == Ok::<(Seq<u8>, Seq<char>), VaultError>(
            (cipher, passphrase),
        ) && age_plaintext(cipher, passphrase) == Some(encode_utf8(secret));
    assert(decode_utf8(encode_utf8(secret)) == secret);
}

} // verus!
