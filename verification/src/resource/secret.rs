//! At-rest encryption of pool credentials (S3 secret keys, FTP passwords).
//!
//! A credential is stored as `enc:v1:<base64(nonce | ciphertext | tag)>` under an
//! AES-256-GCM master key given as 64 hex characters. Without a master key credentials
//! are stored as they are. A stored value without the `enc:v1:` prefix is a plaintext
//! value from before encryption and is handed back unchanged.
use vstd::prelude::*;
use vstd::utf8::{decode_utf8, encode_utf8, valid_utf8};
use vstd::string::StringSliceAdditionalSpecFns;
use crate::common::text::{chars_of, has_prefix, owned, push_text, starts_with, string_of};
use aes_gcm::{Aes256Gcm, Key, KeyInit, Nonce, aead::Aead};
use base64::Engine;
use crate::common::random::os_random_bytes;

verus! {

broadcast use vstd::utf8::encode_utf8_valid_utf8, vstd::utf8::encode_utf8_decode_utf8;

/// The marker in front of an encrypted credential.
pub const PREFIX: &'static str = "enc:v1:";

/// Length of the AES-GCM nonce in bytes.
pub const NONCE_LEN: usize = 12;

/// Largest plaintext AES-GCM accepts, in bytes.
pub const AES_GCM_MAX_PLAINTEXT: u64 = 0x10_0000_0000u64;

/// The value of a lower-case hex digit byte, as the table `0123456789abcdef` gives it.
pub open spec fn hex_value(b: u8) -> Option<u8> {
    if 48 <= b <= 57 {
        Some((b - 48) as u8)
    } else if 97 <= b <= 102 {
        Some((b - 87) as u8)
    } else {
        None
    }
}

/// The error of [`decode_hex`] on odd input.
pub open spec fn odd_length_error() -> Seq<char> {
    "odd hex length"@
}

/// The error of [`decode_hex`] on a byte outside `0-9a-f`.
pub open spec fn invalid_digit_error() -> Seq<char> {
    "invalid hex"@
}

/// Whether every byte is a lower-case hex digit.
pub open spec fn all_hex(bytes: Seq<u8>) -> bool {
    forall|i: int| 0 <= i < bytes.len() ==> (#[trigger] hex_value(bytes[i])) is Some
}

/// The bytes that pairs of lower-case hex digits stand for, high nibble first.
pub open spec fn hex_decoded(bytes: Seq<u8>) -> Seq<u8> {
    Seq::new(
        bytes.len() / 2,
        |i: int| ((hex_value(bytes[2 * i])->0 as int) * 16 + (hex_value(bytes[2 * i + 1])->0 as int)) as u8,
    )
}

/// What [`decode_hex`] gives for the UTF-8 bytes of its input.
pub open spec fn decode_hex_result(bytes: Seq<u8>) -> Result<Seq<u8>, Seq<char>> {
    if bytes.len() % 2 != 0 {
        Err(odd_length_error())
    } else if !all_hex(bytes) {
        Err(invalid_digit_error())
    } else {
        Ok(hex_decoded(bytes))
    }
}

/// The value of a lower-case hex digit byte.
fn hex_value_of(b: u8) -> (v: Option<u8>)
    ensures
        v == hex_value(b),
{
    if 48 <= b && b <= 57 {
        Some(b - 48)
    } else if 97 <= b && b <= 102 {
        Some(b - 87)
    } else {
        None
    }
}

/// Decodes lower-case hex, two digits per byte. Upper-case digits are refused.
pub fn decode_hex(hex: &str) -> (r: Result<Vec<u8>, String>)
    ensures
        match decode_hex_result(hex.spec_bytes()) {
            Ok(b) => r matches Ok(v) && v@ == b,
            Err(m) => r matches Err(e) && e@ == m,
        },
{
    let bytes = hex.as_bytes();
    if bytes.len() % 2 != 0 {
        return Err(owned("odd hex length"));
    }
    let mut out: Vec<u8> = Vec::new();
    let mut i: usize = 0;
    while i < bytes.len() / 2
        invariant
            bytes.len() % 2 == 0,
            bytes@ == hex.spec_bytes(),
            i <= bytes.len() / 2,
            forall|k: int| 0 <= k < 2 * i ==> (#[trigger] hex_value(bytes@[k])) is Some,
            out@ == hex_decoded(bytes@).subrange(0, i as int),
        decreases bytes.len() / 2 - i,
    {
        let hi = match hex_value_of(bytes[2 * i]) {
            Some(v) => v,
            None => return Err(owned("invalid hex")),
        };
        let lo = match hex_value_of(bytes[2 * i + 1]) {
            Some(v) => v,
            None => return Err(owned("invalid hex")),
        };
        assert(hi < 16 && lo < 16);
        let b: u8 = hi * 16 + lo;
        out.push(b);
        i += 1;
        assert(out@ =~= hex_decoded(bytes@).subrange(0, i as int));
    }
    assert(hex_decoded(bytes@).subrange(0, i as int) =~= hex_decoded(bytes@));
    Ok(out)
}

/// A 32-byte AES-256 master key.
pub struct MasterKey {
    bytes: Vec<u8>,
}

impl MasterKey {
    #[verifier::type_invariant]
    spec fn well_formed(self) -> bool {
        self.bytes.len() == 32
    }

    /// The key's bytes.
    pub closed spec fn view(self) -> Seq<u8> {
        self.bytes@
    }

    /// A key made of exactly 32 bytes.
    pub fn from_bytes(bytes: Vec<u8>) -> (key: Option<MasterKey>)
        ensures
            match key {
                Some(k) => bytes@.len() == 32 && k.view() == bytes@,
                None => bytes@.len() != 32,
            },
    {
        if bytes.len() == 32 {
            Some(MasterKey { bytes })
        } else {
            None
        }
    }

    fn as_bytes(&self) -> (b: &[u8])
        ensures
            b@ == self.view(),
            b@.len() == 32,
    {
        proof {
            use_type_invariant(self);
        }
        self.bytes.as_slice()
    }
}

/// What the master-key variable turned out to hold.
pub enum MasterKeySetting {
    /// The variable is not set: credentials are stored as plaintext.
    NotSet,
    /// A usable key.
    Key(MasterKey),
    /// Valid hex of the wrong length: plaintext, with an error in the log.
    WrongLength,
    /// Not valid hex: plaintext, with this error in the log.
    Invalid(String),
}

/// Reads the master-key variable's value: 64 lower-case hex characters make a key.
pub fn parse_master_key(raw: Option<&str>) -> (setting: MasterKeySetting)
    ensures
        match raw {
            None => setting is NotSet,
            Some(r) => match decode_hex_result(r.spec_bytes()) {
                Ok(b) => if b.len() == 32 {
                    setting matches MasterKeySetting::Key(k) && k.view() == b
                } else {
                    setting is WrongLength
                },
                Err(m) => setting matches MasterKeySetting::Invalid(e) && e@ == m,
            },
        },
{
    match raw {
        None => MasterKeySetting::NotSet,
        Some(r) => match decode_hex(r) {
            Ok(bytes) => match MasterKey::from_bytes(bytes) {
                Some(k) => MasterKeySetting::Key(k),
                None => MasterKeySetting::WrongLength,
            },
            Err(e) => MasterKeySetting::Invalid(e),
        },
    }
}

impl MasterKeySetting {
    /// The key to use, if there is one.
    pub fn key(&self) -> (k: Option<&MasterKey>)
        ensures
            match *self {
                MasterKeySetting::Key(m) => k == Some(&m),
                _ => k is None,
            },
    {
        match self {
            MasterKeySetting::Key(m) => Some(m),
            _ => None,
        }
    }
}

/// The AES-256-GCM ciphertext (encrypted bytes followed by the 16-byte tag) of `plain`
/// under `key` and `nonce`, with no associated data.
pub uninterp spec fn aes_gcm_sealed(key: Seq<u8>, nonce: Seq<u8>, plain: Seq<u8>) -> Seq<u8>;

/// What AES-256-GCM decryption of `sealed` under `key` and `nonce` gives: the plaintext,
/// or `None` when authentication fails.
pub uninterp spec fn aes_gcm_opened(key: Seq<u8>, nonce: Seq<u8>, sealed: Seq<u8>) -> Option<Seq<u8>>;

/// Standard base64 (with padding) of `data`.
pub uninterp spec fn base64_text(data: Seq<u8>) -> Seq<char>;

/// What standard base64 decoding of `text` gives, `None` on malformed input.
pub uninterp spec fn base64_decoded(text: Seq<char>) -> Option<Seq<u8>>;

/// AES-256-GCM encryption (`Aead::encrypt` of `Aes256Gcm`). It fails only for a
/// plaintext over 2^36 bytes; the ciphertext carries a 16-byte tag, and decryption under
/// the same key and nonce gives the plaintext back.
#[verifier::external_body]
fn aes_seal(key: &[u8], nonce: &[u8], plain: &[u8]) -> (sealed: Option<Vec<u8>>)
    requires
        key@.len() == 32,
        nonce@.len() == 12,
    ensures
        plain@.len() <= AES_GCM_MAX_PLAINTEXT ==> sealed is Some,
        sealed matches Some(s) ==> s@ == aes_gcm_sealed(key@, nonce@, plain@) && s@.len()
            == plain@.len() + 16 && aes_gcm_opened(key@, nonce@, s@) == Some(plain@),
{
    let cipher = Aes256Gcm::new(Key::<Aes256Gcm>::from_slice(key));
    cipher.encrypt(Nonce::from_slice(nonce), plain).ok()
}

/// AES-256-GCM decryption (`Aead::decrypt` of `Aes256Gcm`).
#[verifier::external_body]
fn aes_open(key: &[u8], nonce: &[u8], sealed: &[u8]) -> (plain: Option<Vec<u8>>)
    requires
        key@.len() == 32,
        nonce@.len() == 12,
    ensures
        match plain {
            Some(p) => aes_gcm_opened(key@, nonce@, sealed@) == Some(p@),
            None => aes_gcm_opened(key@, nonce@, sealed@) is None,
        },
{
    let cipher = Aes256Gcm::new(Key::<Aes256Gcm>::from_slice(key));
    cipher.decrypt(Nonce::from_slice(nonce), sealed).ok()
}

/// Standard base64 encoding (`general_purpose::STANDARD.encode`); decoding gives the
/// data back.
#[verifier::external_body]
fn base64_encode(data: &[u8]) -> (text: String)
    ensures
        text@ == base64_text(data@),
        base64_decoded(text@) == Some(data@),
{
    base64::engine::general_purpose::STANDARD.encode(data)
}

/// Standard base64 decoding (`general_purpose::STANDARD.decode`).
#[verifier::external_body]
fn base64_decode(text: &str) -> (data: Option<Vec<u8>>)
    ensures
        match data {
            Some(d) => base64_decoded(text@) == Some(d@),
            None => base64_decoded(text@) is None,
        },
{
    base64::engine::general_purpose::STANDARD.decode(text).ok()
}

/// A string from UTF-8 bytes (`String::from_utf8`), `None` when they are not valid UTF-8.
#[verifier::external_body]
fn utf8_string(bytes: Vec<u8>) -> (s: Option<String>)
    ensures
        match s {
            Some(t) => valid_utf8(bytes@) && t@ == decode_utf8(bytes@),
            None => !valid_utf8(bytes@),
        },
{
    String::from_utf8(bytes).ok()
}

/// The stored form of `plain` under `key` and `nonce`: `enc:v1:` and the base64 of the
/// nonce followed by the ciphertext.
pub open spec fn sealed_form(key: Seq<u8>, nonce: Seq<u8>, plain: Seq<char>) -> Seq<char> {
    PREFIX@ + base64_text(nonce + aes_gcm_sealed(key, nonce, encode_utf8(plain)))
}

/// What [`decrypt_secret`] gives for a stored value: without a master key, and for values
/// without the prefix (legacy plaintext), the stored value comes back unchanged;
/// otherwise the part after the prefix comes back whenever the payload is not base64 of
/// more than a nonce, the ciphertext does not authenticate, or the plaintext is not UTF-8.
pub open spec fn opened_form(key: Option<Seq<u8>>, stored: Seq<char>) -> Seq<char> {
    if !has_prefix(stored, PREFIX@) {
        stored
    } else {
        let rest = stored.subrange(PREFIX@.len() as int, stored.len() as int);
        match key {
            None => stored,
            Some(k) => match base64_decoded(rest) {
                Some(payload) => if payload.len() > 12 {
                    match aes_gcm_opened(
                        k,
                        payload.subrange(0, 12),
                        payload.subrange(12, payload.len() as int),
                    ) {
                        Some(p) => if valid_utf8(p) {
                            decode_utf8(p)
                        } else {
                            rest
                        },
                        None => rest,
                    }
                } else {
                    rest
                },
                None => rest,
            },
        }
    }
}

/// The view of an optional key.
pub open spec fn key_view(key: Option<&MasterKey>) -> Option<Seq<u8>> {
    match key {
        Some(k) => Some(k.view()),
        None => None,
    }
}

/// Encrypts `plain` under `key` with the given 12-byte `nonce`. Opening the result with
/// the same key gives `plain` back.
pub fn seal_secret(key: &MasterKey, nonce: &[u8], plain: &str) -> (stored: String)
    requires
        nonce@.len() == 12,
        plain.spec_bytes().len() <= AES_GCM_MAX_PLAINTEXT,
    ensures
        stored@ == sealed_form(key.view(), nonce@, plain@),
        opened_form(Some(key.view()), stored@) == plain@,
{
    let kb = key.as_bytes();
    let sealed = aes_seal(kb, nonce, plain.as_bytes());
    let sealed = match sealed {
        Some(s) => s,
        None => {
            assert(false);
            Vec::new()
        },
    };
    let mut payload: Vec<u8> = Vec::new();
    let mut i: usize = 0;
    while i < nonce.len()
        invariant
            i <= nonce.len(),
            payload@ == nonce@.subrange(0, i as int),
        decreases nonce.len() - i,
    {
        payload.push(nonce[i]);
        i += 1;
        assert(payload@ =~= nonce@.subrange(0, i as int));
    }
    let mut j: usize = 0;
    while j < sealed.len()
        invariant
            j <= sealed.len(),
            payload@ == nonce@ + sealed@.subrange(0, j as int),
        decreases sealed.len() - j,
    {
        payload.push(sealed[j]);
        j += 1;
        assert(payload@ =~= nonce@ + sealed@.subrange(0, j as int));
    }
    assert(sealed@.subrange(0, sealed.len() as int) =~= sealed@);
    assert(nonce@.subrange(0, 12) =~= nonce@);
    let text = base64_encode(payload.as_slice());
    let mut stored = owned(PREFIX);
    push_text(&mut stored, text.as_str());
    proof {
        let s = stored@;
        assert(s.subrange(0, PREFIX@.len() as int) =~= PREFIX@);
        assert(s.subrange(PREFIX@.len() as int, s.len() as int) =~= text@);
        assert(payload@.subrange(0, 12) =~= nonce@);
        assert(payload@.subrange(12, payload@.len() as int) =~= sealed@);
    }
    stored
}

/// Encrypts a credential before it is stored; without a key it is returned unchanged.
/// With a key a fresh random nonce is drawn, so the same plaintext gives a different
/// stored form each time. `None` only when the random source fails.
pub fn encrypt_secret(key: Option<&MasterKey>, plain: &str) -> (stored: Option<String>)
    requires
        plain.spec_bytes().len() <= AES_GCM_MAX_PLAINTEXT,
    ensures
        key is None ==> (stored matches Some(s) && s@ == plain@),
        key matches Some(k) ==> (stored matches Some(s) ==> exists|n: Seq<u8>|
            n.len() == 12 && s@ == sealed_form(k.view(), n, plain@)),
        key is Some ==> (stored matches Some(s) ==> opened_form(key_view(key), s@) == plain@),
{
    match key {
        None => Some(owned(plain)),
        Some(k) => match os_random_bytes(NONCE_LEN) {
            Some(nonce) => Some(seal_secret(k, nonce.as_slice(), plain)),
            None => None,
        },
    }
}

/// Decrypts a stored credential (see [`opened_form`] for every case).
pub fn decrypt_secret(key: Option<&MasterKey>, stored: &str) -> (plain: String)
    ensures
        plain@ == opened_form(key_view(key), stored@),
{
    if !starts_with(stored, PREFIX) {
        return owned(stored);
    }
    let k = match key {
        None => return owned(stored),
        Some(k) => k,
    };
    let chars = chars_of(stored);
    let plen = chars_of(PREFIX).len();
    let rest = string_of(&chars, plen, chars.len());
    let payload = match base64_decode(rest.as_str()) {
        Some(p) => p,
        None => return rest,
    };
    if payload.len() <= NONCE_LEN {
        return rest;
    }
    let mut nonce: Vec<u8> = Vec::new();
    let mut sealed: Vec<u8> = Vec::new();
    let mut i: usize = 0;
    while i < payload.len()
        invariant
            12 < payload.len(),
            i <= payload.len(),
            i <= 12 ==> nonce@ == payload@.subrange(0, i as int) && sealed@.len() == 0,
            i > 12 ==> nonce@ == payload@.subrange(0, 12) && sealed@ == payload@.subrange(
                12,
                i as int,
            ),
        decreases payload.len() - i,
    {
        if i < NONCE_LEN {
            nonce.push(payload[i]);
        } else {
            sealed.push(payload[i]);
        }
        i += 1;
        assert(i <= 12 ==> nonce@ =~= payload@.subrange(0, i as int));
        assert(i > 12 ==> sealed@ =~= payload@.subrange(12, i as int));
    }
    match aes_open(k.as_bytes(), nonce.as_slice(), sealed.as_slice()) {
        Some(p) => match utf8_string(p) {
            Some(s) => s,
            None => rest,
        },
        None => rest,
    }
}

/// A stored value without the `enc:v1:` prefix is legacy plaintext: it opens to itself
/// under any key or none.
pub proof fn law_legacy_passes_through(key: Option<Seq<u8>>, stored: Seq<char>)
    requires
        !has_prefix(stored, PREFIX@),
    ensures
        opened_form(key, stored) == stored,
{
}

/// Without a master key every stored value comes back unchanged, whatever its prefix.
pub proof fn law_no_key_passes_through(stored: Seq<char>)
    ensures
        opened_form(None, stored) == stored,
{
}

} // verus!
