//! Field-level encryption of stored API keys: AES-256-GCM under a per-device
//! key, stored as `ENC1::` followed by the base64 of nonce and ciphertext.
use vstd::prelude::*;
use vstd::utf8::{decode_utf8, encode_utf8, valid_utf8};

use aes_gcm::aead::{Aead, KeyInit};
use base64::Engine;
use rand::RngCore;

use crate::error::AppError;
use crate::text::{begins, chars_of, concat, owned, slice_of, starts_with, string_of};


verus! {

broadcast use {vstd::utf8::encode_utf8_valid_utf8, vstd::utf8::encode_utf8_decode_utf8};

/// The length of a nonce, in bytes.
pub const NONCE_LEN: usize = 12;

/// The length of a device key, in bytes.
pub const DEVICE_KEY_LEN: usize = 32;

/// The name of the device key file, beside the database.
pub const DEVICE_KEY_FILE: &'static str = "device.key";

/// The prefix of a stored ciphertext; `ENC1::` is followed by the base64 of
/// nonce and ciphertext.
pub const ENCRYPTED_PREFIX: &'static str = "ENC1::";

// ---------------------------------------------------------------------------
// What the outside crates compute
// ---------------------------------------------------------------------------
/// The AES-256-GCM ciphertext (with its tag) of a plaintext under a key and
/// a nonce, without associated data.
pub uninterp spec fn aes_gcm_seal(key: Seq<u8>, nonce: Seq<u8>, plaintext: Seq<u8>) -> Seq<u8>;

/// The AES-256-GCM plaintext of a ciphertext under a key and a nonce, when
/// it authenticates.
pub uninterp spec fn aes_gcm_open(key: Seq<u8>, nonce: Seq<u8>, ciphertext: Seq<u8>) -> Option<Seq<u8>>;

/// The standard padded base64 text of some bytes.
pub uninterp spec fn base64_text(data: Seq<u8>) -> Seq<char>;

/// The bytes that a standard padded base64 text decodes to, when it is valid.
pub uninterp spec fn base64_bytes(text: Seq<char>) -> Option<Seq<u8>>;

/// `Aead::encrypt` of `aes_gcm::Aes256Gcm`, with no associated data: fails
/// exactly when the plaintext is longer than 2^36 bytes (the source's
/// `P_MAX`), with the error that displays as `aead::Error`; else gives the
/// sealed bytes, a function of key, nonce and plaintext, 16 bytes (the tag)
/// longer than the plaintext, which open under the same key and nonce to the
/// plaintext. The cipher itself is not stated.
#[verifier::external_body]
fn aes_encrypt(key: &[u8; 32], nonce: &[u8; 12], plaintext: &[u8]) -> (r: Result<Vec<u8>, String>)
    ensures
        (r is Ok) == (plaintext@.len() <= 0x10_0000_0000),
        r matches Ok(c) ==> c@ == aes_gcm_seal(key@, nonce@, plaintext@) && c@.len()
            == plaintext@.len() + 16 && aes_gcm_open(key@, nonce@, c@) == Some(plaintext@),
        r matches Err(m) ==> m@ == "aead::Error"@,
{
    let cipher = aes_gcm::Aes256Gcm::new(aes_gcm::Key::<aes_gcm::Aes256Gcm>::from_slice(key));
    cipher.encrypt(aes_gcm::Nonce::from_slice(nonce), plaintext).map_err(|e| e.to_string())
}

/// `Aead::decrypt` of `aes_gcm::Aes256Gcm`, with no associated data: gives
/// the opened plaintext, a function of key, nonce and ciphertext, and fails
/// (with the error that displays as `aead::Error`) when it does not
/// authenticate.
#[verifier::external_body]
fn aes_decrypt(key: &[u8; 32], nonce: &[u8], ciphertext: &[u8]) -> (r: Result<Vec<u8>, String>)
    requires
        nonce@.len() == 12,
    ensures
        (match aes_gcm_open(key@, nonce@, ciphertext@) {
            Some(p) => r matches Ok(q) && q@ == p,
            None => r matches Err(m) && m@ == "aead::Error"@,
        }),
{
    let cipher = aes_gcm::Aes256Gcm::new(aes_gcm::Key::<aes_gcm::Aes256Gcm>::from_slice(key));
    cipher.decrypt(aes_gcm::Nonce::from_slice(nonce), ciphertext).map_err(|e| e.to_string())
}

/// `Engine::encode` of base64's `STANDARD` engine: the padded base64 text of
/// the bytes, a function of the bytes alone, which decodes back to them. It
/// panics on an output length that overflows `usize`, which the bound here
/// leaves out.
#[verifier::external_body]
fn base64_encode(data: &[u8]) -> (r: String)
    requires
        data@.len() <= usize::MAX / 2,
    ensures
        r@ == base64_text(data@),
        base64_bytes(r@) == Some(data@),
{
    base64::engine::general_purpose::STANDARD.encode(data)
}

/// `Engine::decode` of base64's `STANDARD` engine: the decoded bytes, a
/// function of the text alone, or an error (shown as text) when the text is
/// not valid padded base64. What the error text says is not stated.
#[verifier::external_body]
fn base64_decode(text: &str) -> (r: Result<Vec<u8>, String>)
    ensures
        (match base64_bytes(text@) {
            Some(b) => r matches Ok(d) && d@ == b,
            None => r is Err,
        }),
{
    base64::engine::general_purpose::STANDARD.decode(text).map_err(|e| e.to_string())
}

/// `String::from_utf8`: the string that valid UTF-8 bytes decode to, else an
/// error (shown as text). What the error text says is not stated.
#[verifier::external_body]
fn utf8_string(bytes: Vec<u8>) -> (r: Result<String, String>)
    ensures
        (r is Ok) == valid_utf8(bytes@),
        r matches Ok(s) ==> s@ == decode_utf8(bytes@),
{
    String::from_utf8(bytes).map_err(|e| e.to_string())
}

/// `RngCore::fill_bytes` on `rand::thread_rng()`: random bytes; nothing is
/// stated of them.
#[verifier::external_body]
fn random_bytes_12() -> (r: [u8; 12]) {
    let mut out = [0u8; 12];
    rand::thread_rng().fill_bytes(&mut out);
    out
}

/// `RngCore::fill_bytes` on `rand::thread_rng()`: random bytes; nothing is
/// stated of them.
#[verifier::external_body]
fn random_bytes_32() -> (r: [u8; 32]) {
    let mut out = [0u8; 32];
    rand::thread_rng().fill_bytes(&mut out);
    out
}

// ---------------------------------------------------------------------------
// The cipher
// ---------------------------------------------------------------------------
/// Whether a stored value is a ciphertext of this scheme.
pub fn is_encrypted(stored: &str) -> (r: bool)
    ensures
        r == begins(stored@, ENCRYPTED_PREFIX@),
{
    let s = chars_of(stored);
    let p = chars_of(ENCRYPTED_PREFIX);
    starts_with(s.as_slice(), p.as_slice())
}

/// The stored form of a plaintext sealed under a key with a nonce.
pub open spec fn sealed_form(key: Seq<u8>, nonce: Seq<u8>, plaintext: Seq<char>) -> Seq<char> {
    ENCRYPTED_PREFIX@ + base64_text(nonce + aes_gcm_seal(key, nonce, encode_utf8(plaintext)))
}

/// A stored value opens to a plaintext under a key: after the `ENC1::`
/// prefix it is base64 of more than 12 bytes, whose ciphertext (after the
/// 12-byte nonce) opens to the plaintext's UTF-8 bytes.
pub open spec fn opens_to(key: Seq<u8>, stored: Seq<char>, plaintext: Seq<char>) -> bool {
    &&& begins(stored, ENCRYPTED_PREFIX@)
    &&& match base64_bytes(stored.skip(ENCRYPTED_PREFIX@.len() as int)) {
        Some(c) => c.len() > 12 && aes_gcm_open(key, c.take(12), c.skip(12)) == Some(
            encode_utf8(plaintext),
        ),
        None => false,
    }
}

/// The plaintext that a stored value decrypts to under a key: after the
/// `ENC1::` prefix, base64 of more than 12 bytes whose ciphertext (after the
/// 12-byte nonce) opens to valid UTF-8; `None` when any of that fails.
pub open spec fn decrypted(key: Seq<u8>, stored: Seq<char>) -> Option<Seq<char>> {
    if !begins(stored, ENCRYPTED_PREFIX@) {
        None
    } else {
        match base64_bytes(stored.skip(ENCRYPTED_PREFIX@.len() as int)) {
            None => None,
            Some(c) => if c.len() <= 12 {
                None
            } else {
                match aes_gcm_open(key, c.take(12), c.skip(12)) {
                    None => None,
                    Some(p) => if valid_utf8(p) {
                        Some(decode_utf8(p))
                    } else {
                        None
                    },
                }
            },
        }
    }
}

/// What a stored value opens to is what it decrypts to: the text that was
/// sealed comes back unchanged.
pub proof fn opened_keys_decrypt(key: Seq<u8>, stored: Seq<char>, plaintext: Seq<char>)
    requires
        opens_to(key, stored, plaintext),
    ensures
        decrypted(key, stored) == Some(plaintext),
{
}

/// Encrypts API keys under a device key.
#[derive(Clone, Copy)]
pub struct ApiKeyCipher {
    key: [u8; 32],
}

impl View for ApiKeyCipher {
    type V = Seq<u8>;

    closed spec fn view(&self) -> Seq<u8> {
        self.key@
    }
}

/// A device key read from its file: the file's bytes, when there are exactly
/// 32 of them.
pub fn device_key_from_bytes(bytes: &[u8]) -> (r: Option<[u8; 32]>)
    ensures
        match r {
            Some(k) => bytes@.len() == 32 && k@ == bytes@,
            None => bytes@.len() != 32,
        },
{
    if bytes.len() != DEVICE_KEY_LEN {
        return None;
    }
    let mut key = [0u8; 32];
    let mut i: usize = 0;
    while i < 32
        invariant
            i <= 32,
            bytes@.len() == 32,
            key@.len() == 32,
            forall|j: int| 0 <= j < i ==> key@[j] == bytes@[j],
        decreases 32 - i,
    {
        key[i] = bytes[i];
        i = i + 1;
    }
    assert(key@ =~= bytes@);
    Some(key)
}

/// A fresh random device key.
pub fn new_device_key() -> (r: [u8; 32]) {
    random_bytes_32()
}

fn bytes_of(data: &[u8]) -> (r: Vec<u8>)
    ensures
        r@ == data@,
{
    let mut out: Vec<u8> = Vec::new();
    let mut i: usize = 0;
    while i < data.len()
        invariant
            i <= data.len(),
            out@ == data@.take(i as int),
        decreases data.len() - i,
    {
        out.push(data[i]);
        i = i + 1;
        assert(data@.take(i as int) == data@.take(i - 1).push(data@[i - 1]));
    }
    assert(data@.take(data.len() as int) == data@);
    out
}

impl ApiKeyCipher {
    /// A cipher under the given device key.
    pub fn new(device_key: [u8; 32]) -> (r: Self)
        ensures
            r@ == device_key@,
    {
        ApiKeyCipher { key: device_key }
    }

    /// Encrypts a plaintext as `ENC1::` and the base64 of a fresh random
    /// nonce followed by the AES-256-GCM ciphertext: the stored form of the
    /// plaintext under this key and some 12-byte nonce, whose sealed bytes
    /// are 16 (the tag) longer than the plaintext's UTF-8 bytes.
    pub fn encrypt(&self, plaintext: &str) -> (r: Result<String, AppError>)
        requires
            encode_utf8(plaintext@).len() <= 0x10_0000_0000 ==> encode_utf8(plaintext@).len() + 28
                <= usize::MAX / 2,
        ensures
            (r is Ok) == (encode_utf8(plaintext@).len() <= 0x10_0000_0000),
            r matches Ok(s) ==> exists|n: Seq<u8>|
                n.len() == 12 && s@ == #[trigger] sealed_form(self@, n, plaintext@) && aes_gcm_seal(
                    self@,
                    n,
                    encode_utf8(plaintext@),
                ).len() == encode_utf8(plaintext@).len() + 16,
            r matches Ok(s) ==> opens_to(self@, s@, plaintext@),
            r matches Err(AppError::Validation(m)) ==> m@ == "加密 API Key 失败: "@ + "aead::Error"@,
    {
        let nonce = random_bytes_12();
        let pt = plaintext.as_bytes();
        let sealed = match aes_encrypt(&self.key, &nonce, pt) {
            Ok(c) => c,
            Err(e) => {
                let mut m = owned("加密 API Key 失败: ");
                crate::text::append(&mut m, e.as_str());
                return Err(AppError::Validation(m));
            },
        };
        let mut combined = bytes_of(&nonce);
        let mut i: usize = 0;
        let ghost start = combined@;
        while i < sealed.len()
            invariant
                i <= sealed.len(),
                combined@ == start + sealed@.take(i as int),
            decreases sealed.len() - i,
        {
            combined.push(sealed[i]);
            i = i + 1;
            assert(sealed@.take(i as int) == sealed@.take(i - 1).push(sealed@[i - 1]));
        }
        assert(sealed@.take(sealed.len() as int) == sealed@);
        let encoded = base64_encode(combined.as_slice());
        let s = concat(ENCRYPTED_PREFIX, encoded.as_str());
        assert(s@ == sealed_form(self@, nonce@, plaintext@));
        proof {
            assert(s@.take(ENCRYPTED_PREFIX@.len() as int) =~= ENCRYPTED_PREFIX@);
            assert(s@.skip(ENCRYPTED_PREFIX@.len() as int) =~= encoded@);
            assert(combined@.take(12) =~= nonce@);
            assert(combined@.skip(12) =~= sealed@);
            assert(pt@ == encode_utf8(plaintext@));
        }
        Ok(s)
    }

    /// Decrypts a stored ciphertext. Fails when it lacks the `ENC1::` prefix,
    /// is not valid base64, holds no more than a nonce, does not
    /// authenticate, or does not decrypt to UTF-8; else gives the text that
    /// the opened bytes decode to.
    pub fn decrypt(&self, stored: &str) -> (r: Result<String, AppError>)
        ensures
            !begins(stored@, ENCRYPTED_PREFIX@) ==> (r matches Err(AppError::Validation(m)) && m@
                == "API Key 不是预期密文格式"@),
            begins(stored@, ENCRYPTED_PREFIX@) ==> (match base64_bytes(
                stored@.skip(ENCRYPTED_PREFIX@.len() as int),
            ) {
                None => r matches Err(AppError::Validation(m)) && begins(
                    m@,
                    "API Key base64 解析失败: "@,
                ),
                Some(c) => if c.len() <= 12 {
                    r matches Err(AppError::Validation(m)) && m@ == "API Key 密文长度无效"@
                } else {
                    match aes_gcm_open(self@, c.take(12), c.skip(12)) {
                        None => r matches Err(AppError::Validation(m)) && m@
                            == "解密 API Key 失败: "@ + "aead::Error"@,
                        Some(p) => if valid_utf8(p) {
                            r matches Ok(s) && s@ == decode_utf8(p)
                        } else {
                            r matches Err(AppError::Validation(m)) && begins(
                                m@,
                                "API Key 解密结果不是有效 UTF-8: "@,
                            )
                        },
                    }
                },
            }),
            (forall|p: Seq<char>| opens_to(self@, stored@, p) ==> (r matches Ok(s) && s@ == p)),
            (r is Ok) == (decrypted(self@, stored@) is Some),
            r matches Ok(s) ==> decrypted(self@, stored@) == Some(s@),
    {
        let sv = chars_of(stored);
        let pv = chars_of(ENCRYPTED_PREFIX);
        if !starts_with(sv.as_slice(), pv.as_slice()) {
            return Err(AppError::Validation(owned("API Key 不是预期密文格式")));
        }
        let payload_chars = slice_of(sv.as_slice(), pv.len(), sv.len());
        let payload = string_of(payload_chars.as_slice());
        let combined = match base64_decode(payload.as_str()) {
            Ok(c) => c,
            Err(e) => {
                let mut m = owned("API Key base64 解析失败: ");
                crate::text::append(&mut m, e.as_str());
                assert(m@.take("API Key base64 解析失败: "@.len() as int) =~= "API Key base64 解析失败: "@);
                return Err(AppError::Validation(m));
            },
        };
        if combined.len() <= NONCE_LEN {
            return Err(AppError::Validation(owned("API Key 密文长度无效")));
        }
        let nonce = slice_u8(combined.as_slice(), 0, NONCE_LEN);
        let ciphertext = slice_u8(combined.as_slice(), NONCE_LEN, combined.len());
        let plaintext = match aes_decrypt(&self.key, nonce.as_slice(), ciphertext.as_slice()) {
            Ok(p) => p,
            Err(e) => {
                let mut m = owned("解密 API Key 失败: ");
                crate::text::append(&mut m, e.as_str());
                return Err(AppError::Validation(m));
            },
        };
        match utf8_string(plaintext) {
            Ok(s) => Ok(s),
            Err(e) => {
                let mut m = owned("API Key 解密结果不是有效 UTF-8: ");
                crate::text::append(&mut m, e.as_str());
                assert(m@.take("API Key 解密结果不是有效 UTF-8: "@.len() as int) =~= "API Key 解密结果不是有效 UTF-8: "@);
                Err(AppError::Validation(m))
            },
        }
    }
}

fn slice_u8(s: &[u8], start: usize, end: usize) -> (r: Vec<u8>)
    requires
        start <= end <= s@.len(),
    ensures
        r@ == s@.subrange(start as int, end as int),
{
    let mut out: Vec<u8> = Vec::new();
    let mut i = start;
    while i < end
        invariant
            start <= i <= end,
            end <= s@.len(),
            out@ == s@.subrange(start as int, i as int),
        decreases end - i,
    {
        out.push(s[i]);
        i = i + 1;
        assert(s@.subrange(start as int, i as int) == s@.subrange(start as int, i - 1).push(
            s@[i - 1],
        ));
    }
    out
}

} // verus!
