//! Digests, encodings and ciphers, as the outside crates provide them.

use aes_gcm::aead::{Aead, KeyInit};
use base64::Engine;
use rand::RngCore;
use sha2::Digest;
use vstd::prelude::*;
use vstd::utf8::{decode_utf8, encode_utf8, valid_utf8};

verus! {

/// The MD5 digest of a text's UTF-8 bytes, in small hexadecimal digits.
pub uninterp spec fn md5_hex(input: Seq<char>) -> Seq<char>;

/// Calls `md5::compute` on the bytes of a text and writes the digest with
/// `LowerHex`. The result depends on the text alone and is named `md5_hex`;
/// it has two digits for each of the sixteen bytes of a digest.
#[verifier::external_body]
pub(crate) fn md5_digest(input: &str) -> (r: String)
    ensures
        r@ == md5_hex(input@),
        r@.len() == 32,
{
    format!("{:x}", md5::compute(input.as_bytes()))
}

/// The standard base64 text, with padding, of some bytes.
pub uninterp spec fn base64_text(bytes: Seq<u8>) -> Seq<char>;

/// The bytes that a standard base64 text stands for, or the message of the
/// error where it stands for none.
pub uninterp spec fn base64_bytes(text: Seq<char>) -> Result<Seq<u8>, Seq<char>>;

/// Calls `Engine::encode` of base64's `STANDARD` engine. The result depends on
/// the bytes alone and is named `base64_text`. Decoding it with the same
/// engine gives the bytes back.
#[verifier::external_body]
pub(crate) fn base64_encode(bytes: &[u8]) -> (r: String)
    ensures
        r@ == base64_text(bytes@) && base64_bytes(r@) is Ok
            && base64_bytes(r@)->Ok_0 == bytes@,
{
    base64::engine::general_purpose::STANDARD.encode(bytes)
}

/// Calls `Engine::decode` of base64's `STANDARD` engine. The result depends on
/// the text alone and is named `base64_bytes`; of an error its message is kept.
#[verifier::external_body]
pub(crate) fn base64_decode(text: &str) -> (r: Result<Vec<u8>, String>)
    ensures
        match r {
            Ok(b) => base64_bytes(text@) == Ok::<Seq<u8>, Seq<char>>(b@),
            Err(m) => base64_bytes(text@) == Err::<Seq<u8>, Seq<char>>(m@),
        },
{
    base64::engine::general_purpose::STANDARD.decode(text).map_err(|e| e.to_string())
}

/// What AES-256-GCM makes of a plain text under a key and a nonce: the cipher
/// text and its tag.
pub uninterp spec fn sealed(key: Seq<u8>, nonce: Seq<u8>, plain: Seq<u8>) -> Seq<u8>;

/// The plain text that AES-256-GCM finds in a cipher text and its tag, where
/// the tag is right.
pub uninterp spec fn opened(key: Seq<u8>, nonce: Seq<u8>, cipher: Seq<u8>) -> Option<Seq<u8>>;

/// Calls `Aead::encrypt` of `Aes256Gcm`. It fails on a plain text of more than
/// 2^36 bytes and on no other. The result depends on key, nonce and plain text
/// alone and is named `sealed`; decrypting it under the same key and nonce
/// gives the plain text back. A key of 32 bytes and a nonce of 12 are what the
/// cipher takes.
#[verifier::external_body]
pub(crate) fn aes_seal(key: &[u8], nonce: &[u8], plain: &[u8]) -> (r: Option<Vec<u8>>)
    requires
        key@.len() == 32,
        nonce@.len() == 12,
    ensures
        r is Some <==> plain@.len() <= 0x10_0000_0000,
        r matches Some(c) ==> c@ == sealed(key@, nonce@, plain@) && opened(key@, nonce@, c@)
            == Some(plain@),
{
    let cipher = aes_gcm::Aes256Gcm::new_from_slice(key).ok()?;
    cipher.encrypt(aes_gcm::Nonce::from_slice(nonce), plain).ok()
}

/// Calls `Aead::decrypt` of `Aes256Gcm`. The result depends on key, nonce and
/// cipher text alone and is named `opened`.
#[verifier::external_body]
pub(crate) fn aes_open(key: &[u8], nonce: &[u8], cipher_text: &[u8]) -> (r: Option<Vec<u8>>)
    requires
        key@.len() == 32,
        nonce@.len() == 12,
    ensures
        match r {
            Some(p) => opened(key@, nonce@, cipher_text@) == Some(p@),
            None => opened(key@, nonce@, cipher_text@) is None,
        },
{
    let cipher = aes_gcm::Aes256Gcm::new_from_slice(key).ok()?;
    cipher.decrypt(aes_gcm::Nonce::from_slice(nonce), cipher_text).ok()
}

/// Calls `RngCore::fill_bytes` of `rand::thread_rng` on twelve bytes. Which
/// bytes come out is left to chance.
#[verifier::external_body]
pub(crate) fn random_nonce() -> (r: Vec<u8>)
    ensures
        r@.len() == 12,
{
    let mut bytes = vec![0u8; 12];
    rand::thread_rng().fill_bytes(&mut bytes);
    bytes
}

/// Calls `getrandom::getrandom` on 32 bytes. Which bytes come out is left to
/// chance, and whether the system has any; of an error its message is kept.
#[verifier::external_body]
pub(crate) fn random_bytes() -> (r: Result<Vec<u8>, String>)
    ensures
        r matches Ok(b) ==> b@.len() == 32,
{
    let mut bytes = vec![0u8; 32];
    getrandom::getrandom(&mut bytes).map_err(|e| e.to_string())?;
    Ok(bytes)
}

/// The SHA-256 digest of some bytes.
pub uninterp spec fn sha256(bytes: Seq<u8>) -> Seq<u8>;

/// Calls `Digest::digest` of `Sha256`. The digest depends on the bytes alone,
/// is named `sha256` and has 32 bytes.
#[verifier::external_body]
pub(crate) fn sha256_digest(bytes: &[u8]) -> (r: Vec<u8>)
    ensures
        r@ == sha256(bytes@),
        r@.len() == 32,
{
    sha2::Sha256::digest(bytes).to_vec()
}

/// The message with which bytes are refused that are not UTF-8.
pub uninterp spec fn utf8_error(bytes: Seq<u8>) -> Seq<char>;

/// Calls `String::from_utf8`. It gives the text that the bytes encode, or an
/// error where they are not UTF-8; the error's message depends on the bytes
/// alone and is named `utf8_error`.
#[verifier::external_body]
pub(crate) fn utf8_text(bytes: Vec<u8>) -> (r: Result<String, String>)
    ensures
        match r {
            Ok(s) => valid_utf8(bytes@) && s@ == decode_utf8(bytes@),
            Err(m) => !valid_utf8(bytes@) && m@ == utf8_error(bytes@),
        },
{
    String::from_utf8(bytes).map_err(|e| e.to_string())
}

/// A text, sealed under a key and a nonce and written in base64 with the nonce
/// before it; none where it is too long.
pub open spec fn locked(key: Seq<u8>, nonce: Seq<u8>, text: Seq<char>) -> Option<Seq<char>> {
    if encode_utf8(text).len() <= 0x10_0000_0000 {
        Some(base64_text(nonce + sealed(key, nonce, encode_utf8(text))))
    } else {
        None
    }
}

/// The text that was locked under a key, or why there is none.
pub open spec fn unlocked(key: Seq<u8>, text: Seq<char>) -> Result<Seq<char>, Seq<char>> {
    match base64_bytes(text) {
        Err(m) => Err("base64 decode failed: "@ + m),
        Ok(b) => if b.len() < 12 {
            Err("encrypted data too short"@)
        } else {
            match opened(key, b.take(12), b.skip(12)) {
                None => Err("decryption failed: aead::Error"@),
                Some(p) => if valid_utf8(p) {
                    Ok(decode_utf8(p))
                } else {
                    Err("UTF-8 conversion failed: "@ + utf8_error(p))
                },
            }
        },
    }
}

/// What was locked is opened with the twelve bytes that stand before it, and
/// each way to fail is told.
pub proof fn locked_texts_are_opened(key: Seq<u8>, text: Seq<char>, b: Seq<u8>, m: Seq<char>)
    ensures
        base64_bytes(text) == Err::<Seq<u8>, Seq<char>>(m) ==> unlocked(key, text) == Err::<
            Seq<char>,
            Seq<char>,
        >("base64 decode failed: "@ + m),
        base64_bytes(text) == Ok::<Seq<u8>, Seq<char>>(b) ==> {
            &&& b.len() < 12 ==> unlocked(key, text) == Err::<Seq<char>, Seq<char>>(
                "encrypted data too short"@,
            )
            &&& b.len() >= 12 && opened(key, b.take(12), b.skip(12)) is None ==> unlocked(key, text)
                == Err::<Seq<char>, Seq<char>>("decryption failed: aead::Error"@)
            &&& b.len() >= 12 ==> (opened(key, b.take(12), b.skip(12)) matches Some(p) ==> {
                &&& valid_utf8(p) ==> unlocked(key, text) == Ok::<Seq<char>, Seq<char>>(
                    decode_utf8(p),
                )
                &&& !valid_utf8(p) ==> unlocked(key, text) == Err::<Seq<char>, Seq<char>>(
                    "UTF-8 conversion failed: "@ + utf8_error(p),
                )
            })
        },
{
}

/// What is locked is the nonce and the sealed bytes of the text behind it,
/// encoded; a text of more than 64 GiB cannot be locked.
pub proof fn texts_are_locked_behind_their_nonce(key: Seq<u8>, nonce: Seq<u8>, text: Seq<char>)
    ensures
        locked(key, nonce, text) is Some <==> encode_utf8(text).len() <= 64 * 1024 * 1024 * 1024,
        locked(key, nonce, text) matches Some(t) ==> t == base64_text(
            nonce + sealed(key, nonce, encode_utf8(text)),
        ),
{
}

} // verus!
