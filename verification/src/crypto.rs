//! Hashing, authenticated encryption and text encodings of bytes.
use vstd::prelude::*;

use base64::engine::general_purpose;
use base64::Engine;
use chacha20poly1305::aead::{Aead, KeyInit};
use chacha20poly1305::{XChaCha20Poly1305, XNonce};
use hmac::{Hmac, Mac};
use rand::{Rng, RngExt};
use sha2::{Digest, Sha256};

verus! {

/// The error of `hex::decode`.
#[verifier::external_type_specification]
#[verifier::external_body]
pub struct ExFromHexError(hex::FromHexError);

/// The error of the XChaCha20-Poly1305 cipher, which says nothing more.
#[verifier::external_type_specification]
#[verifier::external_body]
pub struct ExCipherError(chacha20poly1305::Error);

/// The error of base64 decoding.
#[verifier::external_type_specification]
#[verifier::external_body]
pub struct ExDecodeError(base64::DecodeError);

// ---------------------------------------------------------------------------
// Hexadecimal
// ---------------------------------------------------------------------------

/// The lower case hexadecimal digit `d`.
pub open spec fn hex_digit(d: int) -> char {
    if d < 10 {
        (('0' as u32) + d) as char
    } else {
        (('a' as u32) + (d - 10)) as char
    }
}

/// Two lower case hexadecimal digits for each byte, high half first.
pub open spec fn hex_text(data: Seq<u8>) -> Seq<char> {
    Seq::new(
        2 * data.len(),
        |i: int|
            if i % 2 == 0 {
                hex_digit(data[i / 2] as int / 16)
            } else {
                hex_digit(data[i / 2] as int % 16)
            },
    )
}

/// The value of a hexadecimal digit of either case.
pub open spec fn hex_value(c: char) -> Option<int> {
    if '0' <= c <= '9' {
        Some(c as int - '0' as int)
    } else if 'a' <= c <= 'f' {
        Some(c as int - 'a' as int + 10)
    } else if 'A' <= c <= 'F' {
        Some(c as int - 'A' as int + 10)
    } else {
        None
    }
}

/// Whether a text is an even number of hexadecimal digits.
pub open spec fn is_hex(s: Seq<char>) -> bool {
    &&& s.len() % 2 == 0
    &&& forall|i: int| 0 <= i < s.len() ==> hex_value(#[trigger] s[i]) is Some
}

/// The bytes that pairs of hexadecimal digits stand for.
pub open spec fn hex_bytes(s: Seq<char>) -> Seq<u8> {
    Seq::new(
        s.len() / 2,
        |i: int| (16 * hex_value(s[2 * i])->0 + hex_value(s[2 * i + 1])->0) as u8,
    )
}

/// Calls `hex::encode`: two lower case digits for each byte.
#[verifier::external_body]
pub(crate) fn hex_encode(data: &[u8]) -> (r: String)
    requires
        2 * data@.len() <= isize::MAX,
    ensures
        r@ == hex_text(data@),
{
    hex::encode(data)
}

/// Calls `hex::decode`, which takes digits of both cases and fails on an odd
/// number of them and on any other character.
#[verifier::external_body]
pub(crate) fn hex_decode(s: &str) -> (r: Result<Vec<u8>, hex::FromHexError>)
    ensures
        r is Ok <==> is_hex(s@),
        r matches Ok(v) ==> v@ == hex_bytes(s@),
{
    hex::decode(s)
}

/// Decoding the hexadecimal form of some bytes gives the bytes back.
pub proof fn hex_round_trip(data: Seq<u8>)
    ensures
        is_hex(hex_text(data)),
        hex_bytes(hex_text(data)) == data,
{
    let t = hex_text(data);
    assert forall|i: int| 0 <= i < t.len() implies hex_value(#[trigger] t[i]) is Some by {}
    assert forall|i: int| 0 <= i < data.len() implies #[trigger] hex_bytes(t)[i] == data[i] by {
        assert((2 * i) / 2 == i && (2 * i + 1) / 2 == i);
        assert(t[2 * i] == hex_digit(data[i] as int / 16));
        assert(t[2 * i + 1] == hex_digit(data[i] as int % 16));
        assert(hex_value(t[2 * i]) == Some(data[i] as int / 16));
        assert(hex_value(t[2 * i + 1]) == Some(data[i] as int % 16));
    }
    assert(hex_bytes(t) =~= data);
}

/// Different bytes have different hexadecimal forms.
pub proof fn hex_text_is_injective(a: Seq<u8>, b: Seq<u8>)
    requires
        hex_text(a) == hex_text(b),
    ensures
        a == b,
{
    hex_round_trip(a);
    hex_round_trip(b);
}

// ---------------------------------------------------------------------------
// Digests
// ---------------------------------------------------------------------------

/// The SHA-256 digest of some bytes.
pub uninterp spec fn sha256_digest(data: Seq<u8>) -> Seq<u8>;

/// The HMAC-SHA-256 of some bytes under a key.
pub uninterp spec fn hmac_sha256_code(key: Seq<u8>, data: Seq<u8>) -> Seq<u8>;

/// Calls `Sha256::digest`. The result is a function of the bytes, called
/// `sha256_digest`, and 32 bytes long.
#[verifier::external_body]
pub(crate) fn sha256(data: &[u8]) -> (r: Vec<u8>)
    ensures
        r@ == sha256_digest(data@),
        r@.len() == 32,
{
    Sha256::digest(data).to_vec()
}

/// Computes `Hmac::<Sha256>` of the bytes under a key of any length. The
/// result is a function of both, called `hmac_sha256_code`, and 32 bytes long.
#[verifier::external_body]
pub(crate) fn hmac_sha256(key: &[u8], data: &[u8]) -> (r: Vec<u8>)
    ensures
        r@ == hmac_sha256_code(key@, data@),
        r@.len() == 32,
{
    let mut mac = <Hmac<Sha256> as Mac>::new_from_slice(key).unwrap();
    mac.update(data);
    mac.finalize().into_bytes().to_vec()
}

// ---------------------------------------------------------------------------
// Encryption
// ---------------------------------------------------------------------------

/// Bytes that the cipher adds to a plaintext.
pub const TAG_LEN: usize = 16;

/// Bytes of a nonce.
pub const NONCE_LEN: usize = 24;

/// Whether the cipher takes a message of `n` bytes without running out of key
/// stream: it refuses from `64 * u32::MAX` bytes on, and its key stream ends
/// one block before that.
pub open spec fn cipher_handles(n: int) -> bool {
    &&& n + TAG_LEN <= isize::MAX
    &&& n <= 64 * (u32::MAX - 1) || !cipher_accepts(n)
}

/// Whether a message of `n` bytes is short enough for the cipher.
pub open spec fn cipher_accepts(n: int) -> bool {
    n / 64 < u32::MAX
}

/// What XChaCha20-Poly1305 makes of a plaintext: the ciphertext and its tag.
pub uninterp spec fn sealed_bytes(key: Seq<u8>, nonce: Seq<u8>, plaintext: Seq<u8>) -> Seq<u8>;

/// The plaintext of a ciphertext with its tag, where the tag is authentic.
pub uninterp spec fn opened_bytes(key: Seq<u8>, nonce: Seq<u8>, ciphertext: Seq<u8>) -> Option<
    Seq<u8>,
>;

/// Calls `XChaCha20Poly1305::encrypt`. It succeeds on every message that is
/// short enough; the result is a function of key, nonce and message, called
/// `sealed_bytes`, is longer than the message by the tag, and opens to the
/// message under the same key and nonce.
#[verifier::external_body]
pub(crate) fn seal(key: &[u8; 32], nonce: &[u8; 24], data: &[u8]) -> (r: Result<
    Vec<u8>,
    chacha20poly1305::Error,
>)
    requires
        cipher_handles(data@.len() as int),
    ensures
        r is Ok <==> cipher_accepts(data@.len() as int),
        r matches Ok(c) ==> c@ == sealed_bytes(key@, nonce@, data@),
        r matches Ok(c) ==> c@.len() == data@.len() + TAG_LEN,
        r matches Ok(c) ==> opened_bytes(key@, nonce@, c@) == Some(data@),
{
    XChaCha20Poly1305::new(key.into()).encrypt(XNonce::from_slice(nonce), data)
}

/// Calls `XChaCha20Poly1305::decrypt`. The result is a function of key, nonce
/// and ciphertext, called `opened_bytes`; it fails on fewer bytes than a tag
/// has, and the plaintext is shorter than the ciphertext by the tag. What opens
/// is what sealing the plaintext gives: the key stream is the same in both
/// directions, and the whole tag is compared with that of the ciphertext. That
/// no other ciphertext opens is not said: another one may have been sealed under
/// the same key.
#[verifier::external_body]
pub(crate) fn open(key: &[u8; 32], nonce: &[u8], data: &[u8]) -> (r: Result<
    Vec<u8>,
    chacha20poly1305::Error,
>)
    requires
        nonce@.len() == NONCE_LEN,
        data@.len() >= TAG_LEN ==> cipher_handles(data@.len() - TAG_LEN),
    ensures
        r matches Ok(p) ==> opened_bytes(key@, nonce@, data@) == Some(p@),
        r is Err ==> opened_bytes(key@, nonce@, data@) is None,
        r matches Ok(p) ==> p@.len() + TAG_LEN == data@.len(),
        r matches Ok(p) ==> data@ == sealed_bytes(key@, nonce@, p@),
{
    XChaCha20Poly1305::new(key.into()).decrypt(XNonce::from_slice(nonce), data)
}

/// Fills a nonce from `rand::rng`. Any bytes may come.
#[verifier::external_body]
pub(crate) fn random_nonce() -> (r: [u8; 24]) {
    let mut nonce = [0u8; 24];
    rand::rng().fill_bytes(&mut nonce);
    nonce
}

/// Draws a number from `rand::rng`. Any number may come.
#[verifier::external_body]
pub(crate) fn random_number() -> (r: u64) {
    rand::rng().random::<u64>()
}

// ---------------------------------------------------------------------------
// Base64
// ---------------------------------------------------------------------------

/// The bytes that a padded text in the standard base64 alphabet stands for.
pub uninterp spec fn base64_bytes(s: Seq<char>) -> Option<Seq<u8>>;

/// Calls `decode` of the engine `general_purpose::STANDARD`. The result is a
/// function of the text, called `base64_bytes`.
#[verifier::external_body]
pub(crate) fn base64_decode(s: &str) -> (r: Result<Vec<u8>, base64::DecodeError>)
    ensures
        r matches Ok(v) ==> base64_bytes(s@) == Some(v@),
        r is Err ==> base64_bytes(s@) is None,
{
    general_purpose::STANDARD.decode(s)
}

} // verus!
