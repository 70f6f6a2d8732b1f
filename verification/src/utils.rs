//! Names that stand for people and groups in logs.
use vstd::prelude::*;
use vstd::slice::slice_subrange;
use vstd::utf8::encode_utf8;

use crate::crypto::{hex_encode, hex_text, hmac_sha256, hmac_sha256_code};
use crate::text::opt_view;

verus! {

/// Sets the key of `anonymize` where none is set and `key` is not empty. A
/// key that is set stays.
pub fn init_anonymize_key(slot: &mut Option<String>, key: &str)
    ensures
        *old(slot) is None && key@.len() > 0 ==> opt_view(*final(slot)) == Some(key@),
        *old(slot) is Some || key@.len() == 0 ==> *final(slot) == *old(slot),
{
    if !key.is_empty() && slot.is_none() {
        *slot = Some(key.to_string());
    }
}

/// The key that is used: the one that is set, else the first of the two
/// environment variables that exists.
pub open spec fn effective_key(
    slot: Option<Seq<char>>,
    anonymize_var: Option<Seq<char>>,
    piotr_var: Option<Seq<char>>,
) -> Option<Seq<char>> {
    if slot is Some {
        slot
    } else if anonymize_var is Some {
        anonymize_var
    } else {
        piotr_var
    }
}

/// The name that stands for an identifier: the first half of its keyed digest.
pub open spec fn anonymous_name(key: Seq<char>, s: Seq<char>) -> Seq<char> {
    hex_text(hmac_sha256_code(encode_utf8(key), encode_utf8(s)).take(16))
}

/// Anonymizes an identifier under a given key.
pub fn anonymize_with_key(key: &str, s: &str) -> (r: String)
    ensures
        r@ == anonymous_name(key@, s@),
        r@.len() == 32,
{
    let code = hmac_sha256(key.as_bytes(), s.as_bytes());
    let truncated = slice_subrange(code.as_slice(), 0, 16);
    assert(truncated@ =~= code@.take(16));
    hex_encode(truncated)
}

/// Anonymizes an identifier, such as a phone number or a group, by a keyed
/// hash. Where no key is set, the key comes from the environment variable
/// `ANONYMIZE_KEY` or, failing that, `PIOTR_ANONYMIZE_KEY`, and stays set.
pub fn anonymize(
    slot: &mut Option<String>,
    anonymize_var: Option<String>,
    piotr_var: Option<String>,
    s: &str,
) -> (r: String)
    requires
        *old(slot) is Some || anonymize_var is Some || piotr_var is Some,
    ensures
        opt_view(*final(slot)) == effective_key(
            opt_view(*old(slot)),
            opt_view(anonymize_var),
            opt_view(piotr_var),
        ),
        r@ == anonymous_name(opt_view(*final(slot))->0, s@),
        r@.len() == 32,
{
    if slot.is_none() {
        *slot = match anonymize_var {
            Some(key) => Some(key),
            None => piotr_var,
        };
    }
    let key: String = match &*slot {
        Some(key) => key.clone(),
        None => String::new(),
    };
    anonymize_with_key(key.as_str(), s)
}

/// Identifiers whose keyed digests differ in the first half have different
/// names.
pub proof fn names_differ_with_their_digests(key: Seq<char>, a: Seq<char>, b: Seq<char>)
    requires
        hmac_sha256_code(encode_utf8(key), encode_utf8(a)).take(16) != hmac_sha256_code(
            encode_utf8(key),
            encode_utf8(b),
        ).take(16),
    ensures
        anonymous_name(key, a) != anonymous_name(key, b),
{
    let x = hmac_sha256_code(encode_utf8(key), encode_utf8(a)).take(16);
    let y = hmac_sha256_code(encode_utf8(key), encode_utf8(b)).take(16);
    if hex_text(x) == hex_text(y) {
        crate::crypto::hex_text_is_injective(x, y);
    }
}

/// A key that is set stays in use, whatever the environment says; else the first
/// variable that exists is taken, and none where none does.
pub proof fn set_keys_come_first(
    key: Seq<char>,
    anonymize_var: Option<Seq<char>>,
    piotr_var: Option<Seq<char>>,
)
    ensures
        effective_key(Some(key), anonymize_var, piotr_var) == Some(key),
        effective_key(None, Some(key), piotr_var) == Some(key),
        effective_key(None, None, piotr_var) == piotr_var,
{
}

/// A name is the first half of the digits of the keyed digest, which stand for
/// its first sixteen bytes.
pub proof fn names_are_half_of_the_digest(key: Seq<char>, s: Seq<char>)
    requires
        hmac_sha256_code(encode_utf8(key), encode_utf8(s)).len() == 32,
    ensures
        ({
            let code = hmac_sha256_code(encode_utf8(key), encode_utf8(s));
            let name = anonymous_name(key, s);
            &&& name.len() == 32
            &&& name == hex_text(code).take(32)
        }),
{
    let code = hmac_sha256_code(encode_utf8(key), encode_utf8(s));
    assert(anonymous_name(key, s) =~= hex_text(code).take(32));
}

} // verus!
