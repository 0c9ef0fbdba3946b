use vstd::prelude::*;
use base64::engine::general_purpose::STANDARD;
use base64::Engine;
use hmac::{Hmac, Mac};
use sha1::Sha1;

use crate::error::YubicoError;

verus! {

/// What standard base64 (with padding) decodes `text` to, if it is valid.
pub uninterp spec fn base64_decoded(text: Seq<u8>) -> Option<Seq<u8>>;

/// The standard base64 text (with padding) of `data`, as ASCII bytes.
pub uninterp spec fn base64_encoded(data: Seq<u8>) -> Seq<u8>;

/// The HMAC-SHA1 tag of `msg` under `key`.
pub uninterp spec fn hmac_sha1(key: Seq<u8>, msg: Seq<u8>) -> Seq<u8>;

/// Relies on base64's STANDARD engine `decode`: it fails exactly on text
/// that is not valid padded base64.
#[verifier::external_body]
pub(crate) fn decode_base64(text: &[u8]) -> (r: Result<Vec<u8>, base64::DecodeError>)
    ensures
        r is Ok <==> base64_decoded(text@) is Some,
        r is Ok ==> base64_decoded(text@) == Some(r->Ok_0@),
{
    STANDARD.decode(text)
}

/// Relies on base64's STANDARD engine `encode`.
#[verifier::external_body]
pub(crate) fn encode_base64(data: &[u8]) -> (r: Vec<u8>)
    ensures
        r@ == base64_encoded(data@),
{
    STANDARD.encode(data).into_bytes()
}

/// Relies on hmac's `Hmac<Sha1>`: `new_from_slice` accepts a key of any
/// length, then `update` and `finalize` give the tag.
#[verifier::external_body]
fn hmac_sha1_tag(key: &[u8], msg: &[u8]) -> (r: Option<Vec<u8>>)
    ensures
        r is Some,
        r is Some ==> r->Some_0@ == hmac_sha1(key@, msg@),
{
    match Hmac::<Sha1>::new_from_slice(key) {
        Ok(mut mac) => {
            mac.update(msg);
            Some(mac.finalize().into_bytes().to_vec())
        },
        Err(_) => None,
    }
}

/// Relies on hmac's `Hmac<Sha1>` with `verify_slice`: a constant-time
/// comparison that accepts exactly the full tag.
#[verifier::external_body]
fn hmac_sha1_check(key: &[u8], msg: &[u8], tag: &[u8]) -> (r: Option<bool>)
    ensures
        r is Some,
        r is Some ==> (r->Some_0 <==> tag@ == hmac_sha1(key@, msg@)),
{
    match Hmac::<Sha1>::new_from_slice(key) {
        Ok(mut mac) => {
            mac.update(msg);
            Some(mac.verify_slice(tag).is_ok())
        },
        Err(_) => None,
    }
}

/// The tag that signs `msg` under the base64-encoded secret `key`, if the
/// secret decodes.
pub open spec fn signature_of(key: Seq<u8>, msg: Seq<u8>) -> Option<Seq<u8>> {
    match base64_decoded(key) {
        Some(k) => Some(hmac_sha1(k, msg)),
        None => None,
    }
}

/// Whether `tag` authenticates `msg` under the base64-encoded secret `key`.
pub open spec fn signature_accepts(key: Seq<u8>, msg: Seq<u8>, tag: Seq<u8>) -> bool {
    signature_of(key, msg) == Some(tag)
}

/// Signs `input` with HMAC-SHA1 under the base64-encoded secret `key`.
pub fn build_signature(key: &[u8], input: &[u8]) -> (r: Result<Vec<u8>, YubicoError>)
    ensures
        r is Ok <==> signature_of(key@, input@) is Some,
        r is Ok ==> signature_of(key@, input@) == Some(r->Ok_0@),
        r is Err ==> r->Err_0 is DecodeError,
{
    let decoded_key = match decode_base64(key) {
        Ok(k) => k,
        Err(e) => return Err(YubicoError::DecodeError(e)),
    };
    match hmac_sha1_tag(decoded_key.as_slice(), input) {
        Some(tag) => Ok(tag),
        None => Err(YubicoError::InvalidKeyLength),
    }
}

/// Checks, in constant time, that `expected` is the HMAC-SHA1 tag of
/// `input` under the base64-encoded secret `key`.
pub fn verify_signature(key: &[u8], input: &[u8], expected: &[u8]) -> (r: Result<(), YubicoError>)
    ensures
        r is Ok <==> signature_accepts(key@, input@, expected@),
        base64_decoded(key@) is None ==> r is Err && r->Err_0 is DecodeError,
        base64_decoded(key@) is Some && !signature_accepts(key@, input@, expected@) ==> r is Err
            && r->Err_0 is SignatureMismatch,
{
    let decoded_key = match decode_base64(key) {
        Ok(k) => k,
        Err(e) => return Err(YubicoError::DecodeError(e)),
    };
    match hmac_sha1_check(decoded_key.as_slice(), input, expected) {
        Some(true) => Ok(()),
        Some(false) => Err(YubicoError::SignatureMismatch),
        None => Err(YubicoError::InvalidKeyLength),
    }
}

/// A tag made by signing is accepted by verification, and changing any
/// single bit of that tag makes verification reject it.
pub proof fn lemma_sign_then_verify(key: Seq<u8>, msg: Seq<u8>, i: int, bit: u8)
    requires
        signature_of(key, msg) is Some,
        0 <= i < signature_of(key, msg)->Some_0.len(),
        bit < 8,
    ensures
        signature_accepts(key, msg, signature_of(key, msg)->Some_0),
        !signature_accepts(
            key,
            msg,
            signature_of(key, msg)->Some_0.update(
                i,
                signature_of(key, msg)->Some_0[i] ^ ((1u8 << bit) as u8),
            ),
        ),
{
    let tag = signature_of(key, msg)->Some_0;
    let x = tag[i];
    assert(x ^ ((1u8 << bit) as u8) != x) by (bit_vector)
        requires
            bit < 8,
    ;
    let flipped = tag.update(i, x ^ ((1u8 << bit) as u8));
    assert(flipped[i] != tag[i]);
}

} // verus!
