use yubico_ng::error::YubicoError;
use yubico_ng::sec::{build_signature, verify_signature};

const KEY: &[u8] = b"c2VjcmV0";

fn hex(b: &[u8]) -> String {
    b.iter().map(|x| format!("{:02x}", x)).collect()
}

#[test]
fn signature_is_hmac_sha1_of_decoded_key() {
    let tag = build_signature(KEY, b"hello").unwrap();
    assert_eq!(hex(&tag), "5112055c05f944f85755efc5cd8970e194e9f45b");
}

#[test]
fn signed_message_verifies() {
    for msg in [&b""[..], b"hello", b"id=1&nonce=x&otp=y&sl=0"] {
        let tag = build_signature(KEY, msg).unwrap();
        assert!(verify_signature(KEY, msg, &tag).is_ok());
    }
}

#[test]
fn flipped_tag_bit_fails() {
    let tag = build_signature(KEY, b"hello").unwrap();
    for i in 0..tag.len() {
        for bit in 0..8 {
            let mut bad = tag.clone();
            bad[i] ^= 1 << bit;
            assert!(matches!(verify_signature(KEY, b"hello", &bad), Err(YubicoError::SignatureMismatch)));
        }
    }
}

#[test]
fn flipped_message_bit_fails() {
    let tag = build_signature(KEY, b"hello").unwrap();
    let mut msg = b"hello".to_vec();
    msg[0] ^= 1;
    assert!(matches!(verify_signature(KEY, &msg, &tag), Err(YubicoError::SignatureMismatch)));
}

#[test]
fn flipped_key_bit_fails() {
    let tag = build_signature(KEY, b"hello").unwrap();
    // "c2VjcmV1" decodes to a different secret.
    assert!(verify_signature(b"c2VjcmV1", b"hello", &tag).is_err());
}

#[test]
fn truncated_tag_fails() {
    let tag = build_signature(KEY, b"hello").unwrap();
    assert!(matches!(verify_signature(KEY, b"hello", &tag[..19]), Err(YubicoError::SignatureMismatch)));
}

#[test]
fn malformed_key_is_a_decode_error() {
    assert!(matches!(build_signature(b"not base64!", b"hello"), Err(YubicoError::DecodeError(_))));
    assert!(matches!(verify_signature(b"not base64!", b"hello", &[0u8; 20]), Err(YubicoError::DecodeError(_))));
}
