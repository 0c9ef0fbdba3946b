use base64::engine::general_purpose::STANDARD;
use base64::Engine;
use yubico_ng::error::YubicoError;
use yubico_ng::response::{host_outcome, parse_fields, ResponseVerifier};
use yubico_ng::sec::build_signature;

const KEY: &str = "c2VjcmV0";
const OTP: &str = "cccjgjgkhcbbirdrfdnlnghhfgrtnnlgedjlftrbdeut";
const NONCE: &str = "abcdefghij0123456789";

fn bound_verifier() -> ResponseVerifier {
    ResponseVerifier { otp: OTP.as_bytes().to_vec(), nonce: NONCE.as_bytes().to_vec(), key: KEY.as_bytes().to_vec() }
}

/// A response body with these fields, signed with `key`.
fn signed_body(key: &str, fields: &[(&str, &str)]) -> String {
    let mut sorted: Vec<(&str, &str)> = fields.to_vec();
    sorted.sort();
    let text: Vec<String> = sorted.iter().map(|(k, v)| format!("{}={}", k, v)).collect();
    let tag = build_signature(key.as_bytes(), text.join("&").as_bytes()).unwrap();
    let mut body: String = fields.iter().map(|(k, v)| format!("{}={}\r\n", k, v)).collect();
    body.push_str(&format!("h={}\r\n", STANDARD.encode(tag)));
    body
}

fn body_with_status(status: &str) -> String {
    signed_body(
        KEY,
        &[("t", "2024-01-01T00:00:00Z0123"), ("otp", OTP), ("nonce", NONCE), ("sl", "100"), ("status", status)],
    )
}

#[test]
fn authentic_ok_is_success() {
    assert!(bound_verifier().verify_response(body_with_status("OK").as_bytes()).is_ok());
}

#[test]
fn lf_separated_body_is_accepted() {
    let body = body_with_status("OK").replace("\r\n", "\n");
    assert!(bound_verifier().verify_response(body.as_bytes()).is_ok());
}

#[test]
fn nonce_mismatch_is_rejected_even_when_ok() {
    let body = signed_body(KEY, &[("otp", OTP), ("nonce", "zzzzzzzzzzzzzzzzzzzz"), ("status", "OK")]);
    assert!(matches!(bound_verifier().verify_response(body.as_bytes()), Err(YubicoError::NonceMismatch)));
}

#[test]
fn otp_mismatch_is_rejected_even_when_ok() {
    let body = signed_body(KEY, &[("otp", "cccjgjgkhcbbother"), ("nonce", NONCE), ("status", "OK")]);
    assert!(matches!(bound_verifier().verify_response(body.as_bytes()), Err(YubicoError::OTPMismatch)));
}

#[test]
fn unknown_status_is_its_own_outcome() {
    let r = bound_verifier().verify_response(body_with_status("SOMETHING_NEW").as_bytes());
    assert!(matches!(r, Err(YubicoError::UnknownStatus)));
    let r = bound_verifier().verify_response(body_with_status("ok").as_bytes());
    assert!(matches!(r, Err(YubicoError::UnknownStatus)));
}

#[test]
fn each_status_maps_to_its_outcome() {
    let v = bound_verifier();
    let check = |s: &str| v.verify_response(body_with_status(s).as_bytes());
    assert!(matches!(check("BAD_OTP"), Err(YubicoError::BadOTP)));
    assert!(matches!(check("REPLAYED_OTP"), Err(YubicoError::ReplayedOTP)));
    assert!(matches!(check("BAD_SIGNATURE"), Err(YubicoError::BadSignature)));
    assert!(matches!(check("MISSING_PARAMETER"), Err(YubicoError::MissingParameter)));
    assert!(matches!(check("NO_SUCH_CLIENT"), Err(YubicoError::NoSuchClient)));
    assert!(matches!(check("OPERATION_NOT_ALLOWED"), Err(YubicoError::OperationNotAllowed)));
    assert!(matches!(check("BACKEND_ERROR"), Err(YubicoError::BackendError)));
    assert!(matches!(check("NOT_ENOUGH_ANSWERS"), Err(YubicoError::NotEnoughAnswers)));
    assert!(matches!(check("REPLAYED_REQUEST"), Err(YubicoError::ReplayedRequest)));
}

#[test]
fn wrong_key_signature_is_rejected() {
    let body = signed_body("b3RoZXI=", &[("otp", OTP), ("nonce", NONCE), ("status", "OK")]);
    assert!(matches!(bound_verifier().verify_response(body.as_bytes()), Err(YubicoError::SignatureMismatch)));
}

#[test]
fn tampered_field_is_rejected() {
    let body = body_with_status("BAD_OTP").replace("status=BAD_OTP", "status=OK");
    assert!(matches!(bound_verifier().verify_response(body.as_bytes()), Err(YubicoError::SignatureMismatch)));
}

#[test]
fn undecodable_h_is_rejected() {
    let body = format!("otp={}\r\nnonce={}\r\nstatus=OK\r\nh=***\r\n", OTP, NONCE);
    assert!(matches!(bound_verifier().verify_response(body.as_bytes()), Err(YubicoError::SignatureMismatch)));
}

#[test]
fn missing_field_is_invalid_response() {
    let body = signed_body(KEY, &[("otp", OTP), ("nonce", NONCE)]);
    assert!(matches!(bound_verifier().verify_response(body.as_bytes()), Err(YubicoError::InvalidResponse)));
    assert!(matches!(bound_verifier().verify_response(b""), Err(YubicoError::InvalidResponse)));
}

#[test]
fn parse_sorts_keys_and_skips_lines_without_equals() {
    let fields = parse_fields(b"status=OK\r\n\r\ngarbage\r\nh=a=b\nat=1\r\nstatus=BAD\n");
    let pairs: Vec<(String, String)> = fields
        .iter()
        .map(|f| (String::from_utf8(f.key.clone()).unwrap(), String::from_utf8(f.value.clone()).unwrap()))
        .collect();
    assert_eq!(
        pairs,
        vec![("at".into(), "1".into()), ("h".into(), "a=b".into()), ("status".into(), "BAD".into())]
    );
}

#[test]
fn non_2xx_status_is_reported_as_such() {
    let body = body_with_status("OK");
    assert!(matches!(host_outcome(&bound_verifier(), 503, body.as_bytes()), Err(YubicoError::HTTPStatusCode(503))));
    assert!(matches!(host_outcome(&bound_verifier(), 199, body.as_bytes()), Err(YubicoError::HTTPStatusCode(199))));
    assert!(host_outcome(&bound_verifier(), 200, body.as_bytes()).is_ok());
}
