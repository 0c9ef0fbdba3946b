use yubico_ng::error::YubicoError;
use yubico_ng::race::{race_outcome, Race};

#[test]
fn success_after_transport_failure_wins_without_waiting() {
    let mut race = Race::start();
    assert!(race.record(Err(YubicoError::HTTPStatusCode(502))).is_none());
    let done = race.record(Ok(()));
    assert!(matches!(done, Some(Ok(()))));
    assert_eq!(race.errors.len(), 1);
    let r = race_outcome(vec![Err(YubicoError::HTTPStatusCode(502)), Ok(()), Err(YubicoError::BadOTP)]);
    assert!(r.is_ok());
}

#[test]
fn connection_failure_first_is_hard() {
    let r = race_outcome(vec![Err(YubicoError::Network("refused".to_string())), Ok(())]);
    assert!(matches!(r, Err(YubicoError::Network(_))));
}

#[test]
fn all_replayed_requests_are_aggregated() {
    for n in 1..5 {
        let outcomes: Vec<Result<(), YubicoError>> = (0..n).map(|_| Err(YubicoError::ReplayedRequest)).collect();
        match race_outcome(outcomes) {
            Err(YubicoError::MultipleErrors(errs)) => {
                assert_eq!(errs.len(), n);
                assert!(errs.iter().all(|e| matches!(e, YubicoError::ReplayedRequest)));
            },
            other => panic!("unexpected {:?}", other),
        }
    }
}

#[test]
fn soft_failures_keep_completion_order() {
    let r = race_outcome(vec![
        Err(YubicoError::ReplayedRequest),
        Err(YubicoError::HTTPStatusCode(500)),
        Err(YubicoError::ReplayedRequest),
    ]);
    match r {
        Err(YubicoError::MultipleErrors(errs)) => {
            assert_eq!(errs.len(), 3);
            assert!(matches!(errs[0], YubicoError::ReplayedRequest));
            assert!(matches!(errs[1], YubicoError::HTTPStatusCode(500)));
            assert!(matches!(errs[2], YubicoError::ReplayedRequest));
        },
        other => panic!("unexpected {:?}", other),
    }
}

#[test]
fn empty_race_is_an_empty_aggregate() {
    assert!(matches!(race_outcome(vec![]), Err(YubicoError::MultipleErrors(e)) if e.is_empty()));
}

#[test]
fn first_bad_otp_ends_the_race() {
    let r = race_outcome(vec![Err(YubicoError::BadOTP), Ok(())]);
    assert!(matches!(r, Err(YubicoError::BadOTP)));
    let mut race = Race::start();
    assert!(matches!(race.record(Err(YubicoError::BadOTP)), Some(Err(YubicoError::BadOTP))));
}

#[test]
fn verification_failures_are_hard() {
    for e in [YubicoError::SignatureMismatch, YubicoError::NonceMismatch, YubicoError::OTPMismatch, YubicoError::InvalidResponse] {
        let r = race_outcome(vec![Err(YubicoError::ReplayedRequest), Err(e), Ok(())]);
        assert!(r.is_err());
        assert!(!matches!(r, Err(YubicoError::MultipleErrors(_))));
    }
}

#[test]
fn finish_returns_recorded_errors() {
    let mut race = Race::start();
    race.record(Err(YubicoError::ReplayedRequest));
    match race.finish() {
        YubicoError::MultipleErrors(e) => assert_eq!(e.len(), 1),
        other => panic!("unexpected {:?}", other),
    }
}

#[test]
fn error_messages() {
    assert_eq!(YubicoError::BadOTP.message(), "The OTP has invalid format.");
    assert_eq!(YubicoError::InvalidOtp.message(), "Invalid OTP");
    assert_eq!(YubicoError::Network("down".to_string()).message(), "Connectivity error: down");
    assert_eq!(YubicoError::HTTPStatusCode(503).message(), "Error found: 503");
    assert_eq!(
        YubicoError::MultipleErrors(vec![YubicoError::ReplayedRequest]).message(),
        "Multiple errors. Server has seen the OTP/Nonce combination before "
    );
    assert!(YubicoError::ReplayedRequest.is_soft());
    assert!(YubicoError::HTTPStatusCode(404).is_soft());
    assert!(!YubicoError::BadOTP.is_soft());
}

#[test]
fn aggregate_message_lists_each_entry() {
    let e = YubicoError::MultipleErrors(vec![YubicoError::ReplayedRequest, YubicoError::InvalidOtp]);
    assert_eq!(e.message(), "Multiple errors. Server has seen the OTP/Nonce combination before Invalid OTP ");
    let e = YubicoError::MultipleErrors(vec![YubicoError::HTTPStatusCode(502), YubicoError::HTTPStatusCode(0)]);
    assert_eq!(e.message(), "Multiple errors. Error found: 502 Error found: 0 ");
    assert_eq!(YubicoError::MultipleErrors(vec![]).message(), "Multiple errors. ");
}

#[test]
fn decode_error_message_has_prefix() {
    let err = yubico_ng::sec::build_signature(b"%%%", b"x").unwrap_err();
    assert!(err.message().starts_with("Decode error: "));
    assert!(err.message().len() > "Decode error: ".len());
}
