use vstd::prelude::*;
use vstd::string::StringExecFns;

verus! {

#[verifier::external_type_specification]
#[verifier::external_body]
pub struct ExDecodeError(base64::DecodeError);

/// Every way a verification can fail.
#[derive(Debug)]
pub enum YubicoError {
    /// The configuration is unusable; holds a message.
    ConfigurationError(String),
    /// The transport failed; holds its message.
    Network(String),
    /// A host answered with a status code outside 200..=299.
    HTTPStatusCode(u16),
    IOError(String),
    ChannelError(String),
    /// The shared secret is not valid base64.
    DecodeError(base64::DecodeError),
    /// Every host failed softly; the failures in the order they came.
    MultipleErrors(Vec<YubicoError>),
    BadOTP,
    ReplayedOTP,
    BadSignature,
    MissingParameter,
    NoSuchClient,
    OperationNotAllowed,
    BackendError,
    NotEnoughAnswers,
    ReplayedRequest,
    UnknownStatus,
    OTPMismatch,
    NonceMismatch,
    SignatureMismatch,
    InvalidKeyLength,
    InvalidResponse,
    InvalidOtp,
}

pub type Result<T> = core::result::Result<T, YubicoError>;


/// The message of an error that carries no payload.
pub open spec fn fixed_message(e: YubicoError) -> Option<Seq<char>> {
    match e {
        YubicoError::BadOTP => Some("The OTP has invalid format."@),
        YubicoError::ReplayedOTP => Some("The OTP has already been seen by the service."@),
        YubicoError::BadSignature => Some("The HMAC signature verification failed."@),
        YubicoError::MissingParameter => Some("The request lacks a parameter."@),
        YubicoError::NoSuchClient => Some("The request id does not exist."@),
        YubicoError::OperationNotAllowed => Some("The request id is not allowed to verify OTPs."@),
        YubicoError::BackendError => Some("Unexpected error in our server. Please contact us if you see this error."@),
        YubicoError::NotEnoughAnswers => Some("Server could not get requested number of syncs during before timeout"@),
        YubicoError::ReplayedRequest => Some("Server has seen the OTP/Nonce combination before"@),
        YubicoError::UnknownStatus => Some("Unknown status sent by the OTP validation server"@),
        YubicoError::OTPMismatch => Some("OTP mismatch, It may be an attack attempt"@),
        YubicoError::NonceMismatch => Some("Nonce mismatch, It may be an attack attempt"@),
        YubicoError::SignatureMismatch => Some("Signature mismatch, It may be an attack attempt"@),
        YubicoError::InvalidKeyLength => Some("Invalid key length encountered while building signature"@),
        YubicoError::InvalidResponse => Some("Invalid response from the validation server"@),
        YubicoError::InvalidOtp => Some("Invalid OTP"@),
        _ => None,
    }
}

/// The prefix of the message of an error that carries a transport message.
pub open spec fn message_prefix(e: YubicoError) -> Option<(Seq<char>, Seq<char>)> {
    match e {
        YubicoError::ConfigurationError(s) => Some(("Configuration error: "@, s@)),
        YubicoError::Network(s) => Some(("Connectivity error: "@, s@)),
        YubicoError::IOError(s) => Some(("IO error: "@, s@)),
        YubicoError::ChannelError(s) => Some(("Channel error: "@, s@)),
        _ => None,
    }
}

/// The character of decimal digit `d` (below 10).
pub open spec fn digit_char(d: nat) -> char {
    if d == 0 { '0' } else if d == 1 { '1' } else if d == 2 { '2' } else if d == 3 { '3' } else if d == 4 {
        '4'
    } else if d == 5 { '5' } else if d == 6 { '6' } else if d == 7 { '7' } else if d == 8 { '8' } else { '9' }
}

/// Decimal digits of `n`, most significant first.
pub open spec fn decimal_text(n: nat) -> Seq<char>
    decreases n,
{
    if n < 10 {
        seq![digit_char(n)]
    } else {
        decimal_text(n / 10) + seq![digit_char(n % 10)]
    }
}

/// Whether `m` is the description of `e` on its own; a list of errors is
/// described only as such, and a decoding error by its prefix.
pub open spec fn message_fits(e: YubicoError, m: Seq<char>) -> bool {
    match e {
        YubicoError::HTTPStatusCode(c) => m == "Error found: "@ + decimal_text(c as nat),
        YubicoError::DecodeError(_) => exists|t: Seq<char>| m == #[trigger] ("Decode error: "@ + t),
        YubicoError::MultipleErrors(_) => m == "Multiple errors."@,
        _ => match fixed_message(e) {
            Some(f) => m == f,
            None => match message_prefix(e) {
                Some(p) => m == p.0 + p.1,
                None => true,
            },
        },
    }
}

/// Messages each followed by a space.
pub open spec fn spaced(msgs: Seq<Seq<char>>) -> Seq<char>
    decreases msgs.len(),
{
    if msgs.len() == 0 {
        seq![]
    } else {
        spaced(msgs.drop_last()) + msgs.last() + " "@
    }
}

/// Appends the decimal digits of `n` to `s`.
fn push_decimal(s: &mut String, n: u16)
    ensures
        final(s)@ == old(s)@ + decimal_text(n as nat),
    decreases n,
{
    if n >= 10 {
        push_decimal(s, n / 10);
    }
    let d = n % 10;
    proof {
        reveal_strlit("0");
        reveal_strlit("1");
        reveal_strlit("2");
        reveal_strlit("3");
        reveal_strlit("4");
        reveal_strlit("5");
        reveal_strlit("6");
        reveal_strlit("7");
        reveal_strlit("8");
        reveal_strlit("9");
    }
    if d == 0 {
        s.append("0");
    } else if d == 1 {
        s.append("1");
    } else if d == 2 {
        s.append("2");
    } else if d == 3 {
        s.append("3");
    } else if d == 4 {
        s.append("4");
    } else if d == 5 {
        s.append("5");
    } else if d == 6 {
        s.append("6");
    } else if d == 7 {
        s.append("7");
    } else if d == 8 {
        s.append("8");
    } else {
        s.append("9");
    }
    assert(final(s)@ =~= old(s)@ + decimal_text(n as nat));
}

/// Relies on base64's `Display` for `DecodeError`.
#[verifier::external_body]
fn decode_error_text(e: &base64::DecodeError) -> String {
    e.to_string()
}

impl YubicoError {
    /// Whether this failure leaves room for another host to succeed.
    pub fn is_soft(&self) -> (r: bool)
        ensures
            r == (matches!(*self, YubicoError::ReplayedRequest) || matches!(*self, YubicoError::HTTPStatusCode(_))),
    {
        match self {
            YubicoError::ReplayedRequest => true,
            YubicoError::HTTPStatusCode(_) => true,
            _ => false,
        }
    }

    /// The description of this error alone; a list of errors is not spelled out.
    fn single_message(&self) -> (r: String)
        ensures
            message_fits(*self, r@),
    {
        match self {
            YubicoError::ConfigurationError(s) => String::from_str("Configuration error: ").concat(s.as_str()),
            YubicoError::Network(s) => String::from_str("Connectivity error: ").concat(s.as_str()),
            YubicoError::IOError(s) => String::from_str("IO error: ").concat(s.as_str()),
            YubicoError::ChannelError(s) => String::from_str("Channel error: ").concat(s.as_str()),
            YubicoError::HTTPStatusCode(code) => {
                let mut r = String::from_str("Error found: ");
                push_decimal(&mut r, *code);
                r
            },
            YubicoError::DecodeError(e) => {
                let detail = decode_error_text(e);
                let r = String::from_str("Decode error: ").concat(detail.as_str());
                assert(r@ == "Decode error: "@ + detail@);
                r
            },
            YubicoError::MultipleErrors(_) => String::from_str("Multiple errors."),
            YubicoError::BadOTP => String::from_str("The OTP has invalid format."),
            YubicoError::ReplayedOTP => String::from_str("The OTP has already been seen by the service."),
            YubicoError::BadSignature => String::from_str("The HMAC signature verification failed."),
            YubicoError::MissingParameter => String::from_str("The request lacks a parameter."),
            YubicoError::NoSuchClient => String::from_str("The request id does not exist."),
            YubicoError::OperationNotAllowed => String::from_str("The request id is not allowed to verify OTPs."),
            YubicoError::BackendError => String::from_str("Unexpected error in our server. Please contact us if you see this error."),
            YubicoError::NotEnoughAnswers => String::from_str("Server could not get requested number of syncs during before timeout"),
            YubicoError::ReplayedRequest => String::from_str("Server has seen the OTP/Nonce combination before"),
            YubicoError::UnknownStatus => String::from_str("Unknown status sent by the OTP validation server"),
            YubicoError::OTPMismatch => String::from_str("OTP mismatch, It may be an attack attempt"),
            YubicoError::NonceMismatch => String::from_str("Nonce mismatch, It may be an attack attempt"),
            YubicoError::SignatureMismatch => String::from_str("Signature mismatch, It may be an attack attempt"),
            YubicoError::InvalidKeyLength => String::from_str("Invalid key length encountered while building signature"),
            YubicoError::InvalidResponse => String::from_str("Invalid response from the validation server"),
            YubicoError::InvalidOtp => String::from_str("Invalid OTP"),
        }
    }

    /// A human-readable description of the error; a list of errors names
    /// each of its entries.
    pub fn message(&self) -> (r: String)
        ensures
            !(*self is MultipleErrors) ==> message_fits(*self, r@),
            fixed_message(*self) matches Some(m) ==> r@ == m,
            message_prefix(*self) matches Some(p) ==> r@ == p.0 + p.1,
            *self matches YubicoError::MultipleErrors(es) ==> exists|msgs: Seq<Seq<char>>|
                msgs.len() == es@.len() && (forall|i: int|
                    0 <= i < msgs.len() ==> message_fits(es@[i], #[trigger] msgs[i])) && r@
                    == "Multiple errors. "@ + #[trigger] spaced(msgs),
    {
        match self {
            YubicoError::MultipleErrors(errs) => {
                let mut r = String::from_str("Multiple errors. ");
                let ghost head = r@;
                let ghost mut msgs: Seq<Seq<char>> = seq![];
                let mut i: usize = 0;
                while i < errs.len()
                    invariant
                        i <= errs@.len(),
                        msgs.len() == i,
                        forall|j: int| 0 <= j < i ==> message_fits(errs@[j], #[trigger] msgs[j]),
                        r@ == head + spaced(msgs),
                        head == "Multiple errors. "@,
                    decreases errs.len() - i,
                {
                    let inner = errs[i].single_message();
                    let ghost before = msgs;
                    r.append(inner.as_str());
                    r.append(" ");
                    proof {
                        msgs = msgs.push(inner@);
                        assert(msgs.drop_last() =~= before);
                        assert(r@ =~= head + spaced(msgs));
                    }
                    i = i + 1;
                }
                r
            },
            other => other.single_message(),
        }
    }
}

} // verus!
