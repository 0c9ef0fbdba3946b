use vstd::prelude::*;
use rand::distributions::Alphanumeric;
use rand::Rng;
use vstd::string::StringExecFns;

use crate::bytes::{copy_bytes, push_all};
use crate::config::{Config, SyncLevel};
use crate::error::YubicoError;
use crate::response::ResponseVerifier;
use crate::sec::{base64_decoded, base64_encoded, build_signature, encode_base64, signature_of};

verus! {

/// ASCII letters and digits: the alphabet of OTPs and nonces.
pub open spec fn is_alnum(b: u8) -> bool {
    (48 <= b <= 57) || (65 <= b <= 90) || (97 <= b <= 122)
}

pub open spec fn all_alnum(s: Seq<u8>) -> bool {
    forall|i: int| 0 <= i < s.len() ==> is_alnum(#[trigger] s[i])
}

/// An OTP is a non-empty word over letters and digits.
pub open spec fn otp_ok(otp: Seq<u8>) -> bool {
    otp.len() > 0 && all_alnum(otp)
}

/// A nonce is 16 to 40 letters and digits.
pub open spec fn nonce_ok(nonce: Seq<u8>) -> bool {
    16 <= nonce.len() <= 40 && all_alnum(nonce)
}

/// Length of the nonces this library generates.
pub const NONCE_LEN: usize = 32;

/// Decimal digits of `n`, most significant first, without leading zeros.
pub open spec fn decimal(n: nat) -> Seq<u8>
    decreases n,
{
    if n < 10 {
        seq![(48 + n) as u8]
    } else {
        decimal(n / 10) + seq![(48 + n % 10) as u8]
    }
}

/// Bytes that stand for themselves in a URL query value.
pub open spec fn is_unreserved(b: u8) -> bool {
    is_alnum(b) || b == 45 || b == 46 || b == 95 || b == 126
}

/// Upper-case hexadecimal digit of `d` (below 16).
pub open spec fn hex_digit(d: u8) -> u8 {
    if d < 10 { (48 + d) as u8 } else { (55 + d) as u8 }
}

pub open spec fn escape_byte(b: u8) -> Seq<u8> {
    if is_unreserved(b) {
        seq![b]
    } else {
        seq![37u8, hex_digit(b / 16), hex_digit(b % 16)]
    }
}

/// `s` percent-encoded for a URL query value.
pub open spec fn escaped(s: Seq<u8>) -> Seq<u8>
    decreases s.len(),
{
    if s.len() == 0 {
        seq![]
    } else {
        escaped(s.drop_last()) + escape_byte(s.last())
    }
}

/// The field name `id`.
pub open spec fn key_id() -> Seq<u8> {
    seq![105u8, 100u8]
}

/// The field name `nonce`.
pub open spec fn key_nonce() -> Seq<u8> {
    seq![110u8, 111u8, 110u8, 99u8, 101u8]
}

/// The field name `otp`.
pub open spec fn key_otp() -> Seq<u8> {
    seq![111u8, 116u8, 112u8]
}

/// The field name `sl`.
pub open spec fn key_sl() -> Seq<u8> {
    seq![115u8, 108u8]
}

/// The field name `h`.
pub open spec fn key_h() -> Seq<u8> {
    seq![104u8]
}

/// `key=value`.
pub open spec fn pair(key: Seq<u8>, value: Seq<u8>) -> Seq<u8> {
    key + seq![61u8] + value
}

/// `a&b`.
pub open spec fn amp(a: Seq<u8>, b: Seq<u8>) -> Seq<u8> {
    a + seq![38u8] + b
}

/// The string a request signs: its parameters sorted by name, joined as
/// `key=value` with `&`, values not escaped.
pub open spec fn canonical_request(id: Seq<u8>, otp: Seq<u8>, nonce: Seq<u8>, sl: u8) -> Seq<u8> {
    amp(
        amp(amp(pair(key_id(), id), pair(key_nonce(), nonce)), pair(key_otp(), otp)),
        pair(key_sl(), decimal(sl as nat)),
    )
}

/// The query a request sends: the same parameters with escaped values,
/// followed by the escaped base64 signature.
pub open spec fn request_query(
    id: Seq<u8>,
    otp: Seq<u8>,
    nonce: Seq<u8>,
    sl: u8,
    signature: Seq<u8>,
) -> Seq<u8> {
    amp(
        amp(
            amp(
                amp(pair(key_id(), escaped(id)), pair(key_nonce(), escaped(nonce))),
                pair(key_otp(), escaped(otp)),
            ),
            pair(key_sl(), decimal(sl as nat)),
        ),
        pair(key_h(), escaped(signature)),
    )
}

/// Relies on rand's thread-local generator and its `Alphanumeric`
/// distribution, which yields ASCII letters and digits only.
#[verifier::external_body]
fn random_alphanumeric(len: usize) -> (r: Vec<u8>)
    ensures
        r@.len() == len,
        all_alnum(r@),
{
    rand::thread_rng().sample_iter(&Alphanumeric).take(len).collect()
}


/// The decimal digits of `n`.
pub fn decimal_bytes(n: u8) -> (r: Vec<u8>)
    ensures
        r@ == decimal(n as nat),
{
    let mut r: Vec<u8> = Vec::new();
    if n >= 100 {
        r.push(48 + n / 100);
    }
    if n >= 10 {
        r.push(48 + (n / 10) % 10);
    }
    r.push(48 + n % 10);
    proof {
        reveal_with_fuel(decimal, 3);
        if n >= 100 {
            assert(decimal((n / 10) as nat) == decimal((n / 100) as nat) + seq![
                (48 + (n / 10) % 10) as u8,
            ]);
        }
    }
    assert(r@ =~= decimal(n as nat));
    r
}

/// Whether `s` consists of ASCII letters and digits only.
pub fn is_alphanumeric(s: &[u8]) -> (r: bool)
    ensures
        r == all_alnum(s@),
{
    let mut i: usize = 0;
    while i < s.len()
        invariant
            i <= s@.len(),
            forall|j: int| 0 <= j < i ==> is_alnum(#[trigger] s@[j]),
        decreases s@.len() - i,
    {
        let b = s[i];
        if !((48 <= b && b <= 57) || (65 <= b && b <= 90) || (97 <= b && b <= 122)) {
            return false;
        }
        i = i + 1;
    }
    true
}

fn hex_digit_of(d: u8) -> (r: u8)
    requires
        d < 16,
    ensures
        r == hex_digit(d),
{
    if d < 10 { 48 + d } else { 55 + d }
}

/// Appends `s` percent-encoded to `out`.
pub fn push_escaped(out: &mut Vec<u8>, s: &[u8])
    ensures
        final(out)@ == old(out)@ + escaped(s@),
{
    let ghost start = out@;
    let mut i: usize = 0;
    while i < s.len()
        invariant
            i <= s@.len(),
            out@ == start + escaped(s@.subrange(0, i as int)),
        decreases s@.len() - i,
    {
        let b = s[i];
        if (48 <= b && b <= 57) || (65 <= b && b <= 90) || (97 <= b && b <= 122) || b == 45 || b
            == 46 || b == 95 || b == 126 {
            out.push(b);
        } else {
            out.push(37);
            out.push(hex_digit_of(b / 16));
            out.push(hex_digit_of(b % 16));
        }
        proof {
            let next = s@.subrange(0, i + 1);
            assert(next.drop_last() =~= s@.subrange(0, i as int));
            assert(next.last() == b);
        }
        i = i + 1;
        assert(out@ =~= start + escaped(s@.subrange(0, i as int)));
    }
    assert(s@.subrange(0, s@.len() as int) =~= s@);
}

fn push_pair(out: &mut Vec<u8>, key: &[u8], value: &[u8], escape: bool)
    ensures
        final(out)@ == old(out)@ + pair(key@, if escape { escaped(value@) } else { value@ }),
{
    push_all(out, key);
    out.push(61);
    if escape {
        push_escaped(out, value);
    } else {
        push_all(out, value);
    }
    assert(final(out)@ =~= old(out)@ + pair(key@, if escape { escaped(value@) } else { value@ }));
}

/// The parameters `id`, `nonce`, `otp` and `sl` in that (sorted) order,
/// values escaped or not.
fn request_params(id: &[u8], otp: &[u8], nonce: &[u8], sl: u8, escape: bool) -> (r: Vec<u8>)
    ensures
        !escape ==> r@ == canonical_request(id@, otp@, nonce@, sl),
        escape ==> r@ == amp(
            amp(amp(pair(key_id(), escaped(id@)), pair(key_nonce(), escaped(nonce@))), pair(key_otp(), escaped(otp@))),
            pair(key_sl(), decimal(sl as nat)),
        ),
{
    let mut r: Vec<u8> = Vec::new();
    let id_key: Vec<u8> = vec![105u8, 100u8];
    let nonce_key: Vec<u8> = vec![110u8, 111u8, 110u8, 99u8, 101u8];
    let otp_key: Vec<u8> = vec![111u8, 116u8, 112u8];
    let sl_key: Vec<u8> = vec![115u8, 108u8];
    let digits = decimal_bytes(sl);
    push_pair(&mut r, id_key.as_slice(), id, escape);
    r.push(38);
    push_pair(&mut r, nonce_key.as_slice(), nonce, escape);
    r.push(38);
    push_pair(&mut r, otp_key.as_slice(), otp, escape);
    r.push(38);
    push_pair(&mut r, sl_key.as_slice(), digits.as_slice(), false);
    assert(id_key@ =~= key_id());
    assert(nonce_key@ =~= key_nonce());
    assert(otp_key@ =~= key_otp());
    assert(sl_key@ =~= key_sl());
    proof {
        if escape {
            assert(r@ =~= amp(
                amp(amp(pair(key_id(), escaped(id@)), pair(key_nonce(), escaped(nonce@))), pair(key_otp(), escaped(otp@))),
                pair(key_sl(), decimal(sl as nat)),
            ));
        } else {
            assert(r@ =~= canonical_request(id@, otp@, nonce@, sl));
        }
    }
    r
}

/// The string that a request for these values signs.
pub fn canonical_string(client_id: &[u8], otp: &[u8], nonce: &[u8], sync_level: SyncLevel) -> (r: Vec<u8>)
    ensures
        r@ == canonical_request(client_id@, otp@, nonce@, sync_level.spec_level()),
{
    request_params(client_id, otp, nonce, sync_level.level(), false)
}


/// The UTF-8 bytes of a string.
pub open spec fn utf8(s: Seq<char>) -> Seq<u8> {
    vstd::utf8::encode_utf8(s)
}

/// A signed validation request, and what it takes to authenticate the answer.
pub struct Request {
    pub client_id: Vec<u8>,
    pub otp: Vec<u8>,
    pub nonce: Vec<u8>,
    /// The base64 text of the request's signature.
    pub signature: Vec<u8>,
    pub sync_level: SyncLevel,
    /// The query string sent to every host.
    pub query: Vec<u8>,
    pub response_verifier: ResponseVerifier,
}

/// The request `build_request_with_nonce` makes for these inputs, given
/// the tag that signs its canonical string.
pub open spec fn request_matches(r: Request, config: Config, otp: Seq<u8>, nonce: Seq<u8>, tag: Seq<u8>) -> bool {
    let id = utf8(config.client_id@);
    let sl = config.sync_level.spec_level();
    &&& r.client_id@ == id
    &&& r.sync_level == config.sync_level
    &&& r.otp@ == otp
    &&& r.nonce@ == nonce
    &&& r.signature@ == base64_encoded(tag)
    &&& r.query@ == request_query(id, otp, nonce, sl, base64_encoded(tag))
    &&& r.response_verifier.otp@ == otp
    &&& r.response_verifier.nonce@ == nonce
    &&& r.response_verifier.key@ == config.key@
}

/// Builds the request for `otp` with the given nonce: the OTP must be a
/// non-empty alphanumeric word, the configuration must be usable, and its
/// secret must decode.
pub fn build_request_with_nonce(otp: String, nonce: Vec<u8>, config: &Config) -> (r: Result<Request, YubicoError>)
    requires
        nonce_ok(nonce@),
    ensures
        !otp_ok(utf8(otp@)) ==> r matches Err(YubicoError::InvalidOtp),
        otp_ok(utf8(otp@)) && !config.usable() ==> r matches Err(YubicoError::ConfigurationError(_)),
        otp_ok(utf8(otp@)) && config.usable() ==> match signature_of(
            config.key@,
            canonical_request(utf8(config.client_id@), utf8(otp@), nonce@, config.sync_level.spec_level()),
        ) {
            None => r matches Err(YubicoError::DecodeError(_)),
            Some(tag) => r is Ok && request_matches(r->Ok_0, *config, utf8(otp@), nonce@, tag),
        },
{
    let otp_bytes = otp.as_str().as_bytes();
    if otp_bytes.len() == 0 || !is_alphanumeric(otp_bytes) {
        return Err(YubicoError::InvalidOtp);
    }
    if !config.is_usable() {
        return Err(YubicoError::ConfigurationError(String::from_str("a client id, a key and a host are required")));
    }
    let id = config.client_id.as_str().as_bytes();
    let sl = config.sync_level.level();
    let canonical = request_params(id, otp_bytes, nonce.as_slice(), sl, false);
    let tag = build_signature(config.key.as_slice(), canonical.as_slice())?;
    let signature = encode_base64(tag.as_slice());
    let mut query = request_params(id, otp_bytes, nonce.as_slice(), sl, true);
    query.push(38);
    query.push(104);
    query.push(61);
    push_escaped(&mut query, signature.as_slice());
    assert(query@ =~= request_query(utf8(config.client_id@), utf8(otp@), nonce@, sl, signature@));
    let response_verifier = ResponseVerifier {
        otp: copy_bytes(otp_bytes),
        nonce: copy_bytes(nonce.as_slice()),
        key: copy_bytes(config.key.as_slice()),
    };
    Ok(Request {
        client_id: copy_bytes(id),
        otp: copy_bytes(otp_bytes),
        nonce,
        signature,
        sync_level: config.sync_level,
        query,
        response_verifier,
    })
}

/// Builds the request for `otp` with a fresh random nonce.
pub fn build_request(otp: String, config: &Config) -> (r: Result<Request, YubicoError>)
    ensures
        !otp_ok(utf8(otp@)) ==> r matches Err(YubicoError::InvalidOtp),
        otp_ok(utf8(otp@)) && !config.usable() ==> r matches Err(YubicoError::ConfigurationError(_)),
        otp_ok(utf8(otp@)) && config.usable() && base64_decoded(config.key@) is Some ==> r is Ok,
        otp_ok(utf8(otp@)) && config.usable() && base64_decoded(config.key@) is None ==> r matches Err(
            YubicoError::DecodeError(_),
        ),
        r is Ok ==> nonce_ok(r->Ok_0.nonce@) && exists|tag: Seq<u8>|
            signature_of(
                config.key@,
                canonical_request(utf8(config.client_id@), utf8(otp@), r->Ok_0.nonce@, config.sync_level.spec_level()),
            ) == Some(tag) && request_matches(r->Ok_0, *config, utf8(otp@), r->Ok_0.nonce@, tag),
{
    let nonce = random_alphanumeric(NONCE_LEN);
    build_request_with_nonce(otp, nonce, config)
}

impl Request {
    /// The full URL that asks `api_host` to validate this request.
    pub fn build_url(&self, api_host: &str) -> (r: Vec<u8>)
        ensures
            r@ == utf8(api_host@) + seq![63u8] + self.query@,
    {
        let mut r = copy_bytes(api_host.as_bytes());
        r.push(63);
        push_all(&mut r, self.query.as_slice());
        r
    }
}

/// Two requests for the same client, OTP, nonce and sync level sign the
/// same string, whatever else their configurations hold.
pub proof fn lemma_canonical_depends_only_on_inputs(a: Config, b: Config, otp: Seq<u8>, nonce: Seq<u8>)
    requires
        a.client_id@ == b.client_id@,
        a.sync_level == b.sync_level,
    ensures
        canonical_request(utf8(a.client_id@), otp, nonce, a.sync_level.spec_level())
            == canonical_request(utf8(b.client_id@), otp, nonce, b.sync_level.spec_level()),
{
}

} // verus!
