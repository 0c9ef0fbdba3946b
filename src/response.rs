use vstd::prelude::*;

use crate::bytes::{bytes_eq, push_all};
use crate::error::YubicoError;
use crate::request::{amp, key_h, key_nonce, key_otp, pair};
use crate::sec::{base64_decoded, signature_accepts, verify_signature};
use crate::sec::decode_base64;

verus! {

/// What a response must echo, and the secret that must have signed it.
pub struct ResponseVerifier {
    pub otp: Vec<u8>,
    pub nonce: Vec<u8>,
    /// The shared secret, still base64-encoded.
    pub key: Vec<u8>,
}

/// One `key=value` field of a response.
pub struct Field {
    pub key: Vec<u8>,
    pub value: Vec<u8>,
}

/// Fields as pairs of byte strings.
pub open spec fn field_views(fs: Seq<Field>) -> Seq<(Seq<u8>, Seq<u8>)> {
    fs.map_values(|f: Field| (f.key@, f.value@))
}

/// Byte-wise lexicographic order, a proper prefix coming first.
pub open spec fn lex_lt(a: Seq<u8>, b: Seq<u8>) -> bool
    decreases a.len(),
{
    if a.len() == 0 {
        b.len() > 0
    } else if b.len() == 0 {
        false
    } else if a[0] != b[0] {
        a[0] < b[0]
    } else {
        lex_lt(a.drop_first(), b.drop_first())
    }
}

/// Puts `(k, v)` into fields sorted by key: it replaces the field of the
/// same key, else it goes before the first larger key.
pub open spec fn insert_entry(es: Seq<(Seq<u8>, Seq<u8>)>, k: Seq<u8>, v: Seq<u8>) -> Seq<(Seq<u8>, Seq<u8>)>
    decreases es.len(),
{
    if es.len() == 0 {
        seq![(k, v)]
    } else if es[0].0 == k {
        seq![(k, v)] + es.drop_first()
    } else if lex_lt(k, es[0].0) {
        seq![(k, v)] + es
    } else {
        seq![es[0]] + insert_entry(es.drop_first(), k, v)
    }
}

/// Index of the first `=` in `l` at or after `i`, or -1.
pub open spec fn find_eq(l: Seq<u8>, i: int) -> int
    decreases l.len() - i,
{
    if i < 0 || i >= l.len() {
        -1
    } else if l[i] == 61 {
        i
    } else {
        find_eq(l, i + 1)
    }
}

/// Adds the field a line holds, split on its first `=`; a line without
/// `=` (a blank one too) adds nothing.
pub open spec fn add_line(es: Seq<(Seq<u8>, Seq<u8>)>, line: Seq<u8>) -> Seq<(Seq<u8>, Seq<u8>)> {
    let j = find_eq(line, 0);
    if j < 0 {
        es
    } else {
        insert_entry(es, line.subrange(0, j), line.subrange(j + 1, line.len() as int))
    }
}

pub open spec fn is_line_break(b: u8) -> bool {
    b == 10 || b == 13
}

/// Parses `s` from position `i`, where the current line began at `start`.
pub open spec fn parse_from(s: Seq<u8>, start: int, i: int, acc: Seq<(Seq<u8>, Seq<u8>)>) -> Seq<(Seq<u8>, Seq<u8>)>
    decreases s.len() - i,
{
    if i >= s.len() {
        add_line(acc, s.subrange(start, s.len() as int))
    } else if is_line_break(s[i]) {
        parse_from(s, i + 1, i + 1, add_line(acc, s.subrange(start, i)))
    } else {
        parse_from(s, start, i + 1, acc)
    }
}

/// The fields of a response body, sorted by key, one per key (the last
/// line with that key wins). Lines break at CR or LF.
pub open spec fn fields_of(body: Seq<u8>) -> Seq<(Seq<u8>, Seq<u8>)> {
    parse_from(body, 0, 0, seq![])
}

/// The value of key `k`.
pub open spec fn lookup(es: Seq<(Seq<u8>, Seq<u8>)>, k: Seq<u8>) -> Option<Seq<u8>>
    decreases es.len(),
{
    if es.len() == 0 {
        None
    } else if es[0].0 == k {
        Some(es[0].1)
    } else {
        lookup(es.drop_first(), k)
    }
}

/// The string a response signs: every field but `h`, in order, joined as
/// `key=value` with `&`.
pub open spec fn signed_text(es: Seq<(Seq<u8>, Seq<u8>)>) -> Seq<u8>
    decreases es.len(),
{
    if es.len() == 0 {
        seq![]
    } else {
        let prev = signed_text(es.drop_last());
        let e = es.last();
        if e.0 == key_h() {
            prev
        } else if prev.len() == 0 {
            pair(e.0, e.1)
        } else {
            amp(prev, pair(e.0, e.1))
        }
    }
}

/// The field name `status`.
pub open spec fn key_status() -> Seq<u8> {
    seq![115u8, 116u8, 97u8, 116u8, 117u8, 115u8]
}

/// `OK`
pub open spec fn word_ok() -> Seq<u8> {
    seq![79u8, 75u8]
}

/// `BAD_OTP`
pub open spec fn word_bad_otp() -> Seq<u8> {
    seq![66u8, 65u8, 68u8, 95u8, 79u8, 84u8, 80u8]
}

/// `REPLAYED_OTP`
pub open spec fn word_replayed_otp() -> Seq<u8> {
    seq![82u8, 69u8, 80u8, 76u8, 65u8, 89u8, 69u8, 68u8, 95u8, 79u8, 84u8, 80u8]
}

/// `BAD_SIGNATURE`
pub open spec fn word_bad_signature() -> Seq<u8> {
    seq![66u8, 65u8, 68u8, 95u8, 83u8, 73u8, 71u8, 78u8, 65u8, 84u8, 85u8, 82u8, 69u8]
}

/// `MISSING_PARAMETER`
pub open spec fn word_missing_parameter() -> Seq<u8> {
    seq![77u8, 73u8, 83u8, 83u8, 73u8, 78u8, 71u8, 95u8, 80u8, 65u8, 82u8, 65u8, 77u8, 69u8, 84u8, 69u8, 82u8]
}

/// `NO_SUCH_CLIENT`
pub open spec fn word_no_such_client() -> Seq<u8> {
    seq![78u8, 79u8, 95u8, 83u8, 85u8, 67u8, 72u8, 95u8, 67u8, 76u8, 73u8, 69u8, 78u8, 84u8]
}

/// `OPERATION_NOT_ALLOWED`
pub open spec fn word_operation_not_allowed() -> Seq<u8> {
    seq![79u8, 80u8, 69u8, 82u8, 65u8, 84u8, 73u8, 79u8, 78u8, 95u8, 78u8, 79u8, 84u8, 95u8, 65u8, 76u8, 76u8, 79u8, 87u8, 69u8, 68u8]
}

/// `BACKEND_ERROR`
pub open spec fn word_backend_error() -> Seq<u8> {
    seq![66u8, 65u8, 67u8, 75u8, 69u8, 78u8, 68u8, 95u8, 69u8, 82u8, 82u8, 79u8, 82u8]
}

/// `NOT_ENOUGH_ANSWERS`
pub open spec fn word_not_enough_answers() -> Seq<u8> {
    seq![78u8, 79u8, 84u8, 95u8, 69u8, 78u8, 79u8, 85u8, 71u8, 72u8, 95u8, 65u8, 78u8, 83u8, 87u8, 69u8, 82u8, 83u8]
}

/// `REPLAYED_REQUEST`
pub open spec fn word_replayed_request() -> Seq<u8> {
    seq![82u8, 69u8, 80u8, 76u8, 65u8, 89u8, 69u8, 68u8, 95u8, 82u8, 69u8, 81u8, 85u8, 69u8, 83u8, 84u8]
}

/// The verdict that an authenticated `status` value stands for.
pub open spec fn status_result(status: Seq<u8>) -> Result<(), YubicoError> {
    if status == word_ok() {
        Ok(())
    } else if status == word_bad_otp() {
        Err(YubicoError::BadOTP)
    } else if status == word_replayed_otp() {
        Err(YubicoError::ReplayedOTP)
    } else if status == word_bad_signature() {
        Err(YubicoError::BadSignature)
    } else if status == word_missing_parameter() {
        Err(YubicoError::MissingParameter)
    } else if status == word_no_such_client() {
        Err(YubicoError::NoSuchClient)
    } else if status == word_operation_not_allowed() {
        Err(YubicoError::OperationNotAllowed)
    } else if status == word_backend_error() {
        Err(YubicoError::BackendError)
    } else if status == word_not_enough_answers() {
        Err(YubicoError::NotEnoughAnswers)
    } else if status == word_replayed_request() {
        Err(YubicoError::ReplayedRequest)
    } else {
        Err(YubicoError::UnknownStatus)
    }
}

/// Maps an authenticated `status` value to its verdict.
pub fn status_outcome(status: &[u8]) -> (r: Result<(), YubicoError>)
    ensures
        r == status_result(status@),
{
    let ok: Vec<u8> = vec![79u8, 75u8];
    assert(ok@ =~= word_ok());
    if bytes_eq(status, ok.as_slice()) {
        return Ok(());
    }
    let bad_otp: Vec<u8> = vec![66u8, 65u8, 68u8, 95u8, 79u8, 84u8, 80u8];
    assert(bad_otp@ =~= word_bad_otp());
    if bytes_eq(status, bad_otp.as_slice()) {
        return Err(YubicoError::BadOTP);
    }
    let replayed_otp: Vec<u8> = vec![82u8, 69u8, 80u8, 76u8, 65u8, 89u8, 69u8, 68u8, 95u8, 79u8, 84u8, 80u8];
    assert(replayed_otp@ =~= word_replayed_otp());
    if bytes_eq(status, replayed_otp.as_slice()) {
        return Err(YubicoError::ReplayedOTP);
    }
    let bad_signature: Vec<u8> = vec![66u8, 65u8, 68u8, 95u8, 83u8, 73u8, 71u8, 78u8, 65u8, 84u8, 85u8, 82u8, 69u8];
    assert(bad_signature@ =~= word_bad_signature());
    if bytes_eq(status, bad_signature.as_slice()) {
        return Err(YubicoError::BadSignature);
    }
    let missing_parameter: Vec<u8> = vec![77u8, 73u8, 83u8, 83u8, 73u8, 78u8, 71u8, 95u8, 80u8, 65u8, 82u8, 65u8, 77u8, 69u8, 84u8, 69u8, 82u8];
    assert(missing_parameter@ =~= word_missing_parameter());
    if bytes_eq(status, missing_parameter.as_slice()) {
        return Err(YubicoError::MissingParameter);
    }
    let no_such_client: Vec<u8> = vec![78u8, 79u8, 95u8, 83u8, 85u8, 67u8, 72u8, 95u8, 67u8, 76u8, 73u8, 69u8, 78u8, 84u8];
    assert(no_such_client@ =~= word_no_such_client());
    if bytes_eq(status, no_such_client.as_slice()) {
        return Err(YubicoError::NoSuchClient);
    }
    let operation_not_allowed: Vec<u8> = vec![79u8, 80u8, 69u8, 82u8, 65u8, 84u8, 73u8, 79u8, 78u8, 95u8, 78u8, 79u8, 84u8, 95u8, 65u8, 76u8, 76u8, 79u8, 87u8, 69u8, 68u8];
    assert(operation_not_allowed@ =~= word_operation_not_allowed());
    if bytes_eq(status, operation_not_allowed.as_slice()) {
        return Err(YubicoError::OperationNotAllowed);
    }
    let backend_error: Vec<u8> = vec![66u8, 65u8, 67u8, 75u8, 69u8, 78u8, 68u8, 95u8, 69u8, 82u8, 82u8, 79u8, 82u8];
    assert(backend_error@ =~= word_backend_error());
    if bytes_eq(status, backend_error.as_slice()) {
        return Err(YubicoError::BackendError);
    }
    let not_enough_answers: Vec<u8> = vec![78u8, 79u8, 84u8, 95u8, 69u8, 78u8, 79u8, 85u8, 71u8, 72u8, 95u8, 65u8, 78u8, 83u8, 87u8, 69u8, 82u8, 83u8];
    assert(not_enough_answers@ =~= word_not_enough_answers());
    if bytes_eq(status, not_enough_answers.as_slice()) {
        return Err(YubicoError::NotEnoughAnswers);
    }
    let replayed_request: Vec<u8> = vec![82u8, 69u8, 80u8, 76u8, 65u8, 89u8, 69u8, 68u8, 95u8, 82u8, 69u8, 81u8, 85u8, 69u8, 83u8, 84u8];
    assert(replayed_request@ =~= word_replayed_request());
    if bytes_eq(status, replayed_request.as_slice()) {
        return Err(YubicoError::ReplayedRequest);
    }
    Err(YubicoError::UnknownStatus)
}


/// Whether `a` sorts strictly before `b`, byte by byte.
pub fn lex_less(a: &[u8], b: &[u8]) -> (r: bool)
    ensures
        r == lex_lt(a@, b@),
{
    let mut i: usize = 0;
    assert(a@.subrange(0, a@.len() as int) =~= a@);
    assert(b@.subrange(0, b@.len() as int) =~= b@);
    while i < a.len() && i < b.len()
        invariant
            i <= a@.len(),
            i <= b@.len(),
            lex_lt(a@, b@) == lex_lt(a@.subrange(i as int, a@.len() as int), b@.subrange(i as int, b@.len() as int)),
        decreases a@.len() - i,
    {
        if a[i] != b[i] {
            return a[i] < b[i];
        }
        proof {
            let ra = a@.subrange(i as int, a@.len() as int);
            let rb = b@.subrange(i as int, b@.len() as int);
            assert(ra.drop_first() =~= a@.subrange(i + 1, a@.len() as int));
            assert(rb.drop_first() =~= b@.subrange(i + 1, b@.len() as int));
        }
        i = i + 1;
    }
    i == a.len() && i < b.len()
}

/// Position of the first `=` in `s[start..end]`.
fn first_eq(s: &[u8], start: usize, end: usize) -> (r: Option<usize>)
    requires
        start <= end <= s@.len(),
    ensures
        match r {
            None => find_eq(s@.subrange(start as int, end as int), 0) == -1,
            Some(j) => start <= j < end && find_eq(s@.subrange(start as int, end as int), 0) == j - start,
        },
{
    let ghost line = s@.subrange(start as int, end as int);
    let mut j: usize = start;
    while j < end
        invariant
            start <= j <= end,
            end <= s@.len(),
            line == s@.subrange(start as int, end as int),
            find_eq(line, 0) == find_eq(line, j - start),
        decreases end - j,
    {
        if s[j] == 61 {
            return Some(j);
        }
        j = j + 1;
    }
    None
}

/// Puts a field into fields sorted by key, as `insert_entry` says.
fn insert_field(acc: &mut Vec<Field>, key: Vec<u8>, value: Vec<u8>)
    ensures
        field_views(final(acc)@) == insert_entry(field_views(old(acc)@), key@, value@),
{
    let ghost v0 = field_views(acc@);
    let ghost k = key@;
    let ghost v = value@;
    let mut i: usize = 0;
    assert(v0.subrange(0, 0) + v0.subrange(0, v0.len() as int) =~= v0);
    while i < acc.len()
        invariant
            i <= acc@.len(),
            field_views(acc@) == v0,
            v0 == field_views(old(acc)@),
            v0.len() == acc@.len(),
            insert_entry(v0, k, v) == v0.subrange(0, i as int) + insert_entry(
                v0.subrange(i as int, v0.len() as int),
                k,
                v,
            ),
            key@ == k,
            value@ == v,
        decreases acc@.len() - i,
    {
        let ghost rest = v0.subrange(i as int, v0.len() as int);
        assert(rest[0] == v0[i as int]);
        assert(rest.drop_first() =~= v0.subrange(i + 1, v0.len() as int));
        if bytes_eq(acc[i].key.as_slice(), key.as_slice()) {
            assert(insert_entry(rest, k, v) == seq![(k, v)] + rest.drop_first());
            acc.set(i, Field { key, value });
            assert(field_views(acc@) =~= v0.subrange(0, i as int) + insert_entry(rest, k, v));
            return;
        }
        if lex_less(key.as_slice(), acc[i].key.as_slice()) {
            assert(insert_entry(rest, k, v) == seq![(k, v)] + rest);
            acc.insert(i, Field { key, value });
            assert(field_views(acc@) =~= v0.subrange(0, i as int) + insert_entry(rest, k, v));
            return;
        }
        assert(v0.subrange(0, i as int) + (seq![rest[0]] + insert_entry(rest.drop_first(), k, v))
            =~= v0.subrange(0, i + 1) + insert_entry(v0.subrange(i + 1, v0.len() as int), k, v));
        i = i + 1;
    }
    assert(v0.subrange(i as int, v0.len() as int) =~= Seq::<(Seq<u8>, Seq<u8>)>::empty());
    acc.push(Field { key, value });
    assert(field_views(acc@) =~= v0.subrange(0, i as int) + seq![(k, v)]);
}

fn copy_range(s: &[u8], from: usize, to: usize) -> (r: Vec<u8>)
    requires
        from <= to <= s@.len(),
    ensures
        r@ == s@.subrange(from as int, to as int),
{
    let mut r: Vec<u8> = Vec::new();
    let mut i: usize = from;
    while i < to
        invariant
            from <= i <= to,
            to <= s@.len(),
            r@ == s@.subrange(from as int, i as int),
        decreases to - i,
    {
        r.push(s[i]);
        i = i + 1;
        assert(r@ =~= s@.subrange(from as int, i as int));
    }
    r
}

/// Adds the field that the line `s[start..end]` holds, as `add_line` says.
fn add_line_field(acc: &mut Vec<Field>, s: &[u8], start: usize, end: usize)
    requires
        start <= end <= s@.len(),
    ensures
        field_views(final(acc)@) == add_line(field_views(old(acc)@), s@.subrange(start as int, end as int)),
{
    let ghost line = s@.subrange(start as int, end as int);
    match first_eq(s, start, end) {
        None => {},
        Some(j) => {
            let key = copy_range(s, start, j);
            let value = copy_range(s, j + 1, end);
            assert(key@ =~= line.subrange(0, j - start));
            assert(value@ =~= line.subrange(j - start + 1, line.len() as int));
            insert_field(acc, key, value);
        },
    }
}

/// The fields of a response body, as `fields_of` says.
pub fn parse_fields(body: &[u8]) -> (r: Vec<Field>)
    ensures
        field_views(r@) == fields_of(body@),
{
    let mut acc: Vec<Field> = Vec::new();
    let mut start: usize = 0;
    let mut i: usize = 0;
    assert(field_views(acc@) =~= seq![]);
    while i < body.len()
        invariant
            start <= i <= body@.len(),
            fields_of(body@) == parse_from(body@, start as int, i as int, field_views(acc@)),
        decreases body@.len() - i,
    {
        if body[i] == 10 || body[i] == 13 {
            add_line_field(&mut acc, body, start, i);
            i = i + 1;
            start = i;
        } else {
            i = i + 1;
        }
    }
    add_line_field(&mut acc, body, start, body.len());
    acc
}

/// The value of key `k` among `fs`.
fn find_value(fs: &Vec<Field>, k: &[u8]) -> (r: Option<usize>)
    ensures
        match r {
            None => lookup(field_views(fs@), k@) is None,
            Some(j) => j < fs@.len() && lookup(field_views(fs@), k@) == Some(fs@[j as int].value@),
        },
{
    let ghost vs = field_views(fs@);
    let mut i: usize = 0;
    assert(vs.subrange(0, vs.len() as int) =~= vs);
    while i < fs.len()
        invariant
            i <= fs@.len(),
            vs == field_views(fs@),
            lookup(vs, k@) == lookup(vs.subrange(i as int, vs.len() as int), k@),
        decreases fs@.len() - i,
    {
        let ghost rest = vs.subrange(i as int, vs.len() as int);
        assert(rest[0] == vs[i as int]);
        assert(rest.drop_first() =~= vs.subrange(i + 1, vs.len() as int));
        if bytes_eq(fs[i].key.as_slice(), k) {
            return Some(i);
        }
        i = i + 1;
    }
    None
}

/// The string the fields sign, as `signed_text` says.
pub fn signed_string(fs: &Vec<Field>) -> (r: Vec<u8>)
    ensures
        r@ == signed_text(field_views(fs@)),
{
    let ghost vs = field_views(fs@);
    let h: Vec<u8> = vec![104u8];
    assert(h@ =~= key_h());
    let mut out: Vec<u8> = Vec::new();
    let mut i: usize = 0;
    assert(vs.subrange(0, 0) =~= seq![]);
    while i < fs.len()
        invariant
            i <= fs@.len(),
            vs == field_views(fs@),
            h@ == key_h(),
            out@ == signed_text(vs.subrange(0, i as int)),
        decreases fs@.len() - i,
    {
        let ghost prev = out@;
        assert(vs.subrange(0, i + 1).drop_last() =~= vs.subrange(0, i as int));
        if !bytes_eq(fs[i].key.as_slice(), h.as_slice()) {
            if out.len() > 0 {
                out.push(38);
            }
            push_all(&mut out, fs[i].key.as_slice());
            out.push(61);
            push_all(&mut out, fs[i].value.as_slice());
            proof {
                if prev.len() == 0 {
                    assert(out@ =~= pair(fs@[i as int].key@, fs@[i as int].value@));
                } else {
                    assert(out@ =~= amp(prev, pair(fs@[i as int].key@, fs@[i as int].value@)));
                }
            }
        }
        i = i + 1;
    }
    assert(vs.subrange(0, vs.len() as int) =~= vs);
    out
}


/// Whether the fields carry `status`, `otp`, `nonce` and `h`.
pub open spec fn has_required(es: Seq<(Seq<u8>, Seq<u8>)>) -> bool {
    &&& lookup(es, key_status()) is Some
    &&& lookup(es, key_otp()) is Some
    &&& lookup(es, key_nonce()) is Some
    &&& lookup(es, key_h()) is Some
}

/// Whether `h` decodes to a tag.
pub open spec fn tag_decodes(es: Seq<(Seq<u8>, Seq<u8>)>) -> bool {
    base64_decoded(lookup(es, key_h())->Some_0) is Some
}

/// Whether `h` is the signature of the other fields under `key`.
pub open spec fn tag_valid(key: Seq<u8>, es: Seq<(Seq<u8>, Seq<u8>)>) -> bool {
    signature_accepts(key, signed_text(es), base64_decoded(lookup(es, key_h())->Some_0)->Some_0)
}

/// The result that `verify_response` owes for a body: checks come in
/// order (required fields, signature, nonce echo, OTP echo) and only then
/// is `status` trusted.
pub open spec fn verdict(v: ResponseVerifier, body: Seq<u8>, r: Result<(), YubicoError>) -> bool {
    let es = fields_of(body);
    if !has_required(es) {
        r matches Err(YubicoError::InvalidResponse)
    } else if !tag_decodes(es) {
        r matches Err(YubicoError::SignatureMismatch)
    } else if base64_decoded(v.key@) is None {
        r matches Err(YubicoError::DecodeError(_))
    } else if !tag_valid(v.key@, es) {
        r matches Err(YubicoError::SignatureMismatch)
    } else if lookup(es, key_nonce()) != Some(v.nonce@) {
        r matches Err(YubicoError::NonceMismatch)
    } else if lookup(es, key_otp()) != Some(v.otp@) {
        r matches Err(YubicoError::OTPMismatch)
    } else {
        r == status_result(lookup(es, key_status())->Some_0)
    }
}

impl ResponseVerifier {
    /// Authenticates a response body and returns the verdict it carries.
    /// Checks come in order: required fields, signature, nonce echo, OTP
    /// echo; only then is `status` trusted.
    pub fn verify_response(&self, body: &[u8]) -> (r: Result<(), YubicoError>)
        ensures
            verdict(*self, body@, r),
    {
        let fs = parse_fields(body);
        let status_key: Vec<u8> = vec![115u8, 116u8, 97u8, 116u8, 117u8, 115u8];
        let otp_key: Vec<u8> = vec![111u8, 116u8, 112u8];
        let nonce_key: Vec<u8> = vec![110u8, 111u8, 110u8, 99u8, 101u8];
        let h_key: Vec<u8> = vec![104u8];
        assert(status_key@ =~= key_status());
        assert(otp_key@ =~= key_otp());
        assert(nonce_key@ =~= key_nonce());
        assert(h_key@ =~= key_h());
        let status = find_value(&fs, status_key.as_slice());
        let otp = find_value(&fs, otp_key.as_slice());
        let nonce = find_value(&fs, nonce_key.as_slice());
        let h = find_value(&fs, h_key.as_slice());
        let (status, otp, nonce, h) = match (status, otp, nonce, h) {
            (Some(s), Some(o), Some(n), Some(h)) => (s, o, n, h),
            _ => return Err(YubicoError::InvalidResponse),
        };
        let tag = match decode_base64(fs[h].value.as_slice()) {
            Ok(t) => t,
            Err(_) => return Err(YubicoError::SignatureMismatch),
        };
        let text = signed_string(&fs);
        verify_signature(self.key.as_slice(), text.as_slice(), tag.as_slice())?;
        if !bytes_eq(fs[nonce].value.as_slice(), self.nonce.as_slice()) {
            return Err(YubicoError::NonceMismatch);
        }
        if !bytes_eq(fs[otp].value.as_slice(), self.otp.as_slice()) {
            return Err(YubicoError::OTPMismatch);
        }
        status_outcome(fs[status].value.as_slice())
    }
}

/// The verdict of one host: a status code outside 200..=299 is reported as
/// such; otherwise the body is authenticated and read.
pub fn host_outcome(verifier: &ResponseVerifier, status_code: u16, body: &[u8]) -> (r: Result<(), YubicoError>)
    ensures
        !(200 <= status_code <= 299) ==> r == Err::<(), YubicoError>(YubicoError::HTTPStatusCode(status_code)),
        200 <= status_code <= 299 ==> verdict(*verifier, body@, r),
{
    if status_code < 200 || status_code > 299 {
        return Err(YubicoError::HTTPStatusCode(status_code));
    }
    verifier.verify_response(body)
}


/// Whether `status` is one of the values the protocol defines.
pub open spec fn known_status(status: Seq<u8>) -> bool {
    status == word_ok() || status == word_bad_otp() || status == word_replayed_otp() || status
        == word_bad_signature() || status == word_missing_parameter() || status
        == word_no_such_client() || status == word_operation_not_allowed() || status
        == word_backend_error() || status == word_not_enough_answers() || status
        == word_replayed_request()
}

/// Whether the body is signed by `v`'s secret and echoes its nonce and OTP.
pub open spec fn authentic(v: ResponseVerifier, body: Seq<u8>) -> bool {
    let es = fields_of(body);
    &&& has_required(es)
    &&& tag_decodes(es)
    &&& base64_decoded(v.key@) is Some
    &&& tag_valid(v.key@, es)
    &&& lookup(es, key_nonce()) == Some(v.nonce@)
    &&& lookup(es, key_otp()) == Some(v.otp@)
}

/// A correctly signed response whose nonce differs from the request's is
/// rejected as a nonce mismatch, whatever its status says.
pub proof fn lemma_nonce_mismatch_rejected(v: ResponseVerifier, body: Seq<u8>, r: Result<(), YubicoError>)
    requires
        verdict(v, body, r),
        has_required(fields_of(body)),
        tag_decodes(fields_of(body)),
        base64_decoded(v.key@) is Some,
        tag_valid(v.key@, fields_of(body)),
        lookup(fields_of(body), key_nonce()) != Some(v.nonce@),
    ensures
        r matches Err(YubicoError::NonceMismatch),
{
}

/// A correctly signed response with the request's nonce but another OTP is
/// rejected as an OTP mismatch, whatever its status says.
pub proof fn lemma_otp_mismatch_rejected(v: ResponseVerifier, body: Seq<u8>, r: Result<(), YubicoError>)
    requires
        verdict(v, body, r),
        has_required(fields_of(body)),
        tag_decodes(fields_of(body)),
        base64_decoded(v.key@) is Some,
        tag_valid(v.key@, fields_of(body)),
        lookup(fields_of(body), key_nonce()) == Some(v.nonce@),
        lookup(fields_of(body), key_otp()) != Some(v.otp@),
    ensures
        r matches Err(YubicoError::OTPMismatch),
{
}

/// An authentic response whose status the protocol does not define yields
/// `UnknownStatus`: neither success nor a parse failure.
pub proof fn lemma_unknown_status(v: ResponseVerifier, body: Seq<u8>, r: Result<(), YubicoError>)
    requires
        verdict(v, body, r),
        authentic(v, body),
        !known_status(lookup(fields_of(body), key_status())->Some_0),
    ensures
        r matches Err(YubicoError::UnknownStatus),
{
}

/// Only an authentic response with status `OK` is a success.
pub proof fn lemma_success_is_authentic(v: ResponseVerifier, body: Seq<u8>, r: Result<(), YubicoError>)
    requires
        verdict(v, body, r),
        r is Ok,
    ensures
        authentic(v, body),
        lookup(fields_of(body), key_status()) == Some(word_ok()),
{
}

/// An authentic response with status `OK` is a success.
pub proof fn lemma_authentic_ok_succeeds(v: ResponseVerifier, body: Seq<u8>, r: Result<(), YubicoError>)
    requires
        verdict(v, body, r),
        authentic(v, body),
        lookup(fields_of(body), key_status()) == Some(word_ok()),
    ensures
        r is Ok,
{
}

} // verus!
