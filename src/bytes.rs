use vstd::prelude::*;

verus! {

/// A fresh vector holding the bytes of `s`.
pub fn copy_bytes(s: &[u8]) -> (r: Vec<u8>)
    ensures
        r@ == s@,
{
    let mut r: Vec<u8> = Vec::new();
    let mut i: usize = 0;
    while i < s.len()
        invariant
            i <= s@.len(),
            r@ == s@.subrange(0, i as int),
        decreases s@.len() - i,
    {
        r.push(s[i]);
        i = i + 1;
        assert(r@ =~= s@.subrange(0, i as int));
    }
    assert(r@ =~= s@);
    r
}

/// Appends the bytes of `s` to `out`.
pub fn push_all(out: &mut Vec<u8>, s: &[u8])
    ensures
        final(out)@ == old(out)@ + s@,
{
    let ghost start = out@;
    let mut i: usize = 0;
    while i < s.len()
        invariant
            i <= s@.len(),
            out@ == start + s@.subrange(0, i as int),
        decreases s@.len() - i,
    {
        out.push(s[i]);
        i = i + 1;
        assert(out@ =~= start + s@.subrange(0, i as int));
    }
    assert(s@.subrange(0, s@.len() as int) =~= s@);
}

/// Byte-exact equality, the way the protocol compares echoed values.
pub fn bytes_eq(a: &[u8], b: &[u8]) -> (r: bool)
    ensures
        r == (a@ == b@),
{
    if a.len() != b.len() {
        return false;
    }
    let mut i: usize = 0;
    while i < a.len()
        invariant
            a@.len() == b@.len(),
            i <= a@.len(),
            a@.subrange(0, i as int) == b@.subrange(0, i as int),
        decreases a@.len() - i,
    {
        if a[i] != b[i] {
            return false;
        }
        i = i + 1;
        assert(a@.subrange(0, i as int) =~= a@.subrange(0, i - 1 as int).push(a@[i - 1]));
        assert(b@.subrange(0, i as int) =~= b@.subrange(0, i - 1 as int).push(b@[i - 1]));
    }
    assert(a@ =~= a@.subrange(0, a@.len() as int));
    assert(b@ =~= b@.subrange(0, b@.len() as int));
    true
}

} // verus!
