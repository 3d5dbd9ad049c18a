//! Comparison of access tokens.

use vstd::prelude::*;

verus! {

/// Whether a configured token switches authentication on: an absent or
/// empty token does not.
pub fn is_auth_enabled(token: Option<&str>) -> (r: bool)
    ensures
        r == (token is Some && token->Some_0@.len() > 0),
{
    match token {
        Some(t) => t.unicode_len() > 0,
        None => false,
    }
}

/// Whether two byte strings are equal; strings of the same length are
/// compared in full, whatever they hold.
pub fn constant_time_eq(a: &[u8], b: &[u8]) -> (r: bool)
    ensures
        r == (a@ == b@),
{
    if a.len() != b.len() {
        return false;
    }
    let mut result: u8 = 0;
    let mut i: usize = 0;
    assert(a@.subrange(0, 0) =~= b@.subrange(0, 0));
    while i < a.len()
        invariant
            i <= a.len(),
            a.len() == b.len(),
            (result == 0) == (a@.subrange(0, i as int) == b@.subrange(0, i as int)),
        decreases a.len() - i,
    {
        let x = a[i];
        let y = b[i];
        let ghost before = result;
        result = result | (x ^ y);
        proof {
            assert((before | (x ^ y)) == 0 <==> (before == 0 && x == y)) by (bit_vector);
            let pa = a@.subrange(0, i as int);
            let pb = b@.subrange(0, i as int);
            let na = a@.subrange(0, i + 1);
            let nb = b@.subrange(0, i + 1);
            assert(na == pa.push(x));
            assert(nb == pb.push(y));
            if na == nb {
                assert(na.drop_last() == pa);
                assert(nb.drop_last() == pb);
                assert(na.last() == x && nb.last() == y);
            }
        }
        i += 1;
    }
    assert(a@.subrange(0, i as int) == a@);
    assert(b@.subrange(0, i as int) == b@);
    result == 0
}

} // verus!
