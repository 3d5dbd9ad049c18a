//! The one source of chance that the engine draws from.

use rand::Rng;
use vstd::prelude::*;

verus! {

/// `rand::Rng::random_range` on the thread's generator `rand::rng()`, with
/// the range `0..n`: some number below `n`. It panics on an empty range,
/// which `n > 0` rules out. Nothing else is known of the number drawn.
#[verifier::external_body]
pub(crate) fn random_below(n: u64) -> (r: u64)
    requires
        n > 0,
    ensures
        r < n,
{
    rand::rng().random_range(0..n)
}

/// Whether `c` is a letter, a digit, `_` or `-`.
pub open spec fn is_token_char(c: char) -> bool {
    48 <= c as int <= 57 || 65 <= c as int <= 90 || 97 <= c as int <= 122 || c == '_' || c == '-'
}

/// `nanoid::format` with the generator `nanoid::rngs::default`, the
/// alphabet `nanoid::alphabet::SAFE` and the size 10, which is what
/// `nanoid!(10)` stands for: ten characters, each a letter, a digit, `_`
/// or `-`. Nothing else is known of the token drawn.
#[verifier::external_body]
pub(crate) fn fresh_token() -> (r: String)
    ensures
        r@.len() == 10,
        forall|i: int| 0 <= i < 10 ==> is_token_char(#[trigger] r@[i]),
{
    nanoid::format(nanoid::rngs::default, &nanoid::alphabet::SAFE, 10)
}

/// `count` numbers, each below `n`.
pub fn draw_many(count: usize, n: u64) -> (r: Vec<u64>)
    requires
        n > 0,
    ensures
        r@.len() == count,
        forall|i: int| 0 <= i < count ==> r@[i] < n,
{
    let mut out: Vec<u64> = Vec::new();
    let mut i: usize = 0;
    while i < count
        invariant
            i <= count,
            n > 0,
            out@.len() == i,
            forall|k: int| 0 <= k < i ==> out@[k] < n,
        decreases count - i,
    {
        out.push(random_below(n));
        i += 1;
    }
    out
}

} // verus!
