use vstd::prelude::*;
use vstd::arithmetic::div_mod::lemma_fundamental_div_mod_converse;

verus! {

/// Remainder of `value` by `modulo` that is never negative, as an index.
///
/// Mathematical `%` on `int` is already the Euclidean remainder, which is what
/// this function computes with machine integers.
pub fn positive_mod(value: i32, modulo: i32) -> (r: usize)
    requires
        modulo > 0,
    ensures
        r as int == value as int % modulo as int,
        0 <= r < modulo,
{
    let result: i32 = match value.checked_rem(modulo) {
        Some(rem) => rem,
        None => 0,
    };
    proof {
        let x = value as int;
        let d = modulo as int;
        if x >= 0 {
            vstd::arithmetic::div_mod::lemma_fundamental_div_mod(x, d);
            assert(result as int == x % d);
        } else {
            let r = (x * -1) % d;
            let q = (x * -1) / d;
            vstd::arithmetic::div_mod::lemma_fundamental_div_mod(x * -1, d);
            assert(result as int == r * -1);
            if r == 0 {
                assert(x == (q * -1) * d) by (nonlinear_arith)
                    requires x * -1 == d * q + r, r == 0;
                lemma_fundamental_div_mod_converse(x, d, q * -1, 0);
            } else {
                assert(x == (q * -1 - 1) * d + (d - r)) by (nonlinear_arith)
                    requires x * -1 == d * q + r;
                lemma_fundamental_div_mod_converse(x, d, q * -1 - 1, d - r);
            }
        }
    }
    if result < 0 {
        (result + modulo) as usize
    } else {
        result as usize
    }
}

} // verus!
