//! Small arithmetic facts shared by the index computations of the crate.

use vstd::prelude::*;

verus! {

/// `e / d == k` exactly when `e` lies in the block `[k * d, k * d + d)`.
pub proof fn lemma_div_block(e: int, d: int, k: int)
    requires
        d > 0,
        e >= 0,
    ensures
        (e / d == k) <==> (k * d <= e < k * d + d),
{
    vstd::arithmetic::div_mod::lemma_fundamental_div_mod(e, d);
    let q = e / d;
    let r = e % d;
    assert(0 <= r < d);
    assert(e == q * d + r) by (nonlinear_arith)
        requires
            e == d * q + r,
    ;
    if k * d <= e < k * d + d {
        assert(q == k) by (nonlinear_arith)
            requires
                e == q * d + r,
                0 <= r < d,
                k * d <= e < k * d + d,
                d > 0,
        {
            if q < k {
                assert(q * d + d <= k * d);
            } else if q > k {
                assert(k * d + d <= q * d);
            }
        }
    }
}

/// The quotient and remainder of `q * d + r` for `0 <= r < d`.
pub proof fn lemma_div_mod_of_parts(q: int, d: int, r: int)
    requires
        d > 0,
        0 <= r < d,
    ensures
        (q * d + r) / d == q,
        (q * d + r) % d == r,
{
    vstd::arithmetic::div_mod::lemma_fundamental_div_mod_converse(q * d + r, d, q, r);
}

/// `a * d <= b * d` for `a <= b` and `d >= 0`.
pub proof fn lemma_mul_le(a: int, b: int, d: int)
    requires
        a <= b,
        d >= 0,
    ensures
        a * d <= b * d,
{
    assert(a * d <= b * d) by (nonlinear_arith)
        requires
            a <= b,
            d >= 0,
    ;
}

} // verus!
