//! Signed fixed-point arithmetic with three fractional decimal digits.
//!
//! A value `v` stands for the real number `v / 1000`. Multiplication of two
//! fixed-point values therefore divides the integer product by 1000, with
//! truncation toward zero (matching how a binary floating-point product would
//! round toward a nearby representable value, but exactly specified).

use vstd::prelude::*;

verus! {

/// One whole unit, in milli.
pub const FX_ONE: i64 = 1000;

/// Bound on every coordinate and factor stored in the document model and the
/// configuration (in milli): one billion milli, i.e. one million whole units.
pub const COORD_LIMIT: i64 = 1_000_000_000;

/// Bound on accumulated coordinate sums fed into `fx_mul`. Large enough for
/// any cumulative sum of `usize::MAX` in-bound deltas plus an in-bound offset
/// term, yet small enough that `ACC_LIMIT * COORD_LIMIT` fits in `i128`.
pub const ACC_LIMIT: i128 = 100_000_000_000_000_000_000_000_000_000;

/// Bound on every value the coordinate pipeline can emit and the size
/// tracker can hold: `ACC_LIMIT * COORD_LIMIT / 1000`.
pub const OBS_LIMIT: i128 = 100_000_000_000_000_000_000_000_000_000_000_000;

/// Truncating-toward-zero division of `p` by 1000, as an `int` function.
pub open spec fn div1000_trunc(p: int) -> int {
    if p >= 0 {
        p / 1000
    } else {
        -((-p) / 1000)
    }
}

/// Mathematical meaning of the fixed-point product.
pub open spec fn fx_mul_s(a: int, b: int) -> int {
    div1000_trunc(a * b)
}

/// The magnitude of a fixed-point product is at most the product of the
/// magnitudes divided by 1000.
pub proof fn lemma_fx_mul_s_abs(a: int, b: int, ma: int, mb: int)
    requires
        -ma <= a <= ma,
        -mb <= b <= mb,
        0 <= ma,
        0 <= mb,
    ensures
        -(ma * mb / 1000) <= fx_mul_s(a, b) <= ma * mb / 1000,
{
    lemma_abs_mul_bound(a, b, ma, mb);
    let p = a * b;
    let q = ma * mb;
    if p >= 0 {
        assert(p / 1000 <= q / 1000) by (nonlinear_arith)
            requires
                0 <= p <= q,
        ;
        assert(p / 1000 >= 0);
        assert(q / 1000 >= 0);
    } else {
        assert((-p) / 1000 <= q / 1000) by (nonlinear_arith)
            requires
                0 <= -p <= q,
        ;
        assert((-p) / 1000 >= 0);
    }
}

/// Fixed-point product: `a * b / 1000`, truncated toward zero.
///
/// `a` may be a large accumulated sum; `b` is a configuration factor or model
/// coordinate, so it is bounded by `COORD_LIMIT`.
pub fn fx_mul(a: i128, b: i128) -> (r: i128)
    requires
        -ACC_LIMIT <= a <= ACC_LIMIT,
        -(COORD_LIMIT as i128) <= b <= COORD_LIMIT as i128,
    ensures
        r == fx_mul_s(a as int, b as int),
        -ACC_LIMIT * (COORD_LIMIT as int) <= (a as int) * (b as int) <= ACC_LIMIT * (COORD_LIMIT as int),
{
    proof {
        lemma_abs_mul_bound(a as int, b as int, ACC_LIMIT as int, COORD_LIMIT as int);
    }
    let neg: bool = (a < 0) != (b < 0);
    let ma: u128 = if a < 0 { (-a) as u128 } else { a as u128 };
    let mb: u128 = if b < 0 { (-b) as u128 } else { b as u128 };
    proof {
        assert(ma * mb == if (a as int) * (b as int) >= 0 {
            (a as int) * (b as int)
        } else {
            -((a as int) * (b as int))
        }) by (nonlinear_arith)
            requires
                ma == if a < 0 { -(a as int) } else { a as int },
                mb == if b < 0 { -(b as int) } else { b as int },
        ;
    }
    let m: u128 = ma * mb / 1000;
    proof {
        let p = (a as int) * (b as int);
        let mm = (ma as int) * (mb as int);
        assert(mm / 1000 <= mm) by (nonlinear_arith)
            requires
                mm >= 0,
        ;
        if neg {
            assert(p <= 0) by (nonlinear_arith)
                requires
                    (a < 0) != (b < 0),
                    p == (a as int) * (b as int),
            ;
            assert(mm == -p);
            if p == 0 {
                assert(fx_mul_s(a as int, b as int) == 0);
            } else {
                assert(fx_mul_s(a as int, b as int) == -(mm / 1000));
            }
        } else {
            assert(p >= 0) by (nonlinear_arith)
                requires
                    (a < 0) == (b < 0),
                    p == (a as int) * (b as int),
            ;
            assert(mm == p);
            assert(fx_mul_s(a as int, b as int) == mm / 1000);
        }
    }
    if neg {
        -(m as i128)
    } else {
        m as i128
    }
}

/// Helper: magnitude bound on an integer product.
pub proof fn lemma_abs_mul_bound(a: int, b: int, ma: int, mb: int)
    requires
        -ma <= a <= ma,
        -mb <= b <= mb,
        0 <= ma,
        0 <= mb,
    ensures
        -(ma * mb) <= a * b <= ma * mb,
{
    assert(-(ma * mb) <= a * b <= ma * mb) by (nonlinear_arith)
        requires
            -ma <= a <= ma,
            -mb <= b <= mb,
            0 <= ma,
            0 <= mb,
    ;
}

} // verus!
