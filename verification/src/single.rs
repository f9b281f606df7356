//! Counts and shares as single-precision numbers hold them: with 24 significant bits, rounded to
//! the nearest and halfway cases to even.

use vstd::prelude::*;

verus! {

/// The first count that does not fit into 24 bits.
pub const PRECISION: u128 = 0x100_0000;

/// The distance between the single-precision numbers around a count.
pub open spec fn spacing(n: nat) -> nat
    decreases n,
{
    if n < PRECISION {
        1
    } else {
        2 * spacing(n / 2)
    }
}

/// The single-precision number nearest to a count: a multiple of the spacing, and where two are
/// equally near the even one.
pub open spec fn single_of(n: nat) -> nat {
    let step = spacing(n);
    let below = n / step;
    let rest = n % step;
    if 2 * rest < step || (2 * rest == step && below % 2 == 0) {
        below * step
    } else {
        (below + 1) * step
    }
}

/// The single-precision quotient of two counts is below the single-precision number for 0.8.
///
/// That number is 13421773 / 2^24, and the one before it is 13421772 / 2^24. A quotient is
/// rounded to the latter or further down exactly where it is at most halfway between the two, at
/// 26843545 / 2^25: of the two neighbours, the lower one is even.
pub open spec fn share_below_80_percent(part: nat, whole: nat) -> bool {
    0x200_0000 * single_of(part) <= 26_843_545 * single_of(whole)
}

/// The single-precision number nearest to a count.
pub fn to_single(n: usize) -> (r: u128)
    ensures
        r == single_of(n as nat),
        r <= 2 * n,
{
    let n: u128 = n as u128;
    let mut step: u128 = 1;
    let mut top: u128 = n;
    while top >= PRECISION
        invariant
            n <= usize::MAX,
            step >= 1,
            step == 1 || step <= n,
            step * top <= n,
            spacing(n as nat) == step * spacing(top as nat),
        decreases top,
    {
        proof {
            let half = spacing((top / 2) as nat) as int;
            assert(step * (2 * half) == (2 * step) * half) by (nonlinear_arith);
            assert((2 * step) * (top / 2) <= step * top) by (nonlinear_arith)
                requires
                    2 * (top / 2) <= top,
            ;
            assert(2 * step <= step * top) by (nonlinear_arith)
                requires
                    top >= 2,
            ;
        }
        top = top / 2;
        step = step * 2;
    }
    let below: u128 = n / step;
    let rest: u128 = n % step;
    proof {
        assert(spacing(top as nat) == 1);
        assert(step * 1 == step);
        vstd::arithmetic::div_mod::lemma_fundamental_div_mod(n as int, step as int);
        assert(below * step == step * below) by (nonlinear_arith);
        assert((below + 1) * step == below * step + step) by (nonlinear_arith);
    }
    if 2 * rest < step || (2 * rest == step && below % 2 == 0) {
        below * step
    } else {
        (below + 1) * step
    }
}

/// Whether the single-precision quotient of two counts is below 0.8.
pub fn is_below_80_percent(part: usize, whole: usize) -> (r: bool)
    ensures
        r == share_below_80_percent(part as nat, whole as nat),
{
    0x200_0000 * to_single(part) <= 26_843_545 * to_single(whole)
}

/// Up to 11184810 rounding changes nothing: the quotient is below 0.8 exactly where the share is
/// below four fifths.
pub proof fn law_small_shares_are_exact(part: nat, whole: nat)
    requires
        part <= whole,
        0 < whole <= 11_184_810,
    ensures
        share_below_80_percent(part, whole) <==> 5 * part < 4 * whole,
{
    lemma_small_counts_are_exact(part);
    lemma_small_counts_are_exact(whole);
}

/// A count of at most 24 bits is a single-precision number itself.
proof fn lemma_small_counts_are_exact(n: nat)
    requires
        n < PRECISION,
    ensures
        single_of(n) == n,
{
    assert(spacing(n) == 1);
    assert(n / 1 == n && n % 1 == 0);
}

/// The single-precision number of a count is a multiple of the spacing, none is nearer to the count,
/// and of two that are equally near it is the even multiple.
pub proof fn law_single_is_the_nearest(n: nat)
    ensures
        spacing(n) >= 1,
        single_of(n) % spacing(n) == 0,
        2 * (single_of(n) - n) <= spacing(n),
        2 * (n - single_of(n)) <= spacing(n),
        2 * (single_of(n) - n) == spacing(n) || 2 * (n - single_of(n)) == spacing(n) ==> (
        single_of(n) / spacing(n)) % 2 == 0,
{
    law_spacing_leaves_24_bits(n);
    let step = spacing(n) as int;
    let below = n as int / step;
    vstd::arithmetic::div_mod::lemma_fundamental_div_mod(n as int, step);
    assert(step * below == below * step) by (nonlinear_arith);
    assert((below + 1) * step == below * step + step) by (nonlinear_arith);
    assert(below >= 0) by {
        vstd::arithmetic::div_mod::lemma_div_pos_is_pos(n as int, step);
    }
    vstd::arithmetic::div_mod::lemma_mod_multiples_basic(below, step);
    vstd::arithmetic::div_mod::lemma_mod_multiples_basic(below + 1, step);
    vstd::arithmetic::div_mod::lemma_div_by_multiple(below, step);
    vstd::arithmetic::div_mod::lemma_div_by_multiple(below + 1, step);
}

/// The spacing is a power of two. It is one up to 24 bits, and above that it leaves a count exactly
/// its 24 leading bits.
pub proof fn law_spacing_leaves_24_bits(n: nat)
    ensures
        spacing(n) >= 1,
        n < 0x100_0000 ==> spacing(n) == 1,
        n >= 0x100_0000 ==> 0x80_0000 * spacing(n) <= n < 0x100_0000 * spacing(n),
        exists|k: nat| spacing(n) == #[trigger] vstd::arithmetic::power2::pow2(k),
    decreases n,
{
    if n < PRECISION {
        vstd::arithmetic::power2::lemma2_to64();
        assert(spacing(n) == vstd::arithmetic::power2::pow2(0));
    } else {
        law_spacing_leaves_24_bits(n / 2);
        let k = choose|k: nat| spacing(n / 2) == #[trigger] vstd::arithmetic::power2::pow2(k);
        vstd::arithmetic::power2::lemma_pow2_unfold(k + 1);
        assert(spacing(n) == vstd::arithmetic::power2::pow2(k + 1));
    }
}

/// A share counts as below 80 percent exactly where the quotient of the rounded counts is no farther
/// from 13421772 / 2^24 than from 13421773 / 2^24, the single-precision numbers around 0.8.
pub proof fn law_threshold_is_halfway(part: nat, whole: nat)
    ensures
        share_below_80_percent(part, whole) <==> {
            let a = 0x100_0000 * single_of(part);
            let b = single_of(whole);
            a - 13_421_772 * b <= 13_421_773 * b - a
        },
{
}

} // verus!
