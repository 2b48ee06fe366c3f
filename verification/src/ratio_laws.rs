//! What ratios come to: shares as near to them as whole cells allow, and moves the right way.

use vstd::prelude::*;
use vstd::arithmetic::power2::{lemma2_to64, lemma_pow2_pos, lemma_pow2_unfold, pow2};
use crate::ratio::{
    adjusted, first_above, first_len, grain, last_below, round24, scaled, snap_stops, Adjust, HALF,
    ONE, RATIO_MAX, RATIO_MIN, SNAP_EPS,
};

verus! {

// --- rounding ---

proof fn grain_is_fine(n: nat)
    ensures
        grain(n) >= 1,
        grain(n) == 1 || grain(n) * 0x80_0000 <= n,
    decreases n,
{
    if n >= 0x100_0000 {
        grain_is_fine(n / 2);
    }
}

/// Rounding moves a number by no more than one part in 2^24 of it.
proof fn rounding_is_close(n: nat)
    ensures
        -n <= 0x100_0000 * (round24(n) - n) <= n,
{
    grain_is_fine(n);
    let g = grain(n);
    let q = n / g;
    let r = n % g;
    assert(q * g + r == n && 0 <= r < g) by (nonlinear_arith)
        requires
            q == n / g,
            r == n % g,
            g >= 1,
    ;
    assert((q + 1) * g == q * g + g) by (nonlinear_arith);
    if g == 1 {
        assert(r == 0);
    }
}

proof fn grain_divides_powers(t: nat, e: nat) -> (d: nat)
    requires
        t < 0x100_0000,
    ensures
        d * grain(t * pow2(e)) == pow2(e),
        d >= 1,
    decreases e,
{
    lemma_pow2_pos(e);
    if t * pow2(e) < 0x100_0000 {
        assert(grain(t * pow2(e)) == 1);
        pow2(e)
    } else {
        if e == 0 {
            lemma2_to64();
            assert(t * pow2(e) == t) by (nonlinear_arith)
                requires
                    pow2(e) == 1,
            ;
            1
        } else {
            lemma_pow2_unfold(e);
            let m = pow2((e - 1) as nat);
            assert(t * (2 * m) == 2 * (t * m)) by (nonlinear_arith);
            let d = grain_divides_powers(t, (e - 1) as nat);
            let g = grain(t * m);
            assert(t * pow2(e) == 2 * (t * m));
            assert(grain(t * pow2(e)) == 2 * g);
            assert(d * (2 * g) == 2 * (d * g)) by (nonlinear_arith);
            d
        }
    }
}

/// A product of few bits is not rounded at all.
proof fn rounding_keeps(t: nat, e: nat)
    requires
        t < 0x100_0000,
    ensures
        round24(t * pow2(e)) == t * pow2(e),
{
    let d = grain_divides_powers(t, e);
    let n = t * pow2(e);
    let g = grain(n);
    grain_is_fine(n);
    assert(n == (t * d) * g) by (nonlinear_arith)
        requires
            n == t * pow2(e),
            d * g == pow2(e),
    ;
    let q = t * d;
    assert(n / g == q && n % g == 0) by (nonlinear_arith)
        requires
            n == q * g,
            g >= 1,
    ;
}

/// A fresh split gives its first part half the cells, and the odd one.
pub proof fn half_is_half(total: u16)
    requires
        total >= 1,
    ensures
        2 * first_len(total, HALF) == total || 2 * first_len(total, HALF) == total + 1,
        1 <= first_len(total, HALF) <= total,
{
    lemma2_to64();
    rounding_keeps(total as nat, 29);
    assert(pow2(29) == HALF);
    assert(total * HALF == (total as nat) * pow2(29));
    assert(scaled(total, HALF) == (total * 536_870_912 + 536_870_912) / 1_073_741_824);
}

/// A split gives its first part the share that its ratio says, to the nearest cell; only a part that
/// would get nothing, or everything, is given one cell, or one less.
pub proof fn shares_follow_the_ratio(total: u16, ratio: u32)
    requires
        total >= 2,
        ratio <= ONE,
    ensures
        1 <= first_len(total, ratio) <= total - 1,
        1 < first_len(total, ratio) < total - 1 ==> {
            let off = first_len(total, ratio) * ONE - total * ratio;
            -(HALF + 0x40_0000) <= off <= HALF + 0x40_0000
        },
{
    let n = (total * ratio) as nat;
    assert(0 <= total * ratio <= 0xffff * 1_073_741_824) by (nonlinear_arith)
        requires
            total <= 0xffff,
            ratio <= 1_073_741_824,
    ;
    rounding_is_close(n);
}

// --- moving a boundary ---

/// A nudge moves a boundary by its step, up to rounding, towards larger ratios or smaller ones as
/// asked, and stops at the bounds.
pub proof fn nudges_go_where_they_are_told(ratio: u32, step: u32, grow: bool)
    requires
        RATIO_MIN <= ratio <= RATIO_MAX,
        step <= ONE,
    ensures
        ({
            let out = adjusted(ratio, Adjust::Nudge { step, grow });
            &&& grow && ratio + step <= RATIO_MAX ==> -128 <= out - (ratio + step) <= 128
            &&& grow && ratio + step > RATIO_MAX + 128 ==> out == RATIO_MAX
            &&& !grow && ratio - step >= RATIO_MIN ==> -128 <= out - (ratio - step) <= 128
            &&& !grow && ratio - step < RATIO_MIN - 128 ==> out == RATIO_MIN
            &&& grow && step >= 256 ==> out == RATIO_MAX || (out > ratio && -128 <= out - (ratio
                + step) <= 128)
            &&& !grow && step >= 256 ==> out == RATIO_MIN || (out < ratio && -128 <= out - (ratio
                - step) <= 128)
        }),
{
    rounding_is_close((ratio + step) as nat);
    if ratio >= step {
        rounding_is_close((ratio - step) as nat);
    }
}

/// A snap that grows goes to the next stop above, one that shrinks to the next below: it goes past
/// none. A boundary within a hundredth of a stop counts as being on it.
pub proof fn snaps_go_to_the_next_stop(ratio: u32, grow: bool, k: int)
    requires
        RATIO_MIN <= ratio <= RATIO_MAX,
        0 <= k < snap_stops().len(),
    ensures
        ({
            let out = adjusted(ratio, Adjust::Snap { grow });
            let stop = snap_stops()[k];
            &&& grow ==> out >= ratio
            &&& !grow ==> out <= ratio
            &&& grow && stop > ratio + SNAP_EPS + 128 ==> ratio + SNAP_EPS - 128 < out <= stop
            &&& !grow && stop + SNAP_EPS + 128 < ratio ==> stop <= out < ratio - SNAP_EPS + 128
            &&& out == ratio || exists|j: int|
                0 <= j < snap_stops().len() && out == #[trigger] snap_stops()[j]
        }),
{
    let stops = snap_stops();
    rounding_is_close((ratio + SNAP_EPS) as nat);
    rounding_is_close((ratio - SNAP_EPS) as nat);
    reveal_with_fuel(first_above, 8);
    reveal_with_fuel(last_below, 8);
    assert(stops[0] == RATIO_MIN && stops[6] == RATIO_MAX);
}

/// The stops are a tenth, the quarters, the thirds, the half and nine tenths, in this order.
pub proof fn stops_are_even_shares()
    ensures
        ({
            let s = snap_stops();
            &&& s.len() == 7
            &&& -640 <= 10 * s[0] - ONE <= 640
            &&& 4 * s[1] == ONE
            &&& -192 <= 3 * s[2] - ONE <= 192
            &&& 2 * s[3] == ONE
            &&& -192 <= 3 * s[4] - 2 * ONE <= 192
            &&& 4 * s[5] == 3 * ONE
            &&& -640 <= 10 * s[6] - 9 * ONE <= 640
        }),
{
}

} // verus!
