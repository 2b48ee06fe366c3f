//! Split ratios in fixed point.
//!
//! A ratio is a count of units of 2^-30. Sums and products are rounded to 24 significant bits, ties
//! to even, so a boundary moves exactly as a single-precision ratio would.

use vstd::prelude::*;

verus! {

/// One whole.
pub const ONE: u32 = 1_073_741_824;

/// One half, the ratio of a fresh split.
pub const HALF: u32 = 536_870_912;

/// The smallest share a resize leaves the first child: a tenth.
pub const RATIO_MIN: u32 = 107_374_184;

/// The largest share a resize gives the first child: nine tenths.
pub const RATIO_MAX: u32 = 966_367_616;

/// How close to a stop counts as being on it: a hundredth.
pub const SNAP_EPS: u32 = 10_737_418;

/// The step of a fine nudge: a twentieth.
pub const RESIZE_STEP: u32 = 53_687_092;

/// How many numbers `n` stands for once cut to 24 significant bits.
pub open spec fn grain(n: nat) -> nat
    decreases n,
{
    if n < 0x100_0000 {
        1
    } else {
        2 * grain(n / 2)
    }
}

/// `n` rounded to 24 significant bits, ties to even.
pub open spec fn round24(n: nat) -> nat {
    let g = grain(n);
    let q = n / g;
    let r = n % g;
    if 2 * r > g || (2 * r == g && q % 2 == 1) {
        (q + 1) * g
    } else {
        q * g
    }
}

proof fn grain_divides(n: nat)
    ensures
        1 <= grain(n),
        n >= 1 ==> grain(n) <= n,
        round24(n) <= 2 * n + 2,
    decreases n,
{
    if n >= 0x100_0000 {
        grain_divides(n / 2);
    }
    let g = grain(n);
    let q = n / g;
    let r = n % g;
    assert(q * g + r == n) by (nonlinear_arith)
        requires
            q == n / g,
            r == n % g,
            g >= 1,
    ;
    assert((q + 1) * g == q * g + g) by (nonlinear_arith);
}

/// [`round24`], computed.
pub fn round_to_24_bits(n: u64) -> (out: u64)
    requires
        n < 0x1000_0000_0000_0000,
    ensures
        out == round24(n as nat),
{
    let mut m: u64 = n;
    let mut g: u64 = 1;
    while m >= 0x100_0000
        invariant
            n < 0x1000_0000_0000_0000,
            g >= 1,
            g * m <= n,
            g * grain(m as nat) == grain(n as nat),
        decreases m,
    {
        assert(g * 2 * (m / 2) <= g * m && g * 0x100_0000 <= g * m) by (nonlinear_arith)
            requires
                m >= 0x100_0000,
        ;
        assert((g * 2) * grain(m as nat / 2) == g * (2 * grain(m as nat / 2)))
            by (nonlinear_arith);
        m = m / 2;
        g = g * 2;
    }
    assert(grain(n as nat) == g) by (nonlinear_arith)
        requires
            g * grain(m as nat) == grain(n as nat),
            grain(m as nat) == 1,
    ;
    let q: u64 = n / g;
    let r: u64 = n % g;
    proof {
        grain_divides(n as nat);
        assert(q * g <= n && r < g) by (nonlinear_arith)
            requires
                q == n / g,
                r == n % g,
                g >= 1,
        ;
        assert((q + 1) * g == q * g + g) by (nonlinear_arith);
    }
    if 2 * r > g || (2 * r == g && q % 2 == 1) {
        (q + 1) * g
    } else {
        q * g
    }
}

/// A ratio brought between the bounds a resize respects.
pub open spec fn bounded(r: nat) -> u32 {
    if r < RATIO_MIN {
        RATIO_MIN
    } else if r > RATIO_MAX {
        RATIO_MAX
    } else {
        r as u32
    }
}

/// `ratio` moved by `step`, up or down.
pub open spec fn nudged(ratio: u32, step: u32, grow: bool) -> nat {
    if grow {
        round24((ratio + step) as nat)
    } else if ratio < step {
        0
    } else {
        round24((ratio - step) as nat)
    }
}

/// The stops a snap lands on, ascending: quarters and thirds between the bounds.
pub open spec fn snap_stops() -> Seq<u32> {
    seq![107_374_184u32, 268_435_456, 357_913_952, 536_870_912, 715_827_904, 805_306_368, 966_367_616]
}

/// The first of `stops` above `limit`.
pub open spec fn first_above(stops: Seq<u32>, limit: nat) -> Option<u32>
    decreases stops.len(),
{
    if stops.len() == 0 {
        None
    } else if stops[0] > limit {
        Some(stops[0])
    } else {
        first_above(stops.drop_first(), limit)
    }
}

/// The last of `stops` below `limit`.
pub open spec fn last_below(stops: Seq<u32>, limit: nat) -> Option<u32>
    decreases stops.len(),
{
    if stops.len() == 0 {
        None
    } else if stops.last() < limit {
        Some(stops.last())
    } else {
        last_below(stops.drop_last(), limit)
    }
}

/// `ratio` moved to the next stop that is more than [`SNAP_EPS`] away, or left where it is when no
/// stop lies that way.
pub open spec fn snapped(ratio: u32, grow: bool) -> u32 {
    if grow {
        match first_above(snap_stops(), round24((ratio + SNAP_EPS) as nat)) {
            Some(s) => s,
            None => ratio,
        }
    } else if ratio < SNAP_EPS {
        ratio
    } else {
        match last_below(snap_stops(), round24((ratio - SNAP_EPS) as nat)) {
            Some(s) => s,
            None => ratio,
        }
    }
}

fn stops() -> (v: Vec<u32>)
    ensures
        v@ == snap_stops(),
{
    let v: Vec<u32> = vec![
        107_374_184, 268_435_456, 357_913_952, 536_870_912, 715_827_904, 805_306_368, 966_367_616,
    ];
    assert(v@ =~= snap_stops());
    v
}

/// Snap `ratio` to the next stop in the direction of the move: `grow` climbs to the next larger
/// stop, otherwise it drops to the next smaller one.
pub fn snap_ratio(ratio: u32, grow: bool) -> (out: u32)
    ensures
        out == snapped(ratio, grow),
{
    let v = stops();
    if grow {
        let limit: u64 = round_to_24_bits(ratio as u64 + SNAP_EPS as u64);
        let mut i: usize = 0;
        assert(v@.skip(0) =~= v@);
        while i < v.len()
            invariant
                i <= v@.len(),
                v@ == snap_stops(),
                grow,
                limit == round24((ratio + SNAP_EPS) as nat),
                first_above(v@, limit as nat) == first_above(v@.skip(i as int), limit as nat),
            decreases v@.len() - i,
        {
            assert(v@.skip(i as int).drop_first() =~= v@.skip(i + 1));
            if v[i] as u64 > limit {
                return v[i];
            }
            i = i + 1;
        }
        ratio
    } else {
        if ratio < SNAP_EPS {
            return ratio;
        }
        let limit: u64 = round_to_24_bits(ratio as u64 - SNAP_EPS as u64);
        let mut i: usize = v.len();
        assert(v@.take(v@.len() as int) =~= v@);
        while i > 0
            invariant
                i <= v@.len(),
                v@ == snap_stops(),
                !grow,
                ratio >= SNAP_EPS,
                limit == round24((ratio - SNAP_EPS) as nat),
                last_below(v@, limit as nat) == last_below(v@.take(i as int), limit as nat),
            decreases i,
        {
            assert(v@.take(i as int).drop_last() =~= v@.take(i - 1));
            if (v[i - 1] as u64) < limit {
                return v[i - 1];
            }
            i = i - 1;
        }
        ratio
    }
}

/// One way of moving a boundary.
#[derive(Clone, Copy, Debug, PartialEq, Eq, Structural)]
pub enum Adjust {
    /// By a step towards larger (`grow`) or smaller ratios.
    Nudge { step: u32, grow: bool },
    /// To the next stop.
    Snap { grow: bool },
}

/// Where an adjustment takes `ratio`, kept between the bounds.
pub open spec fn adjusted(ratio: u32, how: Adjust) -> u32 {
    match how {
        Adjust::Nudge { step, grow } => bounded(nudged(ratio, step, grow)),
        Adjust::Snap { grow } => bounded(snapped(ratio, grow) as nat),
    }
}

fn bound(r: u64) -> (out: u32)
    ensures
        out == bounded(r as nat),
{
    if r < RATIO_MIN as u64 {
        RATIO_MIN
    } else if r > RATIO_MAX as u64 {
        RATIO_MAX
    } else {
        r as u32
    }
}

/// Move `ratio` as `how` says.
pub fn adjust(ratio: u32, how: Adjust) -> (out: u32)
    ensures
        out == adjusted(ratio, how),
{
    match how {
        Adjust::Nudge { step, grow } => {
            if grow {
                bound(round_to_24_bits(ratio as u64 + step as u64))
            } else if ratio < step {
                bound(0)
            } else {
                bound(round_to_24_bits(ratio as u64 - step as u64))
            }
        },
        Adjust::Snap { grow } => bound(snap_ratio(ratio, grow) as u64),
    }
}

/// `total * ratio` rounded to the nearest whole number, ties away from zero.
pub open spec fn scaled(total: u16, ratio: u32) -> nat {
    (round24((total * ratio) as nat) + HALF as nat) / (ONE as nat)
}

/// The length a split gives its first child out of `total`: the scaled length, but at least one
/// cell, and leaving at least one to the second child where there is one to leave.
pub open spec fn first_len(total: u16, ratio: u32) -> u16 {
    let hi = if total <= 2 {
        1
    } else {
        total - 1
    };
    let n = scaled(total, ratio);
    if n < 1 {
        1
    } else if n > hi {
        hi as u16
    } else {
        n as u16
    }
}

/// [`first_len`], computed.
pub fn share(total: u16, ratio: u32) -> (n: u16)
    ensures
        n == first_len(total, ratio),
{
    assert(total * ratio <= 0xffff * 0xffff_ffff) by (nonlinear_arith)
        requires
            total <= 0xffff,
            ratio <= 0xffff_ffff,
    ;
    let exact: u64 = total as u64 * ratio as u64;
    let rounded: u64 = round_to_24_bits(exact);
    proof {
        grain_divides(exact as nat);
    }
    let n: u64 = (rounded + HALF as u64) / (ONE as u64);
    let hi: u16 = if total <= 2 {
        1
    } else {
        total - 1
    };
    if n < 1 {
        1
    } else if n > hi as u64 {
        hi
    } else {
        n as u16
    }
}

/// Whatever it starts from, a resize leaves the ratio between the bounds.
pub proof fn adjusting_stays_in_bounds(ratio: u32, how: Adjust)
    ensures
        RATIO_MIN <= adjusted(ratio, how) <= RATIO_MAX,
{
}

/// A snap that moves lands on a stop.
pub proof fn snapping_lands_on_a_stop(ratio: u32, grow: bool)
    requires
        snapped(ratio, grow) != ratio,
    ensures
        snap_stops().contains(snapped(ratio, grow)),
{
    if grow {
        first_above_is_a_stop(snap_stops(), round24((ratio + SNAP_EPS) as nat));
    } else {
        last_below_is_a_stop(snap_stops(), round24((ratio - SNAP_EPS) as nat));
    }
}

proof fn first_above_is_a_stop(stops: Seq<u32>, limit: nat)
    ensures
        first_above(stops, limit) is Some ==> stops.contains(first_above(stops, limit)->0)
            && first_above(stops, limit)->0 > limit,
    decreases stops.len(),
{
    if stops.len() > 0 {
        first_above_is_a_stop(stops.drop_first(), limit);
        if stops[0] <= limit && first_above(stops, limit) is Some {
            let s = first_above(stops, limit)->0;
            let k = choose|k: int| 0 <= k < stops.drop_first().len() && stops.drop_first()[k] == s;
            assert(stops[k + 1] == s);
        }
    }
}

proof fn last_below_is_a_stop(stops: Seq<u32>, limit: nat)
    ensures
        last_below(stops, limit) is Some ==> stops.contains(last_below(stops, limit)->0)
            && last_below(stops, limit)->0 < limit,
    decreases stops.len(),
{
    if stops.len() > 0 {
        last_below_is_a_stop(stops.drop_last(), limit);
        if stops.last() >= limit && last_below(stops, limit) is Some {
            let s = last_below(stops, limit)->0;
            let k = choose|k: int| 0 <= k < stops.drop_last().len() && stops.drop_last()[k] == s;
            assert(stops[k] == s);
        }
    }
}

} // verus!
