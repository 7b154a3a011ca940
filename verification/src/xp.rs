//! XP / leveling engine: pure numeric functions mapping cumulative XP to a
//! level and to progress within that level, plus the reward formula for a
//! completed pick. Each level costs progressively more XP, on a
//! triangular-number scale.

use vstd::prelude::*;
use vstd::arithmetic::div_mod::{
    lemma_fundamental_div_mod, lemma_mod_division_less_than_divisor,
};
use crate::rng::rand_in_range;

verus! {

/// XP granted for naming a previously unnamed candidate.
pub const XP_INCREASE_FOR_NAME_DOG: u32 = 200;

/// Highest level whose completed-level threshold still fits in a `u32`.
pub const MAX_LEVEL: u32 = 2930;

/// Total XP needed to have completed `level`: `1000 * level * (level + 1) / 2`.
pub open spec fn spec_xp_threshold(level: nat) -> nat {
    1000 * level * (level + 1) / 2
}

/// The threshold in product form, without the division.
pub proof fn lemma_threshold_closed_form(level: nat)
    ensures
        spec_xp_threshold(level) == 500 * level * (level + 1),
{
    assert(1000 * level * (level + 1) == 2 * (500 * level * (level + 1))) by (nonlinear_arith);
    vstd::arithmetic::div_mod::lemma_div_multiples_vanish(
        500 * (level as int) * (level as int + 1),
        2,
    );
}

pub proof fn lemma_threshold_monotone(a: nat, b: nat)
    requires
        a <= b,
    ensures
        spec_xp_threshold(a) <= spec_xp_threshold(b),
{
    lemma_threshold_closed_form(a);
    lemma_threshold_closed_form(b);
    assert(500 * a * (a + 1) <= 500 * b * (b + 1)) by (nonlinear_arith)
        requires a <= b;
}

/// Floor of the square root.
pub closed spec fn spec_isqrt(n: nat) -> nat
    decreases n,
{
    if n == 0 {
        0
    } else {
        let r = spec_isqrt((n - 1) as nat);
        if (r + 1) * (r + 1) <= n {
            (r + 1) as nat
        } else {
            r
        }
    }
}

pub proof fn lemma_isqrt_bounds(n: nat)
    ensures
        spec_isqrt(n) * spec_isqrt(n) <= n,
        n < (spec_isqrt(n) + 1) * (spec_isqrt(n) + 1),
    decreases n,
{
    if n != 0 {
        lemma_isqrt_bounds((n - 1) as nat);
        let r = spec_isqrt((n - 1) as nat);
        if (r + 1) * (r + 1) <= n {
            assert(spec_isqrt(n) == r + 1);
            assert((r + 1) * (r + 1) < (r + 2) * (r + 2)) by (nonlinear_arith);
            assert(n < (r + 2) * (r + 2));
            assert(n < (spec_isqrt(n) + 1) * (spec_isqrt(n) + 1)) by (nonlinear_arith)
                requires
                    spec_isqrt(n) == r + 1,
                    n < (r + 2) * (r + 2),
            ;
        } else {
            assert(spec_isqrt(n) == r);
            assert(n < (spec_isqrt(n) + 1) * (spec_isqrt(n) + 1));
        }
    } else {
        assert(spec_isqrt(0nat) == 0);
        assert(n < (spec_isqrt(n) + 1) * (spec_isqrt(n) + 1)) by (nonlinear_arith)
            requires
                n == 0nat,
                spec_isqrt(n) == 0,
        ;
    }
}

pub proof fn lemma_isqrt_unique(n: nat, r: nat)
    requires
        r * r <= n,
        n < (r + 1) * (r + 1),
    ensures
        r == spec_isqrt(n),
{
    lemma_isqrt_bounds(n);
    let s = spec_isqrt(n);
    if r < s {
        assert((r + 1) * (r + 1) <= s * s) by (nonlinear_arith)
            requires r + 1 <= s;
    }
    if s < r {
        assert((s + 1) * (s + 1) <= r * r) by (nonlinear_arith)
            requires s + 1 <= r;
    }
}

/// Floor of the square root, by binary search on the result.
pub fn isqrt(n: u32) -> (r: u32)
    ensures
        r == spec_isqrt(n as nat),
{
    let mut lo: u32 = 0;
    let mut hi: u32 = 65536;
    while hi - lo > 1
        invariant
            lo < hi <= 65536,
            (lo as nat) * (lo as nat) <= n as nat,
            (n as nat) < (hi as nat) * (hi as nat),
        decreases hi - lo,
    {
        let mid = lo + (hi - lo) / 2;
        proof {
            assert((mid as int) * (mid as int) <= 65536 * 65536) by (nonlinear_arith)
                requires mid <= 65536;
        }
        if (mid as u64) * (mid as u64) <= n as u64 {
            lo = mid;
        } else {
            hi = mid;
        }
    }
    proof {
        lemma_isqrt_unique(n as nat, lo as nat);
    }
    lo
}

/// The level that a cumulative XP total `xp` has reached: the integer inverse
/// of the triangular threshold formula,
/// `floor((sqrt(1 + 8 * floor(xp / 1000)) - 1) / 2)`.
pub open spec fn spec_level(xp: u32) -> nat {
    ((spec_isqrt((1 + 8 * ((xp as nat) / 1000)) as nat) - 1) / 2) as nat
}

/// `spec_level(xp)` is the unique level whose threshold bracket contains `xp`.
pub proof fn lemma_level_bounds(xp: u32)
    ensures
        spec_xp_threshold(spec_level(xp)) <= xp,
        xp < spec_xp_threshold(spec_level(xp) + 1),
{
    let m = (xp as nat) / 1000;
    let v = (1 + 8 * m) as nat;
    lemma_isqrt_bounds(v);
    let r = spec_isqrt(v) as int;
    assert(r >= 1) by (nonlinear_arith)
        requires
            r >= 0,
            1 + 8 * m < (r + 1) * (r + 1),
    ;
    let l = (r - 1) / 2;
    lemma_fundamental_div_mod(r - 1, 2);
    lemma_mod_division_less_than_divisor(r - 1, 2);
    vstd::arithmetic::div_mod::lemma_div_pos_is_pos(r - 1, 2);
    assert(2 * l <= r - 1 <= 2 * l + 1);
    assert(spec_level(xp) == l);

    // Lower bound: (2l+1)^2 <= r^2 <= 8m+1, hence l(l+1) <= 2m.
    assert(l * (l + 1) <= 2 * m) by (nonlinear_arith)
        requires
            l >= 0,
            m >= 0,
            2 * l + 1 <= r,
            r * r <= 1 + 8 * m,
    ;
    lemma_threshold_closed_form(l as nat);
    assert(500 * l * (l + 1) <= 1000 * m) by (nonlinear_arith)
        requires l * (l + 1) <= 2 * m, l >= 0;
    lemma_fundamental_div_mod(xp as int, 1000);
    lemma_mod_division_less_than_divisor(xp as int, 1000);
    assert(1000 * m <= xp);
    assert(spec_xp_threshold(l as nat) <= xp);

    // Upper bound: 8m+1 < (r+1)^2 <= (2l+3)^2, hence 2m < (l+1)(l+2).
    assert(2 * m < (l + 1) * (l + 2)) by (nonlinear_arith)
        requires
            r + 1 <= 2 * l + 3,
            1 + 8 * m < (r + 1) * (r + 1),
            r >= 1,
    ;
    // (l+1)(l+2) is even, so 2m + 2 <= (l+1)(l+2).
    lemma_consecutive_product_even(l + 1);
    assert(2 * m + 2 <= (l + 1) * (l + 2)) by {
        let h = ((l + 1) * (l + 2)) / 2;
        assert(2 * m < 2 * h);
        assert(m + 1 <= h);
    }
    lemma_threshold_closed_form((l + 1) as nat);
    assert(1000 * m + 1000 <= 500 * (l + 1) * (l + 1 + 1)) by (nonlinear_arith)
        requires
            2 * m + 2 <= (l + 1) * (l + 2),
            l >= 0,
    ;
    assert((xp as int) < 1000 * m + 1000);
    assert(xp < spec_xp_threshold((l + 1) as nat));
}

/// The product of two consecutive integers is even.
proof fn lemma_consecutive_product_even(k: int)
    requires
        k >= 0,
    ensures
        k * (k + 1) == 2 * ((k * (k + 1)) / 2),
{
    lemma_fundamental_div_mod(k, 2);
    lemma_mod_division_less_than_divisor(k, 2);
    let q = k / 2;
    if k % 2 == 0 {
        assert(k * (k + 1) == 2 * (q * (k + 1))) by (nonlinear_arith)
            requires k == 2 * q;
        vstd::arithmetic::div_mod::lemma_div_multiples_vanish(q * (k + 1), 2);
    } else {
        assert(k * (k + 1) == 2 * (k * (q + 1))) by (nonlinear_arith)
            requires k + 1 == 2 * (q + 1);
        vstd::arithmetic::div_mod::lemma_div_multiples_vanish(k * (q + 1), 2);
    }
}

/// A bracketing level is unique.
pub proof fn lemma_level_unique(xp: u32, l: nat)
    requires
        spec_xp_threshold(l) <= xp,
        xp < spec_xp_threshold(l + 1),
    ensures
        l == spec_level(xp),
{
    lemma_level_bounds(xp);
    let s = spec_level(xp);
    if l < s {
        lemma_threshold_monotone(l + 1, s);
    }
    if s < l {
        lemma_threshold_monotone(s + 1, l);
    }
}

/// Any `u32` XP total is below the threshold of level `MAX_LEVEL + 1`, so its
/// level is at most `MAX_LEVEL`.
pub proof fn lemma_level_fits(xp: u32)
    ensures
        spec_level(xp) <= MAX_LEVEL,
{
    lemma_level_bounds(xp);
    if spec_level(xp) > MAX_LEVEL {
        lemma_threshold_monotone(2931, spec_level(xp));
        lemma_threshold_closed_form(2931);
    }
}

/// Total XP needed to have completed `level`.
pub fn get_xp_threshold(level: u32) -> (t: u32)
    requires
        level <= MAX_LEVEL,
    ensures
        t == spec_xp_threshold(level as nat),
{
    proof {
        lemma_threshold_closed_form(level as nat);
        assert(500 * (level as int) * (level as int + 1) <= 500 * 2930 * 2931) by (nonlinear_arith)
            requires level <= 2930;
    }
    let l = level as u64;
    let t: u64 = 1000 * l * (l + 1) / 2;
    proof {
        assert(1000 * (l as int) * (l as int + 1) == 2 * (500 * (l as int) * (l as int + 1)))
            by (nonlinear_arith);
        vstd::arithmetic::div_mod::lemma_div_multiples_vanish(
            500 * (l as int) * (l as int + 1),
            2,
        );
    }
    t as u32
}

/// The level reached by a cumulative XP total.
pub fn get_level(xp: u32) -> (level: u32)
    ensures
        level == spec_level(xp),
        level <= MAX_LEVEL,
        spec_xp_threshold(level as nat) <= xp,
        xp < spec_xp_threshold(level as nat + 1),
{
    let m = xp / 1000;
    let v = 1 + 8 * m;
    let r = isqrt(v);
    proof {
        lemma_isqrt_bounds(v as nat);
        assert(r >= 1) by (nonlinear_arith)
            requires
                r >= 0,
                v >= 1,
                (v as int) < (r as int + 1) * (r as int + 1),
        ;
        lemma_level_bounds(xp);
        lemma_level_fits(xp);
    }
    (r - 1) / 2
}

/// Progress within the current level: XP beyond the last completed threshold.
pub fn get_xp_remainder(xp: u32) -> (r: u32)
    ensures
        r == xp - spec_xp_threshold(spec_level(xp)),
{
    let level = get_level(xp);
    let last_threshold = get_xp_threshold(level);
    xp - last_threshold
}

/// The absolute XP count at which the next level is reached, as used for the
/// progress-bar denominator: `(level + 1) * 1000`.
pub fn get_next_xp_target(xp: u32) -> (t: u32)
    ensures
        t == 1000 * (spec_level(xp) + 1),
{
    let level = get_level(xp);
    (level + 1) * 1000
}

/// Level and XP round-trip: the level of the threshold of level `L` is `L`
/// itself, and the within-level remainder at a threshold is zero.
pub proof fn lemma_level_xp_roundtrip(level: u32)
    requires
        level <= MAX_LEVEL,
    ensures
        spec_xp_threshold(level as nat) <= u32::MAX,
        spec_level(spec_xp_threshold(level as nat) as u32) == level,
        spec_xp_threshold(level as nat) as u32 - spec_xp_threshold(
            spec_level(spec_xp_threshold(level as nat) as u32),
        ) == 0,
{
    lemma_threshold_monotone(level as nat, 2930);
    lemma_threshold_closed_form(2930);
    let t = spec_xp_threshold(level as nat);
    lemma_threshold_closed_form(level as nat);
    lemma_threshold_closed_form(level as nat + 1);
    assert(500 * (level as int) * (level as int + 1) < 500 * (level as int + 1) * (level as int
        + 1 + 1)) by (nonlinear_arith)
        requires level >= 0;
    lemma_level_unique(t as u32, level as nat);
}

/// Deliberation time clamped to the rewardable window of zero to five seconds.
pub open spec fn spec_clamp_seconds(seconds: u32) -> u32 {
    if seconds > 5 {
        5
    } else {
        seconds
    }
}

/// XP reward for a completed pick. Deliberation time is clamped to `[0, 5]`
/// seconds; under two seconds the reward is a flat 1 (discouraging instant
/// clicking), otherwise it is drawn uniformly from `[6 * t, 14 * t]`.
pub fn get_xp_increase_from_pick(seconds_deliberated: u32) -> (xp: u32)
    ensures
        spec_clamp_seconds(seconds_deliberated) < 2 ==> xp == 1,
        spec_clamp_seconds(seconds_deliberated) >= 2 ==> 6 * spec_clamp_seconds(
            seconds_deliberated,
        ) <= xp <= 14 * spec_clamp_seconds(seconds_deliberated),
{
    let seconds = if seconds_deliberated > 5 {
        5
    } else {
        seconds_deliberated
    };
    if seconds < 2 {
        1
    } else {
        let lower_bound = seconds * 6;
        let upper_bound = seconds * 14;
        rand_in_range(lower_bound as u64, upper_bound as u64) as u32
    }
}

} // verus!
