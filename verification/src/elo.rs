//! Elo rating engine. Ratings live on two independent tracks (the global
//! "overall" track and a per-viewer "personal" track); a decided match moves
//! both contestants' ratings toward the observed result, by at most the
//! K-factor of each, and never below the floor of 100.
//!
//! The expected score `1 / (1 + 10^((R_other - R_self) / 400))` is computed
//! in Q32 fixed-point integer arithmetic, in thousandths, by binary
//! exponentiation over precomputed powers of `10^(1/400)`.

use vstd::prelude::*;
use vstd::arithmetic::div_mod::{
    lemma_div_is_ordered, lemma_div_multiples_vanish, lemma_multiply_divide_lt,
};

verus! {

/// The two rating tracks of a match decision.
#[derive(Clone, Copy, Debug, PartialEq, Eq, Structural)]
pub enum RatingType {
    Overall,
    Personal,
}

impl RatingType {
    /// The track's path segment, as it appears in leaderboard URLs.
    pub fn as_slug(&self) -> (s: &'static str)
        ensures
            *self is Overall ==> s@ == "overall"@,
            *self is Personal ==> s@ == "personal"@,
    {
        match self {
            RatingType::Overall => "overall",
            RatingType::Personal => "personal",
        }
    }

    /// The track's capitalized display label.
    pub fn label(&self) -> (s: &'static str)
        ensures
            *self is Overall ==> s@ == "Overall"@,
            *self is Personal ==> s@ == "Personal"@,
    {
        match self {
            RatingType::Overall => "Overall",
            RatingType::Personal => "Personal",
        }
    }
}

/// How a decided match came out, seen from candidate A's side.
#[derive(Clone, Copy, Debug, PartialEq, Eq, Structural)]
pub enum MatchOutcome {
    AWins,
    BWins,
    Tie,
}

/// The K-factor schedule: 128 below 5 prior matches, 64 below 10, then 32.
pub open spec fn spec_max_rating_change(num_matches: u32) -> u8 {
    if num_matches < 5 {
        128
    } else if num_matches < 10 {
        64
    } else {
        32
    }
}

/// Maximum Elo rating change for a candidate with `num_matches` prior decided
/// matches: new candidates move fast, established ones stabilize.
pub fn get_max_rating_change(num_matches: u32) -> (k: u8)
    ensures
        k == spec_max_rating_change(num_matches),
{
    if num_matches < 5 {
        128
    } else if num_matches < 10 {
        64
    } else {
        32
    }
}

/// The K-factor schedule is non-increasing, with exactly two step-downs: one
/// at 5 prior matches and one at 10.
pub proof fn lemma_k_factor_schedule(n: u32, m: u32)
    ensures
        n <= m ==> spec_max_rating_change(m) <= spec_max_rating_change(n),
        n < 5 ==> spec_max_rating_change(n) == 128,
        5 <= n < 10 ==> spec_max_rating_change(n) == 64,
        10 <= n ==> spec_max_rating_change(n) == 32,
        n < u32::MAX && n + 1 != 5 && n + 1 != 10 ==> spec_max_rating_change((n + 1) as u32)
            == spec_max_rating_change(n),
        n + 1 == 5 || n + 1 == 10 ==> spec_max_rating_change((n + 1) as u32)
            < spec_max_rating_change(n),
{
}

/// One, in Q32 fixed point.
pub const FP_ONE: u64 = 4294967296;

/// Saturation cap of the fixed-point power: well above `10^4` in Q32, the
/// value at the largest modeled rating gap.
pub const FP_MAX: u64 = 214748364800000;

/// Rating gaps are clamped here; beyond it the expected score is within one
/// thousandth of certainty anyway.
pub const GAP_CAP: u16 = 1600;

/// One saturating Q32 multiply-accumulate step.
pub closed spec fn spec_gain_step(acc: int, c: int) -> int {
    let v = (acc * c) / (FP_ONE as int);
    if v > FP_MAX as int {
        FP_MAX as int
    } else {
        v
    }
}

/// `10^(min(d, GAP_CAP) / 400)` in Q32 fixed point, by binary exponentiation:
/// the product of `10^(2^i / 400)` over the set bits of the clamped gap.
pub closed spec fn spec_pow_gain(d: u16) -> int {
    let dc = if d > GAP_CAP {
        GAP_CAP
    } else {
        d
    };
    let a0 = FP_ONE as int;
    let a1 = if dc & 1 != 0 {
        spec_gain_step(a0, 4319762413)
    } else {
        a0
    };
    let a2 = if dc & 2 != 0 {
        spec_gain_step(a1, 4344700673)
    } else {
        a1
    };
    let a3 = if dc & 4 != 0 {
        spec_gain_step(a2, 4395009936)
    } else {
        a2
    };
    let a4 = if dc & 8 != 0 {
        spec_gain_step(a3, 4497382869)
    } else {
        a3
    };
    let a5 = if dc & 16 != 0 {
        spec_gain_step(a4, 4709337993)
    } else {
        a4
    };
    let a6 = if dc & 32 != 0 {
        spec_gain_step(a5, 5163686428)
    } else {
        a5
    };
    let a7 = if dc & 64 != 0 {
        spec_gain_step(a6, 6208116544)
    } else {
        a6
    };
    let a8 = if dc & 128 != 0 {
        spec_gain_step(a7, 8973458554)
    } else {
        a7
    };
    let a9 = if dc & 256 != 0 {
        spec_gain_step(a8, 18748212237)
    } else {
        a8
    };
    let a10 = if dc & 512 != 0 {
        spec_gain_step(a9, 81838914675)
    } else {
        a9
    };
    if dc & 1024 != 0 {
        spec_gain_step(a10, 1559408371133)
    } else {
        a10
    }
}

proof fn lemma_gain_step_bounds(acc: int, c: int)
    requires
        FP_ONE <= acc <= FP_MAX,
        FP_ONE <= c <= 1559408371133,
    ensures
        FP_ONE <= spec_gain_step(acc, c) <= FP_MAX,
{
    assert((FP_ONE as int) * (FP_ONE as int) <= acc * c) by (nonlinear_arith)
        requires
            FP_ONE <= acc,
            FP_ONE <= c,
    ;
    lemma_div_is_ordered((FP_ONE as int) * (FP_ONE as int), acc * c, FP_ONE as int);
    lemma_div_multiples_vanish(FP_ONE as int, FP_ONE as int);
}

/// One saturating Q32 multiply-accumulate step.
fn gain_step(acc: u64, c: u64) -> (r: u64)
    requires
        FP_ONE <= acc <= FP_MAX,
        FP_ONE <= c <= 1559408371133,
    ensures
        r == spec_gain_step(acc as int, c as int),
        FP_ONE <= r <= FP_MAX,
{
    proof {
        lemma_gain_step_bounds(acc as int, c as int);
        assert((acc as int) * (c as int) <= (214748364800000 as int) * (1559408371133 as int)) by (nonlinear_arith)
            requires
                acc <= 214748364800000,
                c <= 1559408371133,
                acc >= 0,
                c >= 0,
        ;
        lemma_div_is_ordered(
            (acc as int) * (c as int),
            (214748364800000 as int) * (1559408371133 as int),
            FP_ONE as int,
        );
    }
    let wide: u128 = (acc as u128) * (c as u128);
    let shifted: u128 = wide / (FP_ONE as u128);
    if shifted > FP_MAX as u128 {
        FP_MAX
    } else {
        shifted as u64
    }
}

/// `10^(min(d, GAP_CAP) / 400)` in Q32 fixed point.
fn pow_gain(d: u16) -> (p: u64)
    ensures
        p == spec_pow_gain(d),
        FP_ONE <= p <= FP_MAX,
        d == 0 ==> p == FP_ONE,
{
    let dc: u16 = if d > GAP_CAP {
        GAP_CAP
    } else {
        d
    };
    let mut acc: u64 = FP_ONE;
    if dc & 1 != 0 {
        acc = gain_step(acc, 4319762413);
    }
    if dc & 2 != 0 {
        acc = gain_step(acc, 4344700673);
    }
    if dc & 4 != 0 {
        acc = gain_step(acc, 4395009936);
    }
    if dc & 8 != 0 {
        acc = gain_step(acc, 4497382869);
    }
    if dc & 16 != 0 {
        acc = gain_step(acc, 4709337993);
    }
    if dc & 32 != 0 {
        acc = gain_step(acc, 5163686428);
    }
    if dc & 64 != 0 {
        acc = gain_step(acc, 6208116544);
    }
    if dc & 128 != 0 {
        acc = gain_step(acc, 8973458554);
    }
    if dc & 256 != 0 {
        acc = gain_step(acc, 18748212237);
    }
    if dc & 512 != 0 {
        acc = gain_step(acc, 81838914675);
    }
    if dc & 1024 != 0 {
        acc = gain_step(acc, 1559408371133);
    }
    proof {
        if d == 0 {
            assert(dc & 1 == 0 && dc & 2 == 0 && dc & 4 == 0 && dc & 8 == 0 && dc & 16 == 0
                && dc & 32 == 0 && dc & 64 == 0 && dc & 128 == 0 && dc & 256 == 0 && dc & 512 == 0
                && dc & 1024 == 0) by (bit_vector)
                requires dc == 0u16;
        }
    }
    acc
}

/// Expected score of the `r_self` side against the `r_other` side, in
/// thousandths: the Elo logistic `1 / (1 + 10^((r_other - r_self) / 400))`.
pub closed spec fn spec_expected_score_millis(r_self: u16, r_other: u16) -> int {
    if r_self >= r_other {
        let p = spec_pow_gain((r_self - r_other) as u16);
        (1000 * p) / (FP_ONE as int + p)
    } else {
        let p = spec_pow_gain((r_other - r_self) as u16);
        1000 - (1000 * p) / (FP_ONE as int + p)
    }
}

proof fn lemma_expected_half(p: int)
    requires
        FP_ONE <= p <= FP_MAX,
    ensures
        500 <= (1000 * p) / (FP_ONE as int + p) <= 999,
        p == FP_ONE ==> (1000 * p) / (FP_ONE as int + p) == 500,
{
    let den = FP_ONE as int + p;
    assert(500 * den <= 1000 * p);
    lemma_div_is_ordered(500 * den, 1000 * p, den);
    lemma_div_multiples_vanish(500, den);
    assert((1000 * p) < den * 1000);
    lemma_multiply_divide_lt(1000 * p, den, 1000);
    if p == FP_ONE {
        assert(1000 * p == den * 500);
        lemma_div_multiples_vanish(500, den);
    }
}

/// Expected score in thousandths. It is exactly one half for equal ratings,
/// at least one half for the higher-rated side, and complements to one for
/// the two sides of a match.
pub fn expected_score_millis(r_self: u16, r_other: u16) -> (e: u32)
    ensures
        e == spec_expected_score_millis(r_self, r_other),
        1 <= e <= 999,
        r_self == r_other ==> e == 500,
        r_self > r_other ==> e >= 500,
        r_self < r_other ==> e <= 500,
{
    if r_self >= r_other {
        let p = pow_gain(r_self - r_other);
        proof {
            lemma_expected_half(p as int);
        }
        let num: u128 = 1000 * (p as u128);
        let den: u128 = (FP_ONE as u128) + (p as u128);
        (num / den) as u32
    } else {
        let p = pow_gain(r_other - r_self);
        proof {
            lemma_expected_half(p as int);
        }
        let num: u128 = 1000 * (p as u128);
        let den: u128 = (FP_ONE as u128) + (p as u128);
        1000 - (num / den) as u32
    }
}

/// The post-match rating: the current rating moved by the K-scaled gap
/// between actual and expected score (both in thousandths, rounded to the
/// nearest point), clamped to the representable range and floored at 100.
pub open spec fn spec_new_rating(current: u16, k: u8, score_millis: u32, e_millis: int) -> int {
    let delta_scaled = k * (score_millis - e_millis);
    let delta = if delta_scaled >= 0 {
        (delta_scaled + 500) / 1000
    } else {
        -((500 - delta_scaled) / 1000)
    };
    let moved = current + delta;
    let capped = if moved > 65535 {
        65535int
    } else {
        moved
    };
    if capped < 100 {
        100int
    } else {
        capped
    }
}

/// Applies one side's rating change. The result stays within the side's own
/// K-factor of the current rating, never drops below the floor of 100, and
/// moves weakly toward the actual score: no gain when the expected score
/// already met the actual one, and no loss in the opposite case.
pub fn new_rating(current: u16, k: u8, score_millis: u32, e_millis: u32) -> (r: u16)
    requires
        100 <= current,
        score_millis == 0 || score_millis == 500 || score_millis == 1000,
        1 <= e_millis <= 999,
    ensures
        r == spec_new_rating(current, k, score_millis, e_millis as int),
        100 <= r,
        current - k <= r <= current + k,
        score_millis >= e_millis ==> r >= current,
        score_millis <= e_millis ==> r <= current,
        score_millis == 500 && e_millis == 500 ==> r == current,
{
    if score_millis >= e_millis {
        proof {
            assert((k as int) * ((score_millis - e_millis) as int) <= 255 * 1000)
                by (nonlinear_arith)
                requires k <= 255, score_millis - e_millis <= 1000, k >= 0,
                    score_millis - e_millis >= 0;
        }
        let scaled: u64 = (k as u64) * ((score_millis - e_millis) as u64);
        let delta: u64 = (scaled + 500) / 1000;
        proof {
            assert((k as int) * ((score_millis as int) - (e_millis as int)) == scaled)
                by (nonlinear_arith)
                requires
                    scaled == (k as int) * ((score_millis - e_millis) as int),
                    score_millis >= e_millis,
            ;
            assert(scaled + 500 <= 1000 * (k as int) + 500) by (nonlinear_arith)
                requires scaled == (k as int) * ((score_millis - e_millis) as int), k >= 0,
                    score_millis - e_millis <= 1000;
            lemma_div_is_ordered(scaled as int + 500, 1000 * (k as int) + 500, 1000);
            lemma_div_plus_500(k as int);
            vstd::arithmetic::div_mod::lemma_div_pos_is_pos(scaled as int + 500, 1000);
            if score_millis == e_millis {
                assert(scaled == 0) by (nonlinear_arith)
                    requires
                        scaled == (k as int) * ((score_millis - e_millis) as int),
                        score_millis == e_millis,
                ;
                vstd::arithmetic::div_mod::lemma_basic_div(500, 1000);
            }
        }
        let moved: u64 = (current as u64) + delta;
        let capped: u64 = if moved > 65535 {
            65535
        } else {
            moved
        };
        capped as u16
    } else {
        proof {
            assert((k as int) * ((e_millis - score_millis) as int) <= 255 * 1000)
                by (nonlinear_arith)
                requires k <= 255, e_millis - score_millis <= 1000, k >= 0,
                    e_millis - score_millis >= 0;
        }
        let scaled: u64 = (k as u64) * ((e_millis - score_millis) as u64);
        let delta: u64 = (scaled + 500) / 1000;
        proof {
            assert((k as int) * ((score_millis as int) - (e_millis as int)) == -(scaled as int)
                && (k as int) * ((score_millis as int) - (e_millis as int)) <= 0)
                by (nonlinear_arith)
                requires
                    scaled == (k as int) * ((e_millis - score_millis) as int),
                    score_millis <= e_millis,
                    k >= 0,
            ;
            assert(scaled + 500 <= 1000 * (k as int) + 500) by (nonlinear_arith)
                requires scaled == (k as int) * ((e_millis - score_millis) as int), k >= 0,
                    e_millis - score_millis <= 1000;
            lemma_div_is_ordered(scaled as int + 500, 1000 * (k as int) + 500, 1000);
            lemma_div_plus_500(k as int);
            vstd::arithmetic::div_mod::lemma_div_pos_is_pos(scaled as int + 500, 1000);
        }
        let lowered: u64 = if (current as u64) > delta {
            (current as u64) - delta
        } else {
            0
        };
        let floored: u64 = if lowered < 100 {
            100
        } else {
            lowered
        };
        floored as u16
    }
}

/// `(1000k + 500) / 1000 == k` for a non-negative `k`: rounding cannot move a
/// rating by more than the K-factor itself.
proof fn lemma_div_plus_500(k: int)
    requires
        k >= 0,
    ensures
        (1000 * k + 500) / 1000 == k,
{
    vstd::arithmetic::div_mod::lemma_fundamental_div_mod(1000 * k + 500, 1000);
    vstd::arithmetic::div_mod::lemma_mod_division_less_than_divisor(1000 * k + 500, 1000);
    let q = (1000 * k + 500) / 1000;
    if q > k {
        assert(1000 * q >= 1000 * (k + 1));
    }
    if q < k {
        assert(1000 * q <= 1000 * (k - 1));
    }
}

/// Both sides' new ratings as a function of their current ratings, their
/// prior decided-match counts and the outcome.
pub open spec fn spec_updated_ratings(
    rating_a: u16,
    rating_b: u16,
    prior_a: u32,
    prior_b: u32,
    outcome: MatchOutcome,
) -> (int, int) {
    let k_a = spec_max_rating_change(prior_a);
    let k_b = spec_max_rating_change(prior_b);
    let e_a = spec_expected_score_millis(rating_a, rating_b);
    let s_a: u32 = match outcome {
        MatchOutcome::AWins => 1000u32,
        MatchOutcome::BWins => 0u32,
        MatchOutcome::Tie => 500u32,
    };
    (
        spec_new_rating(rating_a, k_a, s_a, e_a),
        spec_new_rating(rating_b, k_b, (1000 - s_a) as u32, 1000 - e_a),
    )
}

/// Decides both sides' new ratings for one match on one track. The actual
/// scores of the two sides sum to one, and their expected scores sum to one;
/// each rating moves by at most its own K-factor, never below 100; on a tie
/// the higher-rated side cannot gain, the lower-rated side cannot lose, and
/// two equal ratings stay exactly put.
pub fn update_rating_pair(
    rating_a: u16,
    rating_b: u16,
    k_a: u8,
    k_b: u8,
    outcome: MatchOutcome,
) -> (r: (u16, u16))
    requires
        100 <= rating_a,
        100 <= rating_b,
    ensures
        ({
            let e_a = spec_expected_score_millis(rating_a, rating_b);
            let s_a: u32 = match outcome {
                MatchOutcome::AWins => 1000,
                MatchOutcome::BWins => 0,
                MatchOutcome::Tie => 500,
            };
            r.0 == spec_new_rating(rating_a, k_a, s_a, e_a) && r.1 == spec_new_rating(
                rating_b,
                k_b,
                (1000 - s_a) as u32,
                1000 - e_a,
            )
        }),
        100 <= r.0 && 100 <= r.1,
        rating_a - k_a <= r.0 <= rating_a + k_a,
        rating_b - k_b <= r.1 <= rating_b + k_b,
        outcome is Tie && rating_a >= rating_b ==> r.0 <= rating_a && r.1 >= rating_b,
        outcome is Tie && rating_a <= rating_b ==> r.0 >= rating_a && r.1 <= rating_b,
        outcome is Tie && rating_a == rating_b ==> r.0 == rating_a && r.1 == rating_b,
{
    let e_a = expected_score_millis(rating_a, rating_b);
    let e_b = 1000 - e_a;
    proof {
        lemma_expected_complement(rating_a, rating_b);
    }
    let s_a: u32 = match outcome {
        MatchOutcome::AWins => 1000,
        MatchOutcome::BWins => 0,
        MatchOutcome::Tie => 500,
    };
    let s_b: u32 = 1000 - s_a;
    let new_a = new_rating(rating_a, k_a, s_a, e_a);
    let new_b = new_rating(rating_b, k_b, s_b, e_b);
    (new_a, new_b)
}

/// The two sides' expected scores complement each other around one half.
proof fn lemma_expected_complement(rating_a: u16, rating_b: u16)
    ensures
        spec_expected_score_millis(rating_b, rating_a) == 1000 - spec_expected_score_millis(
            rating_a,
            rating_b,
        ),
{
    if rating_a == rating_b {
        lemma_pow_gain_zero();
        lemma_expected_half(FP_ONE as int);
    }
}

proof fn lemma_pow_gain_zero()
    ensures
        spec_pow_gain(0) == FP_ONE,
{
    let dc: u16 = 0;
    assert(dc & 1 == 0 && dc & 2 == 0 && dc & 4 == 0 && dc & 8 == 0 && dc & 16 == 0 && dc & 32
        == 0 && dc & 64 == 0 && dc & 128 == 0 && dc & 256 == 0 && dc & 512 == 0 && dc & 1024
        == 0) by (bit_vector)
        requires dc == 0u16;
}

/// The fixed-point power stays between one and the cap, and is exactly one
/// at a zero gap.
#[verifier::rlimit(100)]
#[verifier::spinoff_prover]
proof fn lemma_pow_gain_bounds(d: u16)
    ensures
        FP_ONE <= spec_pow_gain(d) <= FP_MAX,
{
    let dc = if d > GAP_CAP {
        GAP_CAP
    } else {
        d
    };
    let a0 = FP_ONE as int;
    let a1 = if dc & 1 != 0 {
        spec_gain_step(a0, 4319762413)
    } else {
        a0
    };
    assert(FP_ONE <= a1 <= FP_MAX) by {
        if dc & 1 != 0 {
            lemma_gain_step_bounds(a0, 4319762413);
        }
    }
    let a2 = if dc & 2 != 0 {
        spec_gain_step(a1, 4344700673)
    } else {
        a1
    };
    assert(FP_ONE <= a2 <= FP_MAX) by {
        if dc & 2 != 0 {
            lemma_gain_step_bounds(a1, 4344700673);
        }
    }
    let a3 = if dc & 4 != 0 {
        spec_gain_step(a2, 4395009936)
    } else {
        a2
    };
    assert(FP_ONE <= a3 <= FP_MAX) by {
        if dc & 4 != 0 {
            lemma_gain_step_bounds(a2, 4395009936);
        }
    }
    let a4 = if dc & 8 != 0 {
        spec_gain_step(a3, 4497382869)
    } else {
        a3
    };
    assert(FP_ONE <= a4 <= FP_MAX) by {
        if dc & 8 != 0 {
            lemma_gain_step_bounds(a3, 4497382869);
        }
    }
    let a5 = if dc & 16 != 0 {
        spec_gain_step(a4, 4709337993)
    } else {
        a4
    };
    assert(FP_ONE <= a5 <= FP_MAX) by {
        if dc & 16 != 0 {
            lemma_gain_step_bounds(a4, 4709337993);
        }
    }
    let a6 = if dc & 32 != 0 {
        spec_gain_step(a5, 5163686428)
    } else {
        a5
    };
    assert(FP_ONE <= a6 <= FP_MAX) by {
        if dc & 32 != 0 {
            lemma_gain_step_bounds(a5, 5163686428);
        }
    }
    let a7 = if dc & 64 != 0 {
        spec_gain_step(a6, 6208116544)
    } else {
        a6
    };
    assert(FP_ONE <= a7 <= FP_MAX) by {
        if dc & 64 != 0 {
            lemma_gain_step_bounds(a6, 6208116544);
        }
    }
    let a8 = if dc & 128 != 0 {
        spec_gain_step(a7, 8973458554)
    } else {
        a7
    };
    assert(FP_ONE <= a8 <= FP_MAX) by {
        if dc & 128 != 0 {
            lemma_gain_step_bounds(a7, 8973458554);
        }
    }
    let a9 = if dc & 256 != 0 {
        spec_gain_step(a8, 18748212237)
    } else {
        a8
    };
    assert(FP_ONE <= a9 <= FP_MAX) by {
        if dc & 256 != 0 {
            lemma_gain_step_bounds(a8, 18748212237);
        }
    }
    let a10 = if dc & 512 != 0 {
        spec_gain_step(a9, 81838914675)
    } else {
        a9
    };
    assert(FP_ONE <= a10 <= FP_MAX) by {
        if dc & 512 != 0 {
            lemma_gain_step_bounds(a9, 81838914675);
        }
    }
    let a11 = if dc & 1024 != 0 {
        spec_gain_step(a10, 1559408371133)
    } else {
        a10
    };
    assert(FP_ONE <= a11 <= FP_MAX) by {
        if dc & 1024 != 0 {
            lemma_gain_step_bounds(a10, 1559408371133);
        }
    }
    assert(spec_pow_gain(d) == a11);
}

/// What callers may rely on of the expected score without seeing its
/// fixed-point internals: its range, its complement symmetry, its exact
/// half at equal ratings, and its side at unequal ones.
pub proof fn lemma_expected_score_properties(rating_a: u16, rating_b: u16)
    ensures
        1 <= spec_expected_score_millis(rating_a, rating_b) <= 999,
        rating_a == rating_b ==> spec_expected_score_millis(rating_a, rating_b) == 500,
        rating_a >= rating_b ==> spec_expected_score_millis(rating_a, rating_b) >= 500,
        rating_a <= rating_b ==> spec_expected_score_millis(rating_a, rating_b) <= 500,
        spec_expected_score_millis(rating_b, rating_a) == 1000 - spec_expected_score_millis(
            rating_a,
            rating_b,
        ),
{
    if rating_a >= rating_b {
        lemma_pow_gain_bounds((rating_a - rating_b) as u16);
        lemma_expected_half(spec_pow_gain((rating_a - rating_b) as u16));
    } else {
        lemma_pow_gain_bounds((rating_b - rating_a) as u16);
        lemma_expected_half(spec_pow_gain((rating_b - rating_a) as u16));
    }
    if rating_a == rating_b {
        lemma_pow_gain_zero();
    }
    lemma_expected_complement(rating_a, rating_b);
}

} // verus!
