use top_doggo::elo::{expected_score_millis, update_rating_pair, MatchOutcome};
use top_doggo::get_max_rating_change;
use top_doggo::xp::{
    get_level, get_next_xp_target, get_xp_increase_from_pick, get_xp_remainder, get_xp_threshold,
    isqrt,
};

#[test]
fn xp_zero_is_level_zero() {
    assert_eq!(get_level(0), 0);
    assert_eq!(get_xp_threshold(0), 0);
    assert_eq!(get_next_xp_target(0), 1000);
    assert_eq!(get_xp_remainder(0), 0);
}

#[test]
fn xp_three_thousand_is_level_two() {
    assert_eq!(get_level(3000), 2);
    assert_eq!(get_xp_threshold(2), 3000);
    assert_eq!(get_xp_remainder(3000), 0);
    assert_eq!(get_next_xp_target(3000), 3000);
}

#[test]
fn xp_thresholds_scale_triangularly() {
    assert_eq!(get_xp_threshold(1), 1000);
    assert_eq!(get_xp_threshold(2), 3000);
    assert_eq!(get_xp_threshold(3), 6000);
    assert_eq!(get_xp_threshold(4), 10000);
}

#[test]
fn xp_levels_at_boundaries() {
    assert_eq!(get_level(999), 0);
    assert_eq!(get_level(1000), 1);
    assert_eq!(get_level(2999), 1);
    assert_eq!(get_level(5999), 2);
    assert_eq!(get_level(6000), 3);
}

#[test]
fn xp_level_round_trips_through_threshold() {
    for level in 0u32..60 {
        let t = get_xp_threshold(level);
        assert_eq!(get_level(t), level);
        assert_eq!(get_xp_remainder(t), 0);
    }
}

#[test]
fn xp_remainder_tracks_progress() {
    assert_eq!(get_xp_remainder(1500), 500);
    assert_eq!(get_level(1500), 1);
    assert_eq!(get_next_xp_target(1500), 2000);
}

#[test]
fn isqrt_matches_squares() {
    assert_eq!(isqrt(0), 0);
    assert_eq!(isqrt(1), 1);
    assert_eq!(isqrt(3), 1);
    assert_eq!(isqrt(4), 2);
    assert_eq!(isqrt(24), 4);
    assert_eq!(isqrt(25), 5);
    assert_eq!(isqrt(u32::MAX), 65535);
}

#[test]
fn pick_reward_is_flat_below_two_seconds() {
    for t in 0u32..2 {
        assert_eq!(get_xp_increase_from_pick(t), 1);
    }
}

#[test]
fn pick_reward_stays_in_deliberation_bounds() {
    for t in 2u32..=5 {
        for _ in 0..50 {
            let reward = get_xp_increase_from_pick(t);
            assert!(reward >= 6 * t);
            assert!(reward <= 14 * t);
        }
    }
}

#[test]
fn pick_reward_clamps_long_deliberation() {
    for _ in 0..50 {
        let reward = get_xp_increase_from_pick(1000);
        assert!(reward >= 30);
        assert!(reward <= 70);
    }
}

#[test]
fn k_factor_steps_down_at_five_and_ten() {
    assert_eq!(get_max_rating_change(0), 128);
    assert_eq!(get_max_rating_change(4), 128);
    assert_eq!(get_max_rating_change(5), 64);
    assert_eq!(get_max_rating_change(9), 64);
    assert_eq!(get_max_rating_change(10), 32);
    assert_eq!(get_max_rating_change(1000), 32);
    for n in 0u32..100 {
        assert!(get_max_rating_change(n + 1) <= get_max_rating_change(n));
    }
}

#[test]
fn elo_fresh_win_moves_sixty_four_points() {
    let (new_a, new_b) = update_rating_pair(1000, 1000, 128, 128, MatchOutcome::AWins);
    assert_eq!(new_a, 1064);
    assert_eq!(new_b, 936);
}

#[test]
fn elo_change_never_exceeds_k_factor() {
    let cases = [
        (1000u16, 1000u16),
        (1200, 1000),
        (100, 2000),
        (2000, 100),
        (65535, 100),
    ];
    for &(a, b) in cases.iter() {
        for &k in [128u8, 64, 32].iter() {
            for outcome in [MatchOutcome::AWins, MatchOutcome::BWins, MatchOutcome::Tie] {
                let (na, nb) = update_rating_pair(a, b, k, k, outcome);
                assert!((na as i32 - a as i32).abs() <= k as i32);
                assert!((nb as i32 - b as i32).abs() <= k as i32);
                assert!(na >= 100 && nb >= 100);
            }
        }
    }
}

#[test]
fn elo_tie_moves_ratings_together() {
    let (na, nb) = update_rating_pair(1400, 1000, 32, 32, MatchOutcome::Tie);
    assert!(na <= 1400);
    assert!(nb >= 1000);
    let (ea, eb) = update_rating_pair(1000, 1000, 128, 128, MatchOutcome::Tie);
    assert_eq!(ea, 1000);
    assert_eq!(eb, 1000);
}

#[test]
fn elo_floor_holds_at_one_hundred() {
    let (na, _) = update_rating_pair(100, 100, 128, 128, MatchOutcome::BWins);
    assert_eq!(na, 100);
}

#[test]
fn expected_score_is_a_complement_pair() {
    assert_eq!(expected_score_millis(1000, 1000), 500);
    let e_strong = expected_score_millis(1400, 1000);
    let e_weak = expected_score_millis(1000, 1400);
    assert!(e_strong >= 500);
    assert!(e_weak <= 500);
    assert_eq!(e_strong + e_weak, 1000);
    assert!(expected_score_millis(1400, 1000) > expected_score_millis(1100, 1000));
}
