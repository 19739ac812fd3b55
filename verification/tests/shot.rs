use fw_match_sim::fixed::{ONE, from_int};
use fw_match_sim::match_state::MatchState;
use fw_match_sim::shot::{
    PASS_BASE_SPEED_MPS, PASS_PEAK_BONUS_MPS, SHOT_BASE_SPEED_MPS, SHOT_PEAK_BONUS_MPS,
    SIGMA_MAX_M, SIGMA_MIN_M, TARGET_Y_CLAMP_M, compute_ball_speed_for_pass,
    compute_ball_speed_for_shot, compute_shot_dispersion, compute_shot_dispersion_for_shooter,
    compute_shot_sigma,
    dispersed_target_y, shot_dispersion_sites, shot_quality_feature_q32,
};
use rand_chacha::ChaCha8Rng;
use rand_chacha::rand_core::{RngCore, SeedableRng};

const GOAL_LINE_X: i64 = 225485783040;

/// Goal half-width: 3.66 m.
const GOAL_HALF_WIDTH: i64 = 15719580303;

fn seeds(match_seed: u64, tick: u64) -> [u64; 3] {
    let s = shot_dispersion_sites(9);
    [
        match_seed ^ (tick << 32) ^ s[0] as u64,
        match_seed ^ (tick << 32) ^ s[1] as u64,
        match_seed ^ (tick << 32) ^ s[2] as u64,
    ]
}

fn shooter_target(state: &MatchState, tick: u64) -> i64 {
    let quality = shot_quality_feature_q32(ONE / 2, ONE / 2, ONE / 2);
    compute_shot_dispersion(
        state.players[9].pos_x,
        9,
        GOAL_LINE_X,
        ONE / 4,
        quality,
        seeds(state.seed, tick),
    )
}

#[test]
fn shot_speed_at_zero_attrs_equals_base() {
    let speed = compute_ball_speed_for_shot(0, 0);
    assert_eq!(speed, SHOT_BASE_SPEED_MPS);
}

#[test]
fn shot_speed_at_peak_attrs_equals_base_plus_bonus() {
    let speed = compute_ball_speed_for_shot(ONE, ONE);
    assert_eq!(speed, SHOT_BASE_SPEED_MPS + SHOT_PEAK_BONUS_MPS);
}

#[test]
fn shot_speed_at_mid_attrs_is_between_base_and_max() {
    let speed = compute_ball_speed_for_shot(ONE / 2, ONE / 2);
    assert!(speed > SHOT_BASE_SPEED_MPS);
    assert!(speed < SHOT_BASE_SPEED_MPS + SHOT_PEAK_BONUS_MPS);
    // 20 + 15 × 0.25 = 23.75 m/s.
    assert_eq!(speed, from_int(23) + 3 * ONE / 4);
}

#[test]
fn pass_speed_at_zero_attrs_equals_base() {
    assert_eq!(compute_ball_speed_for_pass(0, 0), PASS_BASE_SPEED_MPS);
}

#[test]
fn pass_speed_at_peak_attrs_equals_base_plus_bonus() {
    assert_eq!(compute_ball_speed_for_pass(ONE, ONE), PASS_BASE_SPEED_MPS + PASS_PEAK_BONUS_MPS);
}

#[test]
fn shooter_quality_weights() {
    assert_eq!(shot_quality_feature_q32(ONE, 0, 0), 2362232012);
    assert_eq!(shot_quality_feature_q32(0, ONE, 0), ONE / 4);
    assert_eq!(shot_quality_feature_q32(ONE, ONE, ONE), ONE - 1);
}

#[test]
fn sigma_is_clamped_and_grows_with_distance_and_pressure() {
    // Close, no pressure, perfect shooter: 8 × 1 × 0.6 = 4.8 m.
    let s = compute_shot_sigma(0, 0, ONE);
    assert_eq!(s, ((34359738368i128 * 2576980378i128) >> 32) as i64);
    // Far and pressed, weak shooter: 8 × 2.3 = 18.4 m → capped at 15 m.
    assert_eq!(compute_shot_sigma(ONE, ONE, 0), SIGMA_MAX_M);
    assert!(compute_shot_sigma(ONE / 2, 0, ONE / 2) > compute_shot_sigma(0, 0, ONE / 2));
    assert!(compute_shot_sigma(0, 0, 0) >= SIGMA_MIN_M);
}

#[test]
fn dispersion_uses_centred_draws() {
    // All draws at exactly one half: every centred draw is 0 → target 0.
    let half = 0x8000_0000_0000_0000u64;
    assert_eq!(dispersed_target_y(half, half, half, SIGMA_MAX_M), 0);
    // All draws at the top: about +3/√3 × 15 m → clamped to +12 m.
    assert_eq!(dispersed_target_y(u64::MAX, u64::MAX, u64::MAX, SIGMA_MAX_M), TARGET_Y_CLAMP_M);
    assert_eq!(dispersed_target_y(0, 0, 0, SIGMA_MAX_M), -TARGET_Y_CLAMP_M);
}

#[test]
fn ss2_shot_target_y_is_not_always_on_target() {
    let state = MatchState::initial(42);
    let mut any_off_target = false;
    for tick in 0u64..10 {
        let target_y = shooter_target(&state, tick);
        if target_y.abs() > GOAL_HALF_WIDTH {
            any_off_target = true;
            break;
        }
    }
    assert!(any_off_target, "dispersion must produce some off-target shots across 10 ticks");
}

#[test]
fn ss2_dispersion_varies_across_ticks() {
    let state = MatchState::initial(42);
    let y0 = shooter_target(&state, 0);
    let y1 = shooter_target(&state, 1);
    assert_ne!(y0, y1, "dispersion across different ticks must differ");
}

#[test]
fn ss2_dispersion_is_deterministic() {
    let state = MatchState::initial(42);
    assert_eq!(shooter_target(&state, 100), shooter_target(&state, 100));
}

#[test]
fn dispersion_follows_the_seeded_draws() {
    let state = MatchState::initial(7);
    let quality = shot_quality_feature_q32(ONE / 2, ONE / 2, ONE / 2);
    for tick in 0u64..20 {
        let sd = seeds(state.seed, tick);
        let draws: Vec<u64> = sd.iter().map(|&s| ChaCha8Rng::seed_from_u64(s).next_u64()).collect();
        // Home slot 9 at 10 m attacks the goal 42.5 m away: distance factor 1.
        let sigma = compute_shot_sigma(ONE, ONE / 4, quality);
        let expected = dispersed_target_y(draws[0], draws[1], draws[2], sigma);
        assert_eq!(shooter_target(&state, tick), expected, "tick {tick}");
    }
}


#[test]
fn dispersion_for_shooter_measures_pressure_from_positions() {
    let mut state = MatchState::initial(11);
    // A defender one metre from the home striker (slot 9).
    state.players[12].pos_x = state.players[9].pos_x + ONE;
    state.players[12].pos_y = state.players[9].pos_y;
    let pressure = fw_match_sim::dispatch::shot_pressure_feature_q32(&state.players, 9);
    assert!(pressure > 0);
    let quality = ONE / 2;
    let seeds = [3u64, 5, 8];
    let y = compute_shot_dispersion_for_shooter(&state.players, 9, GOAL_LINE_X, quality, seeds);
    let expected = compute_shot_dispersion(
        state.players[9].pos_x,
        state.players[9].slot,
        GOAL_LINE_X,
        pressure,
        quality,
        seeds,
    );
    assert_eq!(y, expected);
    assert!(y.abs() <= TARGET_Y_CLAMP_M);
}
