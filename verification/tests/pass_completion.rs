use fw_match_sim::fixed::ONE;
use fw_match_sim::match_state::{MatchState, PLAYERS_PER_TEAM, TOTAL_PLAYERS};
use fw_match_sim::pass_completion::{
    CurvedInterceptionSkills, CurvedPassingSkills, LANE_FLOOR, P_BASE_CROSS, P_BASE_LAYOFF,
    P_BASE_LONG, P_BASE_SHORT, P_FLOOR_CROSS, P_FLOOR_LAYOFF, P_FLOOR_LONG, P_FLOOR_SHORT,
    PassKind, completes_with_draw, compute_interception_quality, compute_passer_quality,
    kind_params, lane_gate_from_quality, lane_gate_with_interception, nearest_defender_slot,
    pass_completion_probability, pass_draw_site, resolve_pass_completion,
};
use rand_chacha::ChaCha8Rng;
use rand_chacha::rand_core::{RngCore, SeedableRng};

fn m(v: i64) -> i64 {
    v << 32
}

#[test]
fn kind_params_layoff_base_greater_than_short_greater_than_long_greater_than_cross() {
    let (base_layoff, _) = kind_params(PassKind::LayOff);
    let (base_short, _) = kind_params(PassKind::Short);
    let (base_long, _) = kind_params(PassKind::Long);
    let (base_cross, _) = kind_params(PassKind::Cross);
    assert!(
        base_layoff > base_short,
        "layoff base ({base_layoff:?}) must be > short ({base_short:?})"
    );
    assert!(
        base_short > base_long,
        "short base ({base_short:?}) must be > long ({base_long:?})"
    );
    assert!(
        base_long > base_cross,
        "long base ({base_long:?}) must be > cross ({base_cross:?})"
    );
}

#[test]
fn p_floor_ordering_matches_base_ordering() {
    let (_, floor_layoff) = kind_params(PassKind::LayOff);
    let (_, floor_short) = kind_params(PassKind::Short);
    let (_, floor_long) = kind_params(PassKind::Long);
    let (_, floor_cross) = kind_params(PassKind::Cross);
    assert!(floor_layoff > floor_short);
    assert!(floor_short > floor_long);
    assert!(floor_long > floor_cross);
}

#[test]
fn p_floors_are_below_p_bases() {
    for kind in [
        PassKind::Short,
        PassKind::Long,
        PassKind::Cross,
        PassKind::LayOff,
    ] {
        let (base, floor) = kind_params(kind);
        assert!(
            floor < base,
            "P_FLOOR for {kind:?} ({floor:?}) must be < P_BASE ({base:?})"
        );
    }
}

#[test]
fn constant_ordering_p_base_and_p_floor() {
    assert!(
        P_BASE_LAYOFF > P_BASE_SHORT,
        "P_BASE: layoff must be > short"
    );
    assert!(P_BASE_SHORT > P_BASE_LONG, "P_BASE: short must be > long");
    assert!(P_BASE_LONG > P_BASE_CROSS, "P_BASE: long must be > cross");
    assert!(P_FLOOR_LAYOFF > P_FLOOR_SHORT, "P_FLOOR: layoff > short");
    assert!(P_FLOOR_SHORT > P_FLOOR_LONG, "P_FLOOR: short > long");
    assert!(P_FLOOR_LONG > P_FLOOR_CROSS, "P_FLOOR: long > cross");
    assert!(P_BASE_SHORT > P_FLOOR_SHORT);
    assert!(P_BASE_LONG > P_FLOOR_LONG);
    assert!(P_BASE_CROSS > P_FLOOR_CROSS);
    assert!(P_BASE_LAYOFF > P_FLOOR_LAYOFF);
}

#[test]
fn lane_floor_constant_defensible() {
    assert!(
        LANE_FLOOR > 0,
        "LANE_FLOOR must be > 0 so a contested lane still permits completion"
    );
    assert!(
        LANE_FLOOR < ONE,
        "LANE_FLOOR must be < 1 so the lane gate actually lerps (an open lane \
         must score higher than a contested one)"
    );
}

fn unit_curves() -> Vec<CurvedInterceptionSkills> {
    vec![CurvedInterceptionSkills { tackling: ONE / 2, anticipation: ONE / 2, pace: ONE / 2 }; 22]
}

#[test]
fn interception_quality_clamps_at_q32_one() {
    let mut state = MatchState::initial(0xC1A4_0000_0000_0002u64);
    state.players[5].pos_x = m(-1);
    state.players[5].pos_y = m(0);
    state.players[9].pos_x = m(1);
    state.players[9].pos_y = m(0);
    state.players[11].pos_x = m(50);
    state.players[11].pos_y = m(-30);
    state.players[12].pos_x = m(0);
    state.players[12].pos_y = m(0);
    for slot in (0..PLAYERS_PER_TEAM).filter(|&s| s != 5 && s != 9) {
        state.players[slot].pos_x = m(-50);
        state.players[slot].pos_y = m(30);
    }
    for slot in 13..TOTAL_PLAYERS {
        state.players[slot].pos_x = m(50);
        state.players[slot].pos_y = m(30);
    }
    for p in state.players.iter_mut() {
        p.vel_x = 0;
        p.vel_y = 0;
    }
    // Elite interceptor: every curved interception skill at 1.0.
    let mut curved = unit_curves();
    curved[12] = CurvedInterceptionSkills { tackling: ONE, anticipation: ONE, pace: ONE };
    let gate = lane_gate_with_interception(&state, 0, m(0), m(0), 0, &curved);
    assert_eq!(
        gate, LANE_FLOOR,
        "elite defender with fully-contested lane (openness=0) must yield gate = LANE_FLOOR; \
         got {gate:?}"
    );
}

#[test]
fn nearest_defender_slot_excludes_goalkeeper_and_returns_correct_team() {
    let mut state = MatchState::initial(0xD3F1_0000_0000_0003u64);
    for p in state.players.iter_mut() {
        p.pos_x = m(50);
        p.pos_y = m(30);
        p.vel_x = 0;
        p.vel_y = 0;
    }
    state.players[11].pos_x = m(0);
    state.players[11].pos_y = m(0);
    state.players[12].pos_x = m(1);
    state.players[12].pos_y = m(0);

    let slot = nearest_defender_slot(&state, 0, m(0), m(0));
    assert!(
        slot.is_some(),
        "nearest_defender_slot must return Some in 11v11"
    );
    let s = slot.unwrap();
    assert!(
        (PLAYERS_PER_TEAM..TOTAL_PLAYERS).contains(&s),
        "nearest_defender_slot returned a home-team slot {s}"
    );
    assert_ne!(
        s, 11,
        "nearest_defender_slot must exclude the goalkeeper (slot 11)"
    );
    assert_eq!(s, 12, "nearest outfield defender is slot 12, got {s}");
}

// ---------------------------------------------------------------------------
// Further cases
// ---------------------------------------------------------------------------

#[test]
fn nearest_defender_ties_go_to_the_lower_slot_and_away_passers_face_home() {
    let mut state = MatchState::initial(7);
    for p in state.players.iter_mut() {
        p.pos_x = m(40);
        p.pos_y = m(30);
    }
    state.players[3].pos_x = m(2);
    state.players[3].pos_y = m(0);
    state.players[6].pos_x = m(-2);
    state.players[6].pos_y = m(0);
    // An away passer (team 1) faces the home defenders 1..11.
    assert_eq!(nearest_defender_slot(&state, 1, 0, 0), Some(3));
}

#[test]
fn passer_quality_weights_per_kind() {
    let half = ONE / 2;
    let skills = CurvedPassingSkills {
        passing: ONE,
        technique: half,
        first_touch: 0,
        vision: ONE,
        long_shots: 0,
        crossing: half,
    };
    // Short: 1.0 × 0.40 + 0.5 × 0.30 + 0 × 0.30.
    let short = compute_passer_quality(&skills, PassKind::Short);
    assert_eq!(short, 1717986918 + 644245094);
    assert_eq!(compute_passer_quality(&skills, PassKind::LayOff), short);
    // Long: 1.0 × 0.40 + 1.0 × 0.40 + 0 × 0.20.
    assert_eq!(compute_passer_quality(&skills, PassKind::Long), 2 * 1717986918);
    // Cross: 0.5 × 0.50 + 0.5 × 0.20 + 1.0 × 0.30.
    assert_eq!(
        compute_passer_quality(&skills, PassKind::Cross),
        1073741824 + 429496729 + 1288490189
    );
}

#[test]
fn interception_quality_of_full_attributes_is_one() {
    let c = CurvedInterceptionSkills { tackling: ONE, anticipation: ONE, pace: ONE };
    assert_eq!(compute_interception_quality(&c), ONE);
    let z = CurvedInterceptionSkills { tackling: 0, anticipation: 0, pace: 0 };
    assert_eq!(compute_interception_quality(&z), 0);
}

#[test]
fn lane_gate_open_lane_is_one_and_better_interceptor_closes_lane() {
    // A fully open lane leaves nothing to intercept.
    assert_eq!(lane_gate_from_quality(ONE, ONE), ONE);
    // Half-open lane: a quality-0 defender blocks 0.5 × 0.4 = 0.2.
    let low = lane_gate_from_quality(0, ONE / 2);
    let high = lane_gate_from_quality(ONE, ONE / 2);
    assert!(high < low, "gate_high={high} gate_low={low}");
    assert!(LANE_FLOOR <= high && low <= ONE);
}

#[test]
fn completion_probability_clamps_to_floor_and_one() {
    // Elite passer, no pressure, open lane: raw ≈ 1.064 × 1.3 > 1 → 1.
    assert_eq!(pass_completion_probability(PassKind::Short, ONE, 0, ONE), ONE);
    // Worst passer, full pressure, fully blocked lane for a cross:
    // 0.93 × 0.7 × 0.85 × 0.7 ≈ 0.387 stays above the cross floor 0.30.
    let p = pass_completion_probability(PassKind::Cross, 0, ONE, LANE_FLOOR);
    assert!(p > P_FLOOR_CROSS && p < ONE);
    // A zero lane gate falls to the floor.
    assert_eq!(pass_completion_probability(PassKind::Long, 0, ONE, 0), P_FLOOR_LONG);
}

#[test]
fn mid_quality_short_pass_probability_exact() {
    // quality 0.5 → modifier 0.7 + 0.5 × 0.6 = 1.0 (to within rounding);
    // no pressure; lane gate 0.7.
    let half = ONE / 2;
    let qm = 3006477107i64 + (((half as i128) * ((5583457485i64 - 3006477107) as i128)) >> 32) as i64;
    let expected = {
        let a = ((P_BASE_SHORT as i128 * qm as i128) >> 32) as i64;
        let b = ((a as i128 * ONE as i128) >> 32) as i64;
        ((b as i128 * LANE_FLOOR as i128) >> 32) as i64
    };
    assert_eq!(pass_completion_probability(PassKind::Short, half, 0, LANE_FLOOR), expected);
}

#[test]
fn draw_comparison_uses_upper_bits() {
    // Upper 32 bits 0x8000_0000 = 0.5.
    let draw: u64 = 0x8000_0000_0000_0000;
    assert!(completes_with_draw(draw, ONE / 2 + 1));
    assert!(!completes_with_draw(draw, ONE / 2));
    assert!(completes_with_draw(u64::MAX, ONE));
    assert!(!completes_with_draw(0, 0));
}

#[test]
fn pass_draw_site_packs_slot_and_tag() {
    assert_eq!(pass_draw_site(0), 0xCB01);
    assert_eq!(pass_draw_site(5), (5 << 16) | 0xCB01);
    assert_eq!(pass_draw_site(21), (21 << 16) | 0xCB01);
}

fn lane_state() -> MatchState {
    let mut state = MatchState::initial(0x1A4E_0000_0000_0001u64);
    state.players[5].pos_x = m(-20);
    state.players[5].pos_y = m(0);
    state.players[9].pos_x = m(20);
    state.players[9].pos_y = m(0);
    state
}

#[test]
fn resolve_pass_completion_follows_the_seeded_draw() {
    let state = lane_state();
    let skills = CurvedPassingSkills {
        passing: ONE / 2,
        technique: ONE / 2,
        first_touch: ONE / 2,
        vision: ONE / 2,
        long_shots: ONE / 2,
        crossing: ONE / 2,
    };
    let curved = unit_curves();
    let openness = ONE / 2;
    let pressure = ONE / 4;
    for seed in 0u64..200 {
        let quality = compute_passer_quality(&skills, PassKind::Short);
        let k = nearest_defender_slot(&state, 0, 0, 0).unwrap();
        let iq = compute_interception_quality(&curved[k]);
        let gate = lane_gate_from_quality(iq, openness);
        let p = pass_completion_probability(PassKind::Short, quality, pressure, gate);
        let draw = ChaCha8Rng::seed_from_u64(seed).next_u64();
        let expected = ((draw >> 32) as i64) < p;
        let got = resolve_pass_completion(
            &state,
            5,
            9,
            PassKind::Short,
            openness,
            pressure,
            &skills,
            &curved,
            seed,
        );
        assert_eq!(got, expected, "seed {seed}");
    }
}

#[test]
fn resolve_pass_completion_is_certain_at_probability_one() {
    let state = lane_state();
    let skills = CurvedPassingSkills {
        passing: ONE,
        technique: ONE,
        first_touch: ONE,
        vision: ONE,
        long_shots: ONE,
        crossing: ONE,
    };
    let curved = vec![CurvedInterceptionSkills { tackling: 0, anticipation: 0, pace: 0 }; 22];
    for seed in 0u64..50 {
        assert!(resolve_pass_completion(
            &state,
            5,
            9,
            PassKind::LayOff,
            ONE,
            0,
            &skills,
            &curved,
            seed
        ));
    }
}

fn mid_skills() -> CurvedPassingSkills {
    let half = ONE / 2;
    CurvedPassingSkills {
        passing: half,
        technique: half,
        first_touch: half,
        vision: half,
        long_shots: half,
        crossing: half,
    }
}

fn parked_lane_state(lane_defenders_near: bool) -> MatchState {
    let mut state = MatchState::initial(0x1A4E_0000_0000_0001u64);
    state.players[5].pos_x = m(-20);
    state.players[5].pos_y = m(0);
    state.players[9].pos_x = m(20);
    state.players[9].pos_y = m(0);
    for slot in 0..PLAYERS_PER_TEAM {
        if slot != 5 && slot != 9 {
            state.players[slot].pos_x = m(-50);
            state.players[slot].pos_y = m(30);
        }
    }
    for slot in PLAYERS_PER_TEAM..TOTAL_PLAYERS {
        state.players[slot].pos_x = m(50);
        state.players[slot].pos_y = m(30);
    }
    if lane_defenders_near {
        state.players[11].pos_x = m(0);
        state.players[11].pos_y = m(0);
        state.players[12].pos_x = m(-2);
        state.players[12].pos_y = m(1);
        state.players[13].pos_x = m(2);
        state.players[13].pos_y = m(-1);
    }
    for p in state.players.iter_mut() {
        p.vel_x = 0;
        p.vel_y = 0;
    }
    state
}

#[test]
fn lane_openness_effect_measurable() {
    // The pitch-control reading of the lane midpoint: contested by three
    // defenders on the lane, open when they are parked far away.
    let on_lane = parked_lane_state(true);
    let off_lane = parked_lane_state(false);
    let on_openness = ONE / 4;
    let off_openness = ONE;
    let skills = mid_skills();
    let curved = unit_curves();
    let n_draws = 4000u64;
    let mut on_completions = 0usize;
    let mut off_completions = 0usize;
    for seed in 0..n_draws {
        if resolve_pass_completion(&on_lane, 5, 9, PassKind::Short, on_openness, 0, &skills, &curved, seed) {
            on_completions += 1;
        }
        if resolve_pass_completion(&off_lane, 5, 9, PassKind::Short, off_openness, 0, &skills, &curved, seed) {
            off_completions += 1;
        }
    }
    let margin = (2 * n_draws as usize) / 100;
    assert!(
        off_completions >= on_completions + margin,
        "lane_gate has no measurable effect: on-lane completions ({on_completions}/{n_draws}) \
         must be at least {margin} fewer than off-lane ({off_completions}/{n_draws})"
    );
}

#[test]
fn mid_range_passer_completion_probability_in_plausible_band() {
    let skills = mid_skills();
    for kind in [PassKind::Short, PassKind::LayOff, PassKind::Long, PassKind::Cross] {
        let quality = compute_passer_quality(&skills, kind);
        let low = 858_993_459_i64; // 0.20
        let high = 3_435_973_837_i64; // 0.80
        assert!(
            quality >= low && quality <= high,
            "passer_quality for {kind:?} = {quality} out of [0.20, 0.80]"
        );
    }
}

#[test]
fn high_interception_defender_reduces_lane_gate_vs_low() {
    let mut state = MatchState::initial(0xB33F_0000_0000_0001u64);
    state.players[5].pos_x = m(-20);
    state.players[5].pos_y = m(0);
    state.players[9].pos_x = m(20);
    state.players[9].pos_y = m(0);
    for slot in 0..PLAYERS_PER_TEAM {
        if slot != 5 && slot != 9 {
            state.players[slot].pos_x = m(-50);
            state.players[slot].pos_y = m(30);
        }
    }
    state.players[11].pos_x = m(50);
    state.players[11].pos_y = m(-30);
    state.players[12].pos_x = m(0);
    state.players[12].pos_y = m(0);
    for slot in 13..TOTAL_PLAYERS {
        state.players[slot].pos_x = m(50);
        state.players[slot].pos_y = m(30);
    }
    // Curved attributes of the lane defender (slot 12): 0.90 versus 0.10.
    let mut high = unit_curves();
    high[12] = CurvedInterceptionSkills {
        tackling: 3_865_470_566,
        anticipation: 3_865_470_566,
        pace: 3_865_470_566,
    };
    let mut low = unit_curves();
    low[12] = CurvedInterceptionSkills {
        tackling: 429_496_730,
        anticipation: 429_496_730,
        pace: 429_496_730,
    };
    // Same positions, so the same lane openness in both arms.
    let openness = ONE / 2;
    let gate_high = lane_gate_with_interception(&state, 0, m(0), m(0), openness, &high);
    let gate_low = lane_gate_with_interception(&state, 0, m(0), m(0), openness, &low);
    assert!(
        gate_high < gate_low,
        "high-iq defender must produce lower lane_gate than low-iq defender; \
         gate_high={gate_high}, gate_low={gate_low}"
    );
}
