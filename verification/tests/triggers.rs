use fw_match_sim::fixed::ONE;
use fw_match_sim::match_state::MatchState;
use fw_match_sim::player::PlayerAttributes;
use fw_match_sim::signature::gate::evaluate_trigger;
use fw_match_sim::signature::triggers::{
    body_shield_pressure_trigger, commanding_claim_trigger, first_time_diagonal_switch_trigger,
    long_range_strike_trigger, no_op_trigger, overlapping_surge_trigger, poachers_dart_trigger,
    screening_interception_trigger, touchline_beat_trigger,
};

fn qmul(a: i64, b: i64) -> i64 {
    ((a as i128 * b as i128) >> 32) as i64
}

fn baseline_state() -> MatchState {
    MatchState::initial(1)
}

fn set_all_attrs(state: &mut MatchState, slot: usize, val: i64) {
    let p = &mut state.players[slot];
    p.attributes = PlayerAttributes::mid_range_baseline();
    p.attributes.technical.marking = val;
    p.attributes.physical.strength = val;
    p.attributes.personality.aggression = val;
    p.attributes.mental.composure = val;
    p.attributes.technical.long_shots = val;
    p.attributes.mental.vision = val;
    p.attributes.technical.passing = val;
    p.attributes.goalkeeper.aerial_reach = val;
    p.attributes.goalkeeper.handling = val;
    p.attributes.goalkeeper.command_of_area = val;
    p.attributes.physical.pace = val;
    p.attributes.physical.stamina = val;
    p.attributes.technical.crossing = val;
    p.attributes.mental.anticipation = val;
    p.attributes.mental.positioning = val;
    p.attributes.technical.tackling = val;
    p.attributes.technical.dribbling = val;
    p.attributes.mental.off_the_ball = val;
    p.attributes.technical.finishing = val;
    p.attributes.physical.acceleration = val;
}

#[test]
fn body_shield_fires_for_defender_above_threshold() {
    let mut state = baseline_state();
    set_all_attrs(&mut state, 1, ONE);
    let fit = body_shield_pressure_trigger(&state, 1);
    assert!(
        fit > 0i64,
        "body_shield should return positive fit for eligible defender"
    );
}

#[test]
fn body_shield_fit_score_is_product_of_attributes() {
    let mut state = baseline_state();
    let half = (1i64 << 31);
    state.players[1].attributes.technical.marking = half;
    state.players[1].attributes.physical.strength = half;
    state.players[1].attributes.personality.aggression = half;
    let fit = body_shield_pressure_trigger(&state, 1);
    let expected = qmul(qmul(half, half), half);
    assert_eq!(
        fit, expected,
        "fit_score must be the exact product marking × strength × aggression = 0.125; \
         got {fit:?}, expected {expected:?}"
    );
}

#[test]
fn vacuousness_check_body_shield_fit_score_zero_for_ineligible() {
    let mut state = baseline_state();
    set_all_attrs(&mut state, 8, ONE);
    let fit = body_shield_pressure_trigger(&state, 8);
    assert_eq!(
        fit,
        0i64,
        "body_shield must return 0i64 for ineligible role"
    );
}

#[test]
fn body_shield_does_not_fire_for_forward() {
    let mut state = baseline_state();
    set_all_attrs(&mut state, 8, ONE);
    assert_eq!(body_shield_pressure_trigger(&state, 8), 0i64);
}

#[test]
fn body_shield_does_not_fire_when_attrs_below_threshold() {
    let mut state = baseline_state();
    set_all_attrs(&mut state, 1, 0i64);
    assert_eq!(body_shield_pressure_trigger(&state, 1), 0i64);
}

#[test]
fn long_range_strike_fires_for_forward_above_threshold() {
    let mut state = baseline_state();
    set_all_attrs(&mut state, 8, ONE);
    let fit = long_range_strike_trigger(&state, 8);
    assert!(
        fit > 0i64,
        "long_range_strike should return positive fit"
    );
}

#[test]
fn long_range_strike_fit_score_is_product_of_attributes() {
    let mut state = baseline_state();
    state.players[8].attributes.mental.composure = (1i64 << 31);
    state.players[8].attributes.technical.long_shots = (3i64 << 30);
    let fit = long_range_strike_trigger(&state, 8);
    assert!(fit > 0i64, "fit must be positive");
    assert!(
        fit < (3i64 << 30),
        "fit 0.375 should be < 0.75"
    );
    assert!(
        fit > (1i64 << 30),
        "fit 0.375 should be > 0.25"
    );
}

#[test]
fn vacuousness_check_long_range_strike_fit_varies_with_attrs() {
    let mut state_hi = baseline_state();
    let mut state_lo = baseline_state();
    set_all_attrs(&mut state_hi, 8, ONE);
    state_lo.players[8].attributes.mental.composure = (1i64 << 31);
    state_lo.players[8].attributes.technical.long_shots = (1i64 << 31);
    let fit_hi = long_range_strike_trigger(&state_hi, 8);
    let fit_lo = long_range_strike_trigger(&state_lo, 8);
    assert!(
        fit_hi > fit_lo,
        "higher attrs must produce higher fit_score: hi={:?} lo={:?}",
        fit_hi,
        fit_lo
    );
}

#[test]
fn long_range_strike_fires_for_midfielder_above_threshold() {
    let mut state = baseline_state();
    set_all_attrs(&mut state, 6, ONE);
    assert!(long_range_strike_trigger(&state, 6) > 0i64);
}

#[test]
fn long_range_strike_does_not_fire_for_defender() {
    let mut state = baseline_state();
    set_all_attrs(&mut state, 2, ONE);
    assert_eq!(long_range_strike_trigger(&state, 2), 0i64);
}

#[test]
fn long_range_strike_does_not_fire_when_attrs_below_threshold() {
    let mut state = baseline_state();
    set_all_attrs(&mut state, 8, 0i64);
    assert_eq!(long_range_strike_trigger(&state, 8), 0i64);
}

#[test]
fn diagonal_switch_fires_for_midfielder_above_threshold() {
    let mut state = baseline_state();
    set_all_attrs(&mut state, 5, ONE);
    assert!(first_time_diagonal_switch_trigger(&state, 5) > 0i64);
}

#[test]
fn diagonal_switch_fit_score_is_product_of_vision_and_passing() {
    let mut state = baseline_state();
    state.players[5].attributes.mental.vision = (1i64 << 31);
    state.players[5].attributes.technical.passing = (2_576_980_377_i64);
    let fit = first_time_diagonal_switch_trigger(&state, 5);
    assert!(fit > 0i64, "eligible player must have positive fit");
    assert!(fit < (1i64 << 31), "fit 0.3 should be < 0.5");
}

#[test]
fn diagonal_switch_does_not_fire_for_forward() {
    let mut state = baseline_state();
    set_all_attrs(&mut state, 9, ONE);
    assert_eq!(first_time_diagonal_switch_trigger(&state, 9), 0i64);
}

#[test]
fn diagonal_switch_does_not_fire_when_attrs_below_threshold() {
    let mut state = baseline_state();
    set_all_attrs(&mut state, 5, 0i64);
    assert_eq!(first_time_diagonal_switch_trigger(&state, 5), 0i64);
}

#[test]
fn no_op_trigger_always_returns_zero() {
    let state = baseline_state();
    for slot in 0..22u8 {
        assert_eq!(
            no_op_trigger(&state, slot),
            0i64,
            "no_op_trigger should always return 0i64, slot={slot}"
        );
    }
}

#[test]
fn commanding_claim_fires_for_gk_above_threshold() {
    let mut state = baseline_state();
    set_all_attrs(&mut state, 0, ONE);
    let fit = commanding_claim_trigger(&state, 0);
    assert!(
        fit > 0i64,
        "commanding_claim should fire for GK slot 0 with max attrs"
    );
}

#[test]
fn commanding_claim_fit_score_is_product_of_three_gk_attrs() {
    let mut state = baseline_state();
    let half = (1i64 << 31);
    state.players[0].attributes.goalkeeper.aerial_reach = half;
    state.players[0].attributes.goalkeeper.handling = half;
    state.players[0].attributes.goalkeeper.command_of_area = half;
    let fit = commanding_claim_trigger(&state, 0);
    assert!(
        fit > 0i64,
        "fit must be positive for GK with attrs=0.5"
    );
    assert!(fit < ONE, "fit 0.125 must be < 1.0");
    let expected = qmul(qmul(half, half), half);
    assert_eq!(fit, expected, "fit must equal the exact attribute product");
}

#[test]
fn commanding_claim_zero_for_wrong_role() {
    let mut state = baseline_state();
    set_all_attrs(&mut state, 1, ONE);
    assert_eq!(commanding_claim_trigger(&state, 1), 0i64);
}

#[test]
fn commanding_claim_zero_for_attrs_below_threshold() {
    let mut state = baseline_state();
    state.players[0].attributes.goalkeeper.aerial_reach = 0i64;
    state.players[0].attributes.goalkeeper.handling = 0i64;
    state.players[0].attributes.goalkeeper.command_of_area = 0i64;
    assert_eq!(commanding_claim_trigger(&state, 0), 0i64);
}

#[test]
fn overlapping_surge_fires_for_left_back_above_threshold() {
    let mut state = baseline_state();
    set_all_attrs(&mut state, 1, ONE);
    let fit = overlapping_surge_trigger(&state, 1);
    assert!(
        fit > 0i64,
        "overlapping_surge should fire for slot 1 (left-back)"
    );
}

#[test]
fn overlapping_surge_fires_for_right_back_above_threshold() {
    let mut state = baseline_state();
    set_all_attrs(&mut state, 4, ONE);
    let fit = overlapping_surge_trigger(&state, 4);
    assert!(
        fit > 0i64,
        "overlapping_surge should fire for slot 4 (right-back)"
    );
}

#[test]
fn overlapping_surge_fit_score_is_product_of_pace_stamina_crossing() {
    let mut state = baseline_state();
    let half = (1i64 << 31);
    state.players[1].attributes.physical.pace = half;
    state.players[1].attributes.physical.stamina = half;
    state.players[1].attributes.technical.crossing = half;
    let fit = overlapping_surge_trigger(&state, 1);
    assert!(fit > 0i64, "fit must be positive");
    let expected = qmul(qmul(half, half), half);
    assert_eq!(fit, expected, "fit must equal pace × stamina × crossing");
}

#[test]
fn overlapping_surge_zero_for_centre_back() {
    let mut state = baseline_state();
    set_all_attrs(&mut state, 2, ONE);
    assert_eq!(overlapping_surge_trigger(&state, 2), 0i64);
}

#[test]
fn overlapping_surge_zero_for_attrs_below_threshold() {
    let mut state = baseline_state();
    state.players[1].attributes.physical.pace = 0i64;
    state.players[1].attributes.physical.stamina = 0i64;
    state.players[1].attributes.technical.crossing = 0i64;
    assert_eq!(overlapping_surge_trigger(&state, 1), 0i64);
}

#[test]
fn screening_interception_fires_for_dm_slot_above_threshold() {
    let mut state = baseline_state();
    set_all_attrs(&mut state, 5, ONE);
    let fit = screening_interception_trigger(&state, 5);
    assert!(
        fit > 0i64,
        "screening_interception should fire for slot 5 (DM pivot)"
    );
}

#[test]
fn screening_interception_fit_score_is_product_of_four_attrs() {
    let mut state = baseline_state();
    let half = (1i64 << 31);
    state.players[5].attributes.mental.anticipation = half;
    state.players[5].attributes.mental.positioning = half;
    state.players[5].attributes.technical.tackling = half;
    state.players[5].attributes.technical.marking = half;
    let fit = screening_interception_trigger(&state, 5);
    assert!(fit > 0i64, "fit must be positive");
    let expected = qmul(qmul(qmul(half, half), half), half);
    assert_eq!(
        fit, expected,
        "fit must equal anticipation × positioning × tackling × marking"
    );
}

#[test]
fn screening_interception_zero_for_non_dm_midfielder() {
    let mut state = baseline_state();
    set_all_attrs(&mut state, 6, ONE);
    assert_eq!(screening_interception_trigger(&state, 6), 0i64);
}

#[test]
fn screening_interception_zero_for_attrs_below_threshold() {
    let mut state = baseline_state();
    state.players[5].attributes.mental.anticipation = 0i64;
    state.players[5].attributes.mental.positioning = 0i64;
    state.players[5].attributes.technical.tackling = 0i64;
    state.players[5].attributes.technical.marking = 0i64;
    assert_eq!(screening_interception_trigger(&state, 5), 0i64);
}

#[test]
fn touchline_beat_fires_for_left_winger_above_threshold() {
    let mut state = baseline_state();
    set_all_attrs(&mut state, 8, ONE);
    let fit = touchline_beat_trigger(&state, 8);
    assert!(
        fit > 0i64,
        "touchline_beat should fire for slot 8 (left-winger)"
    );
}

#[test]
fn touchline_beat_fires_for_right_winger_above_threshold() {
    let mut state = baseline_state();
    set_all_attrs(&mut state, 10, ONE);
    let fit = touchline_beat_trigger(&state, 10);
    assert!(
        fit > 0i64,
        "touchline_beat should fire for slot 10 (right-winger)"
    );
}

#[test]
fn touchline_beat_fit_score_is_product_of_dribbling_pace_crossing() {
    let mut state = baseline_state();
    let half = (1i64 << 31);
    state.players[8].attributes.technical.dribbling = half;
    state.players[8].attributes.physical.pace = half;
    state.players[8].attributes.technical.crossing = half;
    let fit = touchline_beat_trigger(&state, 8);
    assert!(fit > 0i64, "fit must be positive");
    let expected = qmul(qmul(half, half), half);
    assert_eq!(fit, expected, "fit must equal dribbling × pace × crossing");
}

#[test]
fn touchline_beat_zero_for_centre_forward() {
    let mut state = baseline_state();
    set_all_attrs(&mut state, 9, ONE);
    assert_eq!(touchline_beat_trigger(&state, 9), 0i64);
}

#[test]
fn touchline_beat_zero_for_attrs_below_threshold() {
    let mut state = baseline_state();
    state.players[8].attributes.technical.dribbling = 0i64;
    state.players[8].attributes.physical.pace = 0i64;
    state.players[8].attributes.technical.crossing = 0i64;
    assert_eq!(touchline_beat_trigger(&state, 8), 0i64);
}

#[test]
fn poachers_dart_fires_for_striker_slot_above_threshold() {
    let mut state = baseline_state();
    set_all_attrs(&mut state, 9, ONE);
    let fit = poachers_dart_trigger(&state, 9);
    assert!(
        fit > 0i64,
        "poachers_dart should fire for slot 9 (striker)"
    );
}

#[test]
fn poachers_dart_fit_score_is_product_of_five_attrs() {
    let mut state = baseline_state();
    let half = (1i64 << 31);
    state.players[9].attributes.mental.off_the_ball = half;
    state.players[9].attributes.mental.anticipation = half;
    state.players[9].attributes.technical.finishing = half;
    state.players[9].attributes.physical.acceleration = half;
    state.players[9].attributes.physical.pace = half;
    let fit = poachers_dart_trigger(&state, 9);
    assert!(fit > 0i64, "fit must be positive");
    let expected = qmul(qmul(qmul(qmul(half, half), half), half), half);
    assert_eq!(
        fit, expected,
        "fit must equal off_the_ball × anticipation × finishing × acceleration × pace"
    );
}

#[test]
fn poachers_dart_zero_for_wrong_slot() {
    let mut state = baseline_state();
    set_all_attrs(&mut state, 8, ONE);
    assert_eq!(poachers_dart_trigger(&state, 8), 0i64);
}

#[test]
fn poachers_dart_zero_for_attrs_below_threshold() {
    let mut state = baseline_state();
    state.players[9].attributes.mental.off_the_ball = 0i64;
    state.players[9].attributes.mental.anticipation = 0i64;
    state.players[9].attributes.technical.finishing = 0i64;
    state.players[9].attributes.physical.acceleration = 0i64;
    state.players[9].attributes.physical.pace = 0i64;
    assert_eq!(poachers_dart_trigger(&state, 9), 0i64);
}

fn bound(id: &str) -> bool {
    let state = baseline_state();
    evaluate_trigger(&id.to_string(), &state, 0).is_some()
}

#[test]
fn trigger_table_contains_all_three_real_signatures() {
    assert!(bound("fwh.core:signature.body-shield-pressure"));
    assert!(bound("fwh.core:signature.long-range-strike"));
    assert!(bound("fwh.core:signature.first-time-diagonal-switch"));
}

#[test]
fn trigger_table_contains_all_t4_2_5j_signatures() {
    assert!(bound("fwh.core:signature.commanding-claim"));
    assert!(bound("fwh.core:signature.overlapping-surge"));
    assert!(bound("fwh.core:signature.screening-interception"));
    assert!(bound("fwh.core:signature.touchline-beat"));
    assert!(bound("fwh.core:signature.poachers-dart"));
}

#[test]
fn trigger_table_contains_no_op_stub() {
    assert!(bound("fwh.core:signature.no-op-stub"));
}

#[test]
fn trigger_table_no_op_entry_always_zero() {
    let state = baseline_state();
    let id = "fwh.core:signature.no-op-stub".to_string();
    for slot in 0..22u8 {
        assert_eq!(
            evaluate_trigger(&id, &state, slot),
            Some(0i64),
            "no_op trigger must return 0, slot={slot}"
        );
    }
}

#[test]
fn trigger_deterministic_same_state_same_result() {
    let mut state = baseline_state();
    set_all_attrs(&mut state, 8, ONE);
    let r1 = long_range_strike_trigger(&state, 8);
    let r2 = long_range_strike_trigger(&state, 8);
    assert_eq!(r1, r2, "trigger must be deterministic");
}

#[test]
fn poachers_dart_zero_for_right_winger_slot_10_max_attrs() {
    let mut state = baseline_state();
    set_all_attrs(&mut state, 10, ONE);
    let fit = poachers_dart_trigger(&state, 10);
    assert_eq!(
        fit,
        0i64,
        "poachers_dart must return 0 for slot 10 (in-team slot 10, right winger): \
         only in-team slot 9 is eligible"
    );
}

#[test]
fn body_shield_fit_score_exact_product() {
    let mut state = baseline_state();
    let half = (1i64 << 31);
    let three_quarters = (3i64 << 30);
    let point_six = (2_576_980_377_i64);

    state.players[1].attributes.technical.marking = half;
    state.players[1].attributes.physical.strength = three_quarters;
    state.players[1].attributes.personality.aggression = point_six;

    let fit = body_shield_pressure_trigger(&state, 1);

    let expected = qmul(qmul(half, three_quarters), point_six);
    assert_eq!(
        fit, expected,
        "body_shield fit-score must be the exact product marking × strength × aggression; \
         got {:?}, expected {:?}",
        fit, expected
    );
}

#[test]
fn body_shield_gate_exclusivity_characterizes_current_in_team_1_to_7_behavior() {
    let mut state = baseline_state();

    for slot in 0..11usize {
        set_all_attrs(&mut state, slot, ONE);
    }

    let gk_fit = body_shield_pressure_trigger(&state, 0);
    assert_eq!(
        gk_fit,
        0i64,
        "body_shield must return ZERO for GK (in_team=0): gate is 1..=7"
    );

    for in_team in 1u8..=7 {
        let slot = in_team as usize;
        let fit = body_shield_pressure_trigger(&state, slot as u8);
        assert!(
            fit > 0i64,
            "body_shield must fire for in_team={in_team} (DEF/MID, slot={slot}): \
             current gate is 1..=7 (DEF + all MID)"
        );
    }

    for in_team in [8u8, 9, 10] {
        let slot = in_team as usize;
        let fit = body_shield_pressure_trigger(&state, slot as u8);
        assert_eq!(
            fit,
            0i64,
            "body_shield must return ZERO for in_team={in_team} (FWD, slot={slot}): \
             gate is 1..=7 only"
        );
    }
}

#[test]
fn commanding_claim_fit_varies_with_attributes() {
    let half = (1i64 << 31);

    let mut state_hi = baseline_state();
    set_all_attrs(&mut state_hi, 0, ONE);

    let mut state_lo = baseline_state();
    state_lo.players[0].attributes.goalkeeper.aerial_reach = half;
    state_lo.players[0].attributes.goalkeeper.handling = half;
    state_lo.players[0].attributes.goalkeeper.command_of_area = half;

    let fit_hi = commanding_claim_trigger(&state_hi, 0);
    let fit_lo = commanding_claim_trigger(&state_lo, 0);

    assert!(
        fit_hi > fit_lo,
        "commanding_claim fit must increase with higher attributes: \
         hi={:?} lo={:?}",
        fit_hi,
        fit_lo
    );
}

#[test]
fn overlapping_surge_fit_varies_with_attributes() {
    let half = (1i64 << 31);

    let mut state_hi = baseline_state();
    set_all_attrs(&mut state_hi, 1, ONE);

    let mut state_lo = baseline_state();
    state_lo.players[1].attributes.physical.pace = half;
    state_lo.players[1].attributes.physical.stamina = half;
    state_lo.players[1].attributes.technical.crossing = half;

    let fit_hi = overlapping_surge_trigger(&state_hi, 1);
    let fit_lo = overlapping_surge_trigger(&state_lo, 1);

    assert!(
        fit_hi > fit_lo,
        "overlapping_surge fit must increase with higher attributes: \
         hi={:?} lo={:?}",
        fit_hi,
        fit_lo
    );
}

#[test]
fn screening_interception_fit_varies_with_attributes() {
    let half = (1i64 << 31);

    let mut state_hi = baseline_state();
    set_all_attrs(&mut state_hi, 5, ONE);

    let mut state_lo = baseline_state();
    state_lo.players[5].attributes.mental.anticipation = half;
    state_lo.players[5].attributes.mental.positioning = half;
    state_lo.players[5].attributes.technical.tackling = half;
    state_lo.players[5].attributes.technical.marking = half;

    let fit_hi = screening_interception_trigger(&state_hi, 5);
    let fit_lo = screening_interception_trigger(&state_lo, 5);

    assert!(
        fit_hi > fit_lo,
        "screening_interception fit must increase with higher attributes: \
         hi={:?} lo={:?}",
        fit_hi,
        fit_lo
    );
}

#[test]
fn touchline_beat_fit_varies_with_attributes() {
    let half = (1i64 << 31);

    let mut state_hi = baseline_state();
    set_all_attrs(&mut state_hi, 8, ONE);

    let mut state_lo = baseline_state();
    state_lo.players[8].attributes.technical.dribbling = half;
    state_lo.players[8].attributes.physical.pace = half;
    state_lo.players[8].attributes.technical.crossing = half;

    let fit_hi = touchline_beat_trigger(&state_hi, 8);
    let fit_lo = touchline_beat_trigger(&state_lo, 8);

    assert!(
        fit_hi > fit_lo,
        "touchline_beat fit must increase with higher attributes: \
         hi={:?} lo={:?}",
        fit_hi,
        fit_lo
    );
}

#[test]
fn poachers_dart_fit_varies_with_attributes() {
    let half = (1i64 << 31);

    let mut state_hi = baseline_state();
    set_all_attrs(&mut state_hi, 9, ONE);

    let mut state_lo = baseline_state();
    state_lo.players[9].attributes.mental.off_the_ball = half;
    state_lo.players[9].attributes.mental.anticipation = half;
    state_lo.players[9].attributes.technical.finishing = half;
    state_lo.players[9].attributes.physical.acceleration = half;
    state_lo.players[9].attributes.physical.pace = half;

    let fit_hi = poachers_dart_trigger(&state_hi, 9);
    let fit_lo = poachers_dart_trigger(&state_lo, 9);

    assert!(
        fit_hi > fit_lo,
        "poachers_dart fit must increase with higher attributes: \
         hi={:?} lo={:?}",
        fit_hi,
        fit_lo
    );}
