use fw_match_sim::fixed::{ONE, from_int};
use fw_match_sim::match_state::MatchState;
use fw_match_sim::signature::bias_apply::{SimBiasSnapshot, combine_active_biases};
use fw_match_sim::signature::dispatcher::{
    BiasCategory, CandidateContext, eligible_signatures, evaluate_signatures,
};

const NO_ACTIVE_LANES: [bool; 4] = [false, false, false, false];

fn make_candidate(id: &str, affinity_raw: i64, category: BiasCategory) -> CandidateContext {
    CandidateContext {
        signature_id: id.to_string(),
        affinity: affinity_raw,
        category: Some(category),
        cooldown_end: None,
    }
}

fn body_shield_ready(state: &mut MatchState) {
    let p = &mut state.players[1];
    p.attributes.technical.marking = ONE;
    p.attributes.physical.strength = ONE;
    p.attributes.personality.aggression = ONE;
}

#[test]
fn zero_candidates_returns_none() {
    let state = MatchState::initial(1);
    let result = evaluate_signatures(&state, 5, &Vec::new(), &NO_ACTIVE_LANES, None);
    assert!(result.is_none());
}

#[test]
fn no_op_trigger_never_eligible() {
    let state = MatchState::initial(1);
    let candidates =
        vec![make_candidate("fwh.core:signature.no-op-stub", ONE, BiasCategory::BuildUp)];
    let result = evaluate_signatures(&state, 5, &candidates, &NO_ACTIVE_LANES, None);
    assert!(result.is_none(), "no-op trigger should never fire");
}

#[test]
fn cooldown_prevents_signature_refiring() {
    let mut state = MatchState::initial(1);
    let slot: u8 = 1;
    let id = "fwh.core:signature.body-shield-pressure";
    body_shield_ready(&mut state);
    let mut c = make_candidate(id, ONE, BiasCategory::Defensive);
    c.cooldown_end = Some(600);
    let result = evaluate_signatures(&state, slot, &vec![c], &NO_ACTIVE_LANES, None);
    assert!(
        result.is_none(),
        "cooldown should prevent the signature from firing"
    );
}

#[test]
fn expired_cooldown_allows_fire() {
    let mut state = MatchState::initial(1);
    state.tick = 700;
    let slot: u8 = 1;
    body_shield_ready(&mut state);
    let id = "fwh.core:signature.body-shield-pressure";
    let mut c = make_candidate(id, ONE, BiasCategory::Defensive);
    c.cooldown_end = Some(600);
    let result = evaluate_signatures(&state, slot, &vec![c], &NO_ACTIVE_LANES, None);
    assert!(result.is_some(), "expired cooldown should allow firing");
    assert_eq!(result.unwrap(), id);
}

#[test]
fn stacking_prevents_same_category_co_fire() {
    let mut state = MatchState::initial(1);
    state.tick = 700;
    let slot: u8 = 1;
    body_shield_ready(&mut state);
    let id = "fwh.core:signature.body-shield-pressure";
    let candidates = vec![make_candidate(id, ONE, BiasCategory::Defensive)];
    // The Defensive lane (index 1) is occupied.
    let active_lanes = [false, true, false, false];
    let result = evaluate_signatures(&state, slot, &candidates, &active_lanes, None);
    assert!(
        result.is_none(),
        "stacking should block same-category co-fire"
    );
}

#[test]
fn p1_6_affinity_multiplied_by_fit_score_not_vacuous() {
    let mut state = MatchState::initial(99);
    state.tick = 700;
    let slot: u8 = 8;
    state.players[8].attributes.mental.composure = 1i64 << 31;
    state.players[8].attributes.technical.long_shots = 1i64 << 31;
    let id = "fwh.core:signature.long-range-strike";
    let candidates = vec![make_candidate(id, ONE, BiasCategory::Attacking)];

    let r = evaluate_signatures(&state, slot, &candidates, &NO_ACTIVE_LANES, None);
    assert!(
        r.is_some(),
        "player with composure=0.5 long_shots=0.5 (both ≥ 0.45 threshold) should be eligible"
    );
    // The weight is affinity × fit = 1.0 × 0.25, not the affinity alone.
    let eligible = eligible_signatures(&state, slot, &candidates, &NO_ACTIVE_LANES);
    assert_eq!(eligible, vec![(id.to_string(), ONE / 4)]);

    let r2 = evaluate_signatures(&state, slot, &candidates, &NO_ACTIVE_LANES, None);
    assert_eq!(r, r2, "same fit score must produce the same result");
}

#[test]
fn same_seed_same_input_same_picked_signature() {
    let mut state = MatchState::initial(42);
    state.tick = 700;
    let slot: u8 = 8;
    let p = &mut state.players[8];
    p.attributes.mental.composure = ONE;
    p.attributes.technical.long_shots = ONE;
    let id = "fwh.core:signature.long-range-strike";
    let candidates = vec![make_candidate(id, ONE, BiasCategory::Attacking)];
    let r1 = evaluate_signatures(&state, slot, &candidates, &NO_ACTIVE_LANES, Some(0));
    let r2 = evaluate_signatures(&state, slot, &candidates, &NO_ACTIVE_LANES, Some(0));
    assert_eq!(r1, r2, "determinism violated");
}

#[test]
fn several_eligible_take_the_picked_one_in_candidate_order() {
    let mut state = MatchState::initial(8);
    state.tick = 700;
    // Slot 5: a midfielder eligible for both long-range strike and the
    // diagonal switch, and (in-team slot 5) the screening interception.
    let p = &mut state.players[5];
    p.attributes.mental.composure = ONE;
    p.attributes.technical.long_shots = ONE;
    p.attributes.mental.vision = ONE;
    p.attributes.technical.passing = ONE;
    let candidates = vec![
        make_candidate("fwh.core:signature.long-range-strike", ONE, BiasCategory::Attacking),
        make_candidate(
            "fwh.core:signature.first-time-diagonal-switch",
            ONE / 2,
            BiasCategory::BuildUp,
        ),
        make_candidate("fwh.core:signature.no-op-stub", ONE, BiasCategory::SetPiece),
    ];
    let eligible = eligible_signatures(&state, 5, &candidates, &NO_ACTIVE_LANES);
    assert_eq!(
        eligible,
        vec![
            ("fwh.core:signature.long-range-strike".to_string(), ONE),
            ("fwh.core:signature.first-time-diagonal-switch".to_string(), ONE / 2),
        ]
    );
    assert_eq!(
        evaluate_signatures(&state, 5, &candidates, &NO_ACTIVE_LANES, Some(1)),
        Some("fwh.core:signature.first-time-diagonal-switch".to_string())
    );
    assert_eq!(evaluate_signatures(&state, 5, &candidates, &NO_ACTIVE_LANES, Some(2)), None);
    assert_eq!(evaluate_signatures(&state, 5, &candidates, &NO_ACTIVE_LANES, None), None);
}

#[test]
fn candidate_without_definition_is_skipped() {
    let mut state = MatchState::initial(1);
    body_shield_ready(&mut state);
    let mut c = make_candidate("fwh.core:signature.body-shield-pressure", ONE, BiasCategory::Defensive);
    c.category = None;
    assert!(evaluate_signatures(&state, 1, &vec![c], &NO_ACTIVE_LANES, None).is_none());
}

// ---------------------------------------------------------------------------
// combine_active_biases
// ---------------------------------------------------------------------------

fn q32(int: i32, tenths: i32) -> i64 {
    from_int(int) + ((tenths as i64) << 32) / 10
}

fn snap(
    shoot: (i32, i32),
    pass: (i32, i32),
    dribble: (i32, i32),
    press: (i32, i32),
    cover: (i32, i32),
) -> SimBiasSnapshot {
    SimBiasSnapshot {
        shoot_mul: q32(shoot.0, shoot.1),
        pass_mul: q32(pass.0, pass.1),
        dribble_mul: q32(dribble.0, dribble.1),
        press_mul: q32(press.0, press.1),
        cover_mul: q32(cover.0, cover.1),
    }
}

#[test]
fn combine_active_biases_empty_returns_none() {
    let lanes: [Option<SimBiasSnapshot>; 4] = [None, None, None, None];
    assert!(combine_active_biases(&lanes).is_none());
}

#[test]
fn combine_active_biases_single_lane_returns_that_snapshot() {
    let attacking_snap = snap((1, 5), (1, 0), (1, 2), (1, 0), (1, 0));
    let mut lanes: [Option<SimBiasSnapshot>; 4] = [None, None, None, None];
    lanes[0] = Some(attacking_snap);
    let composite = combine_active_biases(&lanes).expect("one active lane");
    assert_eq!(composite.shoot_mul, attacking_snap.shoot_mul);
    assert_eq!(composite.dribble_mul, attacking_snap.dribble_mul);
    assert_eq!(composite.pass_mul, ONE);
}

#[test]
fn combine_active_biases_two_lanes_compose_multiplicatively() {
    let attacking_snap = snap((1, 5), (1, 0), (1, 2), (1, 0), (1, 0));
    let buildup_snap = snap((1, 0), (1, 4), (1, 0), (1, 0), (1, 0));
    let mut lanes: [Option<SimBiasSnapshot>; 4] = [None, None, None, None];
    lanes[0] = Some(attacking_snap);
    lanes[2] = Some(buildup_snap);
    let composite = combine_active_biases(&lanes).expect("two active lanes");
    assert_eq!(composite.shoot_mul, attacking_snap.shoot_mul);
    assert_eq!(composite.pass_mul, buildup_snap.pass_mul);
    assert_eq!(composite.press_mul, ONE);
    assert_eq!(composite.cover_mul, ONE);
    assert_eq!(composite.dribble_mul, attacking_snap.dribble_mul);
}

#[test]
fn combine_active_biases_fold_strictly_dominates_find_map_behavior() {
    let attacking_snap = snap((1, 5), (1, 0), (1, 0), (1, 0), (1, 0));
    let buildup_snap = snap((1, 0), (1, 4), (1, 0), (1, 0), (1, 0));
    let mut lanes: [Option<SimBiasSnapshot>; 4] = [None, None, None, None];
    lanes[0] = Some(attacking_snap);
    lanes[2] = Some(buildup_snap);
    let composite = combine_active_biases(&lanes).unwrap();
    let first_lane_only = attacking_snap;
    assert_ne!(composite.pass_mul, first_lane_only.pass_mul);
}

#[test]
fn combine_active_biases_multiplies_same_field_across_lanes() {
    // 1.5 × 1.5 = 2.25 on the shoot multiplier.
    let a = snap((1, 5), (1, 0), (1, 0), (1, 0), (1, 0));
    let lanes = [Some(a), None, None, Some(a)];
    let c = combine_active_biases(&lanes).unwrap();
    assert_eq!(c.shoot_mul, from_int(2) + ONE / 4);
}
