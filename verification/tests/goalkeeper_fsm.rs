use fw_match_sim::ball::BallState;
use fw_match_sim::fixed::{ONE, from_int};
use fw_match_sim::goalkeeper_fsm::{dispatch_state, evaluate_transitions, tick_goalkeeper};
use fw_match_sim::player::{PlayerAttributes, PlayerState};
use fw_match_sim::role_states::{GoalkeeperState, PlayerIntent};
use rand_chacha::ChaCha8Rng;
use rand_chacha::rand_core::SeedableRng;

fn mk_rng() -> ChaCha8Rng {
    ChaCha8Rng::seed_from_u64(0)
}

fn ball_at(bx: i32, bvx: i32) -> BallState {
    ball_at_xy(bx, 0, bvx)
}

fn ball_at_xy(bx: i32, by: i32, bvx: i32) -> BallState {
    BallState {
        pos_x: from_int(bx),
        pos_y: from_int(by),
        pos_z: 0i64,
        vel_x: from_int(bvx),
        vel_y: 0i64,
        vel_z: 0i64,
        spin_x: 0i64,
        spin_y: 0i64,
        spin_z: 0i64,
    }
}

#[test]
fn home_gk_ball_in_penalty_area_approaching_gives_shot_stopping() {
    let ball = ball_at(-33, -5);
    let state = evaluate_transitions(GoalkeeperState::InBoxPositioning, 0, &ball);
    assert_eq!(
        state,
        GoalkeeperState::ShotStopping,
        "ball in penalty area + approaching goal must give ShotStopping"
    );
}

#[test]
fn home_gk_ball_in_own_half_approaching_gives_sweeper_rush() {
    let ball = ball_at(-15, -3);
    let state = evaluate_transitions(GoalkeeperState::InBoxPositioning, 0, &ball);
    assert_eq!(
        state,
        GoalkeeperState::SweeperKeeperRush,
        "ball in own half + approaching goal must give SweeperKeeperRush"
    );
}

#[test]
fn home_gk_ball_near_goal_line_gives_distributing() {
    let ball = ball_at(-43, 2);
    let state = evaluate_transitions(GoalkeeperState::InBoxPositioning, 0, &ball);
    assert_eq!(
        state,
        GoalkeeperState::DistributingFromHand,
        "ball near goal line must give DistributingFromHand"
    );
}

#[test]
fn home_gk_ball_in_attacking_half_gives_in_box_positioning() {
    let ball = ball_at(20, 3);
    let state = evaluate_transitions(GoalkeeperState::InBoxPositioning, 0, &ball);
    assert_eq!(
        state,
        GoalkeeperState::InBoxPositioning,
        "ball in attacking half must give InBoxPositioning"
    );
}

#[test]
fn away_gk_ball_in_penalty_area_approaching_gives_shot_stopping() {
    let ball = ball_at(33, 5);
    let state = evaluate_transitions(GoalkeeperState::InBoxPositioning, 11, &ball);
    assert_eq!(state, GoalkeeperState::ShotStopping);
}

#[test]
fn away_gk_ball_in_own_half_approaching_gives_sweeper_rush() {
    let ball = ball_at(15, 3);
    let state = evaluate_transitions(GoalkeeperState::InBoxPositioning, 11, &ball);
    assert_eq!(state, GoalkeeperState::SweeperKeeperRush);
}

#[test]
fn away_gk_ball_near_goal_line_gives_distributing() {
    let ball = ball_at(43, -2);
    let state = evaluate_transitions(GoalkeeperState::InBoxPositioning, 11, &ball);
    assert_eq!(state, GoalkeeperState::DistributingFromHand);
}

fn dummy_player() -> PlayerState {
    PlayerState::at(0u8, 0i64, 0i64)
}

#[test]
fn tick_goalkeeper_shot_stopping_scenario_reaches_shot_stopping_state() {
    let ball = ball_at(-33, -5);
    let player = dummy_player();
    let (state, intent) = tick_goalkeeper(
        GoalkeeperState::InBoxPositioning,
        &player,
        0,
        &ball,
        &mut mk_rng(),
    );
    assert_eq!(state, GoalkeeperState::ShotStopping);
    assert!(
        matches!(intent, PlayerIntent::GkShotStop { .. }),
        "ShotStopping must produce GkShotStop intent; got {:?}",
        intent
    );
}

#[test]
fn tick_goalkeeper_sweeper_scenario_reaches_sweeper_state() {
    let ball = ball_at(-15, -3);
    let player = dummy_player();
    let (state, intent) = tick_goalkeeper(
        GoalkeeperState::InBoxPositioning,
        &player,
        0,
        &ball,
        &mut mk_rng(),
    );
    assert_eq!(state, GoalkeeperState::SweeperKeeperRush);
    assert!(matches!(intent, PlayerIntent::GkSweeperRush { .. }));
}

#[test]
fn home_gk_slot0_in_box_positioning_returns_goal_line_position() {
    let ball = ball_at(20, 3);
    let player = dummy_player();
    let (_, intent) = tick_goalkeeper(
        GoalkeeperState::InBoxPositioning,
        &player,
        0,
        &ball,
        &mut mk_rng(),
    );
    match intent {
        PlayerIntent::MoveToPosition { target_x, target_y } => {
            assert_eq!(target_x, from_int(-45), "home GK should target x=−45");
            assert_eq!(target_y, from_int(0), "home GK should target y=0");
        }
        other => panic!(
            "GK returned unexpected intent {:?}; expected MoveToPosition",
            other
        ),
    }
}

#[test]
fn away_gk_slot11_in_box_positioning_returns_goal_line_position() {
    let ball = ball_at(-20, -3);
    let player = dummy_player();
    let (_, intent) = tick_goalkeeper(
        GoalkeeperState::InBoxPositioning,
        &player,
        11,
        &ball,
        &mut mk_rng(),
    );
    match intent {
        PlayerIntent::MoveToPosition { target_x, target_y } => {
            assert_eq!(target_x, from_int(45), "away GK should target x=+45");
            assert_eq!(target_y, from_int(0), "away GK should target y=0");
        }
        other => panic!(
            "GK returned unexpected intent {:?}; expected MoveToPosition",
            other
        ),
    }
}

#[test]
fn every_gk_state_produces_non_idle_intent() {
    let player = dummy_player();
    let all_states = [
        GoalkeeperState::InBoxPositioning,
        GoalkeeperState::SweeperKeeperRush,
        GoalkeeperState::ShotStopping,
        GoalkeeperState::DistributingFromHand,
        GoalkeeperState::DistributingFromFeet,
        GoalkeeperState::PenaltyStance,
        GoalkeeperState::SetPieceWall,
        GoalkeeperState::Recovering,
    ];
    for state in all_states {
        let intent = dispatch_state(state, 0, &player, &ball_at(0, 0));
        assert!(
            !matches!(intent, PlayerIntent::Idle),
            "GK state {:?} produced Idle; expected a positional intent",
            state
        );
    }
}

#[test]
fn dispatch_state_sweeper_rush_returns_gk_sweeper_rush_intent() {
    let player = dummy_player();
    let intent = dispatch_state(
        GoalkeeperState::SweeperKeeperRush,
        0,
        &player,
        &ball_at(0, 0),
    );
    assert!(
        matches!(intent, PlayerIntent::GkSweeperRush { .. }),
        "dispatch_state(SweeperKeeperRush) should produce GkSweeperRush intent; got {:?}",
        intent
    );
}

#[test]
fn dispatch_state_shot_stopping_returns_gk_shot_stop_intent() {
    let player = dummy_player();
    let intent = dispatch_state(GoalkeeperState::ShotStopping, 0, &player, &ball_at(0, 0));
    assert!(
        matches!(intent, PlayerIntent::GkShotStop { .. }),
        "dispatch_state(ShotStopping) should produce GkShotStop intent; got {:?}",
        intent
    );
}

#[test]
fn dispatch_state_distributing_from_hand_returns_gk_distribute_short() {
    let player = dummy_player();
    let intent = dispatch_state(
        GoalkeeperState::DistributingFromHand,
        0,
        &player,
        &ball_at(0, 0),
    );
    assert!(
        matches!(intent, PlayerIntent::GkDistributeShort { .. }),
        "dispatch_state(DistributingFromHand) should produce GkDistributeShort; got {:?}",
        intent
    );
}

#[test]
fn dispatch_state_distributing_from_feet_returns_gk_distribute_long() {
    let player = dummy_player();
    let intent = dispatch_state(
        GoalkeeperState::DistributingFromFeet,
        0,
        &player,
        &ball_at(0, 0),
    );
    assert!(
        matches!(intent, PlayerIntent::GkDistributeLong { .. }),
        "dispatch_state(DistributingFromFeet) should produce GkDistributeLong; got {:?}",
        intent
    );
}

#[test]
fn gk_tick_is_deterministic() {
    let ball = ball_at(-33, -5);
    let player = dummy_player();
    let (s1, i1) = tick_goalkeeper(
        GoalkeeperState::InBoxPositioning,
        &player,
        0,
        &ball,
        &mut mk_rng(),
    );
    let (s2, i2) = tick_goalkeeper(
        GoalkeeperState::InBoxPositioning,
        &player,
        0,
        &ball,
        &mut mk_rng(),
    );
    assert_eq!(s1, s2);
    assert_eq!(i1, i2);
}

fn player_with_attr_mut(mut_fn: impl FnOnce(&mut PlayerAttributes)) -> PlayerState {
    let mut p = dummy_player();
    mut_fn(p.attributes_mut());
    p
}

#[test]
fn gk_shot_stopping_reads_reflexes() {
    let ball = ball_at_xy(-30, 5, -5);
    let p_low = player_with_attr_mut(|a| a.goalkeeper.reflexes = 0i64);
    let p_high = player_with_attr_mut(|a| a.goalkeeper.reflexes = ONE);
    let i_low = dispatch_state(GoalkeeperState::ShotStopping, 0, &p_low, &ball);
    let i_high = dispatch_state(GoalkeeperState::ShotStopping, 0, &p_high, &ball);
    assert_ne!(i_low, i_high, "shot_stopping must read reflexes");
}

#[test]
fn gk_shot_stopping_reads_positioning() {
    let ball = ball_at_xy(-30, 5, -5);
    let p_low = player_with_attr_mut(|a| a.mental.positioning = 0i64);
    let p_high = player_with_attr_mut(|a| a.mental.positioning = ONE);
    let i_low = dispatch_state(GoalkeeperState::ShotStopping, 0, &p_low, &ball);
    let i_high = dispatch_state(GoalkeeperState::ShotStopping, 0, &p_high, &ball);
    assert_ne!(i_low, i_high, "shot_stopping must read mental.positioning");
}

#[test]
fn gk_shot_stopping_reads_composure() {
    let ball = ball_at_xy(-30, 5, -5);
    let p_low = player_with_attr_mut(|a| a.mental.composure = 0i64);
    let p_high = player_with_attr_mut(|a| a.mental.composure = ONE);
    let i_low = dispatch_state(GoalkeeperState::ShotStopping, 0, &p_low, &ball);
    let i_high = dispatch_state(GoalkeeperState::ShotStopping, 0, &p_high, &ball);
    assert_ne!(i_low, i_high, "shot_stopping must read mental.composure");
}

#[test]
fn gk_shot_stopping_doesnt_read_off_binding_attr() {
    let ball = ball_at_xy(-30, 5, -5);
    let p_low = player_with_attr_mut(|a| a.mental.flair = 0i64);
    let p_high = player_with_attr_mut(|a| a.mental.flair = ONE);
    let i_low = dispatch_state(GoalkeeperState::ShotStopping, 0, &p_low, &ball);
    let i_high = dispatch_state(GoalkeeperState::ShotStopping, 0, &p_high, &ball);
    assert_eq!(
        i_low, i_high,
        "shot_stopping must NOT read mental.flair (off-binding)"
    );
}

#[test]
fn gk_sweeper_rush_reads_one_on_ones() {
    let ball = ball_at(-15, -5);
    let p_low = player_with_attr_mut(|a| a.goalkeeper.one_on_ones = 0i64);
    let p_high = player_with_attr_mut(|a| a.goalkeeper.one_on_ones = ONE);
    let i_low = dispatch_state(GoalkeeperState::SweeperKeeperRush, 0, &p_low, &ball);
    let i_high = dispatch_state(GoalkeeperState::SweeperKeeperRush, 0, &p_high, &ball);
    assert_ne!(i_low, i_high, "sweeper_rush must read one_on_ones");
}

#[test]
fn gk_sweeper_rush_reads_command_of_area() {
    let ball = ball_at(-15, -5);
    let p_low = player_with_attr_mut(|a| a.goalkeeper.command_of_area = 0i64);
    let p_high = player_with_attr_mut(|a| a.goalkeeper.command_of_area = ONE);
    let i_low = dispatch_state(GoalkeeperState::SweeperKeeperRush, 0, &p_low, &ball);
    let i_high = dispatch_state(GoalkeeperState::SweeperKeeperRush, 0, &p_high, &ball);
    assert_ne!(i_low, i_high, "sweeper_rush must read command_of_area");
}

#[test]
fn gk_sweeper_rush_doesnt_read_off_binding_attr() {
    let ball = ball_at(-15, -5);
    let p_low = player_with_attr_mut(|a| a.goalkeeper.handling = 0i64);
    let p_high = player_with_attr_mut(|a| a.goalkeeper.handling = ONE);
    let i_low = dispatch_state(GoalkeeperState::SweeperKeeperRush, 0, &p_low, &ball);
    let i_high = dispatch_state(GoalkeeperState::SweeperKeeperRush, 0, &p_high, &ball);
    assert_eq!(
        i_low, i_high,
        "sweeper_rush must NOT read goalkeeper.handling (off-binding)"
    );
}

#[test]
fn gk_distribution_short_reads_kicking() {
    let ball = ball_at(-45, 0);
    let p_low = player_with_attr_mut(|a| a.goalkeeper.kicking = 0i64);
    let p_high = player_with_attr_mut(|a| a.goalkeeper.kicking = ONE);
    let i_low = dispatch_state(GoalkeeperState::DistributingFromHand, 0, &p_low, &ball);
    let i_high = dispatch_state(GoalkeeperState::DistributingFromHand, 0, &p_high, &ball);
    assert_ne!(i_low, i_high, "distribution_short must read kicking");
}

#[test]
fn gk_distribution_short_doesnt_read_off_binding_attr() {
    let ball = ball_at(-45, 0);
    let p_low = player_with_attr_mut(|a| a.physical.pace = 0i64);
    let p_high = player_with_attr_mut(|a| a.physical.pace = ONE);
    let i_low = dispatch_state(GoalkeeperState::DistributingFromHand, 0, &p_low, &ball);
    let i_high = dispatch_state(GoalkeeperState::DistributingFromHand, 0, &p_high, &ball);
    assert_eq!(
        i_low, i_high,
        "distribution_short must NOT read physical.pace (off-binding)"
    );
}

#[test]
fn gk_distribution_long_reads_kicking() {
    let ball = ball_at(-45, 0);
    let p_low = player_with_attr_mut(|a| a.goalkeeper.kicking = 0i64);
    let p_high = player_with_attr_mut(|a| a.goalkeeper.kicking = ONE);
    let i_low = dispatch_state(GoalkeeperState::DistributingFromFeet, 0, &p_low, &ball);
    let i_high = dispatch_state(GoalkeeperState::DistributingFromFeet, 0, &p_high, &ball);
    assert_ne!(i_low, i_high, "distribution_long must read kicking");
}

#[test]
fn gk_distribution_long_reads_vision() {
    let ball = ball_at(-45, 0);
    let p_low = player_with_attr_mut(|a| a.mental.vision = 0i64);
    let p_high = player_with_attr_mut(|a| a.mental.vision = ONE);
    let i_low = dispatch_state(GoalkeeperState::DistributingFromFeet, 0, &p_low, &ball);
    let i_high = dispatch_state(GoalkeeperState::DistributingFromFeet, 0, &p_high, &ball);
    assert_ne!(i_low, i_high, "distribution_long must read mental.vision");
}

#[test]
fn gk_distribution_long_doesnt_read_off_binding_attr() {
    let ball = ball_at(-45, 0);
    let p_low = player_with_attr_mut(|a| a.mental.composure = 0i64);
    let p_high = player_with_attr_mut(|a| a.mental.composure = ONE);
    let i_low = dispatch_state(GoalkeeperState::DistributingFromFeet, 0, &p_low, &ball);
    let i_high = dispatch_state(GoalkeeperState::DistributingFromFeet, 0, &p_high, &ball);
    assert_eq!(
        i_low, i_high,
        "distribution_long must NOT read mental.composure (off-binding)"
    );
}