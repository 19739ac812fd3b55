use fw_match_sim::dispatch::{
    V_GK_SPEED, V_PACE_BASE, V_PACE_RANGE, apply_offside, apply_vel_toward_target, ball_unit_vel,
    drop_loose_ball, shot_pressure_feature_q32,
    is_offside_at_pass_launch, is_set_piece_offside_exempt, nearest_teammate_near, player_v_max,
    preempt_check, shot_angle_feature_q32, shot_distance_feature_q32,
    suppress_ball_launch_during_flight,
};
use fw_match_sim::fixed::{ONE, from_int, q_mul, q_sqrt};
use fw_match_sim::match_state::MatchState;
use fw_match_sim::role_states::PlayerIntent;
use fw_match_sim::tactic::{SetPieceKind, TacticEvent, TacticState};

const GOAL_LINE_X: i64 = 225485783040;

// ---------------------------------------------------------------------------
// Loose-ball chase
// ---------------------------------------------------------------------------

#[test]
fn preempt_check_home_gk_does_not_chase_away_ball() {
    let mut state = MatchState::initial(1);
    state.possession = None;
    state.ball.pos_x = from_int(45);
    state.ball.pos_y = 0;
    state.ball.vel_x = 0;
    state.ball.vel_y = 0;

    let intent = preempt_check(&state, 0);
    assert!(
        intent.is_none(),
        "home GK (slot 0) must NOT chase a loose ball near the AWAY goal \
         (ball at x=+45m); got {intent:?}"
    );
}

#[test]
fn preempt_check_home_gk_chases_loose_ball_within_42m_of_own_goal() {
    let mut state = MatchState::initial(1);
    state.possession = None;
    state.ball.pos_x = from_int(-43);
    state.ball.pos_y = from_int(2);
    state.ball.vel_x = 0;
    state.ball.vel_y = 0;

    let intent = preempt_check(&state, 0);
    match intent {
        Some(PlayerIntent::MoveToPosition { target_x, target_y }) => {
            assert_eq!(
                target_x, state.ball.pos_x,
                "preempt MoveToPosition target_x must equal ball.pos_x"
            );
            assert_eq!(
                target_y, state.ball.pos_y,
                "preempt MoveToPosition target_y must equal ball.pos_y"
            );
        }
        other => panic!(
            "home GK (slot 0) must chase ball within 10m of own goal line; \
             expected MoveToPosition, got {other:?}"
        ),
    }
}

#[test]
fn preempt_check_outfield_chaser_count_caps_at_2() {
    let mut state = MatchState::initial(1);
    state.possession = None;
    state.ball.pos_x = 0;
    state.ball.pos_y = 0;
    state.ball.vel_x = 0;
    state.ball.vel_y = 0;

    for (i, slot) in [1usize, 2, 3, 4, 5].iter().enumerate() {
        state.players[*slot].pos_x = from_int((i as i32) + 1);
        state.players[*slot].pos_y = 0;
    }
    for slot in [6usize, 7, 8, 9, 10] {
        state.players[slot].pos_x = from_int(40);
        state.players[slot].pos_y = from_int(20);
    }

    let chasers: Vec<usize> = [1usize, 2, 3, 4, 5]
        .iter()
        .copied()
        .filter(|&slot| preempt_check(&state, slot).is_some())
        .collect();

    assert_eq!(
        chasers.len(),
        2,
        "exactly 2 of the 5 nearest same-team outfielders must preempt-chase; \
         got {} chasers: {:?}",
        chasers.len(),
        chasers
    );
    assert_eq!(
        chasers,
        vec![1, 2],
        "the nearest 2 outfielders should chase; got {chasers:?}"
    );

    let second_pass: Vec<usize> = [1usize, 2, 3, 4, 5]
        .iter()
        .copied()
        .filter(|&slot| preempt_check(&state, slot).is_some())
        .collect();
    assert_eq!(chasers, second_pass);
}

#[test]
fn preempt_check_only_fires_on_loose_ball() {
    let mut state = MatchState::initial(1);
    state.possession = Some(9);
    state.ball.pos_x = from_int(-44);
    state.ball.pos_y = 0;
    state.ball.vel_x = 0;
    state.ball.vel_y = 0;

    assert!(
        preempt_check(&state, 0).is_none(),
        "preempt_check must return None for GK while possession is held"
    );
    state.players[1].pos_x = state.ball.pos_x;
    state.players[1].pos_y = state.ball.pos_y;
    assert!(
        preempt_check(&state, 1).is_none(),
        "preempt_check must return None for outfielders while possession is held"
    );
}

// ---------------------------------------------------------------------------
// Speed cap
// ---------------------------------------------------------------------------

#[test]
fn v_pace_base_plus_range_equals_nine_ms() {
    let nine_ms = 9_i64 << 32;
    assert_eq!(
        V_PACE_BASE + V_PACE_RANGE,
        nine_ms,
        "V_PACE_BASE + V_PACE_RANGE should equal 9.0 m/s (9<<32)"
    );
}

#[test]
fn player_v_max_at_zero_pace_equals_base() {
    let v = player_v_max(0);
    assert_eq!(
        v, V_PACE_BASE,
        "player_v_max(0) should equal V_PACE_BASE=6.5 m/s; got {v:?}"
    );
}

#[test]
fn player_v_max_at_full_pace_equals_base_plus_range() {
    let v = player_v_max(ONE);
    let expected = V_PACE_BASE + V_PACE_RANGE;
    assert_eq!(
        v, expected,
        "player_v_max(1) should equal 9.0 m/s; got {v:?}"
    );
}

#[test]
fn player_v_max_monotone_with_pace() {
    let v0 = player_v_max(0);
    let v_half = player_v_max(1_i64 << 31);
    let v1 = player_v_max(ONE);
    assert!(v0 <= v_half, "v(0)={v0:?} > v(0.5)={v_half:?}");
    assert!(v_half <= v1, "v(0.5)={v_half:?} > v(1)={v1:?}");
}

#[test]
fn player_v_max_at_half_pace_is_seven_and_three_quarters() {
    assert_eq!(player_v_max(ONE / 2), 33285996544);
    assert_ne!(player_v_max(ONE / 2), V_GK_SPEED);
}

// ---------------------------------------------------------------------------
// Shot features
// ---------------------------------------------------------------------------

#[test]
fn shot_angle_feature_is_one_centrally_and_zero_wide() {
    assert_eq!(shot_angle_feature_q32(0), ONE);
    assert_eq!(shot_angle_feature_q32(from_int(25)), 0);
    assert_eq!(shot_angle_feature_q32(from_int(-30)), 0);
    // |y| = 12.5 m → 1 − 0.5 = 0.5.
    assert_eq!(shot_angle_feature_q32(-(from_int(25) / 2)), ONE / 2);
}

#[test]
fn shot_distance_feature_depends_on_attacked_goal() {
    // Home shooter 17.5 m from the +x goal line: 1 − 0.5.
    let x = GOAL_LINE_X - from_int(35) / 2;
    assert_eq!(shot_distance_feature_q32(x, 9, GOAL_LINE_X), ONE / 2);
    // The same spot is 87.5 m from the away team's target.
    assert_eq!(shot_distance_feature_q32(x, 20, GOAL_LINE_X), 0);
    // On the goal line itself: 1.
    assert_eq!(shot_distance_feature_q32(-GOAL_LINE_X, 20, GOAL_LINE_X), ONE);
}

// ---------------------------------------------------------------------------
// Pass target and failed-pass drop
// ---------------------------------------------------------------------------

#[test]
fn nearest_teammate_is_never_the_passer() {
    let mut state = MatchState::initial(3);
    // Passer 6 stands on the target; the nearest other teammate wins.
    state.players[6].pos_x = 0;
    state.players[6].pos_y = 0;
    state.players[7].pos_x = from_int(1);
    state.players[7].pos_y = 0;
    assert_eq!(nearest_teammate_near(&state, 6, 0, 0), 7);
    // Away passer: receiver from the away roster.
    let r = nearest_teammate_near(&state, 20, 0, 0);
    assert!(r >= 11 && r < 22 && r != 20);
}

#[test]
fn failed_forward_pass_drops_forty_percent_along_with_lateral_offset() {
    let mut state = MatchState::initial(4);
    // Passer (home 6) at (0, 0), pass to (10, 0).
    state.players[6].pos_x = 0;
    state.players[6].pos_y = 0;
    // Away players all far above the lane: the nearest is above → offset −0.4 m.
    for slot in 11..22 {
        state.players[slot].pos_x = from_int(4);
        state.players[slot].pos_y = from_int(10 + slot as i32);
    }
    let before = state.clone();
    drop_loose_ball(&mut state, 0, 0, from_int(10), 0, true);
    let drop_x = ((1717986918i128 * from_int(10) as i128) >> 32) as i64;
    assert_eq!(state.ball.pos_x, drop_x);
    assert_eq!(state.ball.pos_y, -1717986918);
    assert_eq!((state.ball.vel_x, state.ball.vel_y, state.ball.vel_z), (0, 0, 0));
    assert_eq!(state.players, before.players);
    assert_eq!(state.possession, before.possession);
}

#[test]
fn failed_backward_pass_drops_twenty_percent() {
    let mut state = MatchState::initial(4);
    state.players[6].pos_x = 0;
    state.players[6].pos_y = 0;
    for slot in 11..22 {
        state.players[slot].pos_x = from_int(4);
        state.players[slot].pos_y = -from_int(10 + slot as i32);
    }
    drop_loose_ball(&mut state, 0, 0, -from_int(10), 0, false);
    let drop_x = ((858993459i128 * (-from_int(10)) as i128) >> 32) as i64;
    assert_eq!(state.ball.pos_x, drop_x);
    // Nearest opponent below the line → offset +0.4 m.
    assert_eq!(state.ball.pos_y, 1717986918);
}

// ---------------------------------------------------------------------------
// Offside
// ---------------------------------------------------------------------------

#[test]
fn set_piece_restarts_are_offside_exempt() {
    assert!(is_set_piece_offside_exempt(TacticState::SetPiece(SetPieceKind::ThrowInFor)));
    assert!(is_set_piece_offside_exempt(TacticState::SetPiece(SetPieceKind::FreeKickFor)));
    assert!(is_set_piece_offside_exempt(TacticState::SetPiece(SetPieceKind::KickOff)));
    assert!(!is_set_piece_offside_exempt(TacticState::MidBlock));
    assert!(!is_set_piece_offside_exempt(TacticState::HighPress));
}

fn offside_scene() -> MatchState {
    let mut state = MatchState::initial(5);
    state.players[6].pos_x = from_int(20);
    state.players[9].pos_x = from_int(40);
    state.ball.pos_x = from_int(20);
    // The away keeper deepest, one defender at 35 m: the offside line.
    state.players[11].pos_x = from_int(50);
    for k in 12..22 {
        state.players[k].pos_x = from_int(10);
    }
    state.players[13].pos_x = from_int(35);
    state
}

#[test]
fn receiver_beyond_line_and_ball_in_final_zone_is_offside() {
    let state = offside_scene();
    assert!(is_offside_at_pass_launch(&state, TacticState::MidBlock, 6, 9));
    // Level with the second-rearmost defender is onside.
    let mut level = offside_scene();
    level.players[9].pos_x = from_int(35);
    assert!(!is_offside_at_pass_launch(&level, TacticState::MidBlock, 6, 9));
    // A restart is exempt.
    assert!(!is_offside_at_pass_launch(&state, TacticState::SetPiece(SetPieceKind::CornerFor), 6, 9));
    // Behind the ball is onside.
    let mut behind_ball = offside_scene();
    behind_ball.ball.pos_x = from_int(45);
    assert!(!is_offside_at_pass_launch(&behind_ball, TacticState::MidBlock, 6, 9));
}

#[test]
fn offside_is_called_anywhere_beyond_the_line() {
    // A high line at 5 m: a receiver at 10 m, ahead of passer and ball, is
    // offside though far from the goal.
    let mut state = MatchState::initial(5);
    state.players[6].pos_x = 0;
    state.ball.pos_x = 0;
    state.players[9].pos_x = from_int(10);
    for k in 11..22 {
        state.players[k].pos_x = from_int(5);
    }
    state.players[11].pos_x = from_int(40);
    assert!(is_offside_at_pass_launch(&state, TacticState::MidBlock, 6, 9));
    // The away team attacks −x: mirrored, a home defender line at −5 m.
    let mut away = MatchState::initial(5);
    away.players[17].pos_x = 0;
    away.ball.pos_x = 0;
    away.players[20].pos_x = from_int(-10);
    for k in 0..11 {
        away.players[k].pos_x = from_int(-5);
    }
    away.players[0].pos_x = from_int(-40);
    assert!(is_offside_at_pass_launch(&away, TacticState::MidBlock, 17, 20));
    away.players[20].pos_x = from_int(-5);
    assert!(!is_offside_at_pass_launch(&away, TacticState::MidBlock, 17, 20));
}

#[test]
fn offside_restart_goes_to_opposing_goalkeeper() {
    let mut state = offside_scene();
    state.possession = Some(6);
    let gk = (state.players[11].pos_x, state.players[11].pos_y);
    let events = apply_offside(&mut state, 6, 9);
    assert_eq!(
        state.match_events.last(),
        Some(&fw_match_sim::match_event::MatchEvent::Offside { offending_slot: 9, tick: 0 })
    );
    assert_eq!(state.possession, Some(11));
    assert_eq!(state.last_touched_by, Some(11));
    assert_eq!((state.ball.pos_x, state.ball.pos_y), gk);
    assert_eq!((state.ball.vel_x, state.ball.vel_y, state.ball.vel_z), (0, 0, 0));
    assert_eq!(
        events,
        vec![
            (1, TacticEvent::BallOutOfPlay { kind: SetPieceKind::FreeKickFor }),
            (0, TacticEvent::BallOutOfPlay { kind: SetPieceKind::FreeKickAgainst }),
        ]
    );
}

// ---------------------------------------------------------------------------
// Launch suppression during a flight
// ---------------------------------------------------------------------------

#[test]
fn launching_intents_become_moves_during_flight() {
    let t = (from_int(3), from_int(-4));
    let launches = [
        PlayerIntent::AttemptShot { target_x: t.0, target_y: t.1 },
        PlayerIntent::AttemptPassShort { target_x: t.0, target_y: t.1 },
        PlayerIntent::AttemptPassLong { target_x: t.0, target_y: t.1 },
        PlayerIntent::Cross { target_x: t.0, target_y: t.1 },
        PlayerIntent::Dribble { target_x: t.0, target_y: t.1 },
        PlayerIntent::HoldBall { target_x: t.0, target_y: t.1 },
        PlayerIntent::LayOff { target_x: t.0, target_y: t.1 },
        PlayerIntent::GkDistributeShort { target_x: t.0, target_y: t.1 },
        PlayerIntent::GkDistributeLong { target_x: t.0, target_y: t.1 },
    ];
    for i in launches {
        assert_eq!(
            suppress_ball_launch_during_flight(i),
            PlayerIntent::MoveToPosition { target_x: t.0, target_y: t.1 }
        );
    }
    let off_ball = [
        PlayerIntent::Idle,
        PlayerIntent::Press { target_x: t.0, target_y: t.1 },
        PlayerIntent::GkSweeperRush { target_x: t.0, target_y: t.1 },
        PlayerIntent::HoldFormation { target_x: t.0, target_y: t.1 },
    ];
    for i in off_ball {
        assert_eq!(suppress_ball_launch_during_flight(i), i);
    }
}

// ---------------------------------------------------------------------------
// Steering, kick direction and shot pressure
// ---------------------------------------------------------------------------

#[test]
fn steering_at_target_is_zero() {
    assert_eq!(apply_vel_toward_target(0, 0, V_GK_SPEED), (0, 0));
}

#[test]
fn steering_within_cap_uses_raw_offset() {
    let d = from_int(3);
    assert_eq!(apply_vel_toward_target(d, d, V_GK_SPEED), (d, d));
}

#[test]
fn steering_diagonal_beyond_cap_is_normalised() {
    let d = from_int(100);
    let (vx, vy) = apply_vel_toward_target(d, d, V_GK_SPEED);
    assert_eq!(vx, vy, "a symmetric diagonal gives equal components");
    assert!(vx > 0);
    let mag = q_sqrt(q_mul(vx, vx) + q_mul(vy, vy));
    assert!(mag <= V_GK_SPEED, "magnitude {mag} exceeds the cap {V_GK_SPEED}");
    // Well above the per-axis cap / sqrt(2) - 1 ulp-level slack.
    assert!(mag >= V_GK_SPEED - 4096);
}

#[test]
fn steering_straight_beyond_cap_is_exactly_the_cap() {
    let (vx, vy) = apply_vel_toward_target(-from_int(40), 0, from_int(8));
    assert_eq!((vx, vy), (-from_int(8), 0));
}

#[test]
fn kick_along_x_has_exact_speed() {
    let v = ball_unit_vel(0, 0, from_int(10), 0, from_int(20));
    assert_eq!(v, (from_int(20), 0));
}

#[test]
fn kick_to_own_position_stays_put() {
    let v = ball_unit_vel(from_int(5), from_int(5), from_int(5), from_int(5), from_int(30));
    assert_eq!(v, (0, 0));
}

#[test]
fn kick_backwards_points_backwards() {
    let (vx, vy) = ball_unit_vel(from_int(10), from_int(-3), from_int(-20), from_int(7), from_int(15));
    assert!(vx < 0);
    assert!(vy > 0);
}

fn isolated_players() -> Vec<fw_match_sim::player::PlayerState> {
    let mut players = MatchState::initial(1).players;
    for (k, p) in players.iter_mut().enumerate() {
        p.pos_x = if k < 11 { from_int(-40) } else { from_int(40) };
        p.pos_y = from_int((k as i32) * 3 - 30);
    }
    players
}

#[test]
fn shot_pressure_without_nearby_defenders_is_zero() {
    let players = isolated_players();
    assert_eq!(shot_pressure_feature_q32(&players, 9), 0);
}

#[test]
fn shot_pressure_from_one_defender_at_one_metre() {
    let mut players = isolated_players();
    players[12].pos_x = players[9].pos_x + ONE;
    players[12].pos_y = players[9].pos_y;
    // 1 / (1 + 1/16) summed once, then 1 - 1 / (1 + sum).
    assert_eq!(shot_pressure_feature_q32(&players, 9), 2082408386);
}

#[test]
fn shot_pressure_grows_with_a_second_defender() {
    let mut players = isolated_players();
    players[12].pos_x = players[9].pos_x + ONE;
    players[12].pos_y = players[9].pos_y;
    let one = shot_pressure_feature_q32(&players, 9);
    players[13].pos_x = players[9].pos_x;
    players[13].pos_y = players[9].pos_y + from_int(2);
    let two = shot_pressure_feature_q32(&players, 9);
    assert_eq!(two, 2524595031);
    assert!(two > one && two < ONE);
}

#[test]
fn shot_pressure_ignores_teammates() {
    let mut players = isolated_players();
    players[8].pos_x = players[9].pos_x + ONE;
    players[8].pos_y = players[9].pos_y;
    assert_eq!(shot_pressure_feature_q32(&players, 9), 0);
}

#[test]
fn keeper_does_not_chase_at_exactly_42_metres() {
    let mut state = MatchState::initial(1);
    state.possession = None;
    state.ball.pos_x = from_int(-42);
    state.ball.pos_y = 0;
    assert!(preempt_check(&state, 0).is_none());
    state.ball.pos_x = from_int(-42) - 1;
    assert!(preempt_check(&state, 0).is_some());
}

#[test]
fn capped_steering_stays_within_the_cap_up_to_rounding() {
    let v = V_GK_SPEED as i128;
    for &(dx, dy) in &[(from_int(100), from_int(37)), (-from_int(13), from_int(250)), (from_int(9), -from_int(9))] {
        let (vx, vy) = apply_vel_toward_target(dx, dy, V_GK_SPEED);
        let (vx, vy) = (vx as i128, vy as i128);
        assert!(vx * vx + vy * vy <= v * v + 32 * v);
    }
}
