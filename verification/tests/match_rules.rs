use fw_match_sim::fixed::{ONE, from_int};
use fw_match_sim::match_rules::{CLEARANCE_SPEED, resolve_goalmouth_defending};
use fw_match_sim::match_state::{MatchState, PLAYERS_PER_TEAM, TOTAL_PLAYERS};
use fw_match_sim::tackle::{CurvedTackleSkills, TACKLE_COOLDOWN_TICKS, resolve_tackles};

/// Distance of each goal line from the halfway line: 52.5 m.
const GOAL_LINE_X: i64 = 225485783040;

#[test]
fn smoke() {
    assert_eq!(2 + 2, 4);
}

#[test]
fn initial_has_22_players() {
    let s = MatchState::initial(1);
    assert_eq!(s.players.len(), TOTAL_PLAYERS);
    assert_eq!(s.tick, 0);
}

#[test]
fn initial_state_has_zero_tackle_cooldowns() {
    let s = MatchState::initial(1);
    assert!(s.tackle_cooldown_until.iter().all(|&t| t == 0));
    assert_eq!(s.shot_telemetry_len(), 0);
    assert_eq!(s.dribble_telemetry_len(), 0);
}

// ---------------------------------------------------------------------------
// Goalmouth defending
// ---------------------------------------------------------------------------

#[test]
fn home_defender_near_loose_ball_clears_upfield() {
    let mut state = MatchState::initial(0xC1EA);
    state.ball.pos_x = from_int(-46);
    state.ball.pos_y = 0;
    state.ball.vel_x = -from_int(6);
    state.ball.vel_y = 0;
    state.players[1].pos_x = from_int(-46);
    state.players[1].pos_y = 0;
    state.possession = None;
    state.last_touched_by = Some(20);

    let cleared = resolve_goalmouth_defending(state, GOAL_LINE_X);

    assert!(
        cleared.ball.vel_x > 0,
        "home defender should clear ball upfield (vel_x > 0 after clearance); \
         got vel_x={:?}",
        cleared.ball.vel_x
    );
    assert_eq!(
        cleared.ball.vel_x, CLEARANCE_SPEED,
        "cleared vel_x must equal CLEARANCE_SPEED (10 m/s)"
    );
    assert_eq!(cleared.ball.vel_y, 0, "cleared vel_y must be zero");
    assert_eq!(
        cleared.last_touched_by,
        Some(1),
        "last_touched_by must be the clearing defender (slot 1)"
    );
    assert!(
        cleared.possession.is_none(),
        "possession must be None after defensive clearance"
    );
}

#[test]
fn defender_outside_radius_does_not_clear() {
    let mut state = MatchState::initial(0xC1EB);
    state.ball.pos_x = from_int(-46);
    state.ball.pos_y = 0;
    state.ball.vel_x = -from_int(6);
    state.ball.vel_y = 0;
    for slot_idx in 1..PLAYERS_PER_TEAM {
        state.players[slot_idx].pos_x = from_int(-30);
    }
    state.possession = None;
    state.last_touched_by = Some(20);

    let after = resolve_goalmouth_defending(state, GOAL_LINE_X);

    assert_eq!(
        after.ball.vel_x,
        -from_int(6),
        "no defender within radius — ball vel_x must be unchanged"
    );
}

#[test]
fn no_clearance_when_ball_not_heading_toward_home_goal() {
    let mut state = MatchState::initial(0xC1EC);
    state.ball.pos_x = from_int(-46);
    state.ball.pos_y = 0;
    state.ball.vel_x = from_int(6);
    state.ball.vel_y = 0;
    state.players[1].pos_x = from_int(-46);
    state.players[1].pos_y = 0;
    state.possession = None;

    let after = resolve_goalmouth_defending(state, GOAL_LINE_X);

    assert_eq!(
        after.ball.vel_x,
        from_int(6),
        "vel_x must not change when ball is moving away from home goal"
    );
}

#[test]
fn no_clearance_when_ball_in_possession() {
    let mut state = MatchState::initial(0xC1ED);
    state.ball.pos_x = from_int(-46);
    state.ball.pos_y = 0;
    state.ball.vel_x = -from_int(6);
    state.players[1].pos_x = from_int(-46);
    state.players[1].pos_y = 0;
    state.possession = Some(20);
    state.players[20].pos_x = from_int(-46);
    state.players[20].pos_y = 0;

    let after = resolve_goalmouth_defending(state, GOAL_LINE_X);

    assert_eq!(
        after.ball.vel_x,
        -from_int(6),
        "clearance must not fire when ball is in possession"
    );
}

#[test]
fn away_defender_near_loose_ball_clears_upfield() {
    let mut state = MatchState::initial(0xC1EE);
    state.ball.pos_x = from_int(46);
    state.ball.pos_y = 0;
    state.ball.vel_x = from_int(6);
    state.ball.vel_y = 0;
    state.players[12].pos_x = from_int(46);
    state.players[12].pos_y = 0;
    state.possession = None;
    state.last_touched_by = Some(9);

    let cleared = resolve_goalmouth_defending(state, GOAL_LINE_X);

    assert!(
        cleared.ball.vel_x < 0,
        "away defender must clear ball toward -X (vel_x < 0); got {:?}",
        cleared.ball.vel_x
    );
    assert_eq!(cleared.ball.vel_x, -CLEARANCE_SPEED);
    assert_eq!(cleared.last_touched_by, Some(12));
}

#[test]
fn resolve_goalmouth_defending_is_deterministic() {
    let build = || {
        let mut state = MatchState::initial(0xC1EF);
        state.ball.pos_x = from_int(-46);
        state.ball.pos_y = 0;
        state.ball.vel_x = -from_int(6);
        state.players[1].pos_x = from_int(-46);
        state.players[1].pos_y = 0;
        state.possession = None;
        state
    };
    let r1 = resolve_goalmouth_defending(build(), GOAL_LINE_X);
    let r2 = resolve_goalmouth_defending(build(), GOAL_LINE_X);
    assert_eq!(r1, r2, "resolve_goalmouth_defending must be deterministic");
}

// ---------------------------------------------------------------------------
// Tackles
// ---------------------------------------------------------------------------

fn mid_skills() -> Vec<CurvedTackleSkills> {
    let h = ONE / 2;
    vec![
        CurvedTackleSkills {
            tackling: h,
            aggression: h,
            positioning: h,
            dribbling: h,
            balance: h,
            composure: h,
        };
        22
    ]
}

fn roll_seeds(base: u64) -> Vec<u64> {
    (0..22u64).map(|slot| base.wrapping_mul(0x9E37_79B9).wrapping_add(slot << 16 | 0x7AC1)).collect()
}

fn clear_away_team_to_far_side(state: &mut MatchState) {
    for slot_idx in PLAYERS_PER_TEAM..TOTAL_PLAYERS {
        state.players[slot_idx].pos_x = from_int(40);
        state.players[slot_idx].pos_y = from_int(20);
    }
}

fn place_player(state: &mut MatchState, slot: usize, x: i64, y: i64) {
    state.players[slot].pos_x = x;
    state.players[slot].pos_y = y;
}

fn carrier_state(seed: u64, tick: i64, cx: i64, cy: i64) -> MatchState {
    let mut state = MatchState::initial(seed);
    state.tick = tick;
    state.possession = Some(9);
    state.last_touched_by = Some(9);
    state.players[9].pos_x = cx;
    state.players[9].pos_y = cy;
    state.ball.pos_x = cx;
    state.ball.pos_y = cy;
    clear_away_team_to_far_side(&mut state);
    state
}

#[test]
fn tackle_within_radius_can_change_possession() {
    let carrier_x = from_int(10);
    let carrier_y = 0;
    let def_x = carrier_x + 6_442_450_944_i64;
    let def_y = 0;
    let skills = mid_skills();

    let mut possession_changed = false;
    for seed_offset in 0u64..60 {
        let mut state = carrier_state(0xBEEF + seed_offset, 1, carrier_x, carrier_y);
        place_player(&mut state, 16, def_x, def_y);

        state = resolve_tackles(state, &skills, &roll_seeds(0xBEEF + seed_offset));

        if state.possession != Some(9) {
            possession_changed = true;
            assert_eq!(
                state.possession,
                Some(16),
                "on success, possession must be Some(defender_slot=16)"
            );
            assert_eq!(state.ball.pos_x, state.players[16].pos_x);
            assert_eq!(state.ball.pos_y, state.players[16].pos_y);
            break;
        }
    }
    assert!(
        possession_changed,
        "tackle within radius must eventually succeed across 60 seeds"
    );
}

#[test]
fn tackle_outside_radius_never_changes_possession() {
    let carrier_x = from_int(10);
    let carrier_y = 0;
    let def_x = carrier_x + from_int(5);
    let def_y = 0;
    let skills = mid_skills();

    for seed_offset in 0u64..30 {
        let mut state = carrier_state(0xC0DE + seed_offset, 1, carrier_x, carrier_y);
        place_player(&mut state, 16, def_x, def_y);
        state = resolve_tackles(state, &skills, &roll_seeds(0xC0DE + seed_offset));
        assert_eq!(
            state.possession,
            Some(9),
            "defender 5m away must not change possession (seed_offset={seed_offset})"
        );
    }
}

#[test]
fn failed_tackle_sets_cooldown() {
    let cx = from_int(10);
    let cy = 0;
    let def_x = cx + 4_294_967_296_i64;
    // Carrier at full resistance, defender with zero quality.
    let mut skills = mid_skills();
    skills[9].dribbling = ONE;
    skills[9].balance = ONE;
    skills[9].composure = ONE;
    skills[16].tackling = 0;
    skills[16].aggression = 0;
    skills[16].positioning = 0;

    let mut found_cooldown = false;
    for seed_offset in 0u64..100 {
        let mut state = carrier_state(0xF00D_1234 + seed_offset, 1, cx, cy);
        place_player(&mut state, 16, def_x, 0);
        let s = resolve_tackles(state, &skills, &roll_seeds(0xF00D_1234 + seed_offset));
        if s.possession == Some(9) && s.tackle_cooldown_until[16] > 1 {
            found_cooldown = true;
            assert_eq!(s.tackle_cooldown_until[16], 1 + TACKLE_COOLDOWN_TICKS);
            break;
        }
    }
    assert!(
        found_cooldown,
        "at least one failed tackle attempt out of 100 seeds must set a cooldown"
    );
}

#[test]
fn defender_under_cooldown_is_skipped() {
    let cx = from_int(10);
    let cy = 0;
    let def_x = cx + 4_294_967_296_i64;
    let skills = mid_skills();

    for seed_offset in 0u64..30 {
        let mut state = carrier_state(0xCAFE + seed_offset, 5, cx, cy);
        place_player(&mut state, 16, def_x, 0);
        state.tackle_cooldown_until[16] = 10;

        state = resolve_tackles(state, &skills, &roll_seeds(0xCAFE + seed_offset));
        assert_eq!(
            state.possession,
            Some(9),
            "defender under cooldown must not attempt tackle (seed_offset={seed_offset})"
        );
    }
}

#[test]
fn own_team_never_tackles_carrier() {
    let cx = from_int(10);
    let cy = 0;
    let skills = mid_skills();

    for seed_offset in 0u64..20 {
        let mut state = carrier_state(0xA1B2 + seed_offset, 1, cx, cy);
        let teammate_x = cx + 2_147_483_648_i64;
        place_player(&mut state, 8, teammate_x, 0);

        state = resolve_tackles(state, &skills, &roll_seeds(0xA1B2 + seed_offset));
        assert_eq!(
            state.possession,
            Some(9),
            "own-team player must never tackle the carrier (seed_offset={seed_offset})"
        );
    }
}

#[test]
fn resolve_tackles_is_deterministic() {
    let cx = from_int(10);
    let cy = 0;
    let def_x = cx + 4_294_967_296_i64;
    let build_state = || {
        let mut state = carrier_state(0x1111_2222, 42, cx, cy);
        state.players[16].pos_x = def_x;
        state.players[16].pos_y = 0;
        state
    };
    let skills = mid_skills();
    let seeds = roll_seeds(0x1111_2222);
    let s1 = resolve_tackles(build_state(), &skills, &seeds);
    let s2 = resolve_tackles(build_state(), &skills, &seeds);
    assert_eq!(s1, s2, "resolve_tackles must produce identical output for identical input");
}

#[test]
fn no_possession_resolve_tackles_noop() {
    let mut state = MatchState::initial(0x5555);
    state.tick = 1;
    state.possession = None;
    let before = state.clone();
    state = resolve_tackles(state, &mid_skills(), &roll_seeds(0x5555));
    assert_eq!(before, state, "resolve_tackles on loose ball must not change the state");
}

// ---------------------------------------------------------------------------
// Restarts, pickups, passes in flight, opponent shape
// ---------------------------------------------------------------------------

use fw_match_sim::match_rules::{
    PitchGeometry, clamp_out_of_play, compute_opponent_shape_broken, loose_ball_pickup,
    setpiece_kind_for, trap_check_in_flight,
};
use fw_match_sim::match_state::BallInFlight;
use fw_match_sim::tactic::SetPieceKind;

fn geometry() -> PitchGeometry {
    PitchGeometry { goal_line_x: GOAL_LINE_X, sideline_y: from_int(34), goal_half_width: 15719580303 }
}

#[test]
fn restart_kinds_over_goal_lines_and_sidelines() {
    // Over the away goal line, home touched last: home corner.
    assert_eq!(
        setpiece_kind_for(true, from_int(60), Some(0)),
        (SetPieceKind::CornerFor, SetPieceKind::CornerAgainst)
    );
    // Over the away goal line, away touched last: away goal kick.
    assert_eq!(
        setpiece_kind_for(true, from_int(60), Some(1)),
        (SetPieceKind::GoalKickOpponent, SetPieceKind::GoalKick)
    );
    // Over the home goal line, nobody recorded: away corner.
    assert_eq!(
        setpiece_kind_for(true, -from_int(60), None),
        (SetPieceKind::CornerAgainst, SetPieceKind::CornerFor)
    );
    // Over the home goal line, away (attacking) touched last: away corner.
    assert_eq!(
        setpiece_kind_for(true, -from_int(60), Some(1)),
        (SetPieceKind::CornerAgainst, SetPieceKind::CornerFor)
    );
    // Over the home goal line, home touched last: home goal kick.
    assert_eq!(
        setpiece_kind_for(true, -from_int(60), Some(0)),
        (SetPieceKind::GoalKick, SetPieceKind::GoalKickOpponent)
    );
    // Sideline: the team that did not touch it throws in.
    assert_eq!(
        setpiece_kind_for(false, 0, Some(0)),
        (SetPieceKind::ThrowInAgainst, SetPieceKind::ThrowInFor)
    );
    assert_eq!(
        setpiece_kind_for(false, 0, Some(1)),
        (SetPieceKind::ThrowInFor, SetPieceKind::ThrowInAgainst)
    );
    assert_eq!(
        setpiece_kind_for(false, 0, None),
        (SetPieceKind::ThrowInFor, SetPieceKind::ThrowInAgainst)
    );
}

#[test]
fn ball_over_sideline_is_placed_on_the_line_and_stopped() {
    let mut s = MatchState::initial(2);
    s.ball.pos_x = from_int(10);
    s.ball.pos_y = from_int(36);
    s.ball.vel_x = from_int(3);
    s.ball.vel_y = from_int(4);
    s.ball.vel_z = from_int(1);
    s.last_touched_by = Some(14);
    let (after, kinds) = clamp_out_of_play(s.clone(), geometry());
    assert_eq!(after.ball.pos_y, from_int(34));
    assert_eq!(after.ball.pos_x, from_int(10));
    assert_eq!((after.ball.vel_x, after.ball.vel_y), (0, 0));
    assert_eq!(after.ball.vel_z, from_int(1));
    assert_eq!(kinds, Some((SetPieceKind::ThrowInFor, SetPieceKind::ThrowInAgainst)));
    // A ball in play is untouched.
    let mut inside = MatchState::initial(2);
    inside.ball.pos_y = from_int(10);
    let (same, none) = clamp_out_of_play(inside.clone(), geometry());
    assert_eq!(same, inside);
    assert_eq!(none, None);
}

#[test]
fn slow_loose_ball_goes_to_nearest_collector() {
    let mut s = MatchState::initial(3);
    s.possession = None;
    s.ball.pos_x = from_int(5);
    s.ball.pos_y = from_int(5);
    s.ball.vel_x = from_int(1);
    s.players[7].pos_x = from_int(6);
    s.players[7].pos_y = from_int(5);
    s.players[18].pos_x = from_int(5);
    s.players[18].pos_y = from_int(7);
    let after = loose_ball_pickup(s);
    assert_eq!(after.possession, Some(7));
    assert_eq!(after.last_touched_by, Some(7));
    assert_eq!((after.ball.pos_x, after.ball.pos_y), (from_int(6), from_int(5)));
    assert_eq!((after.ball.vel_x, after.ball.vel_y, after.ball.vel_z), (0, 0, 0));
}

#[test]
fn fast_or_held_ball_is_not_picked_up() {
    let mut s = MatchState::initial(3);
    s.possession = None;
    s.ball.pos_x = from_int(5);
    s.ball.pos_y = from_int(5);
    s.ball.vel_x = from_int(9);
    s.players[7].pos_x = from_int(6);
    s.players[7].pos_y = from_int(5);
    let after = loose_ball_pickup(s.clone());
    assert_eq!(after, s);
    let mut held = s.clone();
    held.ball.vel_x = 0;
    held.possession = Some(3);
    assert_eq!(loose_ball_pickup(held.clone()), held);
}

#[test]
fn goalkeeper_collects_only_deep_at_own_end() {
    let mut s = MatchState::initial(3);
    s.possession = None;
    s.ball.pos_x = -from_int(44);
    s.ball.pos_y = 0;
    s.players[0].pos_x = -from_int(44);
    s.players[0].pos_y = from_int(1);
    let after = loose_ball_pickup(s.clone());
    assert_eq!(after.possession, Some(0));
    // The away keeper at the home end does not collect.
    let mut t = s.clone();
    t.players[0].pos_x = -from_int(20);
    t.players[11].pos_x = -from_int(44);
    t.players[11].pos_y = from_int(1);
    assert_eq!(loose_ball_pickup(t).possession, None);
}

#[test]
fn pass_in_flight_is_trapped_on_arrival_or_timeout() {
    let mut s = MatchState::initial(4);
    s.possession = None;
    s.tick = 30;
    s.ball_in_flight = Some(BallInFlight { intended_receiver: 7, outcome_is_success: true, launch_tick: 10 });
    s.players[7].pos_x = from_int(3);
    s.players[7].pos_y = 0;
    // Ball 10 m away: still flying.
    s.ball.pos_x = from_int(13);
    s.ball.pos_y = 0;
    let flying = trap_check_in_flight(s.clone());
    assert_eq!(flying, s);
    // Ball 3 m away: trapped.
    let mut near = s.clone();
    near.ball.pos_x = from_int(6);
    let trapped = trap_check_in_flight(near);
    assert_eq!(trapped.possession, Some(7));
    assert_eq!(trapped.ball_in_flight, None);
    assert_eq!((trapped.ball.pos_x, trapped.ball.pos_y), (from_int(3), 0));
    // Timed out after 120 ticks: granted anyway.
    let mut late = s.clone();
    late.tick = 131;
    assert_eq!(trap_check_in_flight(late).possession, Some(7));
    // A failed pass ends loose.
    let mut failed = s.clone();
    failed.ball.pos_x = from_int(6);
    failed.ball_in_flight =
        Some(BallInFlight { intended_receiver: 7, outcome_is_success: false, launch_tick: 10 });
    let f = trap_check_in_flight(failed);
    assert_eq!(f.possession, None);
    assert_eq!(f.ball_in_flight, None);
}

#[test]
fn opponent_shape_broken_reads_the_opposing_mean_x() {
    let s = MatchState::initial(1);
    // At kick-off both sides sit in their own half.
    assert!(!compute_opponent_shape_broken(&s, 0));
    assert!(!compute_opponent_shape_broken(&s, 1));
    let mut t = s.clone();
    for slot in 0..11 {
        t.players[slot].pos_x = from_int(5);
    }
    // Home committed into the away half: broken for an away recovery.
    assert!(compute_opponent_shape_broken(&t, 1));
}
