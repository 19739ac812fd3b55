use fw_match_sim::fixed::{ONE, from_int, q_mul, q_sqrt};
use fw_match_sim::match_state::MatchState;
use fw_match_sim::separation::{
    EPSILON_SEPARATION, MIN_PLAYER_DISTANCE, MIN_PLAYER_DISTANCE_SQ, apply_player_separation,
};

// Fixed-point literals (raw bits = round(value × 2^32)).
const Q32_0_3: i64 = 1_288_490_188; // 0.3 m
const Q32_0_5: i64 = 2_147_483_648; // 0.5 m
const Q32_0_1: i64 = 429_496_729; // 0.1 m

/// Places every slot from 2 upward far away along x.
fn spread_others(state: &mut MatchState) {
    for k in 2..state.players.len() {
        state.players[k].pos_x = from_int((k as i32) * 5);
        state.players[k].pos_y = 0;
    }
}

#[test]
fn all_pairs_on_one_spot_keep_coordinate_sums() {
    // Every slot is put on the same spot: each of the 231 pairs is then
    // resolved in turn, and the sweep must still keep the coordinate sums.
    let mut state = MatchState::initial(7);
    for p in state.players.iter_mut() {
        p.pos_x = 0;
        p.pos_y = 0;
    }
    apply_player_separation(&mut state);
    let sum_x: i64 = state.players.iter().map(|p| p.pos_x).sum();
    let sum_y: i64 = state.players.iter().map(|p| p.pos_y).sum();
    assert_eq!(sum_x, 0);
    assert_eq!(sum_y, 0);
    // The first pair resolved is (0, 1): the zero-distance fallback.
    assert!(state.players[0].pos_x < 0);
}

#[test]
fn overlapping_pair_pushed_to_min_distance() {
    let mut state = MatchState::initial(1);
    state.players[0].pos_x = 0;
    state.players[0].pos_y = 0;
    state.players[1].pos_x = Q32_0_3;
    state.players[1].pos_y = 0;
    spread_others(&mut state);

    apply_player_separation(&mut state);

    let dx = state.players[1].pos_x - state.players[0].pos_x;
    let dist_sq = q_mul(dx, dx);
    let dist = q_sqrt(dist_sq);
    assert!(
        dist >= MIN_PLAYER_DISTANCE || (MIN_PLAYER_DISTANCE - dist) <= 4096,
        "dist after separation {dist} is more than 1 ULP below MIN_PLAYER_DISTANCE"
    );
    // Symmetric push: the midpoint stays at 0.15 m.
    assert_eq!(state.players[0].pos_x + state.players[1].pos_x, Q32_0_3);
}

#[test]
fn non_overlapping_pair_unchanged() {
    let mut state = MatchState::initial(1);
    state.players[0].pos_x = 0;
    state.players[0].pos_y = 0;
    state.players[1].pos_x = Q32_0_5;
    state.players[1].pos_y = 0;
    spread_others(&mut state);

    apply_player_separation(&mut state);

    assert_eq!(state.players[0].pos_x, 0, "player 0 x should be unchanged");
    assert_eq!(state.players[1].pos_x, Q32_0_5, "player 1 x should be unchanged");
}

#[test]
fn zero_distance_fallback_pushes_along_plus_x() {
    let mut state = MatchState::initial(1);
    state.players[0].pos_x = 0;
    state.players[0].pos_y = 0;
    state.players[1].pos_x = 0;
    state.players[1].pos_y = 0;
    spread_others(&mut state);

    apply_player_separation(&mut state);

    assert_eq!(state.players[0].pos_x, -EPSILON_SEPARATION);
    assert_eq!(state.players[1].pos_x, EPSILON_SEPARATION);
    assert_eq!(state.players[0].pos_y, 0);
    assert_eq!(state.players[1].pos_y, 0);
}

#[test]
fn ball_state_unchanged_by_separation() {
    let mut state = MatchState::initial(0xdead_beef_dead_beef);
    for p in state.players.iter_mut() {
        p.pos_x = 0;
        p.pos_y = 0;
    }
    state.ball.pos_x = from_int(7);
    state.ball.pos_y = from_int(3);
    state.ball.pos_z = from_int(2);
    state.ball.vel_x = from_int(1);
    let ball_before = state.ball;

    apply_player_separation(&mut state);

    assert_eq!(state.ball, ball_before, "separation must not mutate ball state");
}

#[test]
fn zero_distance_fallback_pushes_by_slot_order_non_zero_slots() {
    let mut state = MatchState::initial(0xdead_beef_dead_beef);
    for (k, p) in state.players.iter_mut().enumerate() {
        if k == 17 || k == 18 {
            p.pos_x = 0;
            p.pos_y = 0;
        } else {
            p.pos_x = from_int((k as i32) * 5);
            p.pos_y = from_int(100);
        }
    }

    apply_player_separation(&mut state);

    assert_eq!(state.players[17].pos_x, -EPSILON_SEPARATION);
    assert_eq!(state.players[17].pos_y, 0);
    assert_eq!(state.players[18].pos_x, EPSILON_SEPARATION);
    assert_eq!(state.players[18].pos_y, 0);
}

#[test]
fn zero_distance_fallback_resolves_in_one_tick_no_cascade() {
    let mut state = MatchState::initial(1);
    state.players[0].pos_x = 0;
    state.players[0].pos_y = 0;
    state.players[1].pos_x = 0;
    state.players[1].pos_y = 0;
    for k in 2..state.players.len() {
        state.players[k].pos_x = from_int((k as i32) * 5);
        state.players[k].pos_y = 10_i64 << 32;
    }

    apply_player_separation(&mut state);

    let dx = state.players[1].pos_x - state.players[0].pos_x;
    let dist = q_sqrt(q_mul(dx, dx));
    assert!(dist >= MIN_PLAYER_DISTANCE || (MIN_PLAYER_DISTANCE - dist) <= 4096);

    let p0 = (state.players[0].pos_x, state.players[0].pos_y);
    let p1 = (state.players[1].pos_x, state.players[1].pos_y);

    apply_player_separation(&mut state);

    assert_eq!((state.players[0].pos_x, state.players[0].pos_y), p0);
    assert_eq!((state.players[1].pos_x, state.players[1].pos_y), p1);
}

#[test]
fn velocity_unchanged_after_separation() {
    let mut state = MatchState::initial(42);
    for (k, p) in state.players.iter_mut().enumerate() {
        p.vel_x = from_int(k as i32);
        p.vel_y = from_int(-(k as i32));
    }
    let vels_before: Vec<(i64, i64)> = state.players.iter().map(|p| (p.vel_x, p.vel_y)).collect();

    for k in 0..state.players.len() {
        state.players[k].pos_x = 0;
        state.players[k].pos_y = q_mul(Q32_0_1, from_int(k as i32));
    }

    apply_player_separation(&mut state);

    let vels_after: Vec<(i64, i64)> = state.players.iter().map(|p| (p.vel_x, p.vel_y)).collect();
    assert_eq!(vels_before, vels_after);
}

#[test]
fn separation_preserves_coordinate_sums_on_a_crowded_line() {
    let mut state = MatchState::initial(3);
    for k in 0..state.players.len() {
        state.players[k].pos_x = q_mul(Q32_0_1, from_int(k as i32));
        state.players[k].pos_y = q_mul(Q32_0_1, from_int((k % 3) as i32));
    }
    let sx: i64 = state.players.iter().map(|p| p.pos_x).sum();
    let sy: i64 = state.players.iter().map(|p| p.pos_y).sum();

    apply_player_separation(&mut state);

    assert_eq!(state.players.iter().map(|p| p.pos_x).sum::<i64>(), sx);
    assert_eq!(state.players.iter().map(|p| p.pos_y).sum::<i64>(), sy);
}

#[test]
fn already_separated_players_are_left_in_place() {
    let mut state = MatchState::initial(5);
    for k in 0..state.players.len() {
        state.players[k].pos_x = from_int(k as i32);
        state.players[k].pos_y = 0;
    }
    let before = state.players.clone();
    apply_player_separation(&mut state);
    assert_eq!(state.players, before);
}

#[test]
fn fixed_point_root_of_exact_squares() {
    // sqrt(0.16 m²) rounds down to one raw step below 0.4 m.
    assert_eq!(q_sqrt(MIN_PLAYER_DISTANCE_SQ), MIN_PLAYER_DISTANCE - 1);
    assert_eq!(q_sqrt(from_int(4)), from_int(2));
    assert_eq!(q_sqrt(ONE), ONE);
    assert_eq!(q_sqrt(0), 0);
}

#[test]
fn pair_iteration_produces_231_pairs_in_lex_order() {
    let n = fw_match_sim::match_state::TOTAL_PLAYERS;
    let mut pairs: Vec<(usize, usize)> = Vec::new();
    for i in 0..n {
        for j in (i + 1)..n {
            pairs.push((i, j));
        }
    }
    assert_eq!(pairs.len(), 231, "expected C(22,2)=231 pairs");
    for &(a, b) in &pairs {
        assert!(a < b, "pair ({a},{b}) violates lex order invariant");
    }
}
