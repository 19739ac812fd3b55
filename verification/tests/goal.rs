use fw_match_sim::fixed::{ONE, from_int};
use fw_match_sim::goal::{
    CurvedGoalkeeperSkills, GoalMouthOutcome, SAVE_PROB_MAX, compute_save_probability,
    resolve_goal_mouth, save_roll_site,
};
use fw_match_sim::match_state::MatchState;
use rand_chacha::ChaCha8Rng;
use rand_chacha::rand_core::{RngCore, SeedableRng};

const GOAL_LINE_X: i64 = 225485783040;
const GOAL_HALF_WIDTH: i64 = 15719580303;

fn keepers(q: i64) -> [CurvedGoalkeeperSkills; 2] {
    let k = CurvedGoalkeeperSkills { reflexes: q, handling: q, one_on_ones: q, positioning: q };
    [k, k]
}

fn ball_in_away_goal(seed: u64) -> MatchState {
    let mut s = MatchState::initial(seed);
    s.ball.pos_x = GOAL_LINE_X + from_int(1);
    s.ball.pos_y = from_int(1);
    s.possession = None;
    s.last_touched_by = Some(9);
    s
}

#[test]
fn ball_outside_goal_mouth_changes_nothing() {
    let mut s = MatchState::initial(1);
    s.ball.pos_x = GOAL_LINE_X + from_int(1);
    s.ball.pos_y = from_int(5);
    let (after, outcome) = resolve_goal_mouth(s.clone(), GOAL_LINE_X, GOAL_HALF_WIDTH, &keepers(ONE / 2), 7);
    assert_eq!(outcome, GoalMouthOutcome::NotInGoal);
    assert_eq!(after, s);
}

#[test]
fn loose_ball_far_from_keeper_is_a_goal() {
    let mut s = ball_in_away_goal(1);
    s.players[11].pos_x = from_int(30);
    let (after, outcome) = resolve_goal_mouth(s.clone(), GOAL_LINE_X, GOAL_HALF_WIDTH, &keepers(ONE), 7);
    assert_eq!(outcome, GoalMouthOutcome::Goal { scorer_slot: 9, home_scored: true });
    assert_eq!(after.home_score, s.home_score + 1);
    assert_eq!(after.away_score, s.away_score);
    assert_eq!((after.ball.pos_x, after.ball.pos_y), (0, 0));
    assert_eq!(after.possession, Some(20));
    assert_eq!(after.last_touched_by, Some(20));
}

#[test]
fn loose_ball_near_keeper_is_gathered() {
    let s = ball_in_away_goal(1);
    // The away keeper stands at +45 m: 8.5 m from the ball.
    let (after, outcome) = resolve_goal_mouth(s.clone(), GOAL_LINE_X, GOAL_HALF_WIDTH, &keepers(0), 7);
    assert_eq!(outcome, GoalMouthOutcome::Gathered { keeper_slot: 11 });
    assert_eq!(after.possession, Some(11));
    assert_eq!((after.ball.pos_x, after.ball.pos_y), (s.players[11].pos_x, s.players[11].pos_y));
    assert_eq!(after.home_score, s.home_score);
}

#[test]
fn certain_goal_shot_is_never_saved() {
    for seed in 0u64..40 {
        let mut s = ball_in_away_goal(seed);
        s.last_shot_xg[9] = ONE;
        let (after, outcome) =
            resolve_goal_mouth(s.clone(), GOAL_LINE_X, GOAL_HALF_WIDTH, &keepers(ONE), seed);
        assert_eq!(outcome, GoalMouthOutcome::Goal { scorer_slot: 9, home_scored: true });
        assert_eq!(after.home_score, 1);
    }
}

#[test]
fn shots_are_saved_exactly_when_the_roll_is_below_the_save_probability() {
    let mut saves = 0;
    let mut goals = 0;
    for seed in 0u64..100 {
        let mut s = ball_in_away_goal(seed);
        s.last_shot_xg[9] = ONE / 10;
        s.players[11].pos_y = 0;
        let q = 1932735283i64 + 1288490188 + 644245094 + 429496729;
        let p = compute_save_probability(q, from_int(1), ONE / 10);
        let roll = ChaCha8Rng::seed_from_u64(seed).next_u64();
        let expect_save = ((roll >> 32) as i64) < p;
        let (after, outcome) =
            resolve_goal_mouth(s.clone(), GOAL_LINE_X, GOAL_HALF_WIDTH, &keepers(ONE), seed);
        if expect_save {
            saves += 1;
            assert_eq!(outcome, GoalMouthOutcome::Saved { keeper_slot: 11 });
            assert_eq!(after.last_shot_xg[9], 0);
            assert_eq!(after.possession, Some(11));
            assert_eq!(after.home_score, 0);
        } else {
            goals += 1;
            assert_eq!(outcome, GoalMouthOutcome::Goal { scorer_slot: 9, home_scored: true });
        }
    }
    assert!(saves > 0 && goals > 0, "saves={saves} goals={goals}");
}

#[test]
fn away_goal_scored_at_the_home_end() {
    let mut s = MatchState::initial(2);
    s.ball.pos_x = -GOAL_LINE_X - 1;
    s.ball.pos_y = 0;
    s.last_touched_by = Some(19);
    s.players[0].pos_x = -from_int(20);
    let (after, outcome) = resolve_goal_mouth(s, GOAL_LINE_X, GOAL_HALF_WIDTH, &keepers(ONE), 3);
    assert_eq!(outcome, GoalMouthOutcome::Goal { scorer_slot: 19, home_scored: false });
    assert_eq!(after.away_score, 1);
    assert_eq!(after.possession, Some(9));
}

#[test]
fn save_probability_is_capped_and_positional() {
    // Perfect keeper, no error, no xG: 0.72 × 1 × 1, at the cap.
    assert_eq!(compute_save_probability(ONE, 0, 0), SAVE_PROB_MAX);
    // 3 m off: factor 0.55.
    let off = compute_save_probability(ONE, from_int(3), 0);
    assert!(off < SAVE_PROB_MAX);
    // Far out of position: the factor bottoms out at 0.10.
    let far = compute_save_probability(0, from_int(20), 0);
    assert_eq!(far, ((2147483648i128 * 429496729i128) >> 32) as i64);
    assert_eq!(save_roll_site(9), (9 << 16) | 0x5A7E);
}
