//! Goalkeeper state machine: mode selection from the ball's position and
//! direction, and the per-mode movement intent.
//!
//! Home keeps goal at x = −45 m, away at x = +45 m; each penalty area is the
//! 16 m in front of its goal line.

use vstd::prelude::*;

use rand_chacha::ChaCha8Rng;

use crate::ball::BallState;
use crate::fixed::{ONE, q_div, div_spec, fits, from_int, from_int_spec, q_mul, mul_spec, scale};
use crate::player::{PlayerAttributes, PlayerState};
use crate::role_states::{GoalkeeperState, PlayerIntent};
use crate::subtree_library::{formation_position, formation_xy};

verus! {

/// Seeded ChaCha8 generator handed to the goalkeeper tick.
#[verifier::external_type_specification]
#[verifier::external_body]
pub struct ExChaCha8Rng(ChaCha8Rng);

/// Penalty-area depth from the goal line: 16 m.
pub const PENALTY_AREA_DEPTH: i64 = 68719476736;

/// Home goal line: x = −45 m.
pub const HOME_GOAL_X: i64 = -193273528320;

/// Away goal line: x = +45 m.
pub const AWAY_GOAL_X: i64 = 193273528320;

/// A ball within 3 m of the goal line counts as the keeper's to distribute.
pub const DISTRIBUTION_THRESHOLD: i64 = 12884901888;

// ---------------------------------------------------------------------------
// Mode selection
// ---------------------------------------------------------------------------

/// The goalkeeper's next mode. For the home keeper (`home`), with ball
/// position `bx` and x-velocity `bvx`, in priority order:
/// 1. ball in the penalty area (x < −29 m) and moving toward goal → `ShotStopping`;
/// 2. ball elsewhere in the own half and moving toward goal → `SweeperKeeperRush`;
/// 3. ball within 3 m in front of the goal line (or behind it) → `DistributingFromHand`;
/// 4. otherwise → `InBoxPositioning`.
/// The away keeper applies the same rules reflected in x.
pub open spec fn gk_next_state(home: bool, bx: int, bvx: int) -> GoalkeeperState {
    if home {
        let in_penalty_area = bx < HOME_GOAL_X + PENALTY_AREA_DEPTH;
        let in_own_half = bx < 0;
        let approaching = bvx < 0;
        let dist_from_line = if bx > HOME_GOAL_X {
            bx - HOME_GOAL_X
        } else {
            0
        };
        if in_penalty_area && approaching {
            GoalkeeperState::ShotStopping
        } else if in_own_half && !in_penalty_area && approaching {
            GoalkeeperState::SweeperKeeperRush
        } else if dist_from_line < DISTRIBUTION_THRESHOLD {
            GoalkeeperState::DistributingFromHand
        } else {
            GoalkeeperState::InBoxPositioning
        }
    } else {
        let in_penalty_area = bx > AWAY_GOAL_X - PENALTY_AREA_DEPTH;
        let in_own_half = bx > 0;
        let approaching = bvx > 0;
        let dist_from_line = if bx < AWAY_GOAL_X {
            AWAY_GOAL_X - bx
        } else {
            0
        };
        if in_penalty_area && approaching {
            GoalkeeperState::ShotStopping
        } else if in_own_half && !in_penalty_area && approaching {
            GoalkeeperState::SweeperKeeperRush
        } else if dist_from_line < DISTRIBUTION_THRESHOLD {
            GoalkeeperState::DistributingFromHand
        } else {
            GoalkeeperState::InBoxPositioning
        }
    }
}

/// The mode-selection arithmetic does not overflow for this keeper and ball.
pub open spec fn gk_transition_fits(roster_slot: u8, ball: BallState) -> bool {
    &&& (roster_slot < 11 && ball.pos_x > HOME_GOAL_X) ==> fits(ball.pos_x - HOME_GOAL_X)
    &&& (roster_slot >= 11 && ball.pos_x < AWAY_GOAL_X) ==> fits(AWAY_GOAL_X - ball.pos_x)
}

/// Select the goalkeeper's mode for this tick. Slots `0..11` are the home
/// keeper, every other slot the away keeper. The current mode does not
/// influence the choice.
pub fn evaluate_transitions(
    current: GoalkeeperState,
    roster_slot: u8,
    ball: &BallState,
) -> (s: GoalkeeperState)
    requires
        gk_transition_fits(roster_slot, *ball),
    ensures
        s == gk_next_state(roster_slot < 11, ball.pos_x as int, ball.vel_x as int),
{
    let is_home = (roster_slot as usize) < 11;
    let bx = ball.pos_x;
    let bvx = ball.vel_x;

    if is_home {
        let penalty_boundary = HOME_GOAL_X + PENALTY_AREA_DEPTH;
        let in_own_half = bx < 0;
        let in_penalty_area = bx < penalty_boundary;
        let approaching_goal = bvx < 0;
        let dist_from_line = if bx > HOME_GOAL_X {
            bx - HOME_GOAL_X
        } else {
            0
        };
        if in_penalty_area && approaching_goal {
            GoalkeeperState::ShotStopping
        } else if in_own_half && !in_penalty_area && approaching_goal {
            GoalkeeperState::SweeperKeeperRush
        } else if dist_from_line < DISTRIBUTION_THRESHOLD {
            GoalkeeperState::DistributingFromHand
        } else {
            GoalkeeperState::InBoxPositioning
        }
    } else {
        let penalty_boundary = AWAY_GOAL_X - PENALTY_AREA_DEPTH;
        let in_own_half = bx > 0;
        let in_penalty_area = bx > penalty_boundary;
        let approaching_goal = bvx > 0;
        let dist_from_line = if bx < AWAY_GOAL_X {
            AWAY_GOAL_X - bx
        } else {
            0
        };
        if in_penalty_area && approaching_goal {
            GoalkeeperState::ShotStopping
        } else if in_own_half && !in_penalty_area && approaching_goal {
            GoalkeeperState::SweeperKeeperRush
        } else if dist_from_line < DISTRIBUTION_THRESHOLD {
            GoalkeeperState::DistributingFromHand
        } else {
            GoalkeeperState::InBoxPositioning
        }
    }
}

/// The away keeper's mode for a ball is the home keeper's mode for the
/// ball reflected across the halfway line (position and x-velocity negated).
pub proof fn lemma_gk_mode_mirror(bx: int, bvx: int)
    ensures
        gk_next_state(false, bx, bvx) == gk_next_state(true, -bx, -bvx),
{
}

/// Shot-stopping is chosen exactly when the ball is in the keeper's
/// penalty area and moving toward the keeper's goal.
pub proof fn lemma_gk_shot_stopping_exactly(bx: int, bvx: int)
    ensures
        (gk_next_state(true, bx, bvx) == GoalkeeperState::ShotStopping) <==> (bx < HOME_GOAL_X
            + PENALTY_AREA_DEPTH && bvx < 0),
        (gk_next_state(false, bx, bvx) == GoalkeeperState::ShotStopping) <==> (bx > AWAY_GOAL_X
            - PENALTY_AREA_DEPTH && bvx > 0),
{
}

// ---------------------------------------------------------------------------
// Per-mode intents
// ---------------------------------------------------------------------------

/// `(x, y)` formation target of a slot as Q32 raw bits.
pub open spec fn formation_target(slot: int) -> (int, int) {
    (from_int_spec(formation_xy(slot).0), from_int_spec(formation_xy(slot).1))
}

/// Sweeper-rush intent: rush distance `5 m × (1 + (one_on_ones +
/// command_of_area)/2 + (pace + decisions)/4)` out from the goal-line
/// spot (toward +x for home, −x for away), and a lateral target moved from
/// the spot toward the ball's y by the fraction `decisions`.
pub open spec fn sweeper_rush_intent(slot: int, a: PlayerAttributes, ball_y: int) -> PlayerIntent {
    let (gx, gy) = formation_target(slot);
    let aggression_factor = div_spec(
        a.goalkeeper.one_on_ones + a.goalkeeper.command_of_area,
        from_int_spec(2),
    );
    let secondary_factor = div_spec(a.physical.pace + a.mental.decisions, from_int_spec(4));
    let rush = mul_spec(from_int_spec(5), ONE + aggression_factor + secondary_factor);
    let target_x = if slot < 11 {
        gx + rush
    } else {
        gx - rush
    };
    let target_y = gy + mul_spec(ball_y - gy, a.mental.decisions as int);
    PlayerIntent::GkSweeperRush { target_x: target_x as i64, target_y: target_y as i64 }
}

/// The shot-stopping aim fraction
/// `(reflexes × positioning + (handling + one_on_ones)/4) × composure`.
pub open spec fn shot_aim(a: PlayerAttributes) -> int {
    let reflex_positioning = mul_spec(a.goalkeeper.reflexes as int, a.mental.positioning as int);
    let secondary = div_spec(a.goalkeeper.handling + a.goalkeeper.one_on_ones, from_int_spec(4));
    mul_spec(reflex_positioning + secondary, a.mental.composure as int)
}

/// Shot-stopping intent: stay on the goal-line spot's x, and move laterally
/// from it toward the ball's y by the aim fraction
/// `(reflexes × positioning + (handling + one_on_ones)/4) × composure`.
pub open spec fn shot_stopping_intent(slot: int, a: PlayerAttributes, ball_y: int) -> PlayerIntent {
    let (gx, gy) = formation_target(slot);
    let target_y = gy + mul_spec(ball_y - gy, shot_aim(a));
    PlayerIntent::GkShotStop { target_x: gx as i64, target_y: target_y as i64 }
}

/// Short-distribution intent: aim at the near centre-back's spot (slot 1
/// for home, 12 for away), pushed forward by the delivery quality
/// `(kicking + passing + vision + composure)/4` metres.
pub open spec fn distribute_short_intent(slot: int, a: PlayerAttributes) -> PlayerIntent {
    let dist_slot: int = if slot < 11 {
        1
    } else {
        12
    };
    let (bx, by) = formation_target(dist_slot);
    let quality = div_spec(
        a.goalkeeper.kicking + a.technical.passing + a.mental.vision + a.mental.composure,
        from_int_spec(4),
    );
    let target_x = if slot < 11 {
        bx + quality
    } else {
        bx - quality
    };
    PlayerIntent::GkDistributeShort { target_x: target_x as i64, target_y: by as i64 }
}

/// Long-distribution intent: aim at the central midfielder's spot (slot 6
/// for home, 17 for away), pushed forward by `2 × (kicking + (vision +
/// decisions)/2)` metres.
pub open spec fn distribute_long_intent(slot: int, a: PlayerAttributes) -> PlayerIntent {
    let dist_slot: int = if slot < 11 {
        6
    } else {
        17
    };
    let (bx, by) = formation_target(dist_slot);
    let reach = a.goalkeeper.kicking + div_spec(
        a.mental.vision + a.mental.decisions,
        from_int_spec(2),
    );
    let forward_bias = mul_spec(reach, from_int_spec(2));
    let target_x = if slot < 11 {
        bx + forward_bias
    } else {
        bx - forward_bias
    };
    PlayerIntent::GkDistributeLong { target_x: target_x as i64, target_y: by as i64 }
}

/// Move back to the goal-line spot of the keeper's formation slot.
pub open spec fn goal_line_intent(slot: int) -> PlayerIntent {
    PlayerIntent::MoveToPosition {
        target_x: formation_target(slot).0 as i64,
        target_y: formation_target(slot).1 as i64,
    }
}

/// The intent of a goalkeeper in mode `state`.
pub open spec fn gk_intent(
    state: GoalkeeperState,
    slot: int,
    a: PlayerAttributes,
    ball: BallState,
) -> PlayerIntent {
    match state {
        GoalkeeperState::SweeperKeeperRush => sweeper_rush_intent(slot, a, ball.pos_y as int),
        GoalkeeperState::ShotStopping => shot_stopping_intent(slot, a, ball.pos_y as int),
        GoalkeeperState::DistributingFromHand => distribute_short_intent(slot, a),
        GoalkeeperState::DistributingFromFeet => distribute_long_intent(slot, a),
        _ => goal_line_intent(slot),
    }
}

/// The lateral aim arithmetic toward the ball does not overflow for a
/// keeper in mode `state`.
pub open spec fn gk_intent_fits(
    state: GoalkeeperState,
    roster_slot: u8,
    a: PlayerAttributes,
    ball: BallState,
) -> bool {
    let gy = formation_target(roster_slot as int).1;
    match state {
        GoalkeeperState::SweeperKeeperRush => fits(ball.pos_y - gy),
        GoalkeeperState::ShotStopping => {
            &&& fits(ball.pos_y - gy)
            &&& fits(mul_spec(ball.pos_y - gy, shot_aim(a)))
            &&& fits(gy + mul_spec(ball.pos_y - gy, shot_aim(a)))
        },
        _ => true,
    }
}

fn gk_goal_line_position(roster_slot: u8) -> (p: (i64, i64))
    requires
        roster_slot < 22,
    ensures
        p.0 == formation_target(roster_slot as int).0,
        p.1 == formation_target(roster_slot as int).1,
{
    formation_position(roster_slot)
}

fn gk_sweeper_rush(roster_slot: u8, player: &PlayerState, ball: &BallState) -> (i: PlayerIntent)
    requires
        roster_slot < 22,
        player.attributes.wf(),
        gk_intent_fits(GoalkeeperState::SweeperKeeperRush, roster_slot, player.attributes, *ball),
    ensures
        i == sweeper_rush_intent(roster_slot as int, player.attributes, ball.pos_y as int),
{
    let attrs = player.attributes();
    let two = from_int(2);
    let four = from_int(4);
    proof {
        crate::fixed::lemma_div_by_int(
            attrs.goalkeeper.one_on_ones + attrs.goalkeeper.command_of_area,
            2,
        );
        crate::fixed::lemma_div_by_int(attrs.physical.pace + attrs.mental.decisions, 4);
    }
    let aggression_factor = q_div(
        attrs.goalkeeper.one_on_ones + attrs.goalkeeper.command_of_area,
        two,
    );
    let pace = attrs.physical.pace;
    let decisions = attrs.mental.decisions;
    let secondary_factor = q_div(pace + decisions, four);

    let base_rush = from_int(5);
    proof {
        crate::fixed::lemma_mul_nonneg_bound(
            base_rush as int,
            ONE + aggression_factor + secondary_factor,
            base_rush as int,
            3 * scale(),
        );
    }
    let rush_distance = q_mul(base_rush, ONE + aggression_factor + secondary_factor);

    let (gx, gy) = gk_goal_line_position(roster_slot);
    let target_x = if (roster_slot as usize) < 11 {
        gx + rush_distance
    } else {
        gx - rush_distance
    };
    proof {
        crate::fixed::lemma_mul_by_unit(ball.pos_y - gy, decisions as int);
    }
    let target_y = gy + q_mul(ball.pos_y - gy, decisions);
    PlayerIntent::GkSweeperRush { target_x, target_y }
}

fn gk_shot_stopping(roster_slot: u8, player: &PlayerState, ball: &BallState) -> (i: PlayerIntent)
    requires
        roster_slot < 22,
        player.attributes.wf(),
        gk_intent_fits(GoalkeeperState::ShotStopping, roster_slot, player.attributes, *ball),
    ensures
        i == shot_stopping_intent(roster_slot as int, player.attributes, ball.pos_y as int),
{
    let attrs = player.attributes();
    let (goal_x, goal_y) = gk_goal_line_position(roster_slot);
    proof {
        crate::fixed::lemma_mul_unit(
            attrs.goalkeeper.reflexes as int,
            attrs.mental.positioning as int,
        );
        crate::fixed::lemma_div_by_int(
            attrs.goalkeeper.handling + attrs.goalkeeper.one_on_ones,
            4,
        );
    }
    let reflex_positioning = q_mul(attrs.goalkeeper.reflexes, attrs.mental.positioning);
    let secondary_commitment = q_div(
        attrs.goalkeeper.handling + attrs.goalkeeper.one_on_ones,
        from_int(4),
    );
    let composure_damping = attrs.mental.composure;
    proof {
        crate::fixed::lemma_mul_nonneg_bound(
            reflex_positioning + secondary_commitment,
            composure_damping as int,
            2 * scale(),
            scale(),
        );
    }
    let aim_factor = q_mul(reflex_positioning + secondary_commitment, composure_damping);
    let target_y = goal_y + q_mul(ball.pos_y - goal_y, aim_factor);
    PlayerIntent::GkShotStop { target_x: goal_x, target_y }
}

fn gk_distributing_from_hand(roster_slot: u8, player: &PlayerState) -> (i: PlayerIntent)
    requires
        player.attributes.wf(),
    ensures
        i == distribute_short_intent(roster_slot as int, player.attributes),
{
    let attrs = player.attributes();
    let dist_slot: u8 = if (roster_slot as usize) < 11 {
        1
    } else {
        12
    };
    let (base_x, base_y) = formation_position(dist_slot);
    proof {
        crate::fixed::lemma_div_by_int(
            attrs.goalkeeper.kicking + attrs.technical.passing + attrs.mental.vision
                + attrs.mental.composure,
            4,
        );
    }
    let quality = q_div(
        attrs.goalkeeper.kicking + attrs.technical.passing + attrs.mental.vision
            + attrs.mental.composure,
        from_int(4),
    );
    let target_x = if (roster_slot as usize) < 11 {
        base_x + quality
    } else {
        base_x - quality
    };
    PlayerIntent::GkDistributeShort { target_x, target_y: base_y }
}

fn gk_distributing_from_feet(roster_slot: u8, player: &PlayerState) -> (i: PlayerIntent)
    requires
        player.attributes.wf(),
    ensures
        i == distribute_long_intent(roster_slot as int, player.attributes),
{
    let attrs = player.attributes();
    let dist_slot: u8 = if (roster_slot as usize) < 11 {
        6
    } else {
        17
    };
    let (base_x, base_y) = formation_position(dist_slot);
    proof {
        crate::fixed::lemma_div_by_int(attrs.mental.vision + attrs.mental.decisions, 2);
    }
    let reach = attrs.goalkeeper.kicking + q_div(
        attrs.mental.vision + attrs.mental.decisions,
        from_int(2),
    );
    proof {
        crate::fixed::lemma_mul_nonneg_bound(
            reach as int,
            from_int_spec(2),
            2 * scale(),
            from_int_spec(2),
        );
    }
    let forward_bias = q_mul(reach, from_int(2));
    let target_x = if (roster_slot as usize) < 11 {
        base_x + forward_bias
    } else {
        base_x - forward_bias
    };
    PlayerIntent::GkDistributeLong { target_x, target_y: base_y }
}

/// The movement intent of a goalkeeper in mode `state`: the sweeper rush,
/// shot-stopping and the two distribution modes read the keeper's
/// attributes (see the `*_intent` specifications); every other mode sends
/// the keeper back to the goal-line spot of its formation slot.
pub fn dispatch_state(
    state: GoalkeeperState,
    roster_slot: u8,
    player: &PlayerState,
    ball: &BallState,
) -> (i: PlayerIntent)
    requires
        roster_slot < 22,
        player.attributes.wf(),
        gk_intent_fits(state, roster_slot, player.attributes, *ball),
    ensures
        i == gk_intent(state, roster_slot as int, player.attributes, *ball),
{
    match state {
        GoalkeeperState::SweeperKeeperRush => gk_sweeper_rush(roster_slot, player, ball),
        GoalkeeperState::ShotStopping => gk_shot_stopping(roster_slot, player, ball),
        GoalkeeperState::DistributingFromHand => gk_distributing_from_hand(roster_slot, player),
        GoalkeeperState::DistributingFromFeet => gk_distributing_from_feet(roster_slot, player),
        _ => {
            let (target_x, target_y) = gk_goal_line_position(roster_slot);
            PlayerIntent::MoveToPosition { target_x, target_y }
        },
    }
}

/// One goalkeeper decision: choose the mode from the ball, then the intent
/// for that mode.
pub fn keeper_decision(
    current_state: GoalkeeperState,
    player: &PlayerState,
    roster_slot: u8,
    ball: &BallState,
) -> (r: (GoalkeeperState, PlayerIntent))
    requires
        roster_slot < 22,
        player.attributes.wf(),
        gk_transition_fits(roster_slot, *ball),
        gk_intent_fits(
            gk_next_state(roster_slot < 11, ball.pos_x as int, ball.vel_x as int),
            roster_slot,
            player.attributes,
            *ball,
        ),
    ensures
        r.0 == gk_next_state(roster_slot < 11, ball.pos_x as int, ball.vel_x as int),
        r.1 == gk_intent(r.0, roster_slot as int, player.attributes, *ball),
{
    let next_state = evaluate_transitions(current_state, roster_slot, ball);
    let intent = dispatch_state(next_state, roster_slot, player, ball);
    (next_state, intent)
}

/// One goalkeeper decision (see [`keeper_decision`]). Every mode's intent
/// is a function of the keeper and the ball, so the generator is not drawn
/// from.
pub fn tick_goalkeeper(
    current_state: GoalkeeperState,
    player: &PlayerState,
    roster_slot: u8,
    ball: &BallState,
    rng: &mut ChaCha8Rng,
) -> (r: (GoalkeeperState, PlayerIntent))
    requires
        roster_slot < 22,
        player.attributes.wf(),
        gk_transition_fits(roster_slot, *ball),
        gk_intent_fits(
            gk_next_state(roster_slot < 11, ball.pos_x as int, ball.vel_x as int),
            roster_slot,
            player.attributes,
            *ball,
        ),
    ensures
        r.0 == gk_next_state(roster_slot < 11, ball.pos_x as int, ball.vel_x as int),
        r.1 == gk_intent(r.0, roster_slot as int, player.attributes, *ball),
{
    keeper_decision(current_state, player, roster_slot, ball)
}

/// The sweeper rush distance `5 m × (1 + …)` lies between 5 m and 15 m.
proof fn lemma_rush_distance_range(a: PlayerAttributes)
    requires
        a.wf(),
    ensures
        ({
            let aggression_factor = div_spec(
                a.goalkeeper.one_on_ones + a.goalkeeper.command_of_area,
                from_int_spec(2),
            );
            let secondary_factor = div_spec(a.physical.pace + a.mental.decisions, from_int_spec(4));
            let rush = mul_spec(from_int_spec(5), ONE + aggression_factor + secondary_factor);
            5 * scale() <= rush <= 15 * scale()
        }),
{
    let sc = scale();
    let x1 = a.goalkeeper.one_on_ones + a.goalkeeper.command_of_area;
    let x2 = a.physical.pace + a.mental.decisions;
    vstd::arithmetic::div_mod::lemma_div_is_ordered(0, x1 * sc, 2 * sc);
    vstd::arithmetic::div_mod::lemma_div_is_ordered(x1 * sc, 2 * sc * sc, 2 * sc);
    vstd::arithmetic::div_mod::lemma_div_is_ordered(0, x2 * sc, 4 * sc);
    vstd::arithmetic::div_mod::lemma_div_is_ordered(x2 * sc, 2 * sc * sc, 4 * sc);
    assert((2 * sc * sc) / (2 * sc) == sc) by (nonlinear_arith)
        requires
            sc == 4294967296int,
    ;
    assert((2 * sc * sc) / (4 * sc) == sc / 2) by (nonlinear_arith)
        requires
            sc == 4294967296int,
    ;
    let agg = div_spec(x1, from_int_spec(2));
    let sec = div_spec(x2, from_int_spec(4));
    assert(0 <= agg <= sc && 0 <= sec <= sc);
    crate::fixed::lemma_mul_monotone(5 * sc, ONE + agg + sec, 5 * sc, sc);
    crate::fixed::lemma_mul_nonneg_bound(5 * sc, ONE + agg + sec, 5 * sc, 3 * sc);
    assert(mul_spec(5 * sc, sc) == 5 * sc) by (nonlinear_arith)
        requires
            sc == 4294967296int,
    ;
    assert((5 * sc * (3 * sc)) / sc == 15 * sc) by (nonlinear_arith)
        requires
            sc == 4294967296int,
    ;
}

/// A sweeper rush always takes the keeper off its goal-line spot toward
/// the halfway line, by 5 m to 15 m: a home keeper (slots `0..11`) to a
/// larger x than the spot, an away keeper to a smaller one.
pub proof fn lemma_sweeper_rush_leaves_the_goal_line(slot: int, a: PlayerAttributes, ball: BallState)
    requires
        0 <= slot < 22,
        a.wf(),
    ensures
        gk_intent(GoalkeeperState::SweeperKeeperRush, slot, a, ball) matches PlayerIntent::GkSweeperRush {
            target_x,
            ..
        } && (slot < 11 ==> formation_target(slot).0 + 5 * scale() <= target_x <= formation_target(slot).0
            + 15 * scale()) && (slot >= 11 ==> formation_target(slot).0 - 15 * scale() <= target_x
            <= formation_target(slot).0 - 5 * scale()),
{
    lemma_rush_distance_range(a);
    assert(-45 * scale() <= formation_target(slot).0 <= 45 * scale());
}

/// The away keeper's sweeper rush is the home keeper's reflected across the
/// halfway line: with the same attributes, slot `k + 11` rushes to the
/// mirror image of slot `k`'s target x.
pub proof fn lemma_sweeper_rush_mirror(k: int, a: PlayerAttributes, ball: BallState)
    requires
        0 <= k < 11,
        a.wf(),
    ensures
        gk_intent(GoalkeeperState::SweeperKeeperRush, k + 11, a, ball) matches PlayerIntent::GkSweeperRush {
            target_x: away_x,
            ..
        } && gk_intent(GoalkeeperState::SweeperKeeperRush, k, a, ball) matches PlayerIntent::GkSweeperRush {
            target_x: home_x,
            ..
        } && away_x == -home_x,
{
    lemma_rush_distance_range(a);
    crate::subtree_library::lemma_formation_mirror(k);
    assert(-45 * scale() <= formation_target(k).0 <= 45 * scale());
}

} // verus!
