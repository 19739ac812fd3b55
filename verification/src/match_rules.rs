//! Geometric possession rules of the match step: defensive clearances in
//! front of goal, the arrival of passes in flight, restart kinds when the
//! ball leaves play, and the opponent-shape heuristic for recoveries.

use vstd::prelude::*;

use crate::ball::BallState;
use crate::fixed::{dist_sq, dist_sq_fits, dist_sq_spec, fits, q_mul};
use crate::match_state::{BallInFlight, MatchState, PLAYERS_PER_TEAM, TOTAL_PLAYERS};
use crate::tactic::{SetPieceKind, reciprocal_kind};

verus! {

// ---------------------------------------------------------------------------
// Constants (Q32 raw bits)
// ---------------------------------------------------------------------------

/// A possessor within 5 m of the ball (25 m² squared) physically holds it.
pub const PHYSICAL_POSSESSION_RADIUS_SQ: i64 = 107374182400;

/// A goal-side defender within 10 m (100 m² squared) can clear the ball.
pub const DEFENDER_CLEAR_RADIUS_SQ: i64 = 429496729600;

/// Speed of a defensive clearance upfield: 10 m/s.
pub const CLEARANCE_SPEED: i64 = 42949672960;

/// Clearances only happen within 20 m of the defended goal line.
pub const CLEARANCE_DANGER_ZONE_M: i64 = 85899345920;

/// A pass is trapped when the ball is within 4 m of its receiver.
pub const TRAP_RADIUS_M: i64 = 17179869184;

/// A pass still in flight after 120 ticks is resolved regardless.
pub const FLIGHT_TIMEOUT_TICKS: i64 = 120;

// ---------------------------------------------------------------------------
// Shared predicates
// ---------------------------------------------------------------------------

/// Every player–ball squared distance is representable.
pub open spec fn player_ball_distances_fit(s: MatchState) -> bool {
    forall|i: int|
        0 <= i < s.players@.len() ==> dist_sq_fits(
            #[trigger] s.players@[i].pos_x as int,
            s.players@[i].pos_y as int,
            s.ball.pos_x as int,
            s.ball.pos_y as int,
        )
}

/// Squared distance from player `i` to the ball.
pub open spec fn player_ball_dist(s: MatchState, i: int) -> int {
    dist_sq_spec(
        s.players@[i].pos_x as int,
        s.players@[i].pos_y as int,
        s.ball.pos_x as int,
        s.ball.pos_y as int,
    )
}

// ---------------------------------------------------------------------------
// Goalmouth defending
// ---------------------------------------------------------------------------

/// The ball is physically unclaimed: nobody has possession, or the
/// possessor is more than 5 m from it (a notional possession during a pass
/// or an overshoot).
pub open spec fn ball_physically_unclaimed(s: MatchState) -> bool {
    match s.possession {
        None => true,
        Some(p) => if (p as int) < 22 {
            player_ball_dist(s, p as int) > PHYSICAL_POSSESSION_RADIUS_SQ
        } else {
            true
        },
    }
}

/// Player `i` can clear the ball for its team: on its own side of the
/// halfway line (or on it) and within the clearance radius.
pub open spec fn can_clear(s: MatchState, home: bool, i: int) -> bool {
    &&& if home {
        s.players@[i].pos_x <= 0
    } else {
        s.players@[i].pos_x >= 0
    }
    &&& player_ball_dist(s, i) <= DEFENDER_CLEAR_RADIUS_SQ
}

/// Among slots `lo..hi`, the clearer nearest the ball, ties going to the
/// lower slot.
pub open spec fn nearest_clearer(s: MatchState, home: bool, lo: int, hi: int) -> Option<int>
    decreases hi - lo,
{
    if hi <= lo {
        None
    } else {
        let r = nearest_clearer(s, home, lo, hi - 1);
        let i = hi - 1;
        if can_clear(s, home, i) && (r is None || player_ball_dist(s, i) < player_ball_dist(
            s,
            r.unwrap(),
        )) {
            Some(i)
        } else {
            r
        }
    }
}

/// Slot `k` clears the ball: the ball moves upfield at `vel_x`, becomes
/// loose, any pass in flight is cancelled and `k` touched it last.
pub open spec fn cleared_by(s: MatchState, k: int, vel_x: i64) -> MatchState {
    MatchState {
        ball: BallState { vel_x: vel_x, vel_y: 0, ..s.ball },
        possession: None,
        ball_in_flight: None,
        last_touched_by: Some(s.players@[k].slot),
        ..s
    }
}

/// Home side: a ball in the home half, within 20 m of the home goal line
/// and moving toward it, is cleared toward +x by the nearest home outfield
/// player (slots 1..11) who can reach it.
pub open spec fn home_clearance(s: MatchState, goal_line_x: int) -> MatchState {
    let bx = s.ball.pos_x as int;
    if s.ball.vel_x < 0 && bx < 0 && 0 <= bx + goal_line_x <= CLEARANCE_DANGER_ZONE_M {
        match nearest_clearer(s, true, 1, 11) {
            Some(k) => cleared_by(s, k, CLEARANCE_SPEED),
            None => s,
        }
    } else {
        s
    }
}

/// Away side: the mirror of [`home_clearance`], with away outfield players
/// (slots 12..22) clearing toward −x.
pub open spec fn away_clearance(s: MatchState, goal_line_x: int) -> MatchState {
    let bx = s.ball.pos_x as int;
    if s.ball.vel_x > 0 && bx > 0 && 0 <= goal_line_x - bx <= CLEARANCE_DANGER_ZONE_M {
        match nearest_clearer(s, false, 12, 22) {
            Some(k) => cleared_by(s, k, (-CLEARANCE_SPEED) as i64),
            None => s,
        }
    } else {
        s
    }
}

/// Goalmouth defending: nothing happens while the ball is physically held;
/// otherwise the home clearance rule, then the away clearance rule.
pub open spec fn goalmouth_defending(s: MatchState, goal_line_x: int) -> MatchState {
    if !ball_physically_unclaimed(s) {
        s
    } else {
        away_clearance(home_clearance(s, goal_line_x), goal_line_x)
    }
}

fn find_nearest_clearer(state: &MatchState, home: bool, lo: usize, hi: usize) -> (r: Option<
    usize,
>)
    requires
        state.wf(),
        player_ball_distances_fit(*state),
        1 <= lo <= hi <= 22,
    ensures
        r matches Some(k) ==> nearest_clearer(*state, home, lo as int, hi as int) == Some(k as int)
            && lo <= k < hi,
        r is None ==> nearest_clearer(*state, home, lo as int, hi as int) is None,
{
    let bx = state.ball.pos_x;
    let by = state.ball.pos_y;
    let mut nearest_slot: Option<usize> = None;
    let mut nearest_dist_sq: i64 = DEFENDER_CLEAR_RADIUS_SQ;
    let mut slot_idx = lo;
    while slot_idx < hi
        invariant
            state.wf(),
            player_ball_distances_fit(*state),
            1 <= lo <= slot_idx <= hi <= 22,
            bx == state.ball.pos_x,
            by == state.ball.pos_y,
            nearest_slot matches Some(k) ==> nearest_clearer(*state, home, lo as int, slot_idx as int)
                == Some(k as int) && nearest_dist_sq == player_ball_dist(*state, k as int) && lo <= k
                < slot_idx,
            nearest_slot is None ==> nearest_clearer(
                *state,
                home,
                lo as int,
                slot_idx as int,
            ) is None,
        decreases hi - slot_idx,
    {
        let p = &state.players[slot_idx];
        let on_own_side = if home {
            p.pos_x <= 0
        } else {
            p.pos_x >= 0
        };
        if on_own_side {
            assert(dist_sq_fits(
                state.players@[slot_idx as int].pos_x as int,
                state.players@[slot_idx as int].pos_y as int,
                bx as int,
                by as int,
            ));
            let d = dist_sq(p.pos_x, p.pos_y, bx, by);
            if d <= DEFENDER_CLEAR_RADIUS_SQ && (nearest_slot.is_none() || d < nearest_dist_sq) {
                nearest_dist_sq = d;
                nearest_slot = Some(slot_idx);
            }
        }
        slot_idx = slot_idx + 1;
    }
    nearest_slot
}

fn clear_with(state: MatchState, k: usize, vel_x: i64) -> (s: MatchState)
    requires
        state.wf(),
        k < 22,
    ensures
        s == cleared_by(state, k as int, vel_x),
        s.wf(),
{
    let mut state = state;
    state.ball.vel_x = vel_x;
    state.ball.vel_y = 0;
    state.possession = None;
    state.ball_in_flight = None;
    let p_slot = state.players[k].slot;
    state.last_touched_by = Some(p_slot);
    state
}

/// Defensive clearance in front of goal. While the ball is physically
/// unclaimed (no possessor, or the possessor more than 5 m away), a ball
/// moving toward a team's goal line inside its own half and within 20 m of
/// that line is cleared upfield at 10 m/s by the team's nearest outfield
/// player on its own side within 10 m of the ball (ties to the lower slot).
/// The clearance leaves the ball loose, cancels any pass in flight and
/// records the clearer as last to touch the ball. Home is checked first,
/// then away. `goal_line_x` is the distance of each goal line from the
/// halfway line.
pub fn resolve_goalmouth_defending(state: MatchState, goal_line_x: i64) -> (s: MatchState)
    requires
        state.wf(),
        goal_line_x >= 0,
        player_ball_distances_fit(state),
    ensures
        s == goalmouth_defending(state, goal_line_x as int),
        s.wf(),
        player_ball_distances_fit(s),
{
    let mut state = state;
    let bx = state.ball.pos_x;
    let by = state.ball.pos_y;
    let bvx = state.ball.vel_x;

    let ball_is_physically_unclaimed = match state.possession {
        None => true,
        Some(slot) => {
            let slot_idx = slot as usize;
            if slot_idx < TOTAL_PLAYERS {
                let px = state.players[slot_idx].pos_x;
                let py = state.players[slot_idx].pos_y;
                assert(dist_sq_fits(
                    state.players@[slot_idx as int].pos_x as int,
                    state.players@[slot_idx as int].pos_y as int,
                    bx as int,
                    by as int,
                ));
                let d = dist_sq(px, py, bx, by);
                d > PHYSICAL_POSSESSION_RADIUS_SQ
            } else {
                true
            }
        },
    };
    if !ball_is_physically_unclaimed {
        return state;
    }
    let ghost s0 = state;

    // Home team defends the -x goal.
    if bvx < 0 && bx < 0 {
        let dist_from_home_line = bx + goal_line_x;
        if dist_from_home_line >= 0 && dist_from_home_line <= CLEARANCE_DANGER_ZONE_M {
            let nearest = find_nearest_clearer(&state, true, 1, PLAYERS_PER_TEAM);
            if let Some(k) = nearest {
                state = clear_with(state, k, CLEARANCE_SPEED);
            }
        }
    }
    assert(state == home_clearance(s0, goal_line_x as int));
    assert(player_ball_distances_fit(state)) by {
        assert(state.players == s0.players);
        assert(state.ball.pos_x == s0.ball.pos_x && state.ball.pos_y == s0.ball.pos_y);
    }
    let ghost s1 = state;

    // Away team defends the +x goal.
    let bvx = state.ball.vel_x;
    if bvx > 0 && state.ball.pos_x > 0 {
        let bx2 = state.ball.pos_x;
        let dist_from_away_line = goal_line_x - bx2;
        if dist_from_away_line >= 0 && dist_from_away_line <= CLEARANCE_DANGER_ZONE_M {
            let nearest = find_nearest_clearer(&state, false, PLAYERS_PER_TEAM + 1, TOTAL_PLAYERS);
            if let Some(k) = nearest {
                state = clear_with(state, k, -CLEARANCE_SPEED);
            }
        }
    }
    assert(state == away_clearance(s1, goal_line_x as int));
    assert(player_ball_distances_fit(state)) by {
        assert(state.players == s1.players);
        assert(state.ball.pos_x == s1.ball.pos_x && state.ball.pos_y == s1.ball.pos_y);
    }
    state
}


/// The chosen clearer is the eligible player nearest the ball, the lowest
/// slot among equally near ones; there is none exactly when no player in
/// the range can clear.
pub proof fn lemma_nearest_clearer_is_nearest(s: MatchState, home: bool, lo: int, hi: int)
    ensures
        nearest_clearer(s, home, lo, hi) matches Some(k) ==> {
            &&& lo <= k < hi
            &&& can_clear(s, home, k)
            &&& forall|j: int|
                lo <= j < hi && can_clear(s, home, j) ==> player_ball_dist(s, k)
                    <= player_ball_dist(s, j) && (player_ball_dist(s, j) == player_ball_dist(s, k)
                    ==> k <= j)
        },
        nearest_clearer(s, home, lo, hi) is None ==> forall|j: int|
            lo <= j < hi ==> !can_clear(s, home, j),
    decreases hi - lo,
{
    if hi > lo {
        lemma_nearest_clearer_is_nearest(s, home, lo, hi - 1);
    }
}

/// A ball that a possessor physically holds is never cleared: goalmouth
/// defending leaves the state unchanged.
pub proof fn lemma_held_ball_not_cleared(s: MatchState, goal_line_x: int)
    requires
        !ball_physically_unclaimed(s),
    ensures
        goalmouth_defending(s, goal_line_x) == s,
{
}

// ---------------------------------------------------------------------------
// Restart kinds
// ---------------------------------------------------------------------------

/// Restart kinds `(home, away)` when the ball leaves play.
///
/// Over a goal line (`past_non_goal_line`): `bx_bits > 0` means the ball
/// crossed the away goal line, so home was attacking. The attacking team
/// gets a corner if it touched the ball last (or nobody is recorded),
/// otherwise the defending team gets a goal kick.
///
/// Over a sideline only: the team that did not touch the ball last throws
/// in; with nobody recorded, home throws in.
pub open spec fn setpiece_kinds(
    past_non_goal_line: bool,
    bx_bits: i64,
    last_team_idx: Option<usize>,
) -> (SetPieceKind, SetPieceKind) {
    if past_non_goal_line {
        let home_attacking = bx_bits > 0;
        let attacker_touched_last = match last_team_idx {
            None => true,
            Some(t) => (t == 0) == home_attacking,
        };
        if home_attacking {
            if attacker_touched_last {
                (SetPieceKind::CornerFor, SetPieceKind::CornerAgainst)
            } else {
                (SetPieceKind::GoalKickOpponent, SetPieceKind::GoalKick)
            }
        } else {
            if attacker_touched_last {
                (SetPieceKind::CornerAgainst, SetPieceKind::CornerFor)
            } else {
                (SetPieceKind::GoalKick, SetPieceKind::GoalKickOpponent)
            }
        }
    } else {
        match last_team_idx {
            Some(t) => if t == 0 {
                (SetPieceKind::ThrowInAgainst, SetPieceKind::ThrowInFor)
            } else {
                (SetPieceKind::ThrowInFor, SetPieceKind::ThrowInAgainst)
            },
            None => (SetPieceKind::ThrowInFor, SetPieceKind::ThrowInAgainst),
        }
    }
}

/// Per-team restart kinds when the ball leaves play (see
/// [`setpiece_kinds`]). `last_team_idx` is the team (0 home, 1 away) of
/// the last player to touch the ball; any other team index is a simulation
/// invariant violation.
pub fn setpiece_kind_for(past_non_goal_line: bool, bx_bits: i64, last_team_idx: Option<usize>) -> (r: (
    SetPieceKind,
    SetPieceKind,
))
    requires
        last_team_idx matches Some(t) ==> t < 2,
    ensures
        r == setpiece_kinds(past_non_goal_line, bx_bits, last_team_idx),
        r.1 == reciprocal_kind(r.0),
{
    if past_non_goal_line {
        let home_attacking = bx_bits > 0;
        match (home_attacking, last_team_idx) {
            (true, Some(0)) | (true, None) => (SetPieceKind::CornerFor, SetPieceKind::CornerAgainst),
            (true, Some(_)) => (SetPieceKind::GoalKickOpponent, SetPieceKind::GoalKick),
            (false, Some(1)) | (false, None) => (
                SetPieceKind::CornerAgainst,
                SetPieceKind::CornerFor,
            ),
            (false, Some(_)) => (SetPieceKind::GoalKick, SetPieceKind::GoalKickOpponent),
        }
    } else {
        match last_team_idx {
            Some(0) => (SetPieceKind::ThrowInAgainst, SetPieceKind::ThrowInFor),
            Some(_) => (SetPieceKind::ThrowInFor, SetPieceKind::ThrowInAgainst),
            None => (SetPieceKind::ThrowInFor, SetPieceKind::ThrowInAgainst),
        }
    }
}

/// The two teams always see the same restart from opposite sides: the away
/// kind is the reciprocal of the home kind.
pub proof fn lemma_setpiece_kinds_reciprocal(
    past_non_goal_line: bool,
    bx_bits: i64,
    last_team_idx: Option<usize>,
)
    requires
        last_team_idx matches Some(t) ==> t < 2,
    ensures
        setpiece_kinds(past_non_goal_line, bx_bits, last_team_idx).1 == reciprocal_kind(
            setpiece_kinds(past_non_goal_line, bx_bits, last_team_idx).0,
        ),
{
}

// ---------------------------------------------------------------------------
// Opponent shape
// ---------------------------------------------------------------------------

/// Sum of the raw x-coordinates of players `lo..hi`, wrapping on overflow.
pub open spec fn wrapped_x_sum(players: Seq<crate::player::PlayerState>, lo: int, hi: int) -> i64
    decreases hi - lo,
{
    if hi <= lo {
        0
    } else {
        wrapped_x_sum(players, lo, hi - 1).wrapping_add(players[hi - 1].pos_x)
    }
}

/// Integer division of `a` by a positive `b`, truncating toward zero.
pub open spec fn trunc_div(a: int, b: int) -> int {
    if a >= 0 {
        a / b
    } else {
        -((-a) / b)
    }
}

/// The opponents of the recovering team have committed forward: the mean
/// x of the opposing eleven (wrapping sum, division truncating toward zero)
/// is inside the recovering team's half — below 0 when home recovers
/// (`recovering_team == 0`), above 0 when away recovers.
pub open spec fn opponent_shape_broken(s: MatchState, recovering_team: usize) -> bool {
    let mean = if recovering_team == 0 {
        trunc_div(wrapped_x_sum(s.players@, 11, 22) as int, 11)
    } else {
        trunc_div(wrapped_x_sum(s.players@, 0, 11) as int, 11)
    };
    if recovering_team == 0 {
        mean < 0
    } else {
        mean > 0
    }
}

/// Whether the opposing team's shape is broken for a recovery by
/// `recovering_team` (see [`opponent_shape_broken`]).
pub fn compute_opponent_shape_broken(state: &MatchState, recovering_team: usize) -> (b: bool)
    requires
        state.players@.len() == 22,
    ensures
        b == opponent_shape_broken(*state, recovering_team),
{
    let (opp_start, opp_end) = if recovering_team == 0 {
        (PLAYERS_PER_TEAM, TOTAL_PLAYERS)
    } else {
        (0, PLAYERS_PER_TEAM)
    };
    let n: i64 = 11;
    let mut sum_bits: i64 = 0;
    let mut s = opp_start;
    while s < opp_end
        invariant
            opp_start <= s <= opp_end,
            opp_end == opp_start + 11,
            opp_end <= 22,
            state.players@.len() == 22,
            sum_bits == wrapped_x_sum(state.players@, opp_start as int, s as int),
        decreases opp_end - s,
    {
        sum_bits = sum_bits.wrapping_add(state.players[s].pos_x);
        s = s + 1;
    }
    let mean_bits = sum_bits / n;
    if recovering_team == 0 {
        mean_bits < 0
    } else {
        mean_bits > 0
    }
}

// ---------------------------------------------------------------------------
// Loose-ball pickup
// ---------------------------------------------------------------------------

/// A loose ball is collected by a player within 5 m (25 m² squared).
pub const PICKUP_RADIUS_SQ: i64 = 107374182400;

/// A loose ball can only be collected below 8 m/s (64 m²/s² squared).
pub const PICKUP_MAX_SPEED_SQ: i64 = 274877906944;

/// Goalkeepers only collect a loose ball more than 42 m from the centre,
/// at their own end.
pub const GK_PICKUP_THRESHOLD: u64 = 180388626432;

/// Player `i` may collect the loose ball: an outfield player anywhere, a
/// goalkeeper only at its own end beyond 42 m; and within 5 m of the ball.
pub open spec fn can_pick_up(s: MatchState, i: int) -> bool {
    let bx = s.ball.pos_x as int;
    &&& (i == 0 || i == 11) ==> (crate::fixed::abs_spec(bx) >= GK_PICKUP_THRESHOLD && (bx < 0)
        == (i == 0))
    &&& player_ball_dist(s, i) <= PICKUP_RADIUS_SQ
}

/// Among slots `0..hi`, the collector nearest the ball, ties to the lower
/// slot.
pub open spec fn nearest_collector(s: MatchState, hi: int) -> Option<int>
    decreases hi,
{
    if hi <= 0 {
        None
    } else {
        let r = nearest_collector(s, hi - 1);
        let i = hi - 1;
        if can_pick_up(s, i) && (r is None || player_ball_dist(s, i) < player_ball_dist(
            s,
            r.unwrap(),
        )) {
            Some(i)
        } else {
            r
        }
    }
}

/// Squared ball speed in the pitch plane.
pub open spec fn ball_speed_sq(s: MatchState) -> int {
    dist_sq_spec(s.ball.vel_x as int, s.ball.vel_y as int, 0, 0)
}

/// Loose-ball pickup: a loose ball (no possessor, no pass in flight)
/// slower than 8 m/s goes to the nearest eligible collector, who gets
/// possession and the last touch with the ball at rest at their feet.
pub open spec fn pickup_resolution(s: MatchState) -> MatchState {
    if s.possession is None && s.ball_in_flight is None && ball_speed_sq(s) < PICKUP_MAX_SPEED_SQ {
        match nearest_collector(s, 22) {
            Some(k) => MatchState {
                possession: Some(s.players@[k].slot),
                last_touched_by: Some(s.players@[k].slot),
                ball: BallState {
                    pos_x: s.players@[k].pos_x,
                    pos_y: s.players@[k].pos_y,
                    vel_x: 0,
                    vel_y: 0,
                    vel_z: 0,
                    ..s.ball
                },
                ..s
            },
            None => s,
        }
    } else {
        s
    }
}

/// Award a settled loose ball to the nearest player who can collect it
/// (see [`pickup_resolution`]).
pub fn loose_ball_pickup(state: MatchState) -> (s: MatchState)
    requires
        state.wf(),
        player_ball_distances_fit(state),
        dist_sq_fits(state.ball.vel_x as int, state.ball.vel_y as int, 0, 0),
    ensures
        s == pickup_resolution(state),
        s.wf(),
{
    let mut state = state;
    let ball_speed = dist_sq(state.ball.vel_x, state.ball.vel_y, 0, 0);
    if state.possession.is_none() && state.ball_in_flight.is_none()
        && ball_speed < PICKUP_MAX_SPEED_SQ {
        let bx = state.ball.pos_x;
        let by = state.ball.pos_y;
        let mut best: Option<usize> = None;
        let mut best_dist_sq: i64 = i64::MAX;
        let mut slot_idx: usize = 0;
        while slot_idx < 22
            invariant
                state.wf(),
                player_ball_distances_fit(state),
                slot_idx <= 22,
                bx == state.ball.pos_x,
                by == state.ball.pos_y,
                best matches Some(k) ==> nearest_collector(state, slot_idx as int) == Some(
                    k as int,
                ) && best_dist_sq == player_ball_dist(state, k as int) && k < slot_idx,
                best is None ==> nearest_collector(state, slot_idx as int) is None && best_dist_sq
                    == i64::MAX,
            decreases 22 - slot_idx,
        {
            let mut eligible = true;
            if slot_idx == 0 || slot_idx == 11 {
                let bx_abs = crate::fixed::abs_bits(bx);
                if bx_abs < GK_PICKUP_THRESHOLD {
                    eligible = false;
                } else {
                    let ball_in_home_half = bx < 0;
                    let is_home_gk = slot_idx == 0;
                    if ball_in_home_half != is_home_gk {
                        eligible = false;
                    }
                }
            }
            if eligible {
                let p = &state.players[slot_idx];
                assert(dist_sq_fits(
                    state.players@[slot_idx as int].pos_x as int,
                    state.players@[slot_idx as int].pos_y as int,
                    bx as int,
                    by as int,
                ));
                let d = dist_sq(p.pos_x, p.pos_y, bx, by);
                if d <= PICKUP_RADIUS_SQ && d < best_dist_sq {
                    best_dist_sq = d;
                    best = Some(slot_idx);
                }
            }
            slot_idx = slot_idx + 1;
        }
        if let Some(k) = best {
            let slot = state.players[k].slot;
            state.possession = Some(slot);
            state.last_touched_by = Some(slot);
            state.ball.pos_x = state.players[k].pos_x;
            state.ball.pos_y = state.players[k].pos_y;
            state.ball.vel_x = 0;
            state.ball.vel_y = 0;
            state.ball.vel_z = 0;
        }
    }
    state
}

// ---------------------------------------------------------------------------
// Out of play
// ---------------------------------------------------------------------------

/// Pitch boundary geometry, all Q32 raw bits: the goal lines at ±`goal_line_x`,
/// the sidelines at ±`sideline_y`, and the goal mouth within ±`goal_half_width`.
#[derive(Debug, Clone, Copy, PartialEq, Eq, Structural)]
pub struct PitchGeometry {
    pub goal_line_x: i64,
    pub sideline_y: i64,
    pub goal_half_width: i64,
}

impl PitchGeometry {
    /// All three distances are non-negative.
    pub open spec fn wf(self) -> bool {
        self.goal_line_x >= 0 && self.sideline_y >= 0 && self.goal_half_width >= 0
    }
}

/// The ball is on or beyond a sideline.
pub open spec fn past_sideline(b: BallState, g: PitchGeometry) -> bool {
    crate::fixed::abs_spec(b.pos_y as int) >= g.sideline_y
}

/// The ball is on or beyond a goal line outside the goal mouth.
pub open spec fn past_non_goal_line(b: BallState, g: PitchGeometry) -> bool {
    crate::fixed::abs_spec(b.pos_x as int) >= g.goal_line_x && crate::fixed::abs_spec(
        b.pos_y as int,
    ) >= g.goal_half_width
}

/// Out-of-play handling: a ball over a sideline or over a goal line
/// outside the goal mouth stops in the pitch plane (vertical motion kept),
/// is placed on the line(s) it crossed, cancels any pass in flight, and
/// yields the per-team restart kinds; a ball in play is untouched.
pub open spec fn out_of_play_resolution(s: MatchState, g: PitchGeometry) -> (
    MatchState,
    Option<(SetPieceKind, SetPieceKind)>,
) {
    let b = s.ball;
    let side = past_sideline(b, g);
    let goal = past_non_goal_line(b, g);
    if side || goal {
        let y = if side {
            if b.pos_y < 0 {
                -g.sideline_y
            } else {
                g.sideline_y as int
            }
        } else {
            b.pos_y as int
        };
        let x = if goal {
            if b.pos_x < 0 {
                -g.goal_line_x
            } else {
                g.goal_line_x as int
            }
        } else {
            b.pos_x as int
        };
        let last_team = match s.last_touched_by {
            Some(p) => Some(crate::match_state::team_of_spec(p as int) as usize),
            None => None,
        };
        (
            MatchState {
                ball: BallState { pos_x: x as i64, pos_y: y as i64, vel_x: 0, vel_y: 0, ..b },
                ball_in_flight: None,
                ..s
            },
            Some(setpiece_kinds(goal, b.pos_x, last_team)),
        )
    } else {
        (s, None)
    }
}

/// Clamp a ball that has left play back onto the boundary and report the
/// restart kinds for home and away (see [`out_of_play_resolution`]).
pub fn clamp_out_of_play(state: MatchState, geometry: PitchGeometry) -> (r: (
    MatchState,
    Option<(SetPieceKind, SetPieceKind)>,
))
    requires
        state.wf(),
        geometry.wf(),
    ensures
        r == out_of_play_resolution(state, geometry),
        r.0.wf(),
        r.1 matches Some(k) ==> k.1 == reciprocal_kind(k.0),
{
    let mut state = state;
    let bx_bits = state.ball.pos_x;
    let by_bits = state.ball.pos_y;
    let bx_abs = crate::fixed::abs_bits(bx_bits);
    let by_abs = crate::fixed::abs_bits(by_bits);
    let goal_line_bits = crate::fixed::abs_bits(geometry.goal_line_x);
    let sideline_bits = crate::fixed::abs_bits(geometry.sideline_y);
    let half_width_bits = crate::fixed::abs_bits(geometry.goal_half_width);

    let past_side = by_abs >= sideline_bits;
    let past_goal = bx_abs >= goal_line_bits && by_abs >= half_width_bits;

    if past_side || past_goal {
        state.ball.vel_x = 0;
        state.ball.vel_y = 0;
        if past_side {
            if by_bits < 0 {
                state.ball.pos_y = -geometry.sideline_y;
            } else {
                state.ball.pos_y = geometry.sideline_y;
            }
        }
        if past_goal {
            if bx_bits < 0 {
                state.ball.pos_x = -geometry.goal_line_x;
            } else {
                state.ball.pos_x = geometry.goal_line_x;
            }
        }
        let last_team_idx = match state.last_touched_by {
            Some(p) => Some(crate::match_state::team_of(p)),
            None => None,
        };
        let kinds = setpiece_kind_for(past_goal, bx_bits, last_team_idx);
        state.ball_in_flight = None;
        (state, Some(kinds))
    } else {
        (state, None)
    }
}

// ---------------------------------------------------------------------------
// Passes in flight
// ---------------------------------------------------------------------------

/// Resolution of the pass in flight: once the ball is within 4 m of the
/// receiver (16 m² squared) or more than 120 ticks have passed since the
/// launch, the flight ends; a successful pass then gives the receiver the
/// ball, at rest at the receiver's feet, with the receiver last to touch it.
pub open spec fn trap_resolution(s: MatchState) -> MatchState {
    match s.ball_in_flight {
        None => s,
        Some(b) => {
            let r = b.intended_receiver as int;
            let arrived = dist_sq_spec(
                s.players@[r].pos_x as int,
                s.players@[r].pos_y as int,
                s.ball.pos_x as int,
                s.ball.pos_y as int,
            ) <= 16 * crate::fixed::scale();
            let timed_out = s.tick - b.launch_tick > FLIGHT_TIMEOUT_TICKS;
            if arrived || timed_out {
                if b.outcome_is_success {
                    MatchState {
                        possession: Some(b.intended_receiver),
                        last_touched_by: Some(b.intended_receiver),
                        ball: BallState {
                            pos_x: s.players@[r].pos_x,
                            pos_y: s.players@[r].pos_y,
                            vel_x: 0,
                            vel_y: 0,
                            vel_z: 0,
                            ..s.ball
                        },
                        ball_in_flight: None,
                        ..s
                    }
                } else {
                    MatchState { ball_in_flight: None, ..s }
                }
            } else {
                s
            }
        },
    }
}

/// End a pass in flight that has reached its receiver or timed out (see
/// [`trap_resolution`]).
pub fn trap_check_in_flight(state: MatchState) -> (s: MatchState)
    requires
        state.wf(),
        player_ball_distances_fit(state),
    ensures
        s == trap_resolution(state),
        s.wf(),
{
    let mut state = state;
    let bif = match state.ball_in_flight {
        Some(b) => b,
        None => return state,
    };
    let ticks_in_flight = state.tick - bif.launch_tick;
    let recv_idx = bif.intended_receiver as usize;

    let bx = state.ball.pos_x;
    let by = state.ball.pos_y;
    let px = state.players[recv_idx].pos_x;
    let py = state.players[recv_idx].pos_y;
    assert(dist_sq_fits(px as int, py as int, bx as int, by as int));
    let d = dist_sq(px, py, bx, by);
    let trap_sq = q_mul(TRAP_RADIUS_M, TRAP_RADIUS_M);
    assert(trap_sq == 16 * crate::fixed::scale());

    let arrived = d <= trap_sq;
    let timed_out = ticks_in_flight > FLIGHT_TIMEOUT_TICKS;

    if arrived || timed_out {
        if bif.outcome_is_success {
            state.possession = Some(bif.intended_receiver);
            state.last_touched_by = Some(bif.intended_receiver);
            state.ball.pos_x = state.players[recv_idx].pos_x;
            state.ball.pos_y = state.players[recv_idx].pos_y;
            state.ball.vel_x = 0;
            state.ball.vel_y = 0;
            state.ball.vel_z = 0;
        }
        state.ball_in_flight = None;
    }
    state
}

} // verus!
