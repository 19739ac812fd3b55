//! Per-player decision helpers of the dispatch layer: movement caps, shot
//! features, pass-target choice, loose-ball drops, offside at pass launch
//! and the loose-ball chase pre-emption.

use vstd::prelude::*;

use crate::fixed::{
    ONE, abs_bits, abs_spec, dist_sq, dist_sq_spec, div_spec, div_trunc_spec, fits, from_int, from_int_spec, is_isqrt,
    lemma_direction_bound, lemma_root_below, lemma_root_bounds_offset, lemma_scaled_direction_bound,
    lemma_square_bound, mul_spec, q_div, q_div_trunc, q_mul, q_sqrt, scale, sqrt_spec,
};
use crate::match_event::MatchEvent;
use crate::match_rules::player_ball_distances_fit;
use crate::match_state::{BallInFlight, MatchState, PLAYERS_PER_TEAM, TOTAL_PLAYERS};
use crate::pass_completion::{
    CurvedInterceptionSkills, CurvedPassingSkills, PassKind, chacha8_first_u64, draw_completes,
    interception_skills_in_unit, lemma_pass_resolution_fits, pass_lane_gate, pass_probability,
    passer_team_of,
    passer_quality, resolve_pass_completion, skills_in_unit,
};
use crate::goalkeeper_fsm::{formation_target, gk_intent, gk_intent_fits, gk_next_state, keeper_decision, shot_aim};
use crate::player::{PlayerAttributes, PlayerState, coordinates_within};
use crate::role_states::{GoalkeeperState, PlayerIntent, PlayerRoleState, role_transition};
use crate::separation::MIN_PLAYER_DISTANCE;
use crate::signature::dispatcher::{BiasCategory, CandidateContext, candidates_bound, eligible_prefix, evaluate_signatures, reaches_trigger};
use crate::signature::gate::{SignatureKind, kind_of_id, lemma_trigger_fit_unit, signature_kind, trigger_fit};
use crate::signature::ledger::{
    CooldownPolicy, SignatureLedger, expire_firings, firings_expired, kind_index, kind_slot,
    ledger_recorded, record_firing,
};
use crate::shot::{
    PASS_BASE_SPEED_MPS, PASS_PEAK_BONUS_MPS, SHOT_BASE_SPEED_MPS, SHOT_PEAK_BONUS_MPS,
    compute_ball_speed_for_pass, compute_ball_speed_for_shot, compute_shot_dispersion_for_shooter,
    dispersed_target, dispersion_distance_factor, kick_speed, lemma_kick_speed_range, shooter_quality,
    shot_quality_feature_q32, shot_sigma,
};
use crate::telemetry::{DribbleTelemetryRecord, ShotTelemetryRecord};
use crate::tactic::{SetPieceKind, TacticEvent, TacticState};
use crate::ball::BallState;

verus! {

/// Outfield speed at pace 0: 6.5 m/s.
pub const V_PACE_BASE: i64 = 27917287424;

/// Extra outfield speed at pace 1: 2.5 m/s.
pub const V_PACE_RANGE: i64 = 10737418240;

/// Goalkeeper speed cap: 7.2 m/s.
pub const V_GK_SPEED: i64 = 30923764531;

// ---------------------------------------------------------------------------
// Speed cap
// ---------------------------------------------------------------------------

/// Outfield speed cap `6.5 + pace × 2.5` m/s.
pub open spec fn v_max_spec(pace: int) -> int {
    V_PACE_BASE + mul_spec(pace, V_PACE_RANGE as int)
}

/// Outfield movement speed cap for a player of the given pace.
pub fn player_v_max(pace: i64) -> (v: i64)
    requires
        fits(mul_spec(pace as int, V_PACE_RANGE as int)),
        fits(v_max_spec(pace as int)),
    ensures
        v == v_max_spec(pace as int),
{
    V_PACE_BASE + q_mul(pace, V_PACE_RANGE)
}

/// The speed cap grows with pace and spans 6.5 m/s to 9 m/s over `[0, 1]`.
pub proof fn lemma_v_max_range(p: int, q: int)
    requires
        0 <= p <= q <= scale(),
    ensures
        v_max_spec(0) == V_PACE_BASE,
        v_max_spec(scale()) == V_PACE_BASE + V_PACE_RANGE,
        v_max_spec(p) <= v_max_spec(q),
{
    crate::fixed::lemma_mul_monotone(q, V_PACE_RANGE as int, p, V_PACE_RANGE as int);
    assert(scale() * V_PACE_RANGE / scale() == V_PACE_RANGE);
}

// ---------------------------------------------------------------------------
// Steering and kick directions
// ---------------------------------------------------------------------------

/// The velocity that steers a player by the offset `(dx, dy)` toward its
/// target, capped at `v_max`: zero at the target; the offset itself when its
/// squared length is within `v_max²`; otherwise the unit direction
/// `(dx, dy) / dist` scaled to `v_max`.
pub open spec fn vel_toward_target(dx: int, dy: int, v_max: int) -> (int, int) {
    let ds = mul_spec(dx, dx) + mul_spec(dy, dy);
    if ds == 0 {
        (0, 0)
    } else if ds <= mul_spec(v_max, v_max) {
        (dx, dy)
    } else {
        let dist = sqrt_spec(ds);
        (mul_spec(div_trunc_spec(dx, dist), v_max), mul_spec(div_trunc_spec(dy, dist), v_max))
    }
}

/// `v` points the same way as `d` along one axis (or is zero).
pub open spec fn same_direction(v: int, d: int) -> bool {
    &&& d >= 0 ==> v >= 0
    &&& d <= 0 ==> v <= 0
}

/// A direction component scaled by a non-negative factor keeps the sign of
/// the offset it came from.
proof fn lemma_scaled_direction_sign(d: int, dist: int, k: int)
    requires
        dist > 0,
        k >= 0,
    ensures
        same_direction(mul_spec(div_trunc_spec(d, dist), k), d),
{
    let a = abs_spec(d) * scale();
    vstd::arithmetic::div_mod::lemma_div_pos_is_pos(a, dist);
    let q = div_trunc_spec(d, dist);
    if d == 0 {
        assert(a == 0);
        assert(q == 0);
        assert(q * k == 0);
    } else if d > 0 {
        assert(q >= 0);
        assert(q * k >= 0) by (nonlinear_arith)
            requires
                q >= 0,
                k >= 0,
        ;
        vstd::arithmetic::div_mod::lemma_div_pos_is_pos(q * k, scale());
    } else {
        assert(q <= 0);
        assert(q * k <= 0) by (nonlinear_arith)
            requires
                q <= 0,
                k >= 0,
        ;
        vstd::arithmetic::div_mod::lemma_div_is_ordered(q * k, 0, scale());
    }
}

/// Steering velocity toward a target at offset `(dx, dy)`, capped at
/// `v_max` (see [`vel_toward_target`]); each component keeps the sign of the
/// offset.
pub fn apply_vel_toward_target(dx: i64, dy: i64, v_max: i64) -> (v: (i64, i64))
    requires
        abs_spec(dx as int) <= 35184372088832,
        abs_spec(dy as int) <= 35184372088832,
        0 <= v_max <= 35184372088832,
    ensures
        v.0 == vel_toward_target(dx as int, dy as int, v_max as int).0,
        v.1 == vel_toward_target(dx as int, dy as int, v_max as int).1,
        same_direction(v.0 as int, dx as int),
        same_direction(v.1 as int, dy as int),
{
    proof {
        lemma_square_bound(dx as int);
        lemma_square_bound(dy as int);
        lemma_square_bound(v_max as int);
    }
    let dist_sq: i64 = q_mul(dx, dx) + q_mul(dy, dy);
    let v_max_sq: i64 = q_mul(v_max, v_max);
    if dist_sq == 0 {
        return (0, 0);
    }
    if dist_sq <= v_max_sq {
        return (dx, dy);
    }
    proof {
        lemma_root_bounds_offset(dx as int, dy as int);
    }
    let dist: i64 = q_sqrt(dist_sq);
    proof {
        lemma_direction_bound(dx as int, dist as int);
        lemma_direction_bound(dy as int, dist as int);
    }
    let dir_x: i64 = q_div_trunc(dx, dist);
    let dir_y: i64 = q_div_trunc(dy, dist);
    proof {
        lemma_scaled_direction_bound(dir_x as int, v_max as int);
        lemma_scaled_direction_bound(dir_y as int, v_max as int);
        lemma_scaled_direction_sign(dx as int, dist as int, v_max as int);
        lemma_scaled_direction_sign(dy as int, dist as int, v_max as int);
    }
    (q_mul(dir_x, v_max), q_mul(dir_y, v_max))
}

/// The velocity of a ball kicked from `(fx, fy)` toward `(tx, ty)` at
/// `speed`: the unit direction scaled to `speed`, or zero when the two
/// points coincide (squared distance zero).
pub open spec fn ball_unit_vel_spec(fx: int, fy: int, tx: int, ty: int, speed: int) -> (int, int) {
    let dx = tx - fx;
    let dy = ty - fy;
    let ds = mul_spec(dx, dx) + mul_spec(dy, dy);
    if ds == 0 {
        (0, 0)
    } else {
        let dist = sqrt_spec(ds);
        (mul_spec(div_trunc_spec(dx, dist), speed), mul_spec(div_trunc_spec(dy, dist), speed))
    }
}

/// Ball velocity for a kick from `(from_x, from_y)` toward `(to_x, to_y)` at
/// `speed` (see [`ball_unit_vel_spec`]); the ball travels toward the target.
pub fn ball_unit_vel(from_x: i64, from_y: i64, to_x: i64, to_y: i64, speed: i64) -> (v: (i64, i64))
    requires
        abs_spec(from_x as int) <= 17592186044416,
        abs_spec(from_y as int) <= 17592186044416,
        abs_spec(to_x as int) <= 17592186044416,
        abs_spec(to_y as int) <= 17592186044416,
        0 <= speed <= 35184372088832,
    ensures
        v.0 == ball_unit_vel_spec(from_x as int, from_y as int, to_x as int, to_y as int, speed as int).0,
        v.1 == ball_unit_vel_spec(from_x as int, from_y as int, to_x as int, to_y as int, speed as int).1,
        same_direction(v.0 as int, to_x - from_x),
        same_direction(v.1 as int, to_y - from_y),
{
    let dx: i64 = to_x - from_x;
    let dy: i64 = to_y - from_y;
    proof {
        lemma_square_bound(dx as int);
        lemma_square_bound(dy as int);
    }
    let dist_sq: i64 = q_mul(dx, dx) + q_mul(dy, dy);
    if dist_sq == 0 {
        return (0, 0);
    }
    proof {
        lemma_root_bounds_offset(dx as int, dy as int);
    }
    let dist: i64 = q_sqrt(dist_sq);
    proof {
        lemma_direction_bound(dx as int, dist as int);
        lemma_direction_bound(dy as int, dist as int);
    }
    let dir_x: i64 = q_div_trunc(dx, dist);
    let dir_y: i64 = q_div_trunc(dy, dist);
    proof {
        lemma_scaled_direction_bound(dir_x as int, speed as int);
        lemma_scaled_direction_bound(dir_y as int, speed as int);
        lemma_scaled_direction_sign(dx as int, dist as int, speed as int);
        lemma_scaled_direction_sign(dy as int, dist as int, speed as int);
    }
    (q_mul(dir_x, speed), q_mul(dir_y, speed))
}

// ---------------------------------------------------------------------------
// Shot features
// ---------------------------------------------------------------------------

/// Angle feature of a shot from lateral position `y`:
/// `1 − |y| / 25 m`, and 0 from 25 m out.
pub open spec fn shot_angle_feature(y: int) -> int {
    let a = abs_spec(y);
    if a >= 25 * scale() {
        0
    } else {
        ONE - div_spec(a, from_int_spec(25))
    }
}

/// The shot-angle feature for a shooter at lateral position `shooter_pos_y`.
pub fn shot_angle_feature_q32(shooter_pos_y: i64) -> (f: i64)
    ensures
        f == shot_angle_feature(shooter_pos_y as int),
        0 <= f <= ONE,
{
    let py_abs_bits = abs_bits(shooter_pos_y);
    if py_abs_bits >= 107374182400u64 {
        0
    } else {
        proof {
            crate::fixed::lemma_div_by_int(py_abs_bits as int, 25);
        }
        let normalized = q_div(py_abs_bits as i64, from_int(25));
        ONE - normalized
    }
}

/// Distance feature of a shot from `x` by a player of the team attacking
/// the goal at `goal_x`: `1 − d / 35 m` with `d = |goal_x − x|`, and 0 from
/// 35 m out.
pub open spec fn shot_distance_feature(goal_x: int, x: int) -> int {
    let d = abs_spec(goal_x - x);
    if d >= 35 * scale() {
        0
    } else {
        ONE - div_spec(d, from_int_spec(35))
    }
}

/// The goal line a slot's team attacks: `+goal_line_x` for home, `−goal_line_x`
/// for away.
pub open spec fn attacking_goal_x(slot: u8, goal_line_x: int) -> int {
    if slot < 11 {
        goal_line_x
    } else {
        -goal_line_x
    }
}

/// The shot-distance feature for a shooter in `shooter_slot` at
/// `shooter_pos_x`; `goal_line_x` is the distance of the goal lines from
/// the halfway line.
pub fn shot_distance_feature_q32(shooter_pos_x: i64, shooter_slot: u8, goal_line_x: i64) -> (f: i64)
    requires
        goal_line_x >= 0,
        fits(attacking_goal_x(shooter_slot, goal_line_x as int) - shooter_pos_x),
    ensures
        f == shot_distance_feature(
            attacking_goal_x(shooter_slot, goal_line_x as int),
            shooter_pos_x as int,
        ),
        0 <= f <= ONE,
{
    let goal_x = if (shooter_slot as usize) < PLAYERS_PER_TEAM {
        goal_line_x
    } else {
        -goal_line_x
    };
    let dx = goal_x - shooter_pos_x;
    let dx_abs_bits = abs_bits(dx);
    if dx_abs_bits >= 150323855360u64 {
        0
    } else {
        proof {
            crate::fixed::lemma_div_by_int(dx_abs_bits as int, 35);
        }
        let normalized = q_div(dx_abs_bits as i64, from_int(35));
        ONE - normalized
    }
}

/// Defenders farther than 15 m from the shooter exert no pressure:
/// `15² m²` in raw bits.
pub const PRESSURE_RADIUS_SQ: i64 = 966367641600;

/// Distance floor added before inverting: `2^-4` m.
pub const PRESSURE_EPSILON: i64 = 268435456;

/// Pressure contributed by player `k` on the shooter `s`: `1 / (d + ε)` for a
/// distance `d` below 15 m (compared by squared distance), else 0.
pub open spec fn pressure_term(ps: Seq<PlayerState>, s: int, k: int) -> int {
    let ds = dist_sq_spec(
        ps[k].pos_x as int,
        ps[k].pos_y as int,
        ps[s].pos_x as int,
        ps[s].pos_y as int,
    );
    if ds >= PRESSURE_RADIUS_SQ {
        0
    } else {
        div_spec(ONE as int, sqrt_spec(ds) + PRESSURE_EPSILON)
    }
}

/// Sum of [`pressure_term`] over the players `lo..hi`.
pub open spec fn pressure_sum(ps: Seq<PlayerState>, s: int, lo: int, hi: int) -> int
    decreases hi - lo,
{
    if hi <= lo {
        0
    } else {
        pressure_sum(ps, s, lo, hi - 1) + pressure_term(ps, s, hi - 1)
    }
}

/// The slots of the team opposing `slot`: `11..22` for home, `0..11` for away.
pub open spec fn opponent_range(slot: u8) -> (int, int) {
    if slot < 11 {
        (11, 22)
    } else {
        (0, 11)
    }
}

/// Saturating map of a summed inverse distance into `[0, 1)`:
/// `1 − 1 / (1 + sum)`.
pub open spec fn pressure_from_sum(sum: int) -> int {
    ONE - div_spec(ONE as int, ONE + sum)
}

/// Defender-pressure feature of the shooter at index `s`.
pub open spec fn shot_pressure(ps: Seq<PlayerState>, s: int) -> int {
    let r = opponent_range(ps[s].slot);
    pressure_from_sum(pressure_sum(ps, s, r.0, r.1))
}

/// One pressure term lies in `[0, 16]` (raw `2^36`).
proof fn lemma_pressure_term_bound(ps: Seq<PlayerState>, s: int, k: int)
    requires
        0 <= s < ps.len(),
        0 <= k < ps.len(),
        coordinates_within(ps, 17592186044416),
    ensures
        0 <= pressure_term(ps, s, k) <= 68719476736,
{
    let dx = ps[k].pos_x - ps[s].pos_x;
    let dy = ps[k].pos_y - ps[s].pos_y;
    lemma_square_bound(dx);
    lemma_square_bound(dy);
    let ds = mul_spec(dx, dx) + mul_spec(dy, dy);
    if ds < PRESSURE_RADIUS_SQ {
        let d = sqrt_spec(ds);
        if ds == 0 {
            assert(0int * 0int == 0 && 1int * 1int == 1) by (nonlinear_arith);
            assert(is_isqrt(0, 0));
            crate::fixed::lemma_isqrt_unique(0, 0, d);
        } else {
            lemma_root_bounds_offset(dx, dy);
        }
        let m = ONE as int * scale();
        vstd::arithmetic::div_mod::lemma_div_is_ordered_by_denominator(m, PRESSURE_EPSILON as int, d + PRESSURE_EPSILON);
        vstd::arithmetic::div_mod::lemma_div_pos_is_pos(m, d + PRESSURE_EPSILON);
        assert(m / (PRESSURE_EPSILON as int) == 68719476736);
    }
}

/// The pressure map stays in `[0, 1)` for a sum in `[0, 2^40]` (up to 256
/// in real terms).
pub proof fn lemma_pressure_from_sum_range(sum: int)
    requires
        0 <= sum <= 1099511627776,
    ensures
        0 <= pressure_from_sum(sum) < ONE,
{
    let m = ONE as int * scale();
    vstd::arithmetic::div_mod::lemma_div_is_ordered_by_denominator(m, ONE as int, ONE + sum);
    vstd::arithmetic::div_mod::lemma_div_is_ordered_by_denominator(m, ONE + sum, 2199023255552);
    assert(m / (ONE as int) == ONE);
    assert(m / 2199023255552 == 8388608);
}

/// More summed pressure never lowers the feature.
pub proof fn lemma_pressure_from_sum_monotone(a: int, b: int)
    requires
        0 <= a <= b,
    ensures
        pressure_from_sum(a) <= pressure_from_sum(b),
{
    vstd::arithmetic::div_mod::lemma_div_is_ordered_by_denominator(
        ONE as int * scale(),
        ONE + a,
        ONE + b,
    );
}

/// Defender-pressure feature of the shooter at index `shooter_idx`:
/// `1 − 1 / (1 + Σ 1 / (d + ε))` over the opposing players within 15 m
/// (see [`shot_pressure`]); it lies in `[0, 1)`.
pub fn shot_pressure_feature_q32(players: &[PlayerState], shooter_idx: usize) -> (f: i64)
    requires
        players@.len() == 22,
        shooter_idx < 22,
        coordinates_within(players@, 17592186044416),
    ensures
        f == shot_pressure(players@, shooter_idx as int),
        0 <= f < ONE,
{
    let shooter = players[shooter_idx];
    let lo: usize;
    let hi: usize;
    if (shooter.slot as usize) < PLAYERS_PER_TEAM {
        lo = 11;
        hi = 22;
    } else {
        lo = 0;
        hi = 11;
    }
    let mut sum: i64 = 0;
    let mut k: usize = lo;
    while k < hi
        invariant
            players@.len() == 22,
            shooter_idx < 22,
            shooter == players@[shooter_idx as int],
            coordinates_within(players@, 17592186044416),
            (lo as int, hi as int) == opponent_range(shooter.slot),
            lo <= k <= hi,
            hi == lo + 11,
            sum == pressure_sum(players@, shooter_idx as int, lo as int, k as int),
            0 <= sum <= (k - lo) * 68719476736,
        decreases hi - k,
    {
        let opp = players[k];
        proof {
            lemma_pressure_term_bound(players@, shooter_idx as int, k as int);
            lemma_square_bound(opp.pos_x - shooter.pos_x);
            lemma_square_bound(opp.pos_y - shooter.pos_y);
        }
        let ds: i64 = dist_sq(opp.pos_x, opp.pos_y, shooter.pos_x, shooter.pos_y);
        if ds < PRESSURE_RADIUS_SQ {
            let dist: i64 = q_sqrt(ds);
            proof {
                lemma_root_below(ds * scale(), dist as int, 64424509440);
            }
            let inv: i64 = q_div(ONE, dist + PRESSURE_EPSILON);
            sum = sum + inv;
        }
        k = k + 1;
    }
    proof {
        lemma_pressure_from_sum_range(sum as int);
    }
    let denom: i64 = ONE + sum;
    ONE - q_div(ONE, denom)
}

// ---------------------------------------------------------------------------
// Pass target
// ---------------------------------------------------------------------------

/// Manhattan distance between two points (exact, in raw bits).
pub open spec fn manhattan(ax: int, ay: int, bx: int, by: int) -> int {
    abs_spec(ax - bx) + abs_spec(ay - by)
}

/// Manhattan distance from player `i` to `(tx, ty)`.
pub open spec fn player_manhattan(s: MatchState, i: int, tx: int, ty: int) -> int {
    manhattan(s.players@[i].pos_x as int, s.players@[i].pos_y as int, tx, ty)
}

/// Among the passer's teammates in slots `lo..hi` (the passer excluded), the
/// one nearest `(tx, ty)` by Manhattan distance, ties to the lower slot.
pub open spec fn nearest_teammate(s: MatchState, passer: int, lo: int, hi: int, tx: int, ty: int) -> Option<int>
    decreases hi - lo,
{
    if hi <= lo {
        None
    } else {
        let r = nearest_teammate(s, passer, lo, hi - 1, tx, ty);
        let i = hi - 1;
        if i != passer && (r is None || player_manhattan(s, i, tx, ty) < player_manhattan(
            s,
            r.unwrap(),
            tx,
            ty,
        )) {
            Some(i)
        } else {
            r
        }
    }
}

/// First slot of the passer's team.
pub open spec fn team_start(slot: int) -> int {
    if slot < 11 {
        0
    } else {
        11
    }
}

fn abs_i128(v: i128) -> (r: i128)
    requires
        v > i128::MIN,
    ensures
        r == abs_spec(v as int),
{
    if v < 0 {
        -v
    } else {
        v
    }
}

/// The pass receiver for a pass aimed at `(target_x, target_y)`: the
/// passer's teammate nearest the target point (Manhattan distance, ties to
/// the lower slot). Never the passer.
pub fn nearest_teammate_near(
    state: &MatchState,
    passer_slot_idx: usize,
    target_x: i64,
    target_y: i64,
) -> (r: u8)
    requires
        state.wf(),
        passer_slot_idx < 22,
    ensures
        nearest_teammate(
            *state,
            passer_slot_idx as int,
            team_start(passer_slot_idx as int),
            team_start(passer_slot_idx as int) + 11,
            target_x as int,
            target_y as int,
        ) == Some(r as int),
        r != passer_slot_idx,
        team_start(r as int) == team_start(passer_slot_idx as int),
{
    let team_start_idx: usize = if passer_slot_idx < 11 {
        0
    } else {
        11
    };
    let team_end = team_start_idx + 11;
    let passer_slot = state.players[passer_slot_idx].slot;
    let mut best_slot = passer_slot;
    let mut best: Option<usize> = None;
    let mut best_dist: i128 = i128::MAX;
    let tx = target_x as i128;
    let ty = target_y as i128;
    let mut teammate_idx = team_start_idx;
    while teammate_idx < team_end
        invariant
            state.wf(),
            passer_slot_idx < 22,
            team_start_idx == team_start(passer_slot_idx as int),
            team_end == team_start_idx + 11,
            team_start_idx <= teammate_idx <= team_end,
            tx == target_x,
            ty == target_y,
            passer_slot == passer_slot_idx,
            best matches Some(k) ==> nearest_teammate(
                *state,
                passer_slot_idx as int,
                team_start_idx as int,
                teammate_idx as int,
                tx as int,
                ty as int,
            ) == Some(k as int) && best_dist == player_manhattan(
                *state,
                k as int,
                tx as int,
                ty as int,
            ) && best_slot == k && team_start_idx <= k < teammate_idx && k != passer_slot_idx,
            best is None ==> nearest_teammate(
                *state,
                passer_slot_idx as int,
                team_start_idx as int,
                teammate_idx as int,
                tx as int,
                ty as int,
            ) is None && best_slot == passer_slot && best_dist == i128::MAX,
            best is None ==> (teammate_idx == team_start_idx || (teammate_idx == team_start_idx + 1
                && passer_slot_idx == team_start_idx)),
        decreases team_end - teammate_idx,
    {
        if teammate_idx != passer_slot_idx {
            let tp = &state.players[teammate_idx];
            let dx = abs_i128(tp.pos_x as i128 - tx);
            let dy = abs_i128(tp.pos_y as i128 - ty);
            let dist = dx + dy;
            if dist < best_dist {
                best_dist = dist;
                best_slot = tp.slot;
                best = Some(teammate_idx);
            }
        }
        teammate_idx = teammate_idx + 1;
    }
    best_slot
}

// ---------------------------------------------------------------------------
// Loose-ball drop of a failed pass
// ---------------------------------------------------------------------------

/// Fraction of the pass length a failed forward pass travels: 0.40.
pub const FRAC_40: i64 = 1717986918;

/// Fraction of the pass length a failed backward pass travels: 0.20.
pub const FRAC_20: i64 = 858993459;

/// The first slot standing exactly at `(x, y)` among slots `0..hi`.
pub open spec fn first_at(s: MatchState, hi: int, x: i64, y: i64) -> Option<int>
    decreases hi,
{
    if hi <= 0 {
        None
    } else {
        match first_at(s, hi - 1, x, y) {
            Some(k) => Some(k),
            None => if s.players@[hi - 1].pos_x == x && s.players@[hi - 1].pos_y == y {
                Some(hi - 1)
            } else {
                None
            },
        }
    }
}

/// Among slots `lo..hi`, the player nearest `(tx, ty)` by Manhattan
/// distance, ties to the lower slot.
pub open spec fn nearest_in(s: MatchState, lo: int, hi: int, tx: int, ty: int) -> Option<int>
    decreases hi - lo,
{
    if hi <= lo {
        None
    } else {
        let r = nearest_in(s, lo, hi - 1, tx, ty);
        let i = hi - 1;
        if r is None || player_manhattan(s, i, tx, ty) < player_manhattan(s, r.unwrap(), tx, ty) {
            Some(i)
        } else {
            r
        }
    }
}

/// Where a failed pass from `from` to `to` drops: `frac` of the way along
/// (0.4 forward, 0.2 backward), shifted 0.4 m in y away from the nearest
/// opponent of the passer (the passer is the first player standing exactly
/// at `from`, home if nobody is), at rest.
pub open spec fn drop_point(
    s: MatchState,
    from_x: i64,
    from_y: i64,
    to_x: i64,
    to_y: i64,
    is_forward: bool,
) -> (int, int) {
    let frac: int = if is_forward {
        FRAC_40 as int
    } else {
        FRAC_20 as int
    };
    let drop_x = from_x + mul_spec(frac, to_x - from_x);
    let drop_y = from_y + mul_spec(frac, to_y - from_y);
    let passer_is_home = match first_at(s, 22, from_x, from_y) {
        Some(k) => k < 11,
        None => true,
    };
    let opp_lo: int = if passer_is_home {
        11
    } else {
        0
    };
    let opp = nearest_in(s, opp_lo, opp_lo + 11, drop_x, drop_y).unwrap();
    let offset = if s.players@[opp].pos_y > drop_y {
        -MIN_PLAYER_DISTANCE
    } else {
        MIN_PLAYER_DISTANCE as int
    };
    (drop_x, drop_y + offset)
}

/// The drop arithmetic does not overflow.
pub open spec fn drop_fits(
    from_x: i64,
    from_y: i64,
    to_x: i64,
    to_y: i64,
    is_forward: bool,
) -> bool {
    let frac: int = if is_forward {
        FRAC_40 as int
    } else {
        FRAC_20 as int
    };
    &&& fits(to_x - from_x)
    &&& fits(to_y - from_y)
    &&& fits(from_x + mul_spec(frac, to_x - from_x))
    &&& fits(from_y + mul_spec(frac, to_y - from_y))
    &&& fits(from_y + mul_spec(frac, to_y - from_y) + MIN_PLAYER_DISTANCE)
    &&& fits(from_y + mul_spec(frac, to_y - from_y) - MIN_PLAYER_DISTANCE)
}

/// Drop the ball of a failed pass loose (see [`drop_point`]): the ball is
/// placed at the drop point at rest; nothing else changes.
pub fn drop_loose_ball(
    state: &mut MatchState,
    from_x: i64,
    from_y: i64,
    to_x: i64,
    to_y: i64,
    is_forward: bool,
)
    requires
        old(state).wf(),
        drop_fits(from_x, from_y, to_x, to_y, is_forward),
    ensures
        final(state).ball.pos_x == drop_point(*old(state), from_x, from_y, to_x, to_y, is_forward).0,
        final(state).ball.pos_y == drop_point(*old(state), from_x, from_y, to_x, to_y, is_forward).1,
        final(state).ball.vel_x == 0,
        final(state).ball.vel_y == 0,
        final(state).ball.vel_z == 0,
        final(state).ball.pos_z == old(state).ball.pos_z,
        final(state).ball.spin_x == old(state).ball.spin_x,
        final(state).ball.spin_y == old(state).ball.spin_y,
        final(state).ball.spin_z == old(state).ball.spin_z,
        *final(state) == (MatchState { ball: final(state).ball, ..*old(state) }),
        final(state).wf(),
{
    let frac = if is_forward {
        FRAC_40
    } else {
        FRAC_20
    };
    let dx = to_x - from_x;
    let dy = to_y - from_y;
    proof {
        crate::fixed::lemma_mul_by_unit(dx as int, frac as int);
        crate::fixed::lemma_mul_by_unit(dy as int, frac as int);
        assert(frac as int * dx == dx * frac as int) by (nonlinear_arith);
        assert(frac as int * dy == dy * frac as int) by (nonlinear_arith);
    }
    let drop_x = from_x + q_mul(frac, dx);
    let drop_y = from_y + q_mul(frac, dy);

    let mut passer_is_home = true;
    let mut idx: usize = 0;
    let mut found = false;
    while idx < TOTAL_PLAYERS
        invariant
            state.wf(),
            idx <= 22,
            !found ==> first_at(*state, idx as int, from_x, from_y) is None && passer_is_home,
            found ==> (first_at(*state, 22, from_x, from_y) matches Some(k) && passer_is_home == (k
                < 11)),
        decreases 22 - idx,
    {
        if !found && state.players[idx].pos_x == from_x && state.players[idx].pos_y == from_y {
            passer_is_home = idx < PLAYERS_PER_TEAM;
            found = true;
            proof {
                lemma_first_at_stable(*state, idx as int + 1, 22, from_x, from_y);
            }
        }
        idx = idx + 1;
    }

    let (opp_start, opp_end): (usize, usize) = if passer_is_home {
        (PLAYERS_PER_TEAM, TOTAL_PLAYERS)
    } else {
        (0, PLAYERS_PER_TEAM)
    };
    let ghost opp_lo = opp_start as int;
    let dxi = drop_x as i128;
    let dyi = drop_y as i128;
    let mut nearest_opp_dist: i128 = i128::MAX;
    let mut nearest_opp_y_raw: i64 = 0;
    let mut nearest: Option<usize> = None;
    let mut opp_idx = opp_start;
    while opp_idx < opp_end
        invariant
            state.wf(),
            opp_end == opp_start + 11,
            opp_end <= 22,
            opp_start <= opp_idx <= opp_end,
            dxi == drop_x,
            dyi == drop_y,
            nearest matches Some(k) ==> nearest_in(
                *state,
                opp_start as int,
                opp_idx as int,
                dxi as int,
                dyi as int,
            ) == Some(k as int) && nearest_opp_dist == player_manhattan(
                *state,
                k as int,
                dxi as int,
                dyi as int,
            ) && nearest_opp_y_raw == state.players@[k as int].pos_y && opp_start <= k < opp_idx,
            nearest is None ==> opp_idx == opp_start && nearest_opp_dist == i128::MAX,
        decreases opp_end - opp_idx,
    {
        let op = &state.players[opp_idx];
        let odx = abs_i128(op.pos_x as i128 - dxi);
        let ody = abs_i128(op.pos_y as i128 - dyi);
        let dist = odx + ody;
        if dist < nearest_opp_dist {
            nearest_opp_dist = dist;
            nearest_opp_y_raw = op.pos_y;
            nearest = Some(opp_idx);
        }
        opp_idx = opp_idx + 1;
    }

    let offset_y = if nearest_opp_y_raw > drop_y {
        -MIN_PLAYER_DISTANCE
    } else {
        MIN_PLAYER_DISTANCE
    };
    state.ball.pos_x = drop_x;
    state.ball.pos_y = drop_y + offset_y;
    state.ball.vel_x = 0;
    state.ball.vel_y = 0;
    state.ball.vel_z = 0;
}

proof fn lemma_first_at_stable(s: MatchState, lo: int, hi: int, x: i64, y: i64)
    requires
        0 <= lo <= hi,
        first_at(s, lo, x, y) is Some,
    ensures
        first_at(s, hi, x, y) == first_at(s, lo, x, y),
    decreases hi - lo,
{
    if hi > lo {
        lemma_first_at_stable(s, lo, hi - 1, x, y);
    }
}

// ---------------------------------------------------------------------------
// Offside at pass launch
// ---------------------------------------------------------------------------

/// Set-piece states from which no offside can be called: every restart
/// (throw-in, corner, goal kick, kick-off, free kick).
pub fn is_set_piece_offside_exempt(state: TacticState) -> (b: bool)
    ensures
        b <==> state is SetPiece,
{
    match state {
        TacticState::SetPiece(kind) => match kind {
            SetPieceKind::ThrowInFor | SetPieceKind::ThrowInAgainst | SetPieceKind::CornerFor
            | SetPieceKind::CornerAgainst | SetPieceKind::GoalKick | SetPieceKind::GoalKickOpponent
            | SetPieceKind::KickOff | SetPieceKind::FreeKickFor | SetPieceKind::FreeKickAgainst => true,
        },
        _ => false,
    }
}

/// An x coordinate seen in the attacking direction of a team: as is for
/// home (attacking +x), negated for away (attacking −x).
pub open spec fn attack_x(home: bool, x: int) -> int {
    if home {
        x
    } else {
        -x
    }
}

/// Below every attacking-direction coordinate of an `i64` position.
pub open spec fn below_pitch() -> int {
    -18446744073709551616
}

/// The two largest attacking-direction coordinates, for the team attacking
/// as `home`, among the players in slots `lo..hi`: `(deepest, second
/// deepest)`, a tie counting twice; [`below_pitch`] stands in for missing
/// players.
pub open spec fn deepest_two(s: MatchState, home: bool, lo: int, hi: int) -> (int, int)
    decreases hi - lo,
{
    if hi <= lo {
        (below_pitch(), below_pitch())
    } else {
        let r = deepest_two(s, home, lo, hi - 1);
        let a = attack_x(home, s.players@[hi - 1].pos_x as int);
        if a > r.0 {
            (a, r.0)
        } else if a > r.1 {
            (r.0, a)
        } else {
            r
        }
    }
}

/// The offside line against a team attacking as `home`: the
/// attacking-direction coordinate of the second-rearmost opponent, the
/// goalkeeper included.
pub open spec fn offside_line(s: MatchState, home: bool) -> int {
    let lo: int = if home {
        11
    } else {
        0
    };
    deepest_two(s, home, lo, lo + 11).1
}

/// Offside at the moment a pass is played: outside a restart, the receiver
/// is further forward than the passer and strictly beyond both the offside
/// line (the second-rearmost opponent) and the ball; level is onside. Home
/// attacks +x, away −x.
pub open spec fn offside_at_launch(
    s: MatchState,
    passer_tactic: TacticState,
    passer: int,
    receiver: int,
) -> bool {
    let home = passer < 11;
    let r = attack_x(home, s.players@[receiver].pos_x as int);
    if passer_tactic is SetPiece {
        false
    } else {
        &&& r > attack_x(home, s.players@[passer].pos_x as int)
        &&& r > offside_line(s, home)
        &&& r > attack_x(home, s.ball.pos_x as int)
    }
}

/// The offside line against a team attacking as `home` (see
/// [`offside_line`]).
fn compute_offside_line(state: &MatchState, home: bool) -> (l: i128)
    requires
        state.wf(),
    ensures
        l == offside_line(*state, home),
{
    let lo: usize = if home {
        11
    } else {
        0
    };
    let mut deepest: i128 = -18446744073709551616;
    let mut second: i128 = -18446744073709551616;
    let mut k: usize = lo;
    while k < lo + 11
        invariant
            state.wf(),
            lo == 0 || lo == 11,
            lo <= k <= lo + 11,
            (deepest as int, second as int) == deepest_two(*state, home, lo as int, k as int),
        decreases lo + 11 - k,
    {
        let x = state.players[k].pos_x as i128;
        let a: i128 = if home {
            x
        } else {
            -x
        };
        if a > deepest {
            second = deepest;
            deepest = a;
        } else if a > second {
            second = a;
        }
        k = k + 1;
    }
    second
}

/// Whether the pass from `passer_slot_idx` to `receiver_slot` is offside
/// (see [`offside_at_launch`]); `passer_tactic` is the passing team's
/// tactical state.
pub fn is_offside_at_pass_launch(
    state: &MatchState,
    passer_tactic: TacticState,
    passer_slot_idx: usize,
    receiver_slot: u8,
) -> (b: bool)
    requires
        state.wf(),
        passer_slot_idx < 22,
        receiver_slot < 22,
    ensures
        b == offside_at_launch(*state, passer_tactic, passer_slot_idx as int, receiver_slot as int),
{
    let home = passer_slot_idx < PLAYERS_PER_TEAM;
    if is_set_piece_offside_exempt(passer_tactic) {
        return false;
    }
    let sign: i128 = if home {
        1
    } else {
        -1
    };
    let passer_a = sign * (state.players[passer_slot_idx].pos_x as i128);
    let receiver_a = sign * (state.players[receiver_slot as usize].pos_x as i128);
    let ball_a = sign * (state.ball.pos_x as i128);
    if receiver_a <= passer_a {
        return false;
    }
    let line = compute_offside_line(state, home);
    receiver_a > line && receiver_a > ball_a
}

/// The restart after an offside call on a pass from slot `passer`: the
/// opposing goalkeeper takes the free kick from where they stand, holding
/// the ball at rest, and is the last to have touched it.
pub open spec fn offside_restart(s: MatchState, passer: int) -> MatchState {
    let gk = if passer < 11 {
        11int
    } else {
        0int
    };
    MatchState {
        ball: BallState {
            pos_x: s.players@[gk].pos_x,
            pos_y: s.players@[gk].pos_y,
            vel_x: 0,
            vel_y: 0,
            vel_z: 0,
            ..s.ball
        },
        possession: Some(gk as u8),
        last_touched_by: Some(gk as u8),
        ..s
    }
}

/// The tactic events of an offside call against a pass from `passer`, each
/// with its team: a free kick for the opponents, then a free kick against
/// the passing team.
pub open spec fn offside_events(passer: int) -> Seq<(usize, TacticEvent)> {
    let passing_team: usize = if passer < 11 {
        0
    } else {
        1
    };
    seq![
        ((1 - passing_team) as usize, TacticEvent::BallOutOfPlay { kind: SetPieceKind::FreeKickFor }),
        (passing_team, TacticEvent::BallOutOfPlay { kind: SetPieceKind::FreeKickAgainst }),
    ]
}

/// Apply an offside call against the pass from `passer_slot_idx` to
/// `receiver_slot`, recording an `Offside` event for the receiver: the
/// ball goes to the opposing goalkeeper for an indirect free kick (see
/// [`offside_restart`]). Returns the tactic events, each with its team: a
/// free kick for the opponents, then a free kick against the passing team.
pub fn apply_offside(state: &mut MatchState, passer_slot_idx: usize, receiver_slot: u8) -> (events: Vec<
    (usize, TacticEvent),
>)
    requires
        old(state).wf(),
        old(state).ball_in_flight is None,
        passer_slot_idx < 22,
    ensures
        *final(state) == (MatchState {
            match_events: final(state).match_events,
            ..offside_restart(*old(state), passer_slot_idx as int)
        }),
        final(state).match_events@ == old(state).match_events@.push(
            MatchEvent::Offside { offending_slot: receiver_slot, tick: old(state).tick },
        ),
        final(state).wf(),
        events@ == offside_events(passer_slot_idx as int),
{
    let passer_team_idx: usize = if passer_slot_idx < PLAYERS_PER_TEAM {
        0
    } else {
        1
    };
    let opp_team_idx: usize = 1 - passer_team_idx;
    let opp_gk_idx: usize = opp_team_idx * PLAYERS_PER_TEAM;
    state.ball.pos_x = state.players[opp_gk_idx].pos_x;
    state.ball.pos_y = state.players[opp_gk_idx].pos_y;
    state.ball.vel_x = 0;
    state.ball.vel_y = 0;
    state.ball.vel_z = 0;
    state.possession = Some(opp_gk_idx as u8);
    state.last_touched_by = Some(opp_gk_idx as u8);
    state.match_events.push(MatchEvent::Offside { offending_slot: receiver_slot, tick: state.tick });
    let mut events: Vec<(usize, TacticEvent)> = Vec::new();
    events.push((opp_team_idx, TacticEvent::BallOutOfPlay { kind: SetPieceKind::FreeKickFor }));
    events.push(
        (passer_team_idx, TacticEvent::BallOutOfPlay { kind: SetPieceKind::FreeKickAgainst }),
    );
    events
}

// ---------------------------------------------------------------------------
// Loose-ball chase
// ---------------------------------------------------------------------------

/// Goalkeepers chase a loose ball only beyond 42 m from the centre.
pub const GK_CHASE_THRESHOLD: u64 = 180388626432;

/// Number of same-team outfield players in slots `lo..hi` (other than
/// `slot`) strictly nearer the ball than `slot` by Manhattan distance.
pub open spec fn closer_count(s: MatchState, slot: int, lo: int, hi: int) -> int
    decreases hi - lo,
{
    if hi <= lo {
        0
    } else {
        let i = hi - 1;
        let bx = s.ball.pos_x as int;
        let by = s.ball.pos_y as int;
        closer_count(s, slot, lo, hi - 1) + if i != slot && player_manhattan(s, i, bx, by)
            < player_manhattan(s, slot, bx, by) {
            1int
        } else {
            0int
        }
    }
}

/// Loose-ball chase: only for a loose ball with no pass in flight. A
/// goalkeeper chases when the ball is beyond 42 m at its own end; an
/// outfield player chases when fewer than two outfield teammates are
/// nearer the ball. A chaser moves toward the ball.
pub open spec fn preempt(s: MatchState, slot: int) -> Option<PlayerIntent> {
    let chase = PlayerIntent::MoveToPosition { target_x: s.ball.pos_x, target_y: s.ball.pos_y };
    let bx = s.ball.pos_x as int;
    if s.possession is Some || s.ball_in_flight is Some {
        None
    } else if slot == 0 || slot == 11 {
        if abs_spec(bx) <= GK_CHASE_THRESHOLD || (bx < 0) != (slot == 0) {
            None
        } else {
            Some(chase)
        }
    } else {
        let lo: int = if slot < 11 {
            1
        } else {
            12
        };
        if closer_count(s, slot, lo, lo + 10) >= 2 {
            None
        } else {
            Some(chase)
        }
    }
}

/// Pre-emption check before the role dispatch (see [`preempt`]).
pub fn preempt_check(state: &MatchState, slot_idx: usize) -> (r: Option<PlayerIntent>)
    requires
        state.wf(),
        slot_idx < 22,
        player_ball_distances_fit(*state),
    ensures
        r == preempt(*state, slot_idx as int),
{
    if state.possession.is_some() {
        return None;
    }
    if state.ball_in_flight.is_some() {
        return None;
    }
    if slot_idx == 0 || slot_idx == 11 {
        let bx_bits = state.ball.pos_x;
        let bx_abs = abs_bits(bx_bits);
        if bx_abs <= GK_CHASE_THRESHOLD {
            return None;
        }
        let home_gk_side = bx_bits < 0;
        let is_home_gk = slot_idx == 0;
        if home_gk_side != is_home_gk {
            return None;
        }
        return Some(PlayerIntent::MoveToPosition {
            target_x: state.ball.pos_x,
            target_y: state.ball.pos_y,
        });
    }
    let bx = state.ball.pos_x;
    let by = state.ball.pos_y;
    let p = &state.players[slot_idx];
    assert(crate::fixed::dist_sq_fits(
        state.players@[slot_idx as int].pos_x as int,
        state.players@[slot_idx as int].pos_y as int,
        bx as int,
        by as int,
    ));
    let my_dx = abs_bits(p.pos_x - bx) as i128;
    let my_dy = abs_bits(p.pos_y - by) as i128;
    let my_dist = my_dx + my_dy;

    let team_start_idx: usize = if slot_idx < 11 {
        1
    } else {
        12
    };
    let team_end: usize = if slot_idx < 11 {
        11
    } else {
        22
    };
    let gk_slot: usize = if slot_idx < 11 {
        0
    } else {
        11
    };
    let mut count: usize = 0;
    let mut i = team_start_idx;
    while i < team_end
        invariant
            state.wf(),
            player_ball_distances_fit(*state),
            slot_idx < 22,
            team_end == team_start_idx + 10,
            team_end <= 22,
            team_start_idx <= i <= team_end,
            team_start_idx >= 1,
            gk_slot == team_start_idx - 1,
            bx == state.ball.pos_x,
            by == state.ball.pos_y,
            my_dist == player_manhattan(*state, slot_idx as int, bx as int, by as int),
            count == closer_count(*state, slot_idx as int, team_start_idx as int, i as int),
            count <= i - team_start_idx,
        decreases team_end - i,
    {
        if i != slot_idx && i != gk_slot {
            let op = &state.players[i];
            assert(crate::fixed::dist_sq_fits(
                state.players@[i as int].pos_x as int,
                state.players@[i as int].pos_y as int,
                bx as int,
                by as int,
            ));
            let dx = abs_bits(op.pos_x - bx) as i128;
            let dy = abs_bits(op.pos_y - by) as i128;
            if dx + dy < my_dist {
                count = count + 1;
            }
        }
        i = i + 1;
    }
    if count >= 2 {
        return None;
    }
    Some(PlayerIntent::MoveToPosition { target_x: state.ball.pos_x, target_y: state.ball.pos_y })
}

// ---------------------------------------------------------------------------
// Ball-launch suppression during a flight
// ---------------------------------------------------------------------------

/// The intent takes hold of the ball: a shot, any pass, a cross, a
/// dribble, shielding, a lay-off or a goalkeeper distribution.
pub open spec fn launches_ball(i: PlayerIntent) -> bool {
    match i {
        PlayerIntent::AttemptShot { .. }
        | PlayerIntent::AttemptPassShort { .. }
        | PlayerIntent::AttemptPassLong { .. }
        | PlayerIntent::Cross { .. }
        | PlayerIntent::Dribble { .. }
        | PlayerIntent::HoldBall { .. }
        | PlayerIntent::LayOff { .. }
        | PlayerIntent::GkDistributeShort { .. }
        | PlayerIntent::GkDistributeLong { .. } => true,
        _ => false,
    }
}

/// The point an intent moves toward; `None` for `Idle`.
pub open spec fn intent_target(i: PlayerIntent) -> Option<(i64, i64)> {
    match i {
        PlayerIntent::Idle => None,
        PlayerIntent::MoveToPosition { target_x, target_y }
        | PlayerIntent::AttemptShot { target_x, target_y }
        | PlayerIntent::AttemptPassShort { target_x, target_y }
        | PlayerIntent::AttemptPassLong { target_x, target_y }
        | PlayerIntent::Cross { target_x, target_y }
        | PlayerIntent::Dribble { target_x, target_y }
        | PlayerIntent::HoldBall { target_x, target_y }
        | PlayerIntent::LayOff { target_x, target_y }
        | PlayerIntent::TrackBack { target_x, target_y }
        | PlayerIntent::Press { target_x, target_y }
        | PlayerIntent::MarkPlayer { target_x, target_y }
        | PlayerIntent::RunOffBall { target_x, target_y }
        | PlayerIntent::HoldFormation { target_x, target_y }
        | PlayerIntent::GkShotStop { target_x, target_y }
        | PlayerIntent::GkCollectCross { target_x, target_y }
        | PlayerIntent::GkSweeperRush { target_x, target_y }
        | PlayerIntent::GkDistributeShort { target_x, target_y }
        | PlayerIntent::GkDistributeLong { target_x, target_y } => Some((target_x, target_y)),
    }
}

/// An intent with any ball launch replaced by a move toward the same
/// target.
pub open spec fn flight_safe(i: PlayerIntent) -> PlayerIntent {
    if launches_ball(i) {
        PlayerIntent::MoveToPosition {
            target_x: intent_target(i).unwrap().0,
            target_y: intent_target(i).unwrap().1,
        }
    } else {
        i
    }
}

/// While a pass is in flight nobody may seize or launch the ball: an
/// intent that would (shot, pass, cross, lay-off, dribble, shielding,
/// goalkeeper distribution) becomes a move toward the same target; every
/// off-ball intent passes through unchanged.
pub fn suppress_ball_launch_during_flight(intent: PlayerIntent) -> (r: PlayerIntent)
    ensures
        r == flight_safe(intent),
        !launches_ball(r),
        intent_target(r) == intent_target(intent),
        !launches_ball(intent) ==> r == intent,
{
    match intent {
        PlayerIntent::AttemptShot { target_x, target_y }
        | PlayerIntent::AttemptPassShort { target_x, target_y }
        | PlayerIntent::AttemptPassLong { target_x, target_y }
        | PlayerIntent::Cross { target_x, target_y }
        | PlayerIntent::Dribble { target_x, target_y }
        | PlayerIntent::HoldBall { target_x, target_y }
        | PlayerIntent::LayOff { target_x, target_y }
        | PlayerIntent::GkDistributeShort { target_x, target_y }
        | PlayerIntent::GkDistributeLong { target_x, target_y } => {
            PlayerIntent::MoveToPosition { target_x, target_y }
        },
        PlayerIntent::MoveToPosition { .. }
        | PlayerIntent::Idle
        | PlayerIntent::TrackBack { .. }
        | PlayerIntent::Press { .. }
        | PlayerIntent::MarkPlayer { .. }
        | PlayerIntent::RunOffBall { .. }
        | PlayerIntent::HoldFormation { .. }
        | PlayerIntent::GkShotStop { .. }
        | PlayerIntent::GkCollectCross { .. }
        | PlayerIntent::GkSweeperRush { .. } => intent,
    }
}

/// Suppressing twice is suppressing once.
pub proof fn lemma_flight_safe_idempotent(i: PlayerIntent)
    ensures
        flight_safe(flight_safe(i)) == flight_safe(i),
{
}

// ---------------------------------------------------------------------------
// Applying an intent
// ---------------------------------------------------------------------------

/// The acting player's curved shooting skills: strength (physical curve),
/// finishing and technique (skill curve) and composure (mental curve).
#[derive(Debug, Clone, Copy, PartialEq, Eq, Structural)]
pub struct CurvedShootingSkills {
    pub strength: i64,
    pub finishing: i64,
    pub composure: i64,
    pub technique: i64,
}

/// Every curved shooting skill lies in `[0, 1]`.
pub open spec fn shooting_skills_in_unit(c: CurvedShootingSkills) -> bool {
    &&& 0 <= c.strength <= ONE
    &&& 0 <= c.finishing <= ONE
    &&& 0 <= c.composure <= ONE
    &&& 0 <= c.technique <= ONE
}

/// What applying an intent reads besides the match state: the acting
/// player's curved skills; every player's curved interception skills, by
/// slot; the lane openness toward, and the defending control at, each
/// prospective receiver, by slot; the seeds of the pass-completion draw and
/// of the three shot-dispersion draws; the xG of a shot from where the
/// player stands; each team's tactical state; the distance of the goal
/// lines from the halfway line; and the goal's half-width.
pub struct IntentContext {
    pub shooting: CurvedShootingSkills,
    pub passing: CurvedPassingSkills,
    pub interception: Vec<CurvedInterceptionSkills>,
    pub lane_openness: [i64; 22],
    pub receiver_pressure: [i64; 22],
    pub pass_seed: u64,
    pub shot_seeds: [u64; 3],
    pub shot_xg: i64,
    pub tactics: [TacticState; 2],
    pub goal_line_x: i64,
    pub goal_half_width: i64,
}

/// Every skill, openness and pressure of the context lies in `[0, 1]`, there
/// is one interception record per slot, and the goal lines lie within
/// 2^44 raw of the halfway line.
pub open spec fn context_ok(c: IntentContext) -> bool {
    &&& shooting_skills_in_unit(c.shooting)
    &&& skills_in_unit(c.passing)
    &&& c.interception@.len() == 22
    &&& forall|k: int| 0 <= k < 22 ==> interception_skills_in_unit(#[trigger] c.interception@[k])
    &&& forall|k: int| 0 <= k < 22 ==> 0 <= #[trigger] c.lane_openness@[k] <= ONE
    &&& forall|k: int| 0 <= k < 22 ==> 0 <= #[trigger] c.receiver_pressure@[k] <= ONE
    &&& 0 <= c.goal_line_x <= 17592186044416
    &&& 0 <= c.goal_half_width
}

/// Speed of a pass: `15 + 10 × (passing × vision)` m/s on curved skills.
pub open spec fn pass_speed(c: IntentContext) -> int {
    kick_speed(
        PASS_BASE_SPEED_MPS as int,
        PASS_PEAK_BONUS_MPS as int,
        c.passing.passing as int,
        c.passing.vision as int,
    )
}

/// Speed of a shot (and of a long goalkeeper distribution):
/// `20 + 15 × (strength × finishing)` m/s on curved skills.
pub open spec fn shot_speed(c: IntentContext) -> int {
    kick_speed(
        SHOT_BASE_SPEED_MPS as int,
        SHOT_PEAK_BONUS_MPS as int,
        c.shooting.strength as int,
        c.shooting.finishing as int,
    )
}

/// The shooter-quality feature of the acting player.
pub open spec fn shot_quality_of(c: IntentContext) -> int {
    shooter_quality(c.shooting.finishing as int, c.shooting.composure as int, c.shooting.technique as int)
}

/// The kind and target of a passing intent.
pub open spec fn pass_of(i: PlayerIntent) -> Option<(PassKind, i64, i64)> {
    match i {
        PlayerIntent::AttemptPassShort { target_x, target_y } => Some((PassKind::Short, target_x, target_y)),
        PlayerIntent::AttemptPassLong { target_x, target_y } => Some((PassKind::Long, target_x, target_y)),
        PlayerIntent::Cross { target_x, target_y } => Some((PassKind::Cross, target_x, target_y)),
        PlayerIntent::LayOff { target_x, target_y } => Some((PassKind::LayOff, target_x, target_y)),
        _ => None,
    }
}

/// The teammate of `slot` nearest `(tx, ty)` (see [`nearest_teammate`]).
pub open spec fn receiver_of(s: MatchState, slot: int, tx: int, ty: int) -> int {
    nearest_teammate(s, slot, team_start(slot), team_start(slot) + 11, tx, ty).unwrap()
}

/// The ball placed at `(x, y)` and kicked with horizontal velocity `v`.
pub open spec fn kicked_from(b: BallState, x: i64, y: i64, v: (int, int)) -> BallState {
    BallState { pos_x: x, pos_y: y, vel_x: v.0 as i64, vel_y: v.1 as i64, vel_z: 0, ..b }
}

/// The ball kicked from `slot`'s feet toward teammate `to` at `speed`: a
/// successful pass in flight to `to`, launched now; nobody in possession;
/// last touched by the kicker.
pub open spec fn launched_to(s: MatchState, slot: int, to: int, speed: int) -> MatchState {
    let p = s.players@[slot];
    let r = s.players@[to];
    MatchState {
        ball: kicked_from(
            s.ball,
            p.pos_x,
            p.pos_y,
            ball_unit_vel_spec(p.pos_x as int, p.pos_y as int, r.pos_x as int, r.pos_y as int, speed),
        ),
        ball_in_flight: Some(
            BallInFlight { intended_receiver: to as u8, outcome_is_success: true, launch_tick: s.tick },
        ),
        possession: None,
        last_touched_by: Some(p.slot),
        ..s
    }
}

/// The pass from `slot` to `to` is offside at launch, judged with the
/// passing team's tactical state (see [`offside_at_launch`]).
pub open spec fn pass_offside(s: MatchState, slot: int, to: int, c: IntentContext) -> bool {
    let team = passer_team_of(slot);
    offside_at_launch(s, c.tactics@[team as int], slot, to)
}

/// The completion draw of a pass of `kind` from `slot` to `to` succeeds.
pub open spec fn pass_completes(s: MatchState, slot: int, to: int, kind: PassKind, c: IntentContext) -> bool {
    draw_completes(
        chacha8_first_u64(c.pass_seed),
        pass_probability(
            kind,
            passer_quality(c.passing, kind),
            c.receiver_pressure@[to] as int,
            pass_lane_gate(s, slot, to, c.lane_openness@[to] as int, c.interception@),
        ),
    )
}

/// A failed pass counts as forward (drops further up the lane) when it is
/// not a lay-off and the receiver stands ahead of the passer in the
/// passing team's attacking direction.
pub open spec fn pass_is_forward(slot: int, kind: PassKind, from_x: int, to_x: int) -> bool {
    !(kind is LayOff) && ((slot < 11 && to_x > from_x) || (slot >= 11 && to_x < from_x))
}

/// The state after a pass of `kind` from `slot` aimed at `(tx, ty)`: to the
/// nearest teammate; an offside receiver gives the opposing keeper the
/// ball; a completed pass is launched toward the receiver; a failed one
/// drops loose along the lane (see [`drop_point`]).
pub open spec fn after_pass(s: MatchState, slot: int, kind: PassKind, tx: int, ty: int, c: IntentContext) -> MatchState {
    let to = receiver_of(s, slot, tx, ty);
    let p = s.players@[slot];
    let r = s.players@[to];
    if pass_offside(s, slot, to, c) {
        offside_restart(s, slot)
    } else if pass_completes(s, slot, to, kind, c) {
        launched_to(s, slot, to, pass_speed(c))
    } else {
        failed_pass(s, slot, to, kind)
    }
}

/// The state after a failed pass of `kind` from `slot` to `to`: the ball,
/// placed at the passer's feet, drops loose along the lane (see
/// [`drop_point`]) and comes to rest; nobody has possession; the passer
/// touched it last.
pub open spec fn failed_pass(s: MatchState, slot: int, to: int, kind: PassKind) -> MatchState {
    let p = s.players@[slot];
    let r = s.players@[to];
    let at_feet = MatchState { ball: BallState { pos_x: p.pos_x, pos_y: p.pos_y, ..s.ball }, ..s };
    let d = drop_point(
        at_feet,
        p.pos_x,
        p.pos_y,
        r.pos_x,
        r.pos_y,
        pass_is_forward(slot, kind, p.pos_x as int, r.pos_x as int),
    );
    MatchState {
        ball: BallState {
            pos_x: d.0 as i64,
            pos_y: d.1 as i64,
            vel_x: 0,
            vel_y: 0,
            vel_z: 0,
            ..at_feet.ball
        },
        possession: None,
        last_touched_by: Some(p.slot),
        ..s
    }
}

/// Lateral target of a shot by `slot`: the seeded dispersion (see
/// [`dispersed_target`]) of the scatter for the shooter's distance factor,
/// measured pressure and quality.
pub open spec fn shot_target_y(s: MatchState, slot: int, c: IntentContext) -> int {
    let p = s.players@[slot];
    dispersed_target(
        chacha8_first_u64(c.shot_seeds[0]),
        chacha8_first_u64(c.shot_seeds[1]),
        chacha8_first_u64(c.shot_seeds[2]),
        shot_sigma(
            dispersion_distance_factor(attacking_goal_x(p.slot, c.goal_line_x as int), p.pos_x as int),
            shot_pressure(s.players@, slot),
            shot_quality_of(c),
        ),
    )
}

/// The state after a shot by `slot` toward `tx`: the ball leaves the
/// shooter's feet toward `(tx, shot_target_y)` at the shot speed; nobody
/// keeps possession.
pub open spec fn after_shot(s: MatchState, slot: int, tx: int, c: IntentContext) -> MatchState {
    let p = s.players@[slot];
    MatchState {
        ball: kicked_from(
            s.ball,
            p.pos_x,
            p.pos_y,
            ball_unit_vel_spec(p.pos_x as int, p.pos_y as int, tx, shot_target_y(s, slot, c), shot_speed(c)),
        ),
        possession: None,
        last_touched_by: Some(p.slot),
        ..s
    }
}

/// The state after `slot` starts a dribble: the ball at rest at their feet,
/// in their possession.
pub open spec fn after_dribble(s: MatchState, slot: int) -> MatchState {
    let p = s.players@[slot];
    MatchState {
        ball: BallState { pos_x: p.pos_x, pos_y: p.pos_y, vel_x: 0, vel_y: 0, vel_z: 0, ..s.ball },
        possession: Some(p.slot),
        last_touched_by: Some(p.slot),
        ..s
    }
}

/// Effect of an intent on the ball, possession, last touch and the pass in
/// flight; every other intent leaves them alone.
pub open spec fn ball_effect(s: MatchState, slot: int, i: PlayerIntent, c: IntentContext) -> MatchState {
    match i {
        PlayerIntent::AttemptShot { target_x, .. } => after_shot(s, slot, target_x as int, c),
        PlayerIntent::Dribble { .. } => after_dribble(s, slot),
        PlayerIntent::GkDistributeShort { target_x, target_y } => launched_to(
            s,
            slot,
            receiver_of(s, slot, target_x as int, target_y as int),
            pass_speed(c),
        ),
        PlayerIntent::GkDistributeLong { target_x, target_y } => launched_to(
            s,
            slot,
            receiver_of(s, slot, target_x as int, target_y as int),
            shot_speed(c),
        ),
        _ => match pass_of(i) {
            Some(k) => after_pass(s, slot, k.0, k.1 as int, k.2 as int, c),
            None => s,
        },
    }
}

/// The intent touches the ball without shooting: a pass of any kind, a
/// dribble or a goalkeeper distribution.
pub open spec fn touches_ball_without_shooting(i: PlayerIntent) -> bool {
    ||| pass_of(i) is Some
    ||| i is Dribble
    ||| i is GkDistributeShort
    ||| i is GkDistributeLong
}

/// Per-slot xG of the latest shot after the intent: set by a shot, cleared
/// by any other touch of the ball, kept otherwise.
pub open spec fn xg_after(xgs: Seq<i64>, slot: int, i: PlayerIntent, xg: i64) -> Seq<i64> {
    if i is AttemptShot {
        xgs.update(slot, xg)
    } else if touches_ball_without_shooting(i) {
        xgs.update(slot, 0)
    } else {
        xgs
    }
}

/// Calibration sample of a shot by `slot`.
pub open spec fn shot_record(s: MatchState, slot: int, c: IntentContext) -> ShotTelemetryRecord {
    let p = s.players@[slot];
    ShotTelemetryRecord {
        shot_tick: s.tick as u32,
        shooter_slot: p.slot,
        distance_q32_raw: shot_distance_feature(
            attacking_goal_x(p.slot, c.goal_line_x as int),
            p.pos_x as int,
        ) as i64,
        angle_q32_raw: shot_angle_feature(p.pos_y as int) as i64,
        pressure_q32_raw: shot_pressure(s.players@, slot) as i64,
        shot_type_q32_raw: ONE,
        assist_kind_q32_raw: ONE,
        shooter_quality_q32_raw: shot_quality_of(c) as i64,
        shooter_flair_q32_raw: p.attributes.mental.flair,
        shooter_composure_q32_raw: p.attributes.mental.composure,
        shooter_risk_appetite_q32_raw: p.attributes.personality.risk_appetite,
        became_goal: None,
    }
}

/// Calibration sample of a dribble by `slot`.
pub open spec fn dribble_record(s: MatchState, slot: int) -> DribbleTelemetryRecord {
    let p = s.players@[slot];
    DribbleTelemetryRecord {
        dribble_tick: s.tick as u32,
        dribbler_slot: p.slot,
        dribbler_flair_q32_raw: p.attributes.mental.flair,
        dribbler_aggression_q32_raw: p.attributes.personality.aggression,
    }
}

/// Speed cap of the player in `slot`: the goalkeepers' fixed cap in slots 0
/// and 11, the pace-scaled outfield cap elsewhere.
pub open spec fn slot_v_max(slot: int, p: PlayerState) -> int {
    if slot == 0 || slot == 11 {
        V_GK_SPEED as int
    } else {
        v_max_spec(p.attributes.physical.pace as int)
    }
}

/// The player after steering for the intent: at rest when idle, otherwise
/// heading for the intent's target (see [`vel_toward_target`]).
pub open spec fn steered(p: PlayerState, slot: int, i: PlayerIntent) -> PlayerState {
    match intent_target(i) {
        None => PlayerState { vel_x: 0, vel_y: 0, ..p },
        Some(t) => {
            let v = vel_toward_target(t.0 - p.pos_x, t.1 - p.pos_y, slot_v_max(slot, p));
            PlayerState { vel_x: v.0 as i64, vel_y: v.1 as i64, ..p }
        },
    }
}

/// The tactic events of the intent: those of an offside call for an offside
/// pass, none otherwise.
pub open spec fn intent_events(s: MatchState, slot: int, i: PlayerIntent, c: IntentContext) -> Seq<(usize, TacticEvent)> {
    match pass_of(i) {
        Some(k) => if pass_offside(s, slot, receiver_of(s, slot, k.1 as int, k.2 as int), c) {
            offside_events(slot)
        } else {
            seq![]
        },
        None => seq![],
    }
}

/// A shot's lateral target lands within the goal's half-width.
pub open spec fn shot_on_target(target_y: int, goal_half_width: int) -> bool {
    abs_spec(target_y) <= goal_half_width
}

/// The `Shot` event of a shot by `slot` aimed at `tx`.
pub open spec fn shot_event(s: MatchState, slot: int, tx: i64, c: IntentContext) -> MatchEvent {
    let ty = shot_target_y(s, slot, c);
    MatchEvent::Shot {
        shooter_slot: s.players@[slot].slot,
        tick: s.tick,
        target_x: tx,
        target_y: ty as i64,
        on_target: shot_on_target(ty, c.goal_half_width as int),
    }
}

/// The match events of a pass of `kind` from `slot` aimed at `(tx, ty)`:
/// `Offside` for an offside receiver; otherwise `Pass` with its outcome,
/// followed by `PassIncomplete` when it failed.
pub open spec fn pass_match_events(
    s: MatchState,
    slot: int,
    kind: PassKind,
    tx: int,
    ty: int,
    c: IntentContext,
) -> Seq<MatchEvent> {
    let to = receiver_of(s, slot, tx, ty);
    let from = s.players@[slot].slot;
    if pass_offside(s, slot, to, c) {
        seq![MatchEvent::Offside { offending_slot: to as u8, tick: s.tick }]
    } else if pass_completes(s, slot, to, kind, c) {
        seq![
            MatchEvent::Pass {
                from_slot: from,
                to_slot: to as u8,
                tick: s.tick,
                kind,
                completed: true,
            },
        ]
    } else {
        seq![
            MatchEvent::Pass {
                from_slot: from,
                to_slot: to as u8,
                tick: s.tick,
                kind,
                completed: false,
            },
            MatchEvent::PassIncomplete { from_slot: from, to_slot: to as u8, tick: s.tick, kind },
        ]
    }
}

/// The match events of an intent: a `Shot` for a shot, the pass events for
/// a pass, cross or lay-off, none otherwise.
pub open spec fn intent_match_events(s: MatchState, slot: int, i: PlayerIntent, c: IntentContext) -> Seq<MatchEvent> {
    match i {
        PlayerIntent::AttemptShot { target_x, .. } => seq![shot_event(s, slot, target_x, c)],
        _ => match pass_of(i) {
            Some(k) => pass_match_events(s, slot, k.0, k.1 as int, k.2 as int, c),
            None => Seq::empty(),
        },
    }
}

/// The player after one more counted decision, saturating at `u32::MAX`.
pub open spec fn counted(p: PlayerState) -> PlayerState {
    PlayerState {
        local_decision_counter: if p.local_decision_counter == u32::MAX {
            u32::MAX
        } else {
            (p.local_decision_counter + 1) as u32
        },
        ..p
    }
}

/// `after` is `before` with the intent `i` of `slot` applied: the ball,
/// possession, last touch and pass in flight as [`ball_effect`] gives them;
/// the acting player steered for the intent (and, when `count`, with one
/// more decision counted); the latest-shot xG per [`xg_after`]; a shot or a
/// dribble sample appended for a shot or a dribble; the intent's match
/// events (see [`intent_match_events`]) appended; nothing else changed.
pub open spec fn intent_applied(
    before: MatchState,
    after: MatchState,
    slot: int,
    i: PlayerIntent,
    c: IntentContext,
    count: bool,
) -> bool {
    let steered_player = steered(before.players@[slot], slot, i);
    &&& after == (MatchState {
        players: after.players,
        last_shot_xg: after.last_shot_xg,
        shot_telemetry: after.shot_telemetry,
        dribble_telemetry: after.dribble_telemetry,
        match_events: after.match_events,
        ..ball_effect(before, slot, i, c)
    })
    &&& after.match_events@ == before.match_events@ + intent_match_events(before, slot, i, c)
    &&& after.players@ == before.players@.update(
        slot,
        if count {
            counted(steered_player)
        } else {
            steered_player
        },
    )
    &&& after.last_shot_xg@ == xg_after(before.last_shot_xg@, slot, i, c.shot_xg)
    &&& after.shot_telemetry@ == (if i is AttemptShot {
        before.shot_telemetry@.push(shot_record(before, slot, c))
    } else {
        before.shot_telemetry@
    })
    &&& after.dribble_telemetry@ == (if i is Dribble {
        before.dribble_telemetry@.push(dribble_record(before, slot))
    } else {
        before.dribble_telemetry@
    })
}

/// The drop arithmetic of a failed pass fits for positions within 2^44.
proof fn lemma_drop_fits_bounded(from_x: i64, from_y: i64, to_x: i64, to_y: i64, is_forward: bool)
    requires
        abs_spec(from_x as int) <= 17592186044416,
        abs_spec(from_y as int) <= 17592186044416,
        abs_spec(to_x as int) <= 17592186044416,
        abs_spec(to_y as int) <= 17592186044416,
    ensures
        drop_fits(from_x, from_y, to_x, to_y, is_forward),
{
    let frac: int = if is_forward {
        FRAC_40 as int
    } else {
        FRAC_20 as int
    };
    crate::fixed::lemma_mul_by_unit(to_x - from_x, frac);
    crate::fixed::lemma_mul_by_unit(to_y - from_y, frac);
    assert(frac * (to_x - from_x) == (to_x - from_x) * frac) by (nonlinear_arith);
    assert(frac * (to_y - from_y) == (to_y - from_y) * frac) by (nonlinear_arith);
}

/// A nearest teammate, when there is one, comes from the scanned range;
/// there is one whenever the range holds a slot other than the passer's.
proof fn lemma_nearest_teammate_in_range(s: MatchState, passer: int, lo: int, hi: int, tx: int, ty: int)
    ensures
        nearest_teammate(s, passer, lo, hi, tx, ty) matches Some(k) ==> lo <= k < hi,
        lo < hi && !(hi - lo == 1 && lo == passer) ==> nearest_teammate(s, passer, lo, hi, tx, ty) is Some,
    decreases hi - lo,
{
    if hi > lo {
        lemma_nearest_teammate_in_range(s, passer, lo, hi - 1, tx, ty);
    }
}

/// The teammate chosen for a pass aimed at `(tx, ty)`: the nearest teammate
/// of `slot_idx` (see [`receiver_of`]), a slot of the same team.
fn pass_receiver(state: &MatchState, slot_idx: usize, tx: i64, ty: i64) -> (to: usize)
    requires
        state.wf(),
        slot_idx < 22,
    ensures
        to == receiver_of(*state, slot_idx as int, tx as int, ty as int),
        to < 22,
        to != slot_idx,
        team_start(to as int) == team_start(slot_idx as int),
{
    let to = nearest_teammate_near(state, slot_idx, tx, ty);
    proof {
        lemma_nearest_teammate_in_range(
            *state,
            slot_idx as int,
            team_start(slot_idx as int),
            team_start(slot_idx as int) + 11,
            tx as int,
            ty as int,
        );
    }
    to as usize
}

/// Kick the ball from `slot_idx`'s feet toward teammate `to` at `speed`
/// (see [`launched_to`]).
fn launch_to_teammate(state: &mut MatchState, slot_idx: usize, to: usize, speed: i64)
    requires
        old(state).wf(),
        slot_idx < 22,
        to < 22,
        coordinates_within(old(state).players@, 17592186044416),
        0 <= speed <= 35184372088832,
    ensures
        *final(state) == launched_to(*old(state), slot_idx as int, to as int, speed as int),
        final(state).wf(),
{
    let p = state.players[slot_idx];
    let r = state.players[to];
    proof {
        assert(abs_spec(p.pos_x as int) <= 17592186044416);
        assert(abs_spec(r.pos_x as int) <= 17592186044416);
    }
    let (vx, vy) = ball_unit_vel(p.pos_x, p.pos_y, r.pos_x, r.pos_y, speed);
    state.ball.pos_x = p.pos_x;
    state.ball.pos_y = p.pos_y;
    state.ball.vel_x = vx;
    state.ball.vel_y = vy;
    state.ball.vel_z = 0;
    state.ball_in_flight = Some(
        BallInFlight { intended_receiver: to as u8, outcome_is_success: true, launch_tick: state.tick },
    );
    state.possession = None;
    state.last_touched_by = Some(p.slot);
}

/// A pass of `kind` from `slot_idx` aimed at `(target_x, target_y)` (see
/// [`after_pass`]); returns the tactic events of an offside call.
fn attempt_pass(
    state: &mut MatchState,
    slot_idx: usize,
    kind: PassKind,
    target_x: i64,
    target_y: i64,
    ctx: &IntentContext,
) -> (events: Vec<(usize, TacticEvent)>)
    requires
        old(state).wf(),
        slot_idx < 22,
        coordinates_within(old(state).players@, 17592186044416),
        old(state).ball_in_flight is None,
        context_ok(*ctx),
    ensures
        *final(state) == (MatchState {
            match_events: final(state).match_events,
            ..after_pass(*old(state), slot_idx as int, kind, target_x as int, target_y as int, *ctx)
        }),
        final(state).match_events@ == old(state).match_events@ + pass_match_events(
            *old(state),
            slot_idx as int,
            kind,
            target_x as int,
            target_y as int,
            *ctx,
        ),
        final(state).wf(),
        events@ == (if pass_offside(
            *old(state),
            slot_idx as int,
            receiver_of(*old(state), slot_idx as int, target_x as int, target_y as int),
            *ctx,
        ) {
            offside_events(slot_idx as int)
        } else {
            seq![]
        }),
{
    let to_idx = pass_receiver(state, slot_idx, target_x, target_y);
    let to = to_idx as u8;
    let team: usize = if slot_idx < PLAYERS_PER_TEAM {
        0
    } else {
        1
    };
    let offside = is_offside_at_pass_launch(
        state,
        ctx.tactics[team],
        slot_idx,
        to,
    );
    if offside {
        return apply_offside(state, slot_idx, to);
    }
    let openness = ctx.lane_openness[to_idx];
    let pressure = ctx.receiver_pressure[to_idx];
    proof {
        lemma_pass_resolution_fits(
            *state,
            slot_idx as int,
            to as int,
            kind,
            openness as int,
            pressure as int,
            ctx.passing,
            ctx.interception@,
        );
    }
    let ok = resolve_pass_completion(
        state,
        slot_idx,
        to,
        kind,
        openness,
        pressure,
        &ctx.passing,
        &ctx.interception,
        ctx.pass_seed,
    );
    let from = state.players[slot_idx].slot;
    let tick = state.tick;
    finish_pass(state, slot_idx, to_idx, kind, ok, ctx);
    state.match_events.push(MatchEvent::Pass { from_slot: from, to_slot: to, tick, kind, completed: ok });
    if !ok {
        state.match_events.push(MatchEvent::PassIncomplete { from_slot: from, to_slot: to, tick, kind });
    }
    Vec::new()
}

/// Launch a completed pass from `slot_idx` toward `to_idx` (see
/// [`launched_to`]) or drop a failed one loose (see [`failed_pass`]).
fn finish_pass(
    state: &mut MatchState,
    slot_idx: usize,
    to_idx: usize,
    kind: PassKind,
    ok: bool,
    ctx: &IntentContext,
)
    requires
        old(state).wf(),
        slot_idx < 22,
        to_idx < 22,
        coordinates_within(old(state).players@, 17592186044416),
        context_ok(*ctx),
    ensures
        ok ==> *final(state) == launched_to(*old(state), slot_idx as int, to_idx as int, pass_speed(*ctx)),
        !ok ==> *final(state) == failed_pass(*old(state), slot_idx as int, to_idx as int, kind),
        final(state).wf(),
{
    let p = state.players[slot_idx];
    if ok {
        proof {
            lemma_kick_speed_range(
                PASS_BASE_SPEED_MPS as int,
                PASS_PEAK_BONUS_MPS as int,
                ctx.passing.passing as int,
                ctx.passing.vision as int,
            );
        }
        let speed = compute_ball_speed_for_pass(ctx.passing.passing, ctx.passing.vision);
        launch_to_teammate(state, slot_idx, to_idx, speed);
    } else {
        let r = state.players[to_idx];
        state.ball.pos_x = p.pos_x;
        state.ball.pos_y = p.pos_y;
        let is_forward = match kind {
            PassKind::LayOff => false,
            _ => slot_idx < PLAYERS_PER_TEAM && r.pos_x > p.pos_x || slot_idx >= PLAYERS_PER_TEAM
                && r.pos_x < p.pos_x,
        };
        proof {
            assert(abs_spec(p.pos_x as int) <= 17592186044416);
            assert(abs_spec(r.pos_x as int) <= 17592186044416);
            lemma_drop_fits_bounded(p.pos_x, p.pos_y, r.pos_x, r.pos_y, is_forward);
        }
        drop_loose_ball(state, p.pos_x, p.pos_y, r.pos_x, r.pos_y, is_forward);
        state.possession = None;
        state.last_touched_by = Some(p.slot);
    }
}

/// A shot by `slot_idx` toward `target_x` (see [`after_shot`]): the shot's
/// xG is recorded for the slot and a calibration sample is appended.
fn take_shot(state: &mut MatchState, slot_idx: usize, target_x: i64, ctx: &IntentContext)
    requires
        old(state).wf(),
        slot_idx < 22,
        coordinates_within(old(state).players@, 17592186044416),
        abs_spec(target_x as int) <= 17592186044416,
        context_ok(*ctx),
    ensures
        *final(state) == (MatchState {
            last_shot_xg: final(state).last_shot_xg,
            shot_telemetry: final(state).shot_telemetry,
            match_events: final(state).match_events,
            ..after_shot(*old(state), slot_idx as int, target_x as int, *ctx)
        }),
        final(state).match_events@ == old(state).match_events@.push(
            shot_event(*old(state), slot_idx as int, target_x, *ctx),
        ),
        final(state).last_shot_xg@ == old(state).last_shot_xg@.update(slot_idx as int, ctx.shot_xg),
        final(state).shot_telemetry@ == old(state).shot_telemetry@.push(
            shot_record(*old(state), slot_idx as int, *ctx),
        ),
        final(state).wf(),
{
    let p = state.players[slot_idx];
    proof {
        assert(abs_spec(p.pos_x as int) <= 17592186044416);
    }
    let quality = shot_quality_feature_q32(
        ctx.shooting.finishing,
        ctx.shooting.composure,
        ctx.shooting.technique,
    );
    let target_y = compute_shot_dispersion_for_shooter(
        state.players.as_slice(),
        slot_idx,
        ctx.goal_line_x,
        quality,
        ctx.shot_seeds,
    );
    state.last_shot_xg[slot_idx] = ctx.shot_xg;
    let on_target = abs_bits(target_y) <= ctx.goal_half_width as u64;
    state.match_events.push(
        MatchEvent::Shot {
            shooter_slot: p.slot,
            tick: state.tick,
            target_x,
            target_y,
            on_target,
        },
    );
    let record = ShotTelemetryRecord {
        shot_tick: state.tick as u32,
        shooter_slot: p.slot,
        distance_q32_raw: shot_distance_feature_q32(p.pos_x, p.slot, ctx.goal_line_x),
        angle_q32_raw: shot_angle_feature_q32(p.pos_y),
        pressure_q32_raw: shot_pressure_feature_q32(state.players.as_slice(), slot_idx),
        shot_type_q32_raw: ONE,
        assist_kind_q32_raw: ONE,
        shooter_quality_q32_raw: quality,
        shooter_flair_q32_raw: p.attributes.mental.flair,
        shooter_composure_q32_raw: p.attributes.mental.composure,
        shooter_risk_appetite_q32_raw: p.attributes.personality.risk_appetite,
        became_goal: None,
    };
    state.shot_telemetry.push(record);
    proof {
        lemma_kick_speed_range(
            SHOT_BASE_SPEED_MPS as int,
            SHOT_PEAK_BONUS_MPS as int,
            ctx.shooting.strength as int,
            ctx.shooting.finishing as int,
        );
    }
    let speed = compute_ball_speed_for_shot(ctx.shooting.strength, ctx.shooting.finishing);
    let (vx, vy) = ball_unit_vel(p.pos_x, p.pos_y, target_x, target_y, speed);
    state.ball.pos_x = p.pos_x;
    state.ball.pos_y = p.pos_y;
    state.ball.vel_x = vx;
    state.ball.vel_y = vy;
    state.ball.vel_z = 0;
    state.possession = None;
    state.last_touched_by = Some(p.slot);
}

/// `slot_idx` starts a dribble (see [`after_dribble`]); a calibration
/// sample is appended.
fn start_dribble(state: &mut MatchState, slot_idx: usize)
    requires
        old(state).wf(),
        slot_idx < 22,
        old(state).ball_in_flight is None,
    ensures
        *final(state) == (MatchState {
            dribble_telemetry: final(state).dribble_telemetry,
            ..after_dribble(*old(state), slot_idx as int)
        }),
        final(state).dribble_telemetry@ == old(state).dribble_telemetry@.push(
            dribble_record(*old(state), slot_idx as int),
        ),
        final(state).wf(),
{
    let p = state.players[slot_idx];
    let record = DribbleTelemetryRecord {
        dribble_tick: state.tick as u32,
        dribbler_slot: p.slot,
        dribbler_flair_q32_raw: p.attributes.mental.flair,
        dribbler_aggression_q32_raw: p.attributes.personality.aggression,
    };
    state.dribble_telemetry.push(record);
    state.ball.pos_x = p.pos_x;
    state.ball.pos_y = p.pos_y;
    state.ball.vel_x = 0;
    state.ball.vel_y = 0;
    state.ball.vel_z = 0;
    state.possession = Some(p.slot);
    state.last_touched_by = Some(p.slot);
}

/// Set `slot_idx`'s velocity for the intent (see [`steered`]).
fn steer(state: &mut MatchState, slot_idx: usize, intent: PlayerIntent)
    requires
        old(state).wf(),
        slot_idx < 22,
        coordinates_within(old(state).players@, 17592186044416),
        intent_target(intent) matches Some(t) ==> abs_spec(t.0 as int) <= 17592186044416
            && abs_spec(t.1 as int) <= 17592186044416,
    ensures
        *final(state) == (MatchState { players: final(state).players, ..*old(state) }),
        final(state).players@ == old(state).players@.update(
            slot_idx as int,
            steered(old(state).players@[slot_idx as int], slot_idx as int, intent),
        ),
        final(state).wf(),
{
    let p = state.players[slot_idx];
    proof {
        assert(abs_spec(p.pos_x as int) <= 17592186044416);
        assert(p.attributes.wf());
    }
    let (vx, vy): (i64, i64) = match intent {
        PlayerIntent::Idle => (0, 0),
        PlayerIntent::MoveToPosition { target_x, target_y }
        | PlayerIntent::AttemptShot { target_x, target_y }
        | PlayerIntent::AttemptPassShort { target_x, target_y }
        | PlayerIntent::AttemptPassLong { target_x, target_y }
        | PlayerIntent::Cross { target_x, target_y }
        | PlayerIntent::Dribble { target_x, target_y }
        | PlayerIntent::HoldBall { target_x, target_y }
        | PlayerIntent::LayOff { target_x, target_y }
        | PlayerIntent::TrackBack { target_x, target_y }
        | PlayerIntent::Press { target_x, target_y }
        | PlayerIntent::MarkPlayer { target_x, target_y }
        | PlayerIntent::RunOffBall { target_x, target_y }
        | PlayerIntent::HoldFormation { target_x, target_y }
        | PlayerIntent::GkShotStop { target_x, target_y }
        | PlayerIntent::GkCollectCross { target_x, target_y }
        | PlayerIntent::GkSweeperRush { target_x, target_y }
        | PlayerIntent::GkDistributeShort { target_x, target_y }
        | PlayerIntent::GkDistributeLong { target_x, target_y } => {
            let dx = target_x - p.pos_x;
            let dy = target_y - p.pos_y;
            let v_max = if slot_idx == 0 || slot_idx == PLAYERS_PER_TEAM {
                V_GK_SPEED
            } else {
                proof {
                    lemma_v_max_range(p.attributes.physical.pace as int, ONE as int);
                }
                player_v_max(p.attributes.physical.pace)
            };
            apply_vel_toward_target(dx, dy, v_max)
        },
    };
    state.players[slot_idx] = PlayerState { vel_x: vx, vel_y: vy, ..p };
    proof {
        assert forall|i: int| 0 <= i < 22 implies #[trigger] state.players@[i].slot == i
            && state.players@[i].attributes.wf() by {
            assert(old(state).players@[i].slot == i);
            assert(old(state).players@[i].attributes.wf());
        }
    }
}

/// The ball part of applying an intent (see [`ball_effect`]), with the
/// shot's xG and the calibration samples it records.
fn apply_ball_intent(
    state: &mut MatchState,
    slot_idx: usize,
    intent: PlayerIntent,
    ctx: &IntentContext,
) -> (events: Vec<(usize, TacticEvent)>)
    requires
        old(state).wf(),
        slot_idx < 22,
        coordinates_within(old(state).players@, 17592186044416),
        intent_target(intent) matches Some(t) ==> abs_spec(t.0 as int) <= 17592186044416
            && abs_spec(t.1 as int) <= 17592186044416,
        launches_ball(intent) ==> old(state).ball_in_flight is None,
        context_ok(*ctx),
    ensures
        *final(state) == (MatchState {
            last_shot_xg: final(state).last_shot_xg,
            shot_telemetry: final(state).shot_telemetry,
            dribble_telemetry: final(state).dribble_telemetry,
            match_events: final(state).match_events,
            ..ball_effect(*old(state), slot_idx as int, intent, *ctx)
        }),
        final(state).match_events@ == old(state).match_events@ + intent_match_events(
            *old(state),
            slot_idx as int,
            intent,
            *ctx,
        ),
        final(state).last_shot_xg@ == (if intent is AttemptShot {
            old(state).last_shot_xg@.update(slot_idx as int, ctx.shot_xg)
        } else {
            old(state).last_shot_xg@
        }),
        final(state).shot_telemetry@ == (if intent is AttemptShot {
            old(state).shot_telemetry@.push(shot_record(*old(state), slot_idx as int, *ctx))
        } else {
            old(state).shot_telemetry@
        }),
        final(state).dribble_telemetry@ == (if intent is Dribble {
            old(state).dribble_telemetry@.push(dribble_record(*old(state), slot_idx as int))
        } else {
            old(state).dribble_telemetry@
        }),
        final(state).wf(),
        events@ == intent_events(*old(state), slot_idx as int, intent, *ctx),
{
    match intent {
        PlayerIntent::AttemptShot { target_x, .. } => {
            take_shot(state, slot_idx, target_x, ctx);
            Vec::new()
        },
        PlayerIntent::AttemptPassShort { target_x, target_y } => attempt_pass(
            state,
            slot_idx,
            PassKind::Short,
            target_x,
            target_y,
            ctx,
        ),
        PlayerIntent::AttemptPassLong { target_x, target_y } => attempt_pass(
            state,
            slot_idx,
            PassKind::Long,
            target_x,
            target_y,
            ctx,
        ),
        PlayerIntent::Cross { target_x, target_y } => attempt_pass(
            state,
            slot_idx,
            PassKind::Cross,
            target_x,
            target_y,
            ctx,
        ),
        PlayerIntent::LayOff { target_x, target_y } => attempt_pass(
            state,
            slot_idx,
            PassKind::LayOff,
            target_x,
            target_y,
            ctx,
        ),
        PlayerIntent::Dribble { .. } => {
            start_dribble(state, slot_idx);
            Vec::new()
        },
        PlayerIntent::GkDistributeShort { target_x, target_y } => {
            let to = pass_receiver(state, slot_idx, target_x, target_y);
            proof {
                lemma_kick_speed_range(
                    PASS_BASE_SPEED_MPS as int,
                    PASS_PEAK_BONUS_MPS as int,
                    ctx.passing.passing as int,
                    ctx.passing.vision as int,
                );
            }
            let speed = compute_ball_speed_for_pass(ctx.passing.passing, ctx.passing.vision);
            launch_to_teammate(state, slot_idx, to, speed);
            Vec::new()
        },
        PlayerIntent::GkDistributeLong { target_x, target_y } => {
            let to = pass_receiver(state, slot_idx, target_x, target_y);
            proof {
                lemma_kick_speed_range(
                    SHOT_BASE_SPEED_MPS as int,
                    SHOT_PEAK_BONUS_MPS as int,
                    ctx.shooting.strength as int,
                    ctx.shooting.finishing as int,
                );
            }
            let speed = compute_ball_speed_for_shot(ctx.shooting.strength, ctx.shooting.finishing);
            launch_to_teammate(state, slot_idx, to, speed);
            Vec::new()
        },
        PlayerIntent::Idle
        | PlayerIntent::MoveToPosition { .. }
        | PlayerIntent::HoldBall { .. }
        | PlayerIntent::TrackBack { .. }
        | PlayerIntent::Press { .. }
        | PlayerIntent::MarkPlayer { .. }
        | PlayerIntent::RunOffBall { .. }
        | PlayerIntent::HoldFormation { .. }
        | PlayerIntent::GkShotStop { .. }
        | PlayerIntent::GkCollectCross { .. }
        | PlayerIntent::GkSweeperRush { .. } => Vec::new(),
    }
}

/// Apply a player's intent to the match state.
///
/// First the ball: a shot leaves the shooter's feet toward the goal with
/// a seeded lateral scatter (recording the shot's xG and a calibration
/// sample); a pass, cross or lay-off goes to the teammate nearest the
/// target unless the receiver is offside, in which case the opposing
/// keeper restarts; a completed pass is launched in flight toward the
/// receiver and a failed one drops loose; a dribble keeps the ball at the
/// dribbler's feet (recording a sample); a goalkeeper distribution is
/// launched like a completed pass, a long one at shot speed. Any touch of
/// the ball other than a shot clears the slot's latest-shot xG. Then the
/// player's velocity: zero when idle, otherwise toward the intent's target,
/// capped per player. Returns the tactic events of an offside call.
pub fn apply_intent(
    state: &mut MatchState,
    slot_idx: usize,
    intent: PlayerIntent,
    ctx: &IntentContext,
) -> (events: Vec<(usize, TacticEvent)>)
    requires
        old(state).wf(),
        slot_idx < 22,
        coordinates_within(old(state).players@, 17592186044416),
        intent_target(intent) matches Some(t) ==> abs_spec(t.0 as int) <= 17592186044416
            && abs_spec(t.1 as int) <= 17592186044416,
        launches_ball(intent) ==> old(state).ball_in_flight is None,
        context_ok(*ctx),
    ensures
        intent_applied(*old(state), *final(state), slot_idx as int, intent, *ctx, false),
        final(state).wf(),
        events@ == intent_events(*old(state), slot_idx as int, intent, *ctx),
{
    let events = apply_ball_intent(state, slot_idx, intent, ctx);
    match intent {
        PlayerIntent::AttemptPassShort { .. }
        | PlayerIntent::AttemptPassLong { .. }
        | PlayerIntent::Cross { .. }
        | PlayerIntent::LayOff { .. }
        | PlayerIntent::Dribble { .. }
        | PlayerIntent::GkDistributeShort { .. }
        | PlayerIntent::GkDistributeLong { .. } => {
            state.last_shot_xg[slot_idx] = 0;
        },
        _ => {},
    }
    steer(state, slot_idx, intent);
    events
}

/// An intent that launches nothing (moving, pressing, marking, the
/// goalkeeper's positional intents, idling) leaves the ball, possession,
/// last touch, pass in flight, latest-shot xG and tactic events untouched.
pub proof fn lemma_off_ball_intent_leaves_ball(
    s: MatchState,
    slot: int,
    i: PlayerIntent,
    c: IntentContext,
    xgs: Seq<i64>,
    xg: i64,
)
    requires
        !launches_ball(i),
    ensures
        ball_effect(s, slot, i, c) == s,
        xg_after(xgs, slot, i, xg) == xgs,
        intent_events(s, slot, i, c) == Seq::<(usize, TacticEvent)>::empty(),
{
}

/// Steering toward a target beyond the speed cap `vm` (at least 1 m/s)
/// gives a velocity whose squared length exceeds `vm²` by at most `32·vm`
/// raw: the cap holds up to fixed-point rounding.
pub proof fn lemma_capped_steering_speed(dx: int, dy: int, vm: int)
    requires
        abs_spec(dx) <= 35184372088832,
        abs_spec(dy) <= 35184372088832,
        scale() <= vm <= 68719476736,
        mul_spec(dx, dx) + mul_spec(dy, dy) > mul_spec(vm, vm),
    ensures
        vel_toward_target(dx, dy, vm).0 * vel_toward_target(dx, dy, vm).0 + vel_toward_target(
            dx,
            dy,
            vm,
        ).1 * vel_toward_target(dx, dy, vm).1 <= vm * vm + 32 * vm,
{
    let sc = scale();
    lemma_square_bound(dx);
    lemma_square_bound(dy);
    lemma_square_bound(vm);
    let ds = mul_spec(dx, dx) + mul_spec(dy, dy);
    lemma_root_bounds_offset(dx, dy);
    let d = sqrt_spec(ds);
    lemma_direction_bound(dx, d);
    lemma_direction_bound(dy, d);
    let x = abs_spec(dx);
    let y = abs_spec(dy);
    let qx = div_trunc_spec(dx, d);
    let qy = div_trunc_spec(dy, d);
    let a = abs_spec(qx);
    let b = abs_spec(qy);
    vstd::arithmetic::div_mod::lemma_fundamental_div_mod(x * sc, d);
    vstd::arithmetic::div_mod::lemma_fundamental_div_mod(y * sc, d);
    assert(a == (x * sc) / d);
    assert(b == (y * sc) / d);
    vstd::arithmetic::div_mod::lemma_mod_pos_bound(x * sc, d);
    vstd::arithmetic::div_mod::lemma_mod_pos_bound(y * sc, d);
    assert(a * d == d * a) by (nonlinear_arith);
    assert(b * d == d * b) by (nonlinear_arith);
    assert(a * d <= x * sc);
    assert(b * d <= y * sc);
    vstd::arithmetic::div_mod::lemma_fundamental_div_mod(dx * dx, sc);
    vstd::arithmetic::div_mod::lemma_fundamental_div_mod(dy * dy, sc);
    vstd::arithmetic::div_mod::lemma_fundamental_div_mod(vm * vm, sc);
    assert(x * x == dx * dx) by (nonlinear_arith)
        requires
            x == (if dx < 0 { -dx } else { dx }),
    ;
    assert(y * y == dy * dy) by (nonlinear_arith)
        requires
            y == (if dy < 0 { -dy } else { dy }),
    ;
    assert(x * x + y * y < (ds + 2) * sc);
    assert(ds * sc < (d + 1) * (d + 1));
    assert(ds * sc > vm * vm);
    assert(vm <= d) by (nonlinear_arith)
        requires
            ds * sc < (d + 1) * (d + 1),
            ds * sc > vm * vm,
            vm >= 0,
            d >= 0,
    ;
    let v = vel_toward_target(dx, dy, vm);
    vstd::arithmetic::div_mod::lemma_fundamental_div_mod(qx * vm, sc);
    vstd::arithmetic::div_mod::lemma_fundamental_div_mod(qy * vm, sc);
    assert(a * vm == abs_spec(qx * vm)) by (nonlinear_arith)
        requires
            a == (if qx < 0 { -qx } else { qx }),
            vm >= 0,
    ;
    assert(b * vm == abs_spec(qy * vm)) by (nonlinear_arith)
        requires
            b == (if qy < 0 { -qy } else { qy }),
            vm >= 0,
    ;
    assert(v.0 == (qx * vm) / sc);
    assert(v.1 == (qy * vm) / sc);
    assert(abs_spec(v.0) * sc <= a * vm + sc);
    assert(abs_spec(v.1) * sc <= b * vm + sc);
    crate::fixed::lemma_unit_scaled_speed(x, y, a, b, d, ds, vm, abs_spec(v.0), abs_spec(v.1));
    assert(abs_spec(v.0) * abs_spec(v.0) == v.0 * v.0) by (nonlinear_arith)
        requires
            abs_spec(v.0) == (if v.0 < 0 { -v.0 } else { v.0 }),
    ;
    assert(abs_spec(v.1) * abs_spec(v.1) == v.1 * v.1) by (nonlinear_arith)
        requires
            abs_spec(v.1) == (if v.1 < 0 { -v.1 } else { v.1 }),
    ;
}

/// A shot is struck from the shooter's feet toward its dispersed target:
/// nobody has the ball, the shooter touched it last, the ball has no
/// vertical motion, the shooter's latest xG is the shot's, and the shot
/// enters the event stream and the calibration samples.
pub proof fn lemma_shot_is_struck(
    before: MatchState,
    after: MatchState,
    slot: int,
    target_x: i64,
    target_y: i64,
    c: IntentContext,
    count: bool,
)
    requires
        before.wf(),
        0 <= slot < 22,
        before.last_shot_xg@.len() == 22,
        intent_applied(before, after, slot, PlayerIntent::AttemptShot { target_x, target_y }, c, count),
    ensures
        after.match_events@ == before.match_events@.push(shot_event(before, slot, target_x, c)),
        after.possession is None,
        after.last_touched_by == Some(before.players@[slot].slot),
        after.ball.pos_x == before.players@[slot].pos_x,
        after.ball.pos_y == before.players@[slot].pos_y,
        after.ball.vel_z == 0,
        after.last_shot_xg@[slot] == c.shot_xg,
        after.shot_telemetry@.len() == before.shot_telemetry@.len() + 1,
{
    assert(after.match_events@ =~= before.match_events@.push(shot_event(before, slot, target_x, c)));
}

/// A pass, cross or lay-off whose receiver is onside goes to the teammate
/// nearest its target: `Pass` with the completion draw's outcome enters
/// the event stream (followed by `PassIncomplete` when it failed), nobody
/// has the ball, the passer touched it last and its latest xG is cleared;
/// a completed pass is in flight to the receiver from now, a failed one
/// lies at rest.
pub proof fn lemma_onside_pass_is_played(
    before: MatchState,
    after: MatchState,
    slot: int,
    i: PlayerIntent,
    c: IntentContext,
    count: bool,
)
    requires
        before.wf(),
        0 <= slot < 22,
        before.last_shot_xg@.len() == 22,
        intent_applied(before, after, slot, i, c, count),
        pass_of(i) is Some,
        !pass_offside(
            before,
            slot,
            receiver_of(before, slot, pass_of(i).unwrap().1 as int, pass_of(i).unwrap().2 as int),
            c,
        ),
    ensures
        ({
            let k = pass_of(i).unwrap();
            let to = receiver_of(before, slot, k.1 as int, k.2 as int);
            let from = before.players@[slot].slot;
            let ok = pass_completes(before, slot, to, k.0, c);
            &&& after.match_events@ == before.match_events@ + seq![
                MatchEvent::Pass { from_slot: from, to_slot: to as u8, tick: before.tick, kind: k.0, completed: ok },
            ] + (if ok {
                Seq::<MatchEvent>::empty()
            } else {
                seq![MatchEvent::PassIncomplete { from_slot: from, to_slot: to as u8, tick: before.tick, kind: k.0 }]
            })
            &&& after.possession is None
            &&& after.last_touched_by == Some(from)
            &&& after.last_shot_xg@[slot] == 0
            &&& ok ==> after.ball_in_flight == Some(
                BallInFlight { intended_receiver: to as u8, outcome_is_success: true, launch_tick: before.tick },
            )
            &&& !ok ==> after.ball.vel_x == 0 && after.ball.vel_y == 0 && after.ball.vel_z == 0
        }),
{
    let k = pass_of(i).unwrap();
    let to = receiver_of(before, slot, k.1 as int, k.2 as int);
    let from = before.players@[slot].slot;
    let ok = pass_completes(before, slot, to, k.0, c);
    assert(!(i is AttemptShot));
    if ok {
        assert(after.match_events@ =~= before.match_events@ + seq![
            MatchEvent::Pass { from_slot: from, to_slot: to as u8, tick: before.tick, kind: k.0, completed: true },
        ] + Seq::<MatchEvent>::empty());
    } else {
        assert(after.match_events@ =~= before.match_events@ + seq![
            MatchEvent::Pass { from_slot: from, to_slot: to as u8, tick: before.tick, kind: k.0, completed: false },
        ] + seq![MatchEvent::PassIncomplete { from_slot: from, to_slot: to as u8, tick: before.tick, kind: k.0 }]);
    }
}

/// A pass, cross or lay-off to an offside receiver is called back: the
/// `Offside` call enters the event stream, and the opposing goalkeeper
/// (slot 11 against a home pass, 0 against an away one) restarts with the
/// ball at rest at their feet, in possession and last to touch it.
pub proof fn lemma_offside_pass_is_called_back(
    before: MatchState,
    after: MatchState,
    slot: int,
    i: PlayerIntent,
    c: IntentContext,
    count: bool,
)
    requires
        before.wf(),
        0 <= slot < 22,
        intent_applied(before, after, slot, i, c, count),
        pass_of(i) is Some,
        pass_offside(
            before,
            slot,
            receiver_of(before, slot, pass_of(i).unwrap().1 as int, pass_of(i).unwrap().2 as int),
            c,
        ),
    ensures
        ({
            let k = pass_of(i).unwrap();
            let to = receiver_of(before, slot, k.1 as int, k.2 as int);
            let gk: int = if slot < 11 {
                11
            } else {
                0
            };
            &&& after.match_events@ == before.match_events@.push(
                MatchEvent::Offside { offending_slot: to as u8, tick: before.tick },
            )
            &&& after.possession == Some(gk as u8)
            &&& after.last_touched_by == Some(gk as u8)
            &&& after.ball.pos_x == before.players@[gk].pos_x
            &&& after.ball.pos_y == before.players@[gk].pos_y
            &&& after.ball.vel_x == 0 && after.ball.vel_y == 0 && after.ball.vel_z == 0
        }),
{
    let k = pass_of(i).unwrap();
    let to = receiver_of(before, slot, k.1 as int, k.2 as int);
    assert(!(i is AttemptShot));
    assert(after.match_events@ =~= before.match_events@.push(
        MatchEvent::Offside { offending_slot: to as u8, tick: before.tick },
    ));
}

/// The intent neither shoots nor touches the ball: a move, a press, a
/// mark, holding the ball or the formation, a run off the ball, a
/// goalkeeper's stance, or idling.
pub open spec fn leaves_ball_alone(i: PlayerIntent) -> bool {
    !(i is AttemptShot) && !touches_ball_without_shooting(i)
}

/// An intent that leaves the ball alone changes nothing but the acting
/// player's velocity (and, on a counted turn, its decision counter): the
/// ball, possession, last touch, pass in flight, score, clock, event
/// stream, latest-shot xG (a pending shot keeps its xG), telemetry and
/// every other player stay as they were.
pub proof fn lemma_ball_free_intent_only_steers(
    before: MatchState,
    after: MatchState,
    slot: int,
    i: PlayerIntent,
    c: IntentContext,
    count: bool,
)
    requires
        intent_applied(before, after, slot, i, c, count),
        leaves_ball_alone(i),
    ensures
        after.ball == before.ball,
        after.possession == before.possession,
        after.last_touched_by == before.last_touched_by,
        after.ball_in_flight == before.ball_in_flight,
        after.home_score == before.home_score,
        after.away_score == before.away_score,
        after.tick == before.tick,
        after.match_events@ == before.match_events@,
        after.last_shot_xg@ == before.last_shot_xg@,
        after.shot_telemetry@ == before.shot_telemetry@,
        after.dribble_telemetry@ == before.dribble_telemetry@,
        after.players@ == before.players@.update(
            slot,
            if count {
                counted(steered(before.players@[slot], slot, i))
            } else {
                steered(before.players@[slot], slot, i)
            },
        ),
{
    assert(pass_of(i) is None);
    assert(ball_effect(before, slot, i, c) == before);
    assert(intent_match_events(before, slot, i, c) =~= Seq::<MatchEvent>::empty());
    assert(before.match_events@ + Seq::<MatchEvent>::empty() =~= before.match_events@);
}

/// While a pass is in flight, an intent passed through
/// [`suppress_ball_launch_during_flight`] before being applied never
/// touches the ball.
pub proof fn lemma_suppressed_intent_leaves_ball(s: MatchState, slot: int, i: PlayerIntent, c: IntentContext)
    ensures
        ball_effect(s, slot, flight_safe(i), c) == s,
        intent_events(s, slot, flight_safe(i), c) == Seq::<(usize, TacticEvent)>::empty(),
{
    lemma_off_ball_intent_leaves_ball(s, slot, flight_safe(i), c, Seq::empty(), 0);
}

/// Steering never moves the player, and each velocity component points
/// the way of the target (or is zero).
pub proof fn lemma_steering_heads_for_target(p: PlayerState, slot: int, i: PlayerIntent)
    requires
        abs_spec(p.pos_x as int) <= 17592186044416,
        abs_spec(p.pos_y as int) <= 17592186044416,
        p.attributes.wf(),
        intent_target(i) matches Some(t) ==> abs_spec(t.0 as int) <= 17592186044416
            && abs_spec(t.1 as int) <= 17592186044416,
    ensures
        steered(p, slot, i).pos_x == p.pos_x,
        steered(p, slot, i).pos_y == p.pos_y,
        intent_target(i) matches Some(t) ==> same_direction(
            steered(p, slot, i).vel_x as int,
            t.0 - p.pos_x,
        ) && same_direction(steered(p, slot, i).vel_y as int, t.1 - p.pos_y),
{
    if let Some(t) = intent_target(i) {
        let dx = t.0 - p.pos_x;
        let dy = t.1 - p.pos_y;
        let vm = slot_v_max(slot, p);
        lemma_v_max_range(p.attributes.physical.pace as int, ONE as int);
        lemma_square_bound(dx);
        lemma_square_bound(dy);
        lemma_square_bound(vm);
        let ds = mul_spec(dx, dx) + mul_spec(dy, dy);
        if ds != 0 && ds > mul_spec(vm, vm) {
            lemma_root_bounds_offset(dx, dy);
            let dist = sqrt_spec(ds);
            lemma_direction_bound(dx, dist);
            lemma_direction_bound(dy, dist);
            lemma_scaled_direction_bound(div_trunc_spec(dx, dist), vm);
            lemma_scaled_direction_bound(div_trunc_spec(dy, dist), vm);
            lemma_scaled_direction_sign(dx, dist, vm);
            lemma_scaled_direction_sign(dy, dist, vm);
        }
    }
}

// ---------------------------------------------------------------------------
// A player's decision turn
// ---------------------------------------------------------------------------

/// How a player's decision turn opens.
#[derive(Debug, Clone, Copy, PartialEq, Eq, Structural)]
pub enum TurnOpening {
    /// The player is the receiver of a successful pass in flight and waits
    /// to trap it; the decision is counted and the turn is over.
    AwaitingPass,
    /// The loose-ball chase pre-empted the role: its intent was applied and
    /// counted, and the turn is over.
    Preempted,
    /// The role chooses the intent; finish the turn with
    /// [`finish_decision_turn`].
    RoleDecides,
}

/// The player in `slot` is the receiver of a successful pass in flight.
pub open spec fn awaits_pass(s: MatchState, slot: int) -> bool {
    s.ball_in_flight matches Some(b) && b.outcome_is_success && s.players@[slot].slot
        == b.intended_receiver
}

/// The intent actually applied for a role's choice: while a pass is in
/// flight, any ball launch becomes a move toward the same target.
pub open spec fn flight_checked(s: MatchState, i: PlayerIntent) -> PlayerIntent {
    if s.ball_in_flight is Some {
        flight_safe(i)
    } else {
        i
    }
}

/// Count one more decision for `slot_idx`.
fn count_decision(state: &mut MatchState, slot_idx: usize)
    requires
        old(state).wf(),
        slot_idx < 22,
    ensures
        *final(state) == (MatchState { players: final(state).players, ..*old(state) }),
        final(state).players@ == old(state).players@.update(
            slot_idx as int,
            counted(old(state).players@[slot_idx as int]),
        ),
        final(state).wf(),
{
    let mut p = state.players[slot_idx];
    p.bump_decision_counter();
    state.players[slot_idx] = p;
    proof {
        assert forall|i: int| 0 <= i < 22 implies #[trigger] state.players@[i].slot == i
            && state.players@[i].attributes.wf() by {
            assert(old(state).players@[i].slot == i);
            assert(old(state).players@[i].attributes.wf());
        }
    }
}

/// Counting the decision after applying an intent gives the counted form
/// of [`intent_applied`].
proof fn lemma_count_after_apply(
    before: MatchState,
    mid: MatchState,
    after: MatchState,
    slot: int,
    i: PlayerIntent,
    c: IntentContext,
)
    requires
        0 <= slot < before.players@.len(),
        intent_applied(before, mid, slot, i, c, false),
        after == (MatchState { players: after.players, ..mid }),
        after.players@ == mid.players@.update(slot, counted(mid.players@[slot])),
    ensures
        intent_applied(before, after, slot, i, c, true),
{
    assert(after.players@ =~= before.players@.update(
        slot,
        counted(steered(before.players@[slot], slot, i)),
    ));
}

/// Open `slot_idx`'s decision turn: the receiver of a successful pass in
/// flight waits for it; otherwise a loose-ball chase pre-emption (see
/// [`preempt`]) is applied; otherwise the role must choose. Returns how the
/// turn opened and the tactic events of what was applied.
pub fn open_decision_turn(
    state: &mut MatchState,
    slot_idx: usize,
    ctx: &IntentContext,
) -> (r: (TurnOpening, Vec<(usize, TacticEvent)>))
    requires
        old(state).wf(),
        slot_idx < 22,
        coordinates_within(old(state).players@, 17592186044416),
        abs_spec(old(state).ball.pos_x as int) <= 17592186044416,
        abs_spec(old(state).ball.pos_y as int) <= 17592186044416,
        context_ok(*ctx),
    ensures
        awaits_pass(*old(state), slot_idx as int) ==> {
            &&& r.0 is AwaitingPass
            &&& *final(state) == (MatchState { players: final(state).players, ..*old(state) })
            &&& final(state).players@ == old(state).players@.update(
                slot_idx as int,
                counted(old(state).players@[slot_idx as int]),
            )
            &&& r.1@ == Seq::<(usize, TacticEvent)>::empty()
        },
        !awaits_pass(*old(state), slot_idx as int) ==> match preempt(*old(state), slot_idx as int) {
            Some(i) => {
                &&& r.0 is Preempted
                &&& intent_applied(*old(state), *final(state), slot_idx as int, i, *ctx, true)
                &&& r.1@ == intent_events(*old(state), slot_idx as int, i, *ctx)
            },
            None => {
                &&& r.0 is RoleDecides
                &&& *final(state) == *old(state)
                &&& r.1@ == Seq::<(usize, TacticEvent)>::empty()
            },
        },
        final(state).wf(),
{
    if let Some(flight) = state.ball_in_flight {
        if flight.outcome_is_success && state.players[slot_idx].slot == flight.intended_receiver {
            count_decision(state, slot_idx);
            return (TurnOpening::AwaitingPass, Vec::new());
        }
    }
    proof {
        assert forall|i: int| 0 <= i < state.players@.len() implies crate::fixed::dist_sq_fits(
            #[trigger] state.players@[i].pos_x as int,
            state.players@[i].pos_y as int,
            state.ball.pos_x as int,
            state.ball.pos_y as int,
        ) by {
            assert(abs_spec(state.players@[i].pos_x as int) <= 17592186044416);
            crate::fixed::lemma_dist_sq_fits_bounded(
                state.players@[i].pos_x as int,
                state.players@[i].pos_y as int,
                state.ball.pos_x as int,
                state.ball.pos_y as int,
            );
        }
    }
    match preempt_check(state, slot_idx) {
        Some(chase) => {
            let ghost before = *state;
            let events = apply_intent(state, slot_idx, chase, ctx);
            let ghost mid = *state;
            count_decision(state, slot_idx);
            proof {
                lemma_count_after_apply(before, mid, *state, slot_idx as int, chase, *ctx);
            }
            (TurnOpening::Preempted, events)
        },
        None => (TurnOpening::RoleDecides, Vec::new()),
    }
}

/// Finish `slot_idx`'s decision turn with the intent its role chose: while
/// a pass is in flight a ball launch becomes a move toward the same target
/// (see [`suppress_ball_launch_during_flight`]); the intent is applied and
/// the decision counted. Returns the tactic events of what was applied.
pub fn finish_decision_turn(
    state: &mut MatchState,
    slot_idx: usize,
    chosen: PlayerIntent,
    ctx: &IntentContext,
) -> (events: Vec<(usize, TacticEvent)>)
    requires
        old(state).wf(),
        slot_idx < 22,
        coordinates_within(old(state).players@, 17592186044416),
        intent_target(chosen) matches Some(t) ==> abs_spec(t.0 as int) <= 17592186044416
            && abs_spec(t.1 as int) <= 17592186044416,
        context_ok(*ctx),
    ensures
        intent_applied(
            *old(state),
            *final(state),
            slot_idx as int,
            flight_checked(*old(state), chosen),
            *ctx,
            true,
        ),
        events@ == intent_events(*old(state), slot_idx as int, flight_checked(*old(state), chosen), *ctx),
        final(state).wf(),
{
    let intent = if state.ball_in_flight.is_some() {
        suppress_ball_launch_during_flight(chosen)
    } else {
        chosen
    };
    let ghost before = *state;
    let events = apply_intent(state, slot_idx, intent, ctx);
    let ghost mid = *state;
    count_decision(state, slot_idx);
    proof {
        lemma_count_after_apply(before, mid, *state, slot_idx as int, intent, *ctx);
    }
    events
}

/// While a pass is in flight, finishing a decision turn never moves the
/// ball, changes possession or the flight, or raises tactic events.
pub proof fn lemma_turn_during_flight_keeps_ball(s: MatchState, slot: int, chosen: PlayerIntent, c: IntentContext)
    requires
        s.ball_in_flight is Some,
    ensures
        ball_effect(s, slot, flight_checked(s, chosen), c) == s,
        intent_events(s, slot, flight_checked(s, chosen), c) == Seq::<(usize, TacticEvent)>::empty(),
{
    lemma_suppressed_intent_leaves_ball(s, slot, chosen, c);
}

// ---------------------------------------------------------------------------
// The decision tick
// ---------------------------------------------------------------------------

/// `slot`'s decision turn took `before` to `after` and the signature
/// ledger from `lb` to `la`: unchanged when the slot does not decide this
/// tick; otherwise the receiver of a successful pass in flight only counts
/// the decision, a loose-ball chase pre-empts the role, and else the role
/// decides (see [`role_turn_taken`]); every decision is counted.
pub open spec fn turn_taken(
    before: MatchState,
    after: MatchState,
    lb: SignatureLedger,
    la: SignatureLedger,
    slot: int,
    decides: bool,
    chosen: PlayerIntent,
    c: IntentContext,
    opts: Seq<SignatureOption>,
    pick: Option<usize>,
) -> bool {
    if !decides {
        after == before && la == lb
    } else if awaits_pass(before, slot) {
        &&& la == lb
        &&& after == (MatchState { players: after.players, ..before })
        &&& after.players@ == before.players@.update(slot, counted(before.players@[slot]))
    } else {
        match preempt(before, slot) {
            Some(i) => la == lb && intent_applied(before, after, slot, i, c, true),
            None => role_turn_taken(before, after, lb, la, slot, chosen, c, opts, pick),
        }
    }
}

/// The tactic events of `slot`'s decision turn (see [`turn_taken`]).
pub open spec fn turn_events(
    s: MatchState,
    slot: int,
    decides: bool,
    chosen: PlayerIntent,
    c: IntentContext,
) -> Seq<(usize, TacticEvent)> {
    if !decides || awaits_pass(s, slot) {
        Seq::empty()
    } else {
        match preempt(s, slot) {
            Some(i) => intent_events(s, slot, i, c),
            None => intent_events(s, slot, flight_checked(s, role_decision(s, slot, chosen).1), c),
        }
    }
}

/// One of a player's signature candidates as the content store gives it:
/// its id, its affinity, the stacking category of its definition (`None`
/// when the store has no definition for it) and its cooldown policy.
#[derive(Debug, Clone, PartialEq, Eq)]
pub struct SignatureOption {
    pub signature_id: String,
    pub affinity: i64,
    pub category: Option<BiasCategory>,
    pub policy: CooldownPolicy,
}

/// Every candidate with a definition is a shipped signature.
pub open spec fn options_ok(opts: Seq<SignatureOption>) -> bool {
    forall|k: int|
        0 <= k < opts.len() ==> ((#[trigger] opts[k]).category is Some ==> kind_of_id(
            opts[k].signature_id@,
        ) is Some)
}

/// The candidate as the trigger check sees it, its cooldown end read from
/// the ledger.
pub open spec fn candidate_of(o: SignatureOption, l: SignatureLedger, slot: int) -> CandidateContext {
    CandidateContext {
        signature_id: o.signature_id,
        affinity: o.affinity,
        category: o.category,
        cooldown_end: match kind_of_id(o.signature_id@) {
            Some(k) => l.cooldown_ends@[slot * 9 + kind_index(k)],
            None => None,
        },
    }
}

/// The candidates of `opts` as the trigger check sees them.
pub open spec fn candidates_of(opts: Seq<SignatureOption>, l: SignatureLedger, slot: int) -> Seq<CandidateContext> {
    Seq::new(opts.len(), |k: int| candidate_of(opts[k], l, slot))
}

/// Which of `slot`'s four category lanes hold a firing.
pub open spec fn lanes_of(l: SignatureLedger, slot: int) -> Seq<bool> {
    seq![
        l.firings@[slot * 4] is Some,
        l.firings@[slot * 4 + 1] is Some,
        l.firings@[slot * 4 + 2] is Some,
        l.firings@[slot * 4 + 3] is Some,
    ]
}

/// The id of the signature that fires (see [`evaluate_signatures`]): none
/// when no candidate is eligible, the only eligible one, or the eligible
/// one at index `pick` of the weighted draw.
pub open spec fn picked_id(
    s: MatchState,
    l: SignatureLedger,
    slot: int,
    opts: Seq<SignatureOption>,
    pick: Option<usize>,
) -> Option<Seq<char>> {
    let cands = candidates_of(opts, l, slot);
    let e = eligible_prefix(s, slot as u8, cands, lanes_of(l, slot), cands.len());
    if e.len() == 0 {
        None
    } else if e.len() == 1 {
        Some(e[0].0)
    } else {
        match pick {
            Some(k) => if k < e.len() {
                Some(e[k as int].0)
            } else {
                None
            },
            None => None,
        }
    }
}

/// The first candidate from `i` on with id `id` and a definition.
pub open spec fn option_with_id(opts: Seq<SignatureOption>, id: Seq<char>, i: int) -> Option<int>
    decreases opts.len() - i,
{
    if i < 0 || i >= opts.len() {
        None
    } else if opts[i].signature_id@ == id && opts[i].category is Some {
        Some(i)
    } else {
        option_with_id(opts, id, i + 1)
    }
}

/// The candidate of `slot` that fires this turn, if any.
pub open spec fn signature_pick(
    s: MatchState,
    l: SignatureLedger,
    slot: int,
    opts: Seq<SignatureOption>,
    pick: Option<usize>,
) -> Option<int> {
    match picked_id(s, l, slot, opts, pick) {
        Some(id) => option_with_id(opts, id, 0),
        None => None,
    }
}

/// The first-firing event of the candidate `j` that fired, when `slot`
/// had not fired that signature before.
pub open spec fn first_fired_events(
    s: MatchState,
    l: SignatureLedger,
    slot: int,
    opts: Seq<SignatureOption>,
    j: Option<int>,
) -> Seq<MatchEvent> {
    match j {
        Some(k) => {
            let kind = kind_of_id(opts[k].signature_id@).unwrap();
            if !l.seen(slot, kind) {
                seq![MatchEvent::SignatureFirstFired { player_slot: slot as u8, signature: kind, tick: s.tick }]
            } else {
                Seq::empty()
            }
        },
        None => Seq::empty(),
    }
}

/// The role's decision for `slot`: the role state routed around the ball
/// (see [`role_transition`]); a goalkeeper's state machine then picks its
/// mode and intent from the ball, while an outfield role acts on `chosen`.
pub open spec fn role_decision(s: MatchState, slot: int, chosen: PlayerIntent) -> (PlayerRoleState, PlayerIntent) {
    let p = s.players@[slot];
    let routed = role_transition(p.role_state, s, slot);
    match routed {
        PlayerRoleState::Goalkeeper(_) => {
            let ns = gk_next_state(slot < 11, s.ball.pos_x as int, s.ball.vel_x as int);
            (PlayerRoleState::Goalkeeper(ns), gk_intent(ns, slot, p.attributes, s.ball))
        },
        _ => (routed, chosen),
    }
}

/// `after` is `before` with intent `i` of `slot` applied (see
/// [`intent_applied`], the decision counted), the player's role state set
/// to `role`, and the events `pre` entering the stream ahead of the
/// intent's own.
pub open spec fn decision_applied(
    before: MatchState,
    after: MatchState,
    slot: int,
    i: PlayerIntent,
    c: IntentContext,
    role: PlayerRoleState,
    pre: Seq<MatchEvent>,
) -> bool {
    let moved = counted(steered(before.players@[slot], slot, i));
    &&& after == (MatchState {
        players: after.players,
        last_shot_xg: after.last_shot_xg,
        shot_telemetry: after.shot_telemetry,
        dribble_telemetry: after.dribble_telemetry,
        match_events: after.match_events,
        ..ball_effect(before, slot, i, c)
    })
    &&& after.match_events@ == before.match_events@ + pre + intent_match_events(before, slot, i, c)
    &&& after.players@ == before.players@.update(slot, PlayerState { role_state: role, ..moved })
    &&& after.last_shot_xg@ == xg_after(before.last_shot_xg@, slot, i, c.shot_xg)
    &&& after.shot_telemetry@ == (if i is AttemptShot {
        before.shot_telemetry@.push(shot_record(before, slot, c))
    } else {
        before.shot_telemetry@
    })
    &&& after.dribble_telemetry@ == (if i is Dribble {
        before.dribble_telemetry@.push(dribble_record(before, slot))
    } else {
        before.dribble_telemetry@
    })
}

/// The role's turn for `slot`: first the signature pick (see
/// [`signature_pick`]) is recorded in the ledger, with its first-firing
/// event when it is the player's first firing of it; then the role decides
/// (see [`role_decision`]) and its intent is applied (as a move while a pass
/// is in flight), counted, with the role state updated.
pub open spec fn role_turn_taken(
    before: MatchState,
    after: MatchState,
    lb: SignatureLedger,
    la: SignatureLedger,
    slot: int,
    chosen: PlayerIntent,
    c: IntentContext,
    opts: Seq<SignatureOption>,
    pick: Option<usize>,
) -> bool {
    let j = signature_pick(before, lb, slot, opts, pick);
    let d = role_decision(before, slot, chosen);
    &&& match j {
        Some(k) => ledger_recorded(
            lb,
            la,
            slot as u8,
            opts[k].signature_id@,
            opts[k].category.unwrap(),
            opts[k].policy,
            before.tick,
        ),
        None => la == lb,
    }
    &&& decision_applied(
        before,
        after,
        slot,
        flight_checked(before, d.1),
        c,
        d.0,
        first_fired_events(before, lb, slot, opts, j),
    )
}

/// Positions stay within 2^42 raw, velocities within 2^45 raw and the ball
/// within 2^43 raw: the bounds under which a decision turn can neither
/// overflow nor leave them.
pub open spec fn turn_bounds(s: MatchState) -> bool {
    &&& coordinates_within(s.players@, 4398046511104)
    &&& velocities_within(s.players@, 35184372088832)
    &&& abs_spec(s.ball.pos_x as int) <= 8796093022208
    &&& abs_spec(s.ball.pos_y as int) <= 8796093022208
}

/// Every player's velocity components lie within `limit`.
pub open spec fn velocities_within(ps: Seq<PlayerState>, limit: int) -> bool {
    forall|k: int|
        0 <= k < ps.len() ==> abs_spec(#[trigger] ps[k].vel_x as int) <= limit && abs_spec(
            ps[k].vel_y as int,
        ) <= limit
}

/// Every target of an intent lies within 2^44 raw.
pub open spec fn target_bounded(i: PlayerIntent) -> bool {
    intent_target(i) matches Some(t) ==> abs_spec(t.0 as int) <= 17592186044416 && abs_spec(
        t.1 as int,
    ) <= 17592186044416
}

/// A drop point between two players within `b` lies within `b` along x
/// and within `b` plus the lateral offset along y.
proof fn lemma_drop_point_bounded(s: MatchState, fx: i64, fy: i64, tx: i64, ty: i64, fwd: bool, b: int)
    requires
        s.wf(),
        abs_spec(fx as int) <= b,
        abs_spec(fy as int) <= b,
        abs_spec(tx as int) <= b,
        abs_spec(ty as int) <= b,
    ensures
        abs_spec(drop_point(s, fx, fy, tx, ty, fwd).0) <= b,
        abs_spec(drop_point(s, fx, fy, tx, ty, fwd).1) <= b + MIN_PLAYER_DISTANCE,
{
    let frac: int = if fwd {
        FRAC_40 as int
    } else {
        FRAC_20 as int
    };
    crate::fixed::lemma_mul_by_unit(tx - fx, frac);
    crate::fixed::lemma_mul_by_unit(ty - fy, frac);
    assert(frac * (tx - fx) == (tx - fx) * frac) by (nonlinear_arith);
    assert(frac * (ty - fy) == (ty - fy) * frac) by (nonlinear_arith);
    let drop_x = fx + mul_spec(frac, tx - fx);
    let drop_y = fy + mul_spec(frac, ty - fy);
    let passer_is_home = match first_at(s, 22, fx, fy) {
        Some(k) => k < 11,
        None => true,
    };
    let opp_lo: int = if passer_is_home {
        11
    } else {
        0
    };
    lemma_nearest_in_range(s, opp_lo, opp_lo + 11, drop_x, drop_y);
}

/// A nearest player, when there is one, comes from the scanned range, and
/// a non-empty range always has one.
proof fn lemma_nearest_in_range(s: MatchState, lo: int, hi: int, tx: int, ty: int)
    ensures
        nearest_in(s, lo, hi, tx, ty) matches Some(k) ==> lo <= k < hi,
        lo < hi ==> nearest_in(s, lo, hi, tx, ty) is Some,
    decreases hi - lo,
{
    if hi > lo {
        lemma_nearest_in_range(s, lo, hi - 1, tx, ty);
    }
}

/// After a pass from a player within 2^42, the ball lies within 2^43.
proof fn lemma_after_pass_ball_bounded(s: MatchState, slot: int, kind: PassKind, tx: int, ty: int, c: IntentContext)
    requires
        s.wf(),
        0 <= slot < 22,
        turn_bounds(s),
    ensures
        abs_spec(after_pass(s, slot, kind, tx, ty, c).ball.pos_x as int) <= 8796093022208,
        abs_spec(after_pass(s, slot, kind, tx, ty, c).ball.pos_y as int) <= 8796093022208,
{
    let p = s.players@[slot];
    assert(abs_spec(p.pos_x as int) <= 4398046511104);
    let to = receiver_of(s, slot, tx, ty);
    lemma_nearest_teammate_in_range(s, slot, team_start(slot), team_start(slot) + 11, tx, ty);
    let r = s.players@[to];
    assert(abs_spec(r.pos_x as int) <= 4398046511104);
    let at_feet = MatchState { ball: BallState { pos_x: p.pos_x, pos_y: p.pos_y, ..s.ball }, ..s };
    lemma_drop_point_bounded(
        at_feet,
        p.pos_x,
        p.pos_y,
        r.pos_x,
        r.pos_y,
        pass_is_forward(slot, kind, p.pos_x as int, r.pos_x as int),
        4398046511104,
    );
    let gk: int = if slot < 11 {
        11
    } else {
        0
    };
    assert(abs_spec(s.players@[gk].pos_x as int) <= 4398046511104);
}

/// After any intent of a player, the ball lies within 2^43.
proof fn lemma_ball_effect_bounded(s: MatchState, slot: int, i: PlayerIntent, c: IntentContext)
    requires
        s.wf(),
        0 <= slot < 22,
        turn_bounds(s),
    ensures
        abs_spec(ball_effect(s, slot, i, c).ball.pos_x as int) <= 8796093022208,
        abs_spec(ball_effect(s, slot, i, c).ball.pos_y as int) <= 8796093022208,
{
    let p = s.players@[slot];
    assert(abs_spec(p.pos_x as int) <= 4398046511104);
    match i {
        PlayerIntent::GkDistributeShort { target_x, target_y }
        | PlayerIntent::GkDistributeLong { target_x, target_y } => {},
        PlayerIntent::AttemptShot { .. } | PlayerIntent::Dribble { .. } => {},
        _ => match pass_of(i) {
            Some(k) => lemma_after_pass_ball_bounded(s, slot, k.0, k.1 as int, k.2 as int, c),
            None => {},
        },
    }
}

/// Applying an intent keeps the decision-turn bounds.
proof fn lemma_intent_keeps_turn_bounds(
    before: MatchState,
    after: MatchState,
    slot: int,
    i: PlayerIntent,
    c: IntentContext,
    count: bool,
)
    requires
        before.wf(),
        0 <= slot < 22,
        turn_bounds(before),
        target_bounded(i),
        intent_applied(before, after, slot, i, c, count),
    ensures
        turn_bounds(after),
{
    let p = before.players@[slot];
    lemma_steered_speed_bounded(p, slot, i);
    assert forall|k: int| 0 <= k < after.players@.len() implies abs_spec(
        #[trigger] after.players@[k].pos_x as int,
    ) <= 4398046511104 && abs_spec(after.players@[k].pos_y as int) <= 4398046511104 by {
        assert(abs_spec(before.players@[k].pos_x as int) <= 4398046511104);
    }
    assert forall|k: int| 0 <= k < after.players@.len() implies abs_spec(
        #[trigger] after.players@[k].vel_x as int,
    ) <= 35184372088832 && abs_spec(after.players@[k].vel_y as int) <= 35184372088832 by {
        assert(abs_spec(before.players@[k].vel_x as int) <= 35184372088832);
    }
    lemma_ball_effect_bounded(before, slot, i, c);
    assert(after.ball == ball_effect(before, slot, i, c).ball);
}

/// Steering from within 2^42 toward a target within 2^44 gives velocity
/// components within 2^45.
proof fn lemma_steered_speed_bounded(p: PlayerState, slot: int, i: PlayerIntent)
    requires
        abs_spec(p.pos_x as int) <= 4398046511104,
        abs_spec(p.pos_y as int) <= 4398046511104,
        p.attributes.wf(),
        target_bounded(i),
    ensures
        abs_spec(steered(p, slot, i).vel_x as int) <= 35184372088832,
        abs_spec(steered(p, slot, i).vel_y as int) <= 35184372088832,
{
    if let Some(t) = intent_target(i) {
        let dx = t.0 - p.pos_x;
        let dy = t.1 - p.pos_y;
        let vm = slot_v_max(slot, p);
        lemma_v_max_range(p.attributes.physical.pace as int, ONE as int);
        lemma_square_bound(dx);
        lemma_square_bound(dy);
        lemma_square_bound(vm);
        let ds = mul_spec(dx, dx) + mul_spec(dy, dy);
        if ds != 0 && ds > mul_spec(vm, vm) {
            lemma_root_bounds_offset(dx, dy);
            let dist = sqrt_spec(ds);
            lemma_direction_bound(dx, dist);
            lemma_direction_bound(dy, dist);
            lemma_scaled_direction_bound(div_trunc_spec(dx, dist), vm);
            lemma_scaled_direction_bound(div_trunc_spec(dy, dist), vm);
        }
    }
}

/// The match-event stream of `before` is a prefix of that of `after`.
pub open spec fn events_extended(before: MatchState, after: MatchState) -> bool {
    &&& before.match_events@.len() <= after.match_events@.len()
    &&& after.match_events@.subrange(0, before.match_events@.len() as int) == before.match_events@
}

/// Extending the stream twice extends it.
pub proof fn lemma_events_extended_trans(a: MatchState, b: MatchState, c: MatchState)
    requires
        events_extended(a, b),
        events_extended(b, c),
    ensures
        events_extended(a, c),
{
    let la = a.match_events@.len() as int;
    let lb = b.match_events@.len() as int;
    assert forall|j: int| 0 <= j < la implies c.match_events@.subrange(0, la)[j] == a.match_events@[j] by {
        assert(c.match_events@.subrange(0, lb)[j] == b.match_events@[j]);
        assert(b.match_events@.subrange(0, la)[j] == a.match_events@[j]);
    }
    assert(c.match_events@.subrange(0, la) =~= a.match_events@);
}

/// The candidate of the player in `slot_idx` that fires this turn, if any
/// (see [`signature_pick`]).
fn pick_signature(
    state: &MatchState,
    ledger: &SignatureLedger,
    slot_idx: usize,
    opts: &Vec<SignatureOption>,
    pick: Option<usize>,
) -> (j: Option<usize>)
    requires
        state.wf(),
        ledger.wf(),
        slot_idx < 22,
        options_ok(opts@),
    ensures
        (match j {
            Some(k) => Some(k as int),
            None => None,
        }) == signature_pick(*state, *ledger, slot_idx as int, opts@, pick),
        j matches Some(k) ==> k < opts@.len() && opts@[k as int].category is Some,
{
    let mut cands: Vec<CandidateContext> = Vec::new();
    let mut k: usize = 0;
    while k < opts.len()
        invariant
            0 <= k <= opts@.len(),
            slot_idx < 22,
            ledger.wf(),
            cands@ == candidates_of(opts@, *ledger, slot_idx as int).take(k as int),
        decreases opts@.len() - k,
    {
        let o = &opts[k];
        let cooldown_end = match signature_kind(&o.signature_id) {
            Some(kind) => ledger.cooldown_ends[slot_idx * 9 + kind_slot(kind)],
            None => None,
        };
        cands.push(
            CandidateContext {
                signature_id: o.signature_id.clone(),
                affinity: o.affinity,
                category: o.category,
                cooldown_end,
            },
        );
        proof {
            assert(cands@ =~= candidates_of(opts@, *ledger, slot_idx as int).take(k as int + 1));
        }
        k = k + 1;
    }
    let lanes = [
        ledger.firings[slot_idx * 4].is_some(),
        ledger.firings[slot_idx * 4 + 1].is_some(),
        ledger.firings[slot_idx * 4 + 2].is_some(),
        ledger.firings[slot_idx * 4 + 3].is_some(),
    ];
    proof {
        assert(cands@ =~= candidates_of(opts@, *ledger, slot_idx as int));
        assert(lanes@ =~= lanes_of(*ledger, slot_idx as int));
        assert(crate::signature::triggers::all_attributes_wf(state.players@)) by {
            assert forall|i: int| 0 <= i < state.players@.len() implies #[trigger] state.players@[i].attributes.wf() by {}
        }
        assert forall|m: int|
            0 <= m < cands@.len() && reaches_trigger(#[trigger] cands@[m], state.tick) implies {
                &&& kind_of_id(cands@[m].signature_id@) is Some
                &&& fits(
                    mul_spec(
                        cands@[m].affinity as int,
                        trigger_fit(kind_of_id(cands@[m].signature_id@).unwrap(), *state, slot_idx as u8) as int,
                    ),
                )
            } by {
            assert(opts@[m].category is Some);
            let kind = kind_of_id(cands@[m].signature_id@).unwrap();
            lemma_trigger_fit_unit(kind, *state, slot_idx as u8);
            crate::fixed::lemma_mul_by_unit(
                cands@[m].affinity as int,
                trigger_fit(kind, *state, slot_idx as u8) as int,
            );
        }
        assert(candidates_bound(*state, slot_idx as u8, cands@));
    }
    let picked = evaluate_signatures(state, slot_idx as u8, &cands, &lanes, pick);
    let id = match picked {
        Some(id) => id,
        None => return None,
    };
    assert(picked_id(*state, *ledger, slot_idx as int, opts@, pick) == Some(id@));
    let mut m: usize = 0;
    while m < opts.len()
        invariant
            0 <= m <= opts@.len(),
            option_with_id(opts@, id@, 0) == option_with_id(opts@, id@, m as int),
            picked_id(*state, *ledger, slot_idx as int, opts@, pick) == Some(id@),
        decreases opts@.len() - m,
    {
        if opts[m].signature_id == id && opts[m].category.is_some() {
            assert(option_with_id(opts@, id@, m as int) == Some(m as int));
            return Some(m);
        }
        m = m + 1;
    }
    None
}

/// Record the signature the player in `slot_idx` fires this turn, if any
/// (see [`signature_pick`]); returns its kind when it is the player's first
/// firing of it.
fn record_pick(
    state: &MatchState,
    ledger: &mut SignatureLedger,
    slot_idx: usize,
    opts: &Vec<SignatureOption>,
    pick: Option<usize>,
) -> (first: Option<SignatureKind>)
    requires
        state.wf(),
        old(ledger).wf(),
        slot_idx < 22,
        options_ok(opts@),
        0 <= state.tick <= 4611686018427387904,
    ensures
        final(ledger).wf(),
        match signature_pick(*state, *old(ledger), slot_idx as int, opts@, pick) {
            Some(k) => ledger_recorded(
                *old(ledger),
                *final(ledger),
                slot_idx as u8,
                opts@[k].signature_id@,
                opts@[k].category.unwrap(),
                opts@[k].policy,
                state.tick,
            ),
            None => *final(ledger) == *old(ledger),
        },
        first_fired_events(
            *state,
            *old(ledger),
            slot_idx as int,
            opts@,
            signature_pick(*state, *old(ledger), slot_idx as int, opts@, pick),
        ) == (match first {
            Some(kind) => seq![
                MatchEvent::SignatureFirstFired { player_slot: slot_idx as u8, signature: kind, tick: state.tick },
            ],
            None => Seq::<MatchEvent>::empty(),
        }),
{
    let j = pick_signature(state, ledger, slot_idx, opts, pick);
    match j {
        Some(k) => {
            let o = &opts[k];
            let cat = o.category.unwrap();
            let kind = signature_kind(&o.signature_id).unwrap();
            let first = record_firing(ledger, slot_idx as u8, o.signature_id.clone(), cat, o.policy, state.tick);
            if first.is_some() {
                Some(kind)
            } else {
                None
            }
        },
        None => None,
    }
}

/// Applying the role's intent and then setting the role state and letting
/// the first-firing events in ahead of the intent's events is the
/// decision of [`decision_applied`], and keeps the turn bounds.
proof fn lemma_decision_applied(
    before: MatchState,
    applied: MatchState,
    after: MatchState,
    slot: int,
    i: PlayerIntent,
    c: IntentContext,
    role: PlayerRoleState,
    pre: Seq<MatchEvent>,
)
    requires
        before.wf(),
        0 <= slot < 22,
        turn_bounds(before),
        target_bounded(i),
        intent_applied(before, applied, slot, i, c, true),
        applied.wf(),
        after == (MatchState { players: after.players, match_events: after.match_events, ..applied }),
        after.players@ == applied.players@.update(
            slot,
            PlayerState { role_state: role, ..applied.players@[slot] },
        ),
        pre.len() <= 1,
        after.match_events@ == (if pre.len() == 1 {
            applied.match_events@.insert(before.match_events@.len() as int, pre[0])
        } else {
            applied.match_events@
        }),
    ensures
        decision_applied(before, after, slot, i, c, role, pre),
        after.wf(),
        turn_bounds(after),
        events_extended(before, after),
{
    lemma_intent_keeps_turn_bounds(before, applied, slot, i, c, true);
    assert(after.match_events@ =~= before.match_events@ + pre + intent_match_events(before, slot, i, c));
    assert(after.players@ =~= before.players@.update(
        slot,
        PlayerState { role_state: role, ..counted(steered(before.players@[slot], slot, i)) },
    ));
    assert(after.match_events@.subrange(0, before.match_events@.len() as int) =~= before.match_events@);
    assert forall|k: int| 0 <= k < 22 implies #[trigger] after.players@[k].slot == k
        && after.players@[k].attributes.wf() by {
        assert(after.players@[k].slot == applied.players@[k].slot);
    }
    assert forall|k: int| 0 <= k < after.players@.len() implies abs_spec(
        #[trigger] after.players@[k].pos_x as int,
    ) <= 4398046511104 && abs_spec(after.players@[k].pos_y as int) <= 4398046511104 by {
        assert(abs_spec(applied.players@[k].pos_x as int) <= 4398046511104);
    }
    assert forall|k: int| 0 <= k < after.players@.len() implies abs_spec(
        #[trigger] after.players@[k].vel_x as int,
    ) <= 35184372088832 && abs_spec(after.players@[k].vel_y as int) <= 35184372088832 by {
        assert(abs_spec(applied.players@[k].vel_x as int) <= 35184372088832);
    }
    assert(coordinates_within(after.players@, 4398046511104));
    assert(velocities_within(after.players@, 35184372088832));
    assert(after.ball == applied.ball);
}

/// The role's turn for the player in `slot_idx` (see [`role_turn_taken`]).
fn role_turn(
    state: &mut MatchState,
    ledger: &mut SignatureLedger,
    slot_idx: usize,
    chosen: PlayerIntent,
    ctx: &IntentContext,
    opts: &Vec<SignatureOption>,
    pick: Option<usize>,
) -> (events: Vec<(usize, TacticEvent)>)
    requires
        old(state).wf(),
        old(ledger).wf(),
        slot_idx < 22,
        turn_bounds(*old(state)),
        target_bounded(chosen),
        context_ok(*ctx),
        options_ok(opts@),
        0 <= old(state).tick <= 4611686018427387904,
    ensures
        role_turn_taken(
            *old(state),
            *final(state),
            *old(ledger),
            *final(ledger),
            slot_idx as int,
            chosen,
            *ctx,
            opts@,
            pick,
        ),
        events@ == intent_events(
            *old(state),
            slot_idx as int,
            flight_checked(*old(state), role_decision(*old(state), slot_idx as int, chosen).1),
            *ctx,
        ),
        final(state).wf(),
        final(ledger).wf(),
        turn_bounds(*final(state)),
        final(state).tick == old(state).tick,
        final(state).match_end_tick == old(state).match_end_tick,
        events_extended(*old(state), *final(state)),
{
    let ghost before = *state;
    let first_kind = record_pick(state, ledger, slot_idx, opts, pick);
    let p = state.players[slot_idx];
    let routed = p.role_state.evaluate_transitions(state, slot_idx);
    let decided = match routed {
        PlayerRoleState::Goalkeeper(gs) => {
            proof {
                assert(p.attributes.wf());
                lemma_gk_intent_bounded(
                    gk_next_state(slot_idx < 11, state.ball.pos_x as int, state.ball.vel_x as int),
                    slot_idx as int,
                    p.attributes,
                    state.ball,
                );
            }
            let (ns, gi) = keeper_decision(gs, &p, slot_idx as u8, &state.ball);
            (PlayerRoleState::Goalkeeper(ns), gi)
        },
        _ => (routed, chosen),
    };
    let (role, intent) = decided;
    proof {
        assert(decided == role_decision(before, slot_idx as int, chosen));
        assert(target_bounded(flight_checked(before, intent)));
        assert forall|k: int| 0 <= k < state.players@.len() implies abs_spec(
            #[trigger] state.players@[k].pos_x as int,
        ) <= 17592186044416 && abs_spec(state.players@[k].pos_y as int) <= 17592186044416 by {
            assert(abs_spec(state.players@[k].pos_x as int) <= 4398046511104);
        }
    }
    let n = state.match_events.len();
    let events = finish_decision_turn(state, slot_idx, intent, ctx);
    let ghost applied = *state;
    let q = state.players[slot_idx];
    state.players[slot_idx] = PlayerState { role_state: role, ..q };
    if let Some(kind) = first_kind {
        state.match_events.insert(
            n,
            MatchEvent::SignatureFirstFired { player_slot: slot_idx as u8, signature: kind, tick: state.tick },
        );
    }
    proof {
        let pre = first_fired_events(
            before,
            *old(ledger),
            slot_idx as int,
            opts@,
            signature_pick(before, *old(ledger), slot_idx as int, opts@, pick),
        );
        lemma_decision_applied(
            before,
            applied,
            *state,
            slot_idx as int,
            flight_checked(before, intent),
            *ctx,
            role,
            pre,
        );
    }
    events
}

/// One slot's decision turn within the decision tick (see
/// [`turn_taken`]).
fn take_turn(
    state: &mut MatchState,
    ledger: &mut SignatureLedger,
    slot_idx: usize,
    decides: bool,
    chosen: PlayerIntent,
    ctx: &IntentContext,
    opts: &Vec<SignatureOption>,
    pick: Option<usize>,
) -> (events: Vec<(usize, TacticEvent)>)
    requires
        old(state).wf(),
        old(ledger).wf(),
        slot_idx < 22,
        turn_bounds(*old(state)),
        target_bounded(chosen),
        context_ok(*ctx),
        options_ok(opts@),
        0 <= old(state).tick <= 4611686018427387904,
    ensures
        turn_taken(
            *old(state),
            *final(state),
            *old(ledger),
            *final(ledger),
            slot_idx as int,
            decides,
            chosen,
            *ctx,
            opts@,
            pick,
        ),
        events@ == turn_events(*old(state), slot_idx as int, decides, chosen, *ctx),
        final(state).wf(),
        final(ledger).wf(),
        turn_bounds(*final(state)),
        final(state).tick == old(state).tick,
        final(state).match_end_tick == old(state).match_end_tick,
        events_extended(*old(state), *final(state)),
{
    let ghost before = *state;
    proof {
        assert(before.match_events@.subrange(0, before.match_events@.len() as int) =~= before.match_events@);
    }
    if !decides {
        return Vec::new();
    }
    proof {
        assert forall|k: int| 0 <= k < state.players@.len() implies abs_spec(
            #[trigger] state.players@[k].pos_x as int,
        ) <= 17592186044416 && abs_spec(state.players@[k].pos_y as int) <= 17592186044416 by {
            assert(abs_spec(state.players@[k].pos_x as int) <= 4398046511104);
        }
    }
    let (opening, events) = open_decision_turn(state, slot_idx, ctx);
    match opening {
        TurnOpening::AwaitingPass => {
            proof {
                assert forall|k: int| 0 <= k < state.players@.len() implies abs_spec(
                    #[trigger] state.players@[k].pos_x as int,
                ) <= 4398046511104 && abs_spec(state.players@[k].pos_y as int) <= 4398046511104 by {
                    assert(abs_spec(before.players@[k].pos_x as int) <= 4398046511104);
                }
                assert forall|k: int| 0 <= k < state.players@.len() implies abs_spec(
                    #[trigger] state.players@[k].vel_x as int,
                ) <= 35184372088832 && abs_spec(state.players@[k].vel_y as int) <= 35184372088832 by {
                    assert(abs_spec(before.players@[k].vel_x as int) <= 35184372088832);
                }
            }
            events
        },
        TurnOpening::Preempted => {
            proof {
                let i = preempt(before, slot_idx as int).unwrap();
                assert(target_bounded(i));
                lemma_intent_keeps_turn_bounds(before, *state, slot_idx as int, i, *ctx, true);
                assert(state.match_events@.subrange(0, before.match_events@.len() as int) =~= before.match_events@);
            }
            events
        },
        TurnOpening::RoleDecides => role_turn(state, ledger, slot_idx, chosen, ctx, opts, pick),
    }
}

/// The tactic events of the decision turns of slots `0..k` along `trace`.
pub open spec fn tick_events(
    trace: Seq<MatchState>,
    decides: Seq<bool>,
    chosen: Seq<PlayerIntent>,
    ctxs: Seq<IntentContext>,
    k: int,
) -> Seq<(usize, TacticEvent)>
    decreases k,
{
    if k <= 0 {
        Seq::empty()
    } else {
        tick_events(trace, decides, chosen, ctxs, k - 1) + turn_events(
            trace[k - 1],
            k - 1,
            decides[k - 1],
            chosen[k - 1],
            ctxs[k - 1],
        )
    }
}

/// `trace` and `ledgers` run the decision turns of slots `0..k` from their
/// first entries: entry `j + 1` is entry `j` after slot `j`'s turn.
pub open spec fn turns_chain(
    trace: Seq<MatchState>,
    ledgers: Seq<SignatureLedger>,
    decides: Seq<bool>,
    chosen: Seq<PlayerIntent>,
    ctxs: Seq<IntentContext>,
    sigs: Seq<Vec<SignatureOption>>,
    picks: Seq<Option<usize>>,
    k: int,
) -> bool {
    &&& trace.len() == k + 1
    &&& ledgers.len() == k + 1
    &&& forall|j: int|
        0 <= j < k ==> turn_taken(
            #[trigger] trace[j],
            trace[j + 1],
            ledgers[j],
            ledgers[j + 1],
            j,
            decides[j],
            chosen[j],
            ctxs[j],
            sigs[j]@,
            picks[j],
        )
}

/// A whole-number division of a value in `[0, m]` lies in `[0, m / k]`.
proof fn lemma_div_whole_bound(a: int, m: int, k: int)
    requires
        0 <= a <= m,
        k >= 1,
    ensures
        0 <= div_spec(a, from_int_spec(k)) <= (m * scale()) / (k * scale()),
{
    vstd::arithmetic::div_mod::lemma_div_is_ordered(a * scale(), m * scale(), k * scale());
    vstd::arithmetic::div_mod::lemma_div_is_ordered(0, a * scale(), k * scale());
}

/// A fixed-point product of an offset within `d` and a factor in
/// `[0, u]` lies within `d · u / 2^32` (plus the rounding unit).
proof fn lemma_scaled_offset_bound(x: int, f: int, d: int, u: int)
    requires
        abs_spec(x) <= d,
        0 <= f <= u,
        0 <= d,
    ensures
        abs_spec(mul_spec(x, f)) <= (d * u) / scale() + 1,
{
    assert(-(d * u) <= x * f <= d * u) by (nonlinear_arith)
        requires
            abs_spec(x) <= d,
            0 <= f <= u,
            abs_spec(x) == (if x < 0 { -x } else { x }),
    ;
    vstd::arithmetic::div_mod::lemma_div_is_ordered(x * f, d * u, scale());
    vstd::arithmetic::div_mod::lemma_div_is_ordered(-(d * u), x * f, scale());
    assert(-(d * u) / scale() >= -((d * u) / scale()) - 1) by {
        vstd::arithmetic::div_mod::lemma_fundamental_div_mod(d * u, scale());
        vstd::arithmetic::div_mod::lemma_fundamental_div_mod(-(d * u), scale());
    }
}

/// A goalkeeper-mode intent of any slot toward a ball within 2^43 raw aims
/// within 2^44 raw, and its aim arithmetic fits.
pub proof fn lemma_gk_intent_bounded(ns: GoalkeeperState, slot: int, a: PlayerAttributes, ball: BallState)
    requires
        0 <= slot < 22,
        a.wf(),
        abs_spec(ball.pos_y as int) <= 8796093022208,
    ensures
        gk_intent_fits(ns, slot as u8, a, ball),
        target_bounded(gk_intent(ns, slot, a, ball)),
{
    let (gx, gy) = formation_target(slot);
    assert(abs_spec(gx) <= 45 * scale() && abs_spec(gy) <= 45 * scale());
    let d = ball.pos_y - gy;
    let s = scale();
    // sweeper rush
    lemma_div_whole_bound(
        a.goalkeeper.one_on_ones + a.goalkeeper.command_of_area,
        2 * s,
        2,
    );
    lemma_div_whole_bound(a.physical.pace + a.mental.decisions, 2 * s, 4);
    assert((2 * s * s) / (2 * s) == s) by (nonlinear_arith)
        requires
            s == 4294967296int,
    ;
    assert((2 * s * s) / (4 * s) == s / 2) by (nonlinear_arith)
        requires
            s == 4294967296int,
    ;
    let agg = div_spec(a.goalkeeper.one_on_ones + a.goalkeeper.command_of_area, from_int_spec(2));
    let sec = div_spec(a.physical.pace + a.mental.decisions, from_int_spec(4));
    crate::fixed::lemma_mul_nonneg_bound(from_int_spec(5), s + agg + sec, 5 * s, 3 * s);
    assert((5 * s * (3 * s)) / s == 15 * s) by (nonlinear_arith)
        requires
            s == 4294967296int,
    ;
    lemma_scaled_offset_bound(d, a.mental.decisions as int, 8989366550528, s);
    assert((8989366550528 * s) / s == 8989366550528) by (nonlinear_arith)
        requires
            s == 4294967296int,
    ;
    // shot stopping
    crate::fixed::lemma_mul_unit(a.goalkeeper.reflexes as int, a.mental.positioning as int);
    lemma_div_whole_bound(a.goalkeeper.handling + a.goalkeeper.one_on_ones, 2 * s, 4);
    let rp = mul_spec(a.goalkeeper.reflexes as int, a.mental.positioning as int);
    let sec2 = div_spec(a.goalkeeper.handling + a.goalkeeper.one_on_ones, from_int_spec(4));
    crate::fixed::lemma_mul_by_unit(rp + sec2, a.mental.composure as int);
    assert(0 <= shot_aim(a) <= 6442450944);
    lemma_scaled_offset_bound(d, shot_aim(a), 8989366550528, 6442450944);
    assert((8989366550528int * 6442450944int) / s == 13484049825792int) by (nonlinear_arith)
        requires
            s == 4294967296int,
    ;
    // distributions
    lemma_div_whole_bound(
        a.goalkeeper.kicking + a.technical.passing + a.mental.vision + a.mental.composure,
        4 * s,
        4,
    );
    assert((4 * s * s) / (4 * s) == s) by (nonlinear_arith)
        requires
            s == 4294967296int,
    ;
    lemma_div_whole_bound(a.mental.vision + a.mental.decisions, 2 * s, 2);
    let reach = a.goalkeeper.kicking + div_spec(a.mental.vision + a.mental.decisions, from_int_spec(2));
    crate::fixed::lemma_mul_nonneg_bound(reach, from_int_spec(2), 2 * s, 2 * s);
    assert((2 * s * (2 * s)) / s == 4 * s) by (nonlinear_arith)
        requires
            s == 4294967296int,
    ;
    assert(abs_spec(formation_target(1).0) <= 45 * s);
    assert(abs_spec(formation_target(12).0) <= 45 * s);
    assert(abs_spec(formation_target(6).0) <= 45 * s);
    assert(abs_spec(formation_target(17).0) <= 45 * s);
    assert(abs_spec(formation_target(1).1) <= 45 * s);
    assert(abs_spec(formation_target(12).1) <= 45 * s);
    assert(abs_spec(formation_target(6).1) <= 45 * s);
    assert(abs_spec(formation_target(17).1) <= 45 * s);
    let rush = mul_spec(from_int_spec(5), s + agg + sec);
    let sweep_y = gy + mul_spec(d, a.mental.decisions as int);
    let stop_y = gy + mul_spec(d, shot_aim(a));
    assert(abs_spec(sweep_y) <= 17592186044416);
    assert(abs_spec(stop_y) <= 17592186044416);
    assert(0 <= rush <= 15 * s);
    match ns {
        GoalkeeperState::SweeperKeeperRush => {
            assert(intent_target(gk_intent(ns, slot, a, ball)) == Some(
                ((if slot < 11 { gx + rush } else { gx - rush }) as i64, sweep_y as i64),
            ));
        },
        GoalkeeperState::ShotStopping => {
            assert(intent_target(gk_intent(ns, slot, a, ball)) == Some((gx as i64, stop_y as i64)));
        },
        _ => {},
    }
}

/// `b` keeps what no decision changes of `a`: the seed, the end tick, the
/// score, each player's role, and each player's decision count (which
/// never goes down).
pub open spec fn keeps_identity(a: MatchState, b: MatchState) -> bool {
    &&& b.seed == a.seed
    &&& b.match_end_tick == a.match_end_tick
    &&& b.home_score == a.home_score
    &&& b.away_score == a.away_score
    &&& b.players@.len() == a.players@.len()
    &&& forall|k: int|
        0 <= k < a.players@.len() ==> crate::role_states::role_of(#[trigger] b.players@[k].role_state)
            == crate::role_states::role_of(a.players@[k].role_state)
            && b.players@[k].local_decision_counter >= a.players@[k].local_decision_counter
}

/// Keeping the identity is transitive.
pub proof fn lemma_keeps_identity_trans(a: MatchState, b: MatchState, c: MatchState)
    requires
        keeps_identity(a, b),
        keeps_identity(b, c),
    ensures
        keeps_identity(a, c),
{
    assert forall|k: int| 0 <= k < a.players@.len() implies crate::role_states::role_of(
        #[trigger] c.players@[k].role_state,
    ) == crate::role_states::role_of(a.players@[k].role_state)
        && c.players@[k].local_decision_counter >= a.players@[k].local_decision_counter by {
        assert(crate::role_states::role_of(b.players@[k].role_state) == crate::role_states::role_of(
            a.players@[k].role_state,
        ));
    }
}

/// Any intent's effect on the ball keeps the seed, the end tick and the
/// score.
proof fn lemma_ball_effect_keeps_score(s: MatchState, slot: int, i: PlayerIntent, c: IntentContext)
    ensures
        ball_effect(s, slot, i, c).seed == s.seed,
        ball_effect(s, slot, i, c).match_end_tick == s.match_end_tick,
        ball_effect(s, slot, i, c).home_score == s.home_score,
        ball_effect(s, slot, i, c).away_score == s.away_score,
{
}

/// A decision turn keeps the identity of the state (see
/// [`keeps_identity`]).
pub proof fn lemma_turn_keeps_identity(
    before: MatchState,
    after: MatchState,
    lb: SignatureLedger,
    la: SignatureLedger,
    slot: int,
    decides: bool,
    chosen: PlayerIntent,
    c: IntentContext,
    opts: Seq<SignatureOption>,
    pick: Option<usize>,
)
    requires
        0 <= slot < before.players@.len(),
        turn_taken(before, after, lb, la, slot, decides, chosen, c, opts, pick),
    ensures
        keeps_identity(before, after),
{
    if decides && !awaits_pass(before, slot) {
        match preempt(before, slot) {
            Some(i) => {
                lemma_ball_effect_keeps_score(before, slot, i, c);
            },
            None => {
                let d = role_decision(before, slot, chosen);
                lemma_ball_effect_keeps_score(before, slot, flight_checked(before, d.1), c);
                lemma_decision_keeps_role(before, slot, chosen);
            },
        }
    }
}

/// The decision turns along a chain keep the identity of its first state.
pub proof fn lemma_turns_keep_identity(
    trace: Seq<MatchState>,
    ledgers: Seq<SignatureLedger>,
    decides: Seq<bool>,
    chosen: Seq<PlayerIntent>,
    ctxs: Seq<IntentContext>,
    sigs: Seq<Vec<SignatureOption>>,
    picks: Seq<Option<usize>>,
    k: int,
)
    requires
        0 <= k,
        turns_chain(trace, ledgers, decides, chosen, ctxs, sigs, picks, k),
        trace[0].players@.len() == 22,
        k <= 22,
    ensures
        keeps_identity(trace[0], trace[k]),
    decreases k,
{
    if k == 0 {
    } else {
        let t2 = trace.subrange(0, k);
        let l2 = ledgers.subrange(0, k);
        assert forall|j: int| 0 <= j < k - 1 implies turn_taken(
            #[trigger] t2[j],
            t2[j + 1],
            l2[j],
            l2[j + 1],
            j,
            decides[j],
            chosen[j],
            ctxs[j],
            sigs[j]@,
            picks[j],
        ) by {
            assert(turn_taken(trace[j], trace[j + 1], ledgers[j], ledgers[j + 1], j, decides[j], chosen[j], ctxs[j], sigs[j]@, picks[j]));
        }
        lemma_turns_keep_identity(t2, l2, decides, chosen, ctxs, sigs, picks, k - 1);
        assert(turn_taken(trace[k - 1], trace[k], ledgers[k - 1], ledgers[k], k - 1, decides[k - 1], chosen[k - 1], ctxs[k - 1], sigs[k - 1]@, picks[k - 1]));
        lemma_turn_keeps_identity(trace[k - 1], trace[k], ledgers[k - 1], ledgers[k], k - 1, decides[k - 1], chosen[k - 1], ctxs[k - 1], sigs[k - 1]@, picks[k - 1]);
        lemma_keeps_identity_trans(trace[0], trace[k - 1], trace[k]);
    }
}

/// A player's decision keeps its role: the routing only moves between a
/// role's own states, and a goalkeeper stays a goalkeeper.
pub proof fn lemma_decision_keeps_role(s: MatchState, slot: int, chosen: PlayerIntent)
    ensures
        crate::role_states::role_of(role_decision(s, slot, chosen).0) == crate::role_states::role_of(
            s.players@[slot].role_state,
        ),
        crate::role_states::role_of(role_transition(s.players@[slot].role_state, s, slot))
            == crate::role_states::role_of(s.players@[slot].role_state),
{
}

/// `after` is `before` with every player's role state routed around the
/// ball (see [`role_transition`]); nothing else changes.
pub open spec fn roles_routed(before: MatchState, after: MatchState) -> bool {
    &&& after == (MatchState { players: after.players, ..before })
    &&& after.players@.len() == before.players@.len()
    &&& forall|k: int|
        0 <= k < before.players@.len() ==> #[trigger] after.players@[k] == (PlayerState {
            role_state: role_transition(before.players@[k].role_state, before, k),
            ..before.players@[k]
        })
}

/// Route every player's role state around the ball (see [`roles_routed`]).
fn route_roles(state: &mut MatchState)
    requires
        old(state).wf(),
    ensures
        roles_routed(*old(state), *final(state)),
        final(state).wf(),
{
    let mut k: usize = 0;
    while k < 22
        invariant
            0 <= k <= 22,
            old(state).wf(),
            *state == (MatchState { players: state.players, ..*old(state) }),
            state.players@.len() == 22,
            forall|j: int|
                0 <= j < k ==> #[trigger] state.players@[j] == (PlayerState {
                    role_state: role_transition(old(state).players@[j].role_state, *old(state), j),
                    ..old(state).players@[j]
                }),
            forall|j: int| k <= j < 22 ==> #[trigger] state.players@[j] == old(state).players@[j],
        decreases 22 - k,
    {
        let p = state.players[k];
        let r = p.role_state.evaluate_transitions(state, k);
        state.players[k] = PlayerState { role_state: r, ..p };
        k = k + 1;
    }
    proof {
        assert forall|i: int| 0 <= i < 22 implies #[trigger] state.players@[i].slot == i
            && state.players@[i].attributes.wf() by {
            assert(state.players@[i].slot == old(state).players@[i].slot);
        }
    }
}

/// Advance all player decisions by one tick: every firing window no longer
/// open at the current tick is closed and every player's role state is
/// routed around the ball (see [`roles_routed`]); then slots `0..22`, in
/// order, take their decision turns (see [`turn_taken`]): a slot that
/// `decides` this tick opens its turn, and when its role decides, its
/// signature candidates `signatures[slot]` are checked (the weighted draw's
/// pick being `picks[slot]`) and the role's intent, `chosen[slot]` for an
/// outfield role, is applied under `ctxs[slot]`; a slot that does not
/// decide is left alone. Returns the tactic events of all turns, in slot
/// order.
pub fn dispatch_tick(
    state: &mut MatchState,
    ledger: &mut SignatureLedger,
    decides: [bool; 22],
    chosen: [PlayerIntent; 22],
    ctxs: &Vec<IntentContext>,
    signatures: &Vec<Vec<SignatureOption>>,
    picks: [Option<usize>; 22],
) -> (events: Vec<(usize, TacticEvent)>)
    requires
        old(state).wf(),
        old(ledger).wf(),
        turn_bounds(*old(state)),
        0 <= old(state).tick <= 4611686018427387904,
        forall|k: int| 0 <= k < 22 ==> target_bounded(#[trigger] chosen@[k]),
        ctxs@.len() == 22,
        forall|k: int| 0 <= k < 22 ==> context_ok(#[trigger] ctxs@[k]),
        signatures@.len() == 22,
        forall|k: int| 0 <= k < 22 ==> options_ok((#[trigger] signatures@[k])@),
    ensures
        final(state).wf(),
        final(ledger).wf(),
        turn_bounds(*final(state)),
        final(state).tick == old(state).tick,
        final(state).match_end_tick == old(state).match_end_tick,
        events_extended(*old(state), *final(state)),
        exists|trace: Seq<MatchState>, ledgers: Seq<SignatureLedger>|
            {
                &&& turns_chain(trace, ledgers, decides@, chosen@, ctxs@, signatures@, picks@, 22)
                &&& roles_routed(*old(state), trace[0])
                &&& firings_expired(*old(ledger), ledgers[0], old(state).tick as int)
                &&& trace[22] == *final(state)
                &&& ledgers[22] == *final(ledger)
                &&& events@ == tick_events(trace, decides@, chosen@, ctxs@, 22)
            },
{
    expire_firings(ledger, state.tick);
    route_roles(state);
    let mut events: Vec<(usize, TacticEvent)> = Vec::new();
    let ghost mut trace: Seq<MatchState> = seq![*state];
    let ghost mut ledgers: Seq<SignatureLedger> = seq![*ledger];
    proof {
        assert(state.match_events@.subrange(0, state.match_events@.len() as int) =~= state.match_events@);
        assert forall|k: int| 0 <= k < state.players@.len() implies abs_spec(
            #[trigger] state.players@[k].pos_x as int,
        ) <= 4398046511104 && abs_spec(state.players@[k].pos_y as int) <= 4398046511104 by {
            assert(abs_spec(old(state).players@[k].pos_x as int) <= 4398046511104);
        }
        assert forall|k: int| 0 <= k < state.players@.len() implies abs_spec(
            #[trigger] state.players@[k].vel_x as int,
        ) <= 35184372088832 && abs_spec(state.players@[k].vel_y as int) <= 35184372088832 by {
            assert(abs_spec(old(state).players@[k].vel_x as int) <= 35184372088832);
        }
    }
    let mut slot: usize = 0;
    while slot < 22
        invariant
            slot <= 22,
            state.wf(),
            ledger.wf(),
            turn_bounds(*state),
            0 <= state.tick <= 4611686018427387904,
            forall|k: int| 0 <= k < 22 ==> target_bounded(#[trigger] chosen@[k]),
            ctxs@.len() == 22,
            forall|k: int| 0 <= k < 22 ==> context_ok(#[trigger] ctxs@[k]),
            signatures@.len() == 22,
            forall|k: int| 0 <= k < 22 ==> options_ok((#[trigger] signatures@[k])@),
            turns_chain(trace, ledgers, decides@, chosen@, ctxs@, signatures@, picks@, slot as int),
            roles_routed(*old(state), trace[0]),
            firings_expired(*old(ledger), ledgers[0], old(state).tick as int),
            trace[slot as int] == *state,
            ledgers[slot as int] == *ledger,
            events@ == tick_events(trace, decides@, chosen@, ctxs@, slot as int),
            state.tick == old(state).tick,
            state.match_end_tick == old(state).match_end_tick,
            events_extended(*old(state), *state),
        decreases 22 - slot,
    {
        let ghost mid = *state;
        let turn = take_turn(
            state,
            ledger,
            slot,
            decides[slot],
            chosen[slot],
            &ctxs[slot],
            &signatures[slot],
            picks[slot],
        );
        proof {
            lemma_events_extended_trans(*old(state), mid, *state);
        }
        let mut turn_events_vec = turn;
        events.append(&mut turn_events_vec);
        proof {
            lemma_extend_turns(
                trace,
                ledgers,
                *state,
                *ledger,
                decides@,
                chosen@,
                ctxs@,
                signatures@,
                picks@,
                slot as int,
            );
            trace = trace.push(*state);
            ledgers = ledgers.push(*ledger);
        }
        slot = slot + 1;
    }
    events
}

/// Appending the state and ledger after slot `k`'s turn extends the chain
/// of turns, and the tick's events by that turn's events.
proof fn lemma_extend_turns(
    trace: Seq<MatchState>,
    ledgers: Seq<SignatureLedger>,
    next: MatchState,
    next_ledger: SignatureLedger,
    decides: Seq<bool>,
    chosen: Seq<PlayerIntent>,
    ctxs: Seq<IntentContext>,
    sigs: Seq<Vec<SignatureOption>>,
    picks: Seq<Option<usize>>,
    k: int,
)
    requires
        0 <= k,
        turns_chain(trace, ledgers, decides, chosen, ctxs, sigs, picks, k),
        turn_taken(trace[k], next, ledgers[k], next_ledger, k, decides[k], chosen[k], ctxs[k], sigs[k]@, picks[k]),
    ensures
        turns_chain(trace.push(next), ledgers.push(next_ledger), decides, chosen, ctxs, sigs, picks, k + 1),
        tick_events(trace.push(next), decides, chosen, ctxs, k + 1) == tick_events(
            trace,
            decides,
            chosen,
            ctxs,
            k,
        ) + turn_events(trace[k], k, decides[k], chosen[k], ctxs[k]),
        trace.push(next)[0] == trace[0],
        trace.push(next)[k + 1] == next,
        ledgers.push(next_ledger)[0] == ledgers[0],
        ledgers.push(next_ledger)[k + 1] == next_ledger,
{
    let t = trace.push(next);
    let l = ledgers.push(next_ledger);
    assert forall|j: int| 0 <= j < k + 1 implies turn_taken(
        #[trigger] t[j],
        t[j + 1],
        l[j],
        l[j + 1],
        j,
        decides[j],
        chosen[j],
        ctxs[j],
        sigs[j]@,
        picks[j],
    ) by {
        if j < k {
            assert(t[j] == trace[j]);
            assert(t[j + 1] == trace[j + 1]);
            assert(l[j] == ledgers[j]);
            assert(l[j + 1] == ledgers[j + 1]);
        }
    }
    lemma_tick_events_prefix(trace, t, decides, chosen, ctxs, k);
}

/// The events of the first `k` turns depend only on the first `k` states.
proof fn lemma_tick_events_prefix(
    a: Seq<MatchState>,
    b: Seq<MatchState>,
    decides: Seq<bool>,
    chosen: Seq<PlayerIntent>,
    ctxs: Seq<IntentContext>,
    k: int,
)
    requires
        0 <= k,
        k <= a.len(),
        k <= b.len(),
        forall|j: int| 0 <= j < k ==> a[j] == b[j],
    ensures
        tick_events(a, decides, chosen, ctxs, k) == tick_events(b, decides, chosen, ctxs, k),
    decreases k,
{
    if k > 0 {
        lemma_tick_events_prefix(a, b, decides, chosen, ctxs, k - 1);
    }
}

} // verus!
