//! Player-separation pass: after positions are integrated, every pair of
//! players closer than the physical minimum of 0.4 m is pushed apart, each
//! player of the pair by half the overlap along the line between them.
//!
//! Pairs are visited once each, in ascending `(i, j)` order with `i < j`;
//! a single sweep, no convergence loop. Velocities are never touched.

use vstd::prelude::*;

use crate::fixed::{
    abs_spec, dist_sq, dist_sq_spec, div_spec, div_trunc_spec, from_int, from_int_spec,
    lemma_direction_bound, lemma_root_bounds_offset, lemma_scaled_direction_bound,
    lemma_square_bound, mul_spec, q_div, q_div_trunc, q_mul, q_sqrt, scale, sqrt_spec,
};
use crate::match_state::MatchState;
use crate::player::{PlayerState, coordinates_within};

verus! {

/// Minimum centre-to-centre distance between two players: 0.4 m.
pub const MIN_PLAYER_DISTANCE: i64 = 1717986918;

/// `MIN_PLAYER_DISTANCE²`: 0.16 m².
pub const MIN_PLAYER_DISTANCE_SQ: i64 = 687194767;

/// Half-separation applied to two players on exactly the same spot:
/// 0.2 m each way, so the pair ends exactly `MIN_PLAYER_DISTANCE` apart.
pub const EPSILON_SEPARATION: i64 = 858993459;

/// Largest coordinate magnitude the pass accepts: 2048 m, far beyond any
/// pitch, so that no intermediate quantity can overflow.
pub const SEPARATION_POSITION_LIMIT: i64 = 8796093022208;

/// Upper bound on how far one pair correction moves a coordinate: 0.5 m.
pub open spec fn step_bound() -> int {
    2147483648
}

/// The correction `(cx, cy)` for a pair whose second player is offset by
/// `(dx, dy)` from the first: the second player moves by `(cx, cy)` and the
/// first by `(−cx, −cy)`.
///
/// - At least `MIN_PLAYER_DISTANCE` apart (squared distance at least
///   `MIN_PLAYER_DISTANCE_SQ`): no correction.
/// - On the same spot (squared distance zero): `EPSILON_SEPARATION` along +x.
/// - Otherwise: half the overlap `(MIN_PLAYER_DISTANCE − dist) / 2` along the
///   unit direction `(dx, dy) / dist`, with `dist` the fixed-point square
///   root of the squared distance.
pub open spec fn pair_correction(dx: int, dy: int) -> (int, int) {
    let ds = mul_spec(dx, dx) + mul_spec(dy, dy);
    if ds >= MIN_PLAYER_DISTANCE_SQ {
        (0, 0)
    } else if ds == 0 {
        (EPSILON_SEPARATION as int, 0)
    } else {
        let dist = sqrt_spec(ds);
        let half = div_spec(MIN_PLAYER_DISTANCE - dist, from_int_spec(2));
        (
            mul_spec(div_trunc_spec(dx, dist), half),
            mul_spec(div_trunc_spec(dy, dist), half),
        )
    }
}

/// `p` moved to `(x, y)`; everything else about it is kept.
pub open spec fn moved(p: PlayerState, x: int, y: int) -> PlayerState {
    PlayerState { pos_x: x as i64, pos_y: y as i64, ..p }
}

/// The players after resolving the pair `(i, j)`.
pub open spec fn resolve_pair_spec(ps: Seq<PlayerState>, i: int, j: int) -> Seq<PlayerState> {
    let c = pair_correction(ps[j].pos_x - ps[i].pos_x, ps[j].pos_y - ps[i].pos_y);
    ps.update(i, moved(ps[i], ps[i].pos_x - c.0, ps[i].pos_y - c.1)).update(
        j,
        moved(ps[j], ps[j].pos_x + c.0, ps[j].pos_y + c.1),
    )
}

/// The players after resolving, in ascending order, every pair from `(i, j)`
/// onwards: the rest of row `i` (pairs `(i, j)`, `(i, j + 1)`, …), then each
/// later row `i'` from `(i', i' + 1)`.
pub open spec fn sweep(ps: Seq<PlayerState>, i: int, j: int) -> Seq<PlayerState>
    decreases ps.len() - i, ps.len() - j,
{
    if i < 0 || i >= ps.len() {
        ps
    } else if j < 0 || j >= ps.len() {
        sweep(ps, i + 1, i + 2)
    } else {
        proof {
            assert(resolve_pair_spec(ps, i, j).len() == ps.len());
        }
        sweep(resolve_pair_spec(ps, i, j), i, j + 1)
    }
}

/// Sum over the players of the x coordinate (`x_axis`) or the y coordinate.
pub open spec fn position_sum(ps: Seq<PlayerState>, x_axis: bool) -> int
    decreases ps.len(),
{
    if ps.len() == 0 {
        0
    } else {
        position_sum(ps.drop_last(), x_axis) + if x_axis {
            ps.last().pos_x as int
        } else {
            ps.last().pos_y as int
        }
    }
}

/// Every pair of players is at least `MIN_PLAYER_DISTANCE` apart (by
/// squared distance).
pub open spec fn separated(ps: Seq<PlayerState>) -> bool {
    forall|i: int, j: int|
        0 <= i < j < ps.len() ==> dist_sq_spec(
            #[trigger] ps[j].pos_x as int,
            ps[j].pos_y as int,
            #[trigger] ps[i].pos_x as int,
            ps[i].pos_y as int,
        ) >= MIN_PLAYER_DISTANCE_SQ
}

/// Replacing one player changes a coordinate sum by the difference of that
/// coordinate.
proof fn lemma_position_sum_update(ps: Seq<PlayerState>, k: int, p: PlayerState, x_axis: bool)
    requires
        0 <= k < ps.len(),
    ensures
        position_sum(ps.update(k, p), x_axis) == position_sum(ps, x_axis) - (if x_axis {
            ps[k].pos_x as int
        } else {
            ps[k].pos_y as int
        }) + (if x_axis {
            p.pos_x as int
        } else {
            p.pos_y as int
        }),
    decreases ps.len(),
{
    let u = ps.update(k, p);
    if k == ps.len() - 1 {
        assert(u.drop_last() =~= ps.drop_last());
    } else {
        assert(u.drop_last() =~= ps.drop_last().update(k, p));
        lemma_position_sum_update(ps.drop_last(), k, p, x_axis);
    }
}

/// In the overlapping, non-degenerate case the fixed-point distance lies
/// between `2^16` and `MIN_PLAYER_DISTANCE − 1`, and each offset component is
/// at most twice the distance.
proof fn lemma_overlap_geometry(dx: int, dy: int)
    requires
        abs_spec(dx) <= 35184372088832,
        abs_spec(dy) <= 35184372088832,
        1 <= mul_spec(dx, dx) + mul_spec(dy, dy) < MIN_PLAYER_DISTANCE_SQ,
    ensures
        65536 <= sqrt_spec(mul_spec(dx, dx) + mul_spec(dy, dy)) < MIN_PLAYER_DISTANCE,
        abs_spec(dx) <= 2 * sqrt_spec(mul_spec(dx, dx) + mul_spec(dy, dy)),
        abs_spec(dy) <= 2 * sqrt_spec(mul_spec(dx, dx) + mul_spec(dy, dy)),
{
    lemma_root_bounds_offset(dx, dy);
    let ds = mul_spec(dx, dx) + mul_spec(dy, dy);
    let x = ds * scale();
    let d = sqrt_spec(ds);
    // d < MIN, since d² ≤ x < MIN².
    assert(d < MIN_PLAYER_DISTANCE) by (nonlinear_arith)
        requires
            d * d <= x,
            x <= (687194767 - 1) * 4294967296,
            0 <= d,
    ;
}

/// A pair correction moves each coordinate by at most [`step_bound`].
proof fn lemma_pair_correction_bound(dx: int, dy: int)
    requires
        abs_spec(dx) <= 35184372088832,
        abs_spec(dy) <= 35184372088832,
    ensures
        abs_spec(pair_correction(dx, dy).0) <= step_bound(),
        abs_spec(pair_correction(dx, dy).1) <= step_bound(),
{
    lemma_square_bound(dx);
    lemma_square_bound(dy);
    let ds = mul_spec(dx, dx) + mul_spec(dy, dy);
    if ds < MIN_PLAYER_DISTANCE_SQ && ds != 0 {
        lemma_overlap_geometry(dx, dy);
        let dist = sqrt_spec(ds);
        let half = div_spec(MIN_PLAYER_DISTANCE - dist, from_int_spec(2));
        crate::fixed::lemma_div_by_int(MIN_PLAYER_DISTANCE - dist, 2);
        lemma_direction_bound(dx, dist);
        lemma_direction_bound(dy, dist);
        lemma_scaled_direction_bound(div_trunc_spec(dx, dist), half);
        lemma_scaled_direction_bound(div_trunc_spec(dy, dist), half);
    }
}

/// Resolve the pair `(i, j)` in place (see [`pair_correction`]).
fn resolve_pair(players: &mut Vec<PlayerState>, i: usize, j: usize)
    requires
        i < j < old(players)@.len(),
        abs_spec(old(players)@[i as int].pos_x as int) <= 17592186044416,
        abs_spec(old(players)@[i as int].pos_y as int) <= 17592186044416,
        abs_spec(old(players)@[j as int].pos_x as int) <= 17592186044416,
        abs_spec(old(players)@[j as int].pos_y as int) <= 17592186044416,
    ensures
        final(players)@ == resolve_pair_spec(old(players)@, i as int, j as int),
{
    let pi = players[i];
    let pj = players[j];
    let dx: i64 = pj.pos_x - pi.pos_x;
    let dy: i64 = pj.pos_y - pi.pos_y;
    proof {
        lemma_square_bound(dx as int);
        lemma_square_bound(dy as int);
        lemma_pair_correction_bound(dx as int, dy as int);
    }
    let ds: i64 = dist_sq(pj.pos_x, pj.pos_y, pi.pos_x, pi.pos_y);
    let (cx, cy): (i64, i64) = if ds >= MIN_PLAYER_DISTANCE_SQ {
        (0, 0)
    } else if ds == 0 {
        (EPSILON_SEPARATION, 0)
    } else {
        proof {
            lemma_overlap_geometry(dx as int, dy as int);
        }
        let dist: i64 = q_sqrt(ds);
        proof {
            crate::fixed::lemma_div_by_int(MIN_PLAYER_DISTANCE - dist, 2);
            lemma_direction_bound(dx as int, dist as int);
            lemma_direction_bound(dy as int, dist as int);
        }
        let half: i64 = q_div(MIN_PLAYER_DISTANCE - dist, from_int(2));
        let dir_x: i64 = q_div_trunc(dx, dist);
        let dir_y: i64 = q_div_trunc(dy, dist);
        proof {
            lemma_scaled_direction_bound(dir_x as int, half as int);
            lemma_scaled_direction_bound(dir_y as int, half as int);
        }
        (q_mul(dir_x, half), q_mul(dir_y, half))
    };
    assert(cx == pair_correction(dx as int, dy as int).0);
    assert(cy == pair_correction(dx as int, dy as int).1);
    let new_i = PlayerState { pos_x: pi.pos_x - cx, pos_y: pi.pos_y - cy, ..pi };
    let new_j = PlayerState { pos_x: pj.pos_x + cx, pos_y: pj.pos_y + cy, ..pj };
    players[i] = new_i;
    players[j] = new_j;
}

/// Push apart every pair of players closer than `MIN_PLAYER_DISTANCE`,
/// visiting pairs `(i, j)`, `i < j`, in ascending order, each once.
///
/// Only player positions change: velocities and every other part of the
/// state are kept, and since each pair is pushed symmetrically, the sum of
/// the players' x coordinates and that of their y coordinates are kept too.
pub fn apply_player_separation(state: &mut MatchState)
    requires
        old(state).wf(),
        coordinates_within(old(state).players@, SEPARATION_POSITION_LIMIT as int),
    ensures
        final(state).players@ == sweep(old(state).players@, 0, 1),
        *final(state) == (MatchState { players: final(state).players, ..*old(state) }),
        final(state).wf(),
        forall|k: int|
            0 <= k < 22 ==> #[trigger] final(state).players@[k] == (PlayerState {
                pos_x: final(state).players@[k].pos_x,
                pos_y: final(state).players@[k].pos_y,
                ..old(state).players@[k]
            }),
        position_sum(final(state).players@, true) == position_sum(old(state).players@, true),
        position_sum(final(state).players@, false) == position_sum(old(state).players@, false),
{
    let ghost orig = *state;
    let n: usize = state.players.len();
    let mut i: usize = 0;
    let ghost mut done: int = 0;
    while i < n
        invariant
            n == 22,
            i <= n,
            state.players@.len() == 22,
            *state == (MatchState { players: state.players, ..orig }),
            sweep(state.players@, i as int, i as int + 1) == sweep(orig.players@, 0, 1),
            0 <= done <= i * 22,
            coordinates_within(state.players@, SEPARATION_POSITION_LIMIT + done * step_bound()),
            forall|k: int|
                0 <= k < 22 ==> #[trigger] state.players@[k] == (PlayerState {
                    pos_x: state.players@[k].pos_x,
                    pos_y: state.players@[k].pos_y,
                    ..orig.players@[k]
                }),
            position_sum(state.players@, true) == position_sum(orig.players@, true),
            position_sum(state.players@, false) == position_sum(orig.players@, false),
        decreases n - i,
    {
        let mut j: usize = i + 1;
        while j < n
            invariant
                n == 22,
                i < n,
                i + 1 <= j <= n,
                state.players@.len() == 22,
                *state == (MatchState { players: state.players, ..orig }),
                sweep(state.players@, i as int, j as int) == sweep(orig.players@, 0, 1),
                0 <= done <= i * 22 + j,
                coordinates_within(state.players@, SEPARATION_POSITION_LIMIT + done * step_bound()),
                forall|k: int|
                    0 <= k < 22 ==> #[trigger] state.players@[k] == (PlayerState {
                        pos_x: state.players@[k].pos_x,
                        pos_y: state.players@[k].pos_y,
                        ..orig.players@[k]
                    }),
                position_sum(state.players@, true) == position_sum(orig.players@, true),
                position_sum(state.players@, false) == position_sum(orig.players@, false),
            decreases n - j,
        {
            let ghost before = state.players@;
            proof {
                assert(done * step_bound() <= 506 * step_bound()) by (nonlinear_arith)
                    requires
                        done <= 506,
                        step_bound() > 0,
                ;
                let pi = before[i as int];
                let pj = before[j as int];
                assert(abs_spec(pi.pos_x as int) <= SEPARATION_POSITION_LIMIT + done * step_bound());
                assert(abs_spec(pj.pos_x as int) <= SEPARATION_POSITION_LIMIT + done * step_bound());
                lemma_pair_correction_bound(
                    pj.pos_x - pi.pos_x,
                    pj.pos_y - pi.pos_y,
                );
            }
            resolve_pair(&mut state.players, i, j);
            proof {
                let c = pair_correction(
                    before[j as int].pos_x - before[i as int].pos_x,
                    before[j as int].pos_y - before[i as int].pos_y,
                );
                let mid = before.update(
                    i as int,
                    moved(
                        before[i as int],
                        before[i as int].pos_x - c.0,
                        before[i as int].pos_y - c.1,
                    ),
                );
                lemma_position_sum_update(before, i as int, mid[i as int], true);
                lemma_position_sum_update(before, i as int, mid[i as int], false);
                lemma_position_sum_update(mid, j as int, state.players@[j as int], true);
                lemma_position_sum_update(mid, j as int, state.players@[j as int], false);
                assert forall|k: int| 0 <= k < state.players@.len() implies abs_spec(
                    #[trigger] state.players@[k].pos_x as int,
                ) <= SEPARATION_POSITION_LIMIT + (done + 1) * step_bound() && abs_spec(
                    state.players@[k].pos_y as int,
                ) <= SEPARATION_POSITION_LIMIT + (done + 1) * step_bound() by {
                    assert(abs_spec(before[k].pos_x as int) <= SEPARATION_POSITION_LIMIT + done
                        * step_bound());
                    assert(abs_spec(before[k].pos_y as int) <= SEPARATION_POSITION_LIMIT + done
                        * step_bound());
                }
                done = done + 1;
            }
            j = j + 1;
        }
        i = i + 1;
    }
}

/// On players that are already pairwise at least `MIN_PLAYER_DISTANCE`
/// apart, the separation sweep changes nothing.
pub proof fn lemma_separated_players_unchanged(ps: Seq<PlayerState>)
    requires
        separated(ps),
    ensures
        sweep(ps, 0, 1) == ps,
{
    lemma_separated_sweep(ps, 0, 1);
}

proof fn lemma_separated_sweep(ps: Seq<PlayerState>, i: int, j: int)
    requires
        separated(ps),
        0 <= i,
        i < j,
    ensures
        sweep(ps, i, j) == ps,
    decreases ps.len() - i, ps.len() - j,
{
    if i >= ps.len() {
    } else if j >= ps.len() {
        lemma_separated_sweep(ps, i + 1, i + 2);
    } else {
        let pi = ps[i];
        let pj = ps[j];
        assert(dist_sq_spec(pj.pos_x as int, pj.pos_y as int, pi.pos_x as int, pi.pos_y as int)
            >= MIN_PLAYER_DISTANCE_SQ);
        assert(moved(pi, pi.pos_x - 0, pi.pos_y - 0) == pi);
        assert(moved(pj, pj.pos_x + 0, pj.pos_y + 0) == pj);
        assert(resolve_pair_spec(ps, i, j) =~= ps);
        lemma_separated_sweep(ps, i, j + 1);
    }
}

} // verus!
