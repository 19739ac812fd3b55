//! Dispossession: defenders near the ball carrier try to win the ball, one
//! seeded roll each, in slot order; the first success takes possession.

use vstd::prelude::*;

use crate::ball::BallState;
use crate::fixed::{ONE, dist_sq, dist_sq_fits, dist_sq_spec, div_spec, mul_spec, q_div, q_mul, scale};
use crate::match_state::{MatchState, PLAYERS_PER_TEAM, TOTAL_PLAYERS};
use crate::pass_completion::{
    chacha8_first_draw, chacha8_first_u64, completes_with_draw, draw_completes,
    lemma_weighted3_unit, weighted3, weighted3_exec,
};

verus! {

/// A defender must be within 2 m of the carrier: (2 m)² = 4 m².
pub const TACKLE_RADIUS_SQ: i64 = 17179869184;

/// Base tackle probability: ≈ 0.35.
pub const TACKLE_BASE_PROB: i64 = 1503238553;

/// Ticks a defender waits after a failed tackle: 18 (0.3 s).
pub const TACKLE_COOLDOWN_TICKS: i64 = 18;

/// Weight of the first term of each quality composite: 0.50.
pub const W_TACKLE_PRIMARY: i64 = 2147483648;

/// Weight of the second term of each quality composite: ≈ 0.30.
pub const W_TACKLE_SECONDARY: i64 = 1288490188;

/// Weight of the third term of each quality composite: ≈ 0.20.
pub const W_TACKLE_TERTIARY: i64 = 858993459;

/// Floor added to the quality sum so the division never divides by 0:
/// 2⁻⁶ ≈ 0.0156.
pub const TACKLE_EPSILON: i64 = 67108864;

/// A player's tackle-contest skills after the response curves: the
/// defending side (tackling, aggression, positioning) and the carrying side
/// (dribbling, balance, composure), each in `[0, 1]`.
#[derive(Debug, Clone, Copy, PartialEq, Eq, Structural)]
pub struct CurvedTackleSkills {
    pub tackling: i64,
    pub aggression: i64,
    pub positioning: i64,
    pub dribbling: i64,
    pub balance: i64,
    pub composure: i64,
}

/// Every curved skill lies in `[0, 1]`.
pub open spec fn tackle_skills_in_unit(c: CurvedTackleSkills) -> bool {
    &&& 0 <= c.tackling <= ONE
    &&& 0 <= c.aggression <= ONE
    &&& 0 <= c.positioning <= ONE
    &&& 0 <= c.dribbling <= ONE
    &&& 0 <= c.balance <= ONE
    &&& 0 <= c.composure <= ONE
}

/// `x` capped at 1.
pub open spec fn cap_one(x: int) -> int {
    if x > ONE {
        ONE as int
    } else {
        x
    }
}

/// Defender quality: `tackling × 0.5 + aggression × 0.3 + positioning × 0.2`,
/// capped at 1.
pub open spec fn defender_quality(c: CurvedTackleSkills) -> int {
    cap_one(
        weighted3(
            (
                (c.tackling as int, W_TACKLE_PRIMARY as int),
                (c.aggression as int, W_TACKLE_SECONDARY as int),
                (c.positioning as int, W_TACKLE_TERTIARY as int),
            ),
        ),
    )
}

/// Carrier quality: `dribbling × 0.5 + balance × 0.3 + composure × 0.2`,
/// capped at 1.
pub open spec fn carrier_quality(c: CurvedTackleSkills) -> int {
    cap_one(
        weighted3(
            (
                (c.dribbling as int, W_TACKLE_PRIMARY as int),
                (c.balance as int, W_TACKLE_SECONDARY as int),
                (c.composure as int, W_TACKLE_TERTIARY as int),
            ),
        ),
    )
}

/// Tackle probability `BASE × dq / (dq + cq + ε)`, capped at 1.
pub open spec fn tackle_probability(dq: int, cq: int) -> int {
    cap_one(div_spec(mul_spec(TACKLE_BASE_PROB as int, dq), dq + cq + TACKLE_EPSILON))
}

/// With both qualities in `[0, 1]` the probability lies in `[0, 1]`, and
/// its uncapped value fits in an `i64`.
proof fn lemma_tackle_probability_bounds(dq: int, cq: int)
    requires
        0 <= dq <= ONE,
        0 <= cq <= ONE,
    ensures
        0 <= mul_spec(TACKLE_BASE_PROB as int, dq) <= TACKLE_BASE_PROB,
        0 <= div_spec(mul_spec(TACKLE_BASE_PROB as int, dq), dq + cq + TACKLE_EPSILON)
            <= TACKLE_BASE_PROB * 64,
        0 <= tackle_probability(dq, cq) <= ONE,
{
    crate::fixed::lemma_mul_nonneg_bound(TACKLE_BASE_PROB as int, dq, TACKLE_BASE_PROB as int, ONE as int);
    let a = mul_spec(TACKLE_BASE_PROB as int, dq);
    let b = dq + cq + TACKLE_EPSILON;
    assert(0 <= a * scale() <= TACKLE_BASE_PROB * scale()) by (nonlinear_arith)
        requires
            0 <= a <= TACKLE_BASE_PROB,
    ;
    vstd::arithmetic::div_mod::lemma_div_is_ordered_by_denominator(a * scale(), TACKLE_EPSILON as int, b);
    vstd::arithmetic::div_mod::lemma_div_is_ordered(a * scale(), TACKLE_BASE_PROB * scale(), TACKLE_EPSILON as int);
    vstd::arithmetic::div_mod::lemma_div_pos_is_pos(a * scale(), b);
}

/// Quality composite of three curved skills in `[0, 1]`, capped at 1.
fn capped_quality(a: i64, b: i64, c: i64) -> (q: i64)
    requires
        0 <= a <= ONE,
        0 <= b <= ONE,
        0 <= c <= ONE,
    ensures
        q == cap_one(
            weighted3(
                (
                    (a as int, W_TACKLE_PRIMARY as int),
                    (b as int, W_TACKLE_SECONDARY as int),
                    (c as int, W_TACKLE_TERTIARY as int),
                ),
            ),
        ),
        0 <= q <= ONE,
{
    proof {
        lemma_weighted3_unit(
            (
                (a as int, W_TACKLE_PRIMARY as int),
                (b as int, W_TACKLE_SECONDARY as int),
                (c as int, W_TACKLE_TERTIARY as int),
            ),
        );
    }
    let q = weighted3_exec(a, W_TACKLE_PRIMARY, b, W_TACKLE_SECONDARY, c, W_TACKLE_TERTIARY);
    if q > ONE {
        ONE
    } else {
        q
    }
}

/// Probability that a defender of quality `dq` wins the ball from a
/// carrier of quality `cq` (both in `[0, 1]`); the result lies in `[0, 1]`.
pub fn compute_tackle_probability(dq: i64, cq: i64) -> (p: i64)
    requires
        0 <= dq <= ONE,
        0 <= cq <= ONE,
    ensures
        p == tackle_probability(dq as int, cq as int),
        0 <= p <= ONE,
{
    proof {
        lemma_tackle_probability_bounds(dq as int, cq as int);
    }
    let num = q_mul(TACKLE_BASE_PROB, dq);
    let sum = dq + cq + TACKLE_EPSILON;
    let p = q_div(num, sum);
    if p > ONE {
        ONE
    } else {
        p
    }
}

/// Defender `i` may try to tackle the carrier in slot `carrier`: an
/// outfield player of the other team, off cooldown, within 2 m.
pub open spec fn may_tackle(s: MatchState, carrier: int, i: int) -> bool {
    &&& i != carrier
    &&& (i < 11) != (carrier < 11)
    &&& i % 11 != 0
    &&& !(s.tackle_cooldown_until@[i] > s.tick)
    &&& dist_sq_spec(
        s.players@[i].pos_x as int,
        s.players@[i].pos_y as int,
        s.players@[carrier].pos_x as int,
        s.players@[carrier].pos_y as int,
    ) <= TACKLE_RADIUS_SQ
}

/// Defender `i`'s roll wins the ball.
pub open spec fn tackle_roll_wins(
    s: MatchState,
    carrier: int,
    i: int,
    skills: Seq<CurvedTackleSkills>,
    seeds: Seq<u64>,
) -> bool {
    draw_completes(
        chacha8_first_u64(seeds[i]),
        tackle_probability(defender_quality(skills[i]), carrier_quality(skills[carrier])),
    )
}

/// The first defender from slot `i` on who may tackle and wins the roll.
pub open spec fn first_tackle_winner(
    s: MatchState,
    carrier: int,
    skills: Seq<CurvedTackleSkills>,
    seeds: Seq<u64>,
    i: int,
) -> Option<int>
    decreases 22 - i,
{
    if i >= 22 {
        None
    } else if may_tackle(s, carrier, i) && tackle_roll_wins(s, carrier, i, skills, seeds) {
        Some(i)
    } else {
        first_tackle_winner(s, carrier, skills, seeds, i + 1)
    }
}

/// Defender `j` tried and failed before any success: its cooldown starts.
pub open spec fn tackle_failed(
    s: MatchState,
    carrier: int,
    skills: Seq<CurvedTackleSkills>,
    seeds: Seq<u64>,
    j: int,
) -> bool {
    &&& may_tackle(s, carrier, j)
    &&& !tackle_roll_wins(s, carrier, j, skills, seeds)
    &&& (first_tackle_winner(s, carrier, skills, seeds, 0) matches Some(w) ==> j < w)
}

/// The winner found from slot `i` on is a slot from `i` to 21.
pub proof fn lemma_first_tackle_winner_in_range(
    s: MatchState,
    carrier: int,
    skills: Seq<CurvedTackleSkills>,
    seeds: Seq<u64>,
    i: int,
)
    ensures
        first_tackle_winner(s, carrier, skills, seeds, i) matches Some(k) ==> i <= k < 22,
    decreases 22 - i,
{
    if i < 22 {
        lemma_first_tackle_winner_in_range(s, carrier, skills, seeds, i + 1);
    }
}

/// The inputs of the tackle rolls are well formed: curved skills and roll
/// seeds for every slot, skills in `[0, 1]`, distances to the carrier and
/// cooldown ends computable without overflow.
pub open spec fn tackle_inputs_ok(s: MatchState, skills: Seq<CurvedTackleSkills>, seeds: Seq<u64>) -> bool {
    &&& skills.len() == 22
    &&& seeds.len() == 22
    &&& forall|k: int| 0 <= k < 22 ==> tackle_skills_in_unit(#[trigger] skills[k])
    &&& s.tick + TACKLE_COOLDOWN_TICKS <= i64::MAX
    &&& s.possession matches Some(c) ==> forall|k: int|
        0 <= k < 22 ==> dist_sq_fits(
            #[trigger] s.players@[k].pos_x as int,
            s.players@[k].pos_y as int,
            s.players@[c as int].pos_x as int,
            s.players@[c as int].pos_y as int,
        )
}

/// Resolve the tackle attempts on the ball carrier this tick. Defenders of
/// the other team (goalkeepers excluded) who are off cooldown and within
/// 2 m of the carrier roll in slot order, each with the draw of the
/// generator seeded by `seeds[slot]`, against `BASE × dq / (dq + cq + ε)`.
/// The first success takes possession, touches the ball last and has it
/// at their feet, at rest; every attempt before it that failed puts that
/// defender on an 18-tick cooldown. With no carrier nothing changes.
pub fn resolve_tackles(
    state: MatchState,
    skills: &Vec<CurvedTackleSkills>,
    seeds: &Vec<u64>,
) -> (r: MatchState)
    requires
        state.wf(),
        tackle_inputs_ok(state, skills@, seeds@),
    ensures
        r.wf(),
        state.possession is None ==> r == state,
        state.possession matches Some(c) ==> {
            let w = first_tackle_winner(state, c as int, skills@, seeds@, 0);
            &&& forall|j: int|
                0 <= j < 22 ==> #[trigger] r.tackle_cooldown_until@[j] == if tackle_failed(
                    state,
                    c as int,
                    skills@,
                    seeds@,
                    j,
                ) {
                    state.tick + TACKLE_COOLDOWN_TICKS
                } else {
                    state.tackle_cooldown_until@[j] as int
                }
            &&& match w {
                Some(k) => r == (MatchState {
                    possession: Some(k as u8),
                    last_touched_by: Some(k as u8),
                    ball: BallState {
                        pos_x: state.players@[k].pos_x,
                        pos_y: state.players@[k].pos_y,
                        vel_x: 0,
                        vel_y: 0,
                        vel_z: 0,
                        ..state.ball
                    },
                    tackle_cooldown_until: r.tackle_cooldown_until,
                    ..state
                }),
                None => r == (MatchState { tackle_cooldown_until: r.tackle_cooldown_until, ..state }),
            }
        },
{
    let carrier_slot = match state.possession {
        Some(s) => s,
        None => return state,
    };
    let ghost s0 = state;
    let mut state = state;
    let carrier_idx = carrier_slot as usize;
    let carrier_is_home = carrier_idx < PLAYERS_PER_TEAM;
    let carrier_x = state.players[carrier_idx].pos_x;
    let carrier_y = state.players[carrier_idx].pos_y;
    let ca = skills[carrier_idx];
    assert(tackle_skills_in_unit(skills@[carrier_idx as int]));
    let cq = capped_quality(ca.dribbling, ca.balance, ca.composure);
    let mut winner: Option<usize> = None;
    let mut def_idx: usize = 0;
    while def_idx < TOTAL_PLAYERS && winner.is_none()
        invariant
            s0.wf(),
            tackle_inputs_ok(s0, skills@, seeds@),
            s0.possession == Some(carrier_slot),
            carrier_idx == carrier_slot as usize,
            carrier_idx < 22,
            carrier_is_home == (carrier_idx < 11),
            carrier_x == s0.players@[carrier_idx as int].pos_x,
            carrier_y == s0.players@[carrier_idx as int].pos_y,
            cq == carrier_quality(skills@[carrier_idx as int]),
            def_idx <= 22,
            state.wf(),
            winner is None ==> first_tackle_winner(s0, carrier_idx as int, skills@, seeds@, 0)
                == first_tackle_winner(s0, carrier_idx as int, skills@, seeds@, def_idx as int),
            winner is None ==> state == (MatchState {
                tackle_cooldown_until: state.tackle_cooldown_until,
                ..s0
            }),
            winner matches Some(k) ==> {
                &&& first_tackle_winner(s0, carrier_idx as int, skills@, seeds@, 0) == Some(k as int)
                &&& def_idx == k + 1
                &&& state == (MatchState {
                    possession: Some(k as u8),
                    last_touched_by: Some(k as u8),
                    ball: BallState {
                        pos_x: s0.players@[k as int].pos_x,
                        pos_y: s0.players@[k as int].pos_y,
                        vel_x: 0,
                        vel_y: 0,
                        vel_z: 0,
                        ..s0.ball
                    },
                    tackle_cooldown_until: state.tackle_cooldown_until,
                    ..s0
                })
            },
            forall|j: int|
                0 <= j < 22 ==> #[trigger] state.tackle_cooldown_until@[j] == if j < def_idx
                    && may_tackle(s0, carrier_idx as int, j) && !tackle_roll_wins(
                    s0,
                    carrier_idx as int,
                    j,
                    skills@,
                    seeds@,
                ) {
                    s0.tick + TACKLE_COOLDOWN_TICKS
                } else {
                    s0.tackle_cooldown_until@[j] as int
                },
        decreases 22 - def_idx,
    {
        let def_is_home = def_idx < PLAYERS_PER_TEAM;
        let skip = def_idx == carrier_idx || def_is_home == carrier_is_home || def_idx
            % PLAYERS_PER_TEAM == 0 || state.tackle_cooldown_until[def_idx] > state.tick;
        let mut attempted = false;
        let mut won = false;
        if !skip {
            assert(dist_sq_fits(
                s0.players@[def_idx as int].pos_x as int,
                s0.players@[def_idx as int].pos_y as int,
                carrier_x as int,
                carrier_y as int,
            ));
            let d = dist_sq(
                state.players[def_idx].pos_x,
                state.players[def_idx].pos_y,
                carrier_x,
                carrier_y,
            );
            if d <= TACKLE_RADIUS_SQ {
                attempted = true;
                let da = skills[def_idx];
                assert(tackle_skills_in_unit(skills@[def_idx as int]));
                let dq = capped_quality(da.tackling, da.aggression, da.positioning);
                let p = compute_tackle_probability(dq, cq);
                let draw = chacha8_first_draw(seeds[def_idx]);
                won = completes_with_draw(draw, p);
            }
        }
        assert(attempted == may_tackle(s0, carrier_idx as int, def_idx as int));
        if attempted && won {
            let def_slot = state.players[def_idx].slot;
            state.possession = Some(def_slot);
            state.last_touched_by = Some(def_slot);
            state.ball.pos_x = state.players[def_idx].pos_x;
            state.ball.pos_y = state.players[def_idx].pos_y;
            state.ball.vel_x = 0;
            state.ball.vel_y = 0;
            state.ball.vel_z = 0;
            winner = Some(def_idx);
        } else if attempted {
            state.tackle_cooldown_until[def_idx] = state.tick + TACKLE_COOLDOWN_TICKS;
        }
        def_idx = def_idx + 1;
    }
    proof {
        if winner is None {
            assert(first_tackle_winner(s0, carrier_idx as int, skills@, seeds@, 22) is None);
        }
        assert forall|j: int| 0 <= j < 22 implies #[trigger] state.tackle_cooldown_until@[j] == if tackle_failed(
            s0,
            carrier_idx as int,
            skills@,
            seeds@,
            j,
        ) {
            s0.tick + TACKLE_COOLDOWN_TICKS
        } else {
            s0.tackle_cooldown_until@[j] as int
        } by {
            assert(state.tackle_cooldown_until@[j] == if j < def_idx && may_tackle(
                s0,
                carrier_idx as int,
                j,
            ) && !tackle_roll_wins(s0, carrier_idx as int, j, skills@, seeds@) {
                s0.tick + TACKLE_COOLDOWN_TICKS
            } else {
                s0.tackle_cooldown_until@[j] as int
            });
            if winner is Some {
                lemma_first_winner_is_first(
                    s0,
                    carrier_idx as int,
                    skills@,
                    seeds@,
                    0,
                    winner.unwrap() as int,
                    j,
                );
            }
        }
    }
    state
}

/// The first winner from `i` on is no earlier than `i`, and every slot
/// between `i` and it either may not tackle or loses its roll.
proof fn lemma_first_winner_is_first(
    s: MatchState,
    carrier: int,
    skills: Seq<CurvedTackleSkills>,
    seeds: Seq<u64>,
    i: int,
    w: int,
    j: int,
)
    requires
        0 <= i,
        first_tackle_winner(s, carrier, skills, seeds, i) == Some(w),
    ensures
        i <= w < 22,
        may_tackle(s, carrier, w) && tackle_roll_wins(s, carrier, w, skills, seeds),
        i <= j < w ==> !(may_tackle(s, carrier, j) && tackle_roll_wins(s, carrier, j, skills, seeds)),
    decreases 22 - i,
{
    if i < 22 && !(may_tackle(s, carrier, i) && tackle_roll_wins(s, carrier, i, skills, seeds)) {
        lemma_first_winner_is_first(s, carrier, skills, seeds, i + 1, w, j);
    }
}

/// Only an outfield player of the other team can win the ball from the
/// carrier, and it is never the carrier.
pub proof fn lemma_tackle_winner_is_opposing_outfielder(
    s: MatchState,
    carrier: int,
    skills: Seq<CurvedTackleSkills>,
    seeds: Seq<u64>,
    w: int,
)
    requires
        first_tackle_winner(s, carrier, skills, seeds, 0) == Some(w),
    ensures
        0 <= w < 22,
        w != carrier,
        (w < 11) != (carrier < 11),
        w % 11 != 0,
{
    lemma_first_winner_is_first(s, carrier, skills, seeds, 0, w, 0);
}

/// The draw site of a tackle roll by the defender in `def_slot`:
/// `def_slot << 16 | 0x7AC1`.
pub fn tackle_roll_site(def_slot: u8) -> (site: u32)
    ensures
        site == def_slot as int * 65536 + 31425,
{
    let s = def_slot as u32;
    let shifted: u32 = s << 16u32;
    assert(shifted == s * 65536) by (bit_vector)
        requires
            shifted == s << 16u32,
            s < 256,
    ;
    let site: u32 = shifted | 31425u32;
    assert(site == shifted + 31425) by (bit_vector)
        requires
            site == shifted | 31425u32,
            shifted == s * 65536,
            s < 256,
    ;
    site
}

} // verus!
