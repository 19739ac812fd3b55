//! Goal detection with the goalkeeper's save model: a ball in the goal
//! mouth is gathered by a nearby keeper when no shot put it there, may be
//! saved by the keeper when a shot did, and otherwise is a goal.

use vstd::prelude::*;

use crate::ball::BallState;
use crate::fixed::{ONE, abs_bits, abs_spec, dist_sq, dist_sq_fits, dist_sq_spec, fits, mul_spec, q_mul, scale};
use crate::match_state::MatchState;
use crate::pass_completion::{chacha8_first_draw, chacha8_first_u64, completes_with_draw, draw_completes};

verus! {

/// Floor of the keeper's base save probability: 0.50.
pub const SAVE_BASE_MIN: i64 = 2147483648;

/// Base save probability of a perfect keeper: ≈ 0.72.
pub const SAVE_BASE_MAX: i64 = 3092376453;

/// Save-probability loss per metre of the keeper's lateral error: ≈ 0.15.
pub const POSITION_PENALTY_RATE: i64 = 644245094;

/// Least positional factor of a keeper far out of position: ≈ 0.10.
pub const POSITION_MIN: i64 = 429496729;

/// Highest save probability: ≈ 0.72.
pub const SAVE_PROB_MAX: i64 = 3092376453;

/// Keeper-quality weight of reflexes: ≈ 0.45.
pub const W_GK_REFLEXES: i64 = 1932735283;

/// Keeper-quality weight of handling: ≈ 0.30.
pub const W_GK_HANDLING: i64 = 1288490188;

/// Keeper-quality weight of one-on-ones: ≈ 0.15.
pub const W_GK_ONE_ON_ONES: i64 = 644245094;

/// Keeper-quality weight of positioning: ≈ 0.10.
pub const W_GK_POSITIONING: i64 = 429496729;

/// A keeper gathers a ball with no shot behind it within 10 m: 100 m².
pub const GK_GATHER_RADIUS_SQ: i64 = 429496729600;

/// A keeper's save skills after the response curves, each in `[0, 1]`.
#[derive(Debug, Clone, Copy, PartialEq, Eq, Structural)]
pub struct CurvedGoalkeeperSkills {
    pub reflexes: i64,
    pub handling: i64,
    pub one_on_ones: i64,
    pub positioning: i64,
}

/// What happened to a ball in the goal mouth.
#[derive(Debug, Clone, Copy, PartialEq, Eq, Structural)]
pub enum GoalMouthOutcome {
    /// The ball is not in the goal mouth.
    NotInGoal,
    /// The keeper in `keeper_slot` gathered a ball no shot put there.
    Gathered { keeper_slot: u8 },
    /// The keeper in `keeper_slot` saved the shot.
    Saved { keeper_slot: u8 },
    /// `scorer_slot` scored; `home_scored` when the home side did.
    Goal { scorer_slot: u8, home_scored: bool },
}

/// The ball is in the goal mouth: on or beyond a goal line, strictly
/// inside the posts.
pub open spec fn in_goal_mouth(b: BallState, goal_line_x: int, goal_half_width: int) -> bool {
    abs_spec(b.pos_x as int) >= goal_line_x && abs_spec(b.pos_y as int) < goal_half_width
}

/// Keeper quality `reflexes × 0.45 + handling × 0.30 + one-on-ones × 0.15
/// + positioning × 0.10`, capped at 1.
pub open spec fn keeper_quality(c: CurvedGoalkeeperSkills) -> int {
    let q = mul_spec(c.reflexes as int, W_GK_REFLEXES as int) + mul_spec(
        c.handling as int,
        W_GK_HANDLING as int,
    ) + mul_spec(c.one_on_ones as int, W_GK_ONE_ON_ONES as int) + mul_spec(
        c.positioning as int,
        W_GK_POSITIONING as int,
    );
    if q > ONE {
        ONE as int
    } else {
        q
    }
}

/// Save probability `min(base × (1 − min(xg, 1)) × pos, 0.72)` with
/// `base = 0.50 + 0.22 × quality` and `pos = max(1 − 0.15 × err, 0.10)`,
/// `err` the keeper's lateral distance to the ball (raw bits of its
/// magnitude read as a signed value).
pub open spec fn save_probability(quality: int, y_error: int, xg: int) -> int {
    let save_base = SAVE_BASE_MIN + mul_spec(SAVE_BASE_MAX - SAVE_BASE_MIN, quality);
    let pf_raw = ONE - mul_spec(y_error, POSITION_PENALTY_RATE as int);
    let pf = if pf_raw < POSITION_MIN {
        POSITION_MIN as int
    } else {
        pf_raw
    };
    let xg_c = if xg > ONE {
        ONE as int
    } else {
        xg
    };
    let raw = mul_spec(mul_spec(save_base, ONE - xg_c), pf);
    if raw > SAVE_PROB_MAX {
        SAVE_PROB_MAX as int
    } else {
        raw
    }
}

/// Every step of the save probability fits in an `i64`.
pub open spec fn save_probability_fits(quality: int, y_error: int, xg: int) -> bool {
    let save_base = SAVE_BASE_MIN + mul_spec(SAVE_BASE_MAX - SAVE_BASE_MIN, quality);
    let pf_raw = ONE - mul_spec(y_error, POSITION_PENALTY_RATE as int);
    let pf = if pf_raw < POSITION_MIN {
        POSITION_MIN as int
    } else {
        pf_raw
    };
    let xg_c = if xg > ONE {
        ONE as int
    } else {
        xg
    };
    &&& fits(mul_spec(y_error, POSITION_PENALTY_RATE as int))
    &&& fits(pf_raw)
    &&& fits(ONE - xg_c)
    &&& fits(mul_spec(save_base, ONE - xg_c))
    &&& fits(mul_spec(mul_spec(save_base, ONE - xg_c), pf))
}

/// The conceding keeper's slot: away (11) when the ball is at the +x end,
/// home (0) otherwise.
pub open spec fn conceding_keeper(b: BallState) -> int {
    if b.pos_x > 0 {
        11
    } else {
        0
    }
}

/// The keeper's lateral error to the ball, as raw bits of its magnitude
/// read back as a signed value.
pub open spec fn keeper_y_error(s: MatchState) -> int {
    abs_spec(s.ball.pos_y - s.players@[conceding_keeper(s.ball)].pos_y) as u64 as i64 as int
}

/// The keeper gathers the ball: no shot put it there and the keeper is
/// within 10 m.
pub open spec fn keeper_gathers(s: MatchState, xg: int) -> bool {
    let gk = conceding_keeper(s.ball);
    xg == 0 && dist_sq_spec(
        s.players@[gk].pos_x as int,
        s.players@[gk].pos_y as int,
        s.ball.pos_x as int,
        s.ball.pos_y as int,
    ) <= GK_GATHER_RADIUS_SQ
}

/// The xG behind the ball: the scorer's latest shot.
pub open spec fn shot_xg_behind(s: MatchState) -> int {
    s.last_shot_xg@[s.last_touched_by.unwrap() as int] as int
}

/// The keeper's curved skills for the conceding end (`keepers[0]` home,
/// `keepers[1]` away).
pub open spec fn conceding_skills(s: MatchState, keepers: Seq<CurvedGoalkeeperSkills>) -> CurvedGoalkeeperSkills {
    if conceding_keeper(s.ball) == 11 {
        keepers[1]
    } else {
        keepers[0]
    }
}

/// The keeper saves: a shot put the ball there, the keeper did not gather
/// it, and the roll falls below the save probability.
pub open spec fn keeper_saves(
    s: MatchState,
    keepers: Seq<CurvedGoalkeeperSkills>,
    roll: u64,
) -> bool {
    let xg = shot_xg_behind(s);
    &&& !keeper_gathers(s, xg)
    &&& xg > 0
    &&& draw_completes(
        roll,
        save_probability(keeper_quality(conceding_skills(s, keepers)), keeper_y_error(s), xg),
    )
}

/// The ball at rest at the keeper's feet, the keeper in possession and
/// last to touch it, no pass in flight.
pub open spec fn keeper_claims(s: MatchState, gk: int) -> MatchState {
    MatchState {
        ball: BallState {
            pos_x: s.players@[gk].pos_x,
            pos_y: s.players@[gk].pos_y,
            vel_x: 0,
            vel_y: 0,
            vel_z: 0,
            ..s.ball
        },
        possession: Some(s.players@[gk].slot),
        last_touched_by: Some(s.players@[gk].slot),
        ball_in_flight: None,
        ..s
    }
}

/// After a goal: the score goes up, the ball is on the centre spot at
/// rest, and the conceding side's centre-forward (20 away, 9 home) has the
/// kick-off.
pub open spec fn goal_scored(s: MatchState) -> MatchState {
    let home_scored = s.ball.pos_x > 0;
    let taker: u8 = if home_scored {
        20
    } else {
        9
    };
    MatchState {
        home_score: if home_scored {
            (s.home_score + 1) as u8
        } else {
            s.home_score
        },
        away_score: if home_scored {
            s.away_score
        } else {
            (s.away_score + 1) as u8
        },
        ball: BallState::centre_spot_spec(),
        ball_in_flight: None,
        possession: Some(taker),
        last_touched_by: Some(taker),
        ..s
    }
}

/// The inputs of the goal-mouth resolution are well formed.
pub open spec fn goal_mouth_inputs_ok(
    s: MatchState,
    goal_line_x: int,
    goal_half_width: int,
    keepers: Seq<CurvedGoalkeeperSkills>,
) -> bool {
    in_goal_mouth(s.ball, goal_line_x, goal_half_width) ==> {
        let gk = conceding_keeper(s.ball);
        let c = conceding_skills(s, keepers);
        &&& s.last_touched_by is Some
        &&& s.home_score < 255
        &&& s.away_score < 255
        &&& 0 <= c.reflexes <= ONE
        &&& 0 <= c.handling <= ONE
        &&& 0 <= c.one_on_ones <= ONE
        &&& 0 <= c.positioning <= ONE
        &&& fits(s.ball.pos_y - s.players@[gk].pos_y)
        &&& dist_sq_fits(
            s.players@[gk].pos_x as int,
            s.players@[gk].pos_y as int,
            s.ball.pos_x as int,
            s.ball.pos_y as int,
        )
        &&& save_probability_fits(keeper_quality(c), keeper_y_error(s), shot_xg_behind(s))
    }
}

/// With curved skills and the shot's xG in `[0, 1]` and a lateral offset
/// within 2^44 raw, every step of the save probability fits in an `i64`.
pub proof fn lemma_save_probability_fits_in_range(c: CurvedGoalkeeperSkills, dy: int, xg: int)
    requires
        0 <= c.reflexes <= ONE,
        0 <= c.handling <= ONE,
        0 <= c.one_on_ones <= ONE,
        0 <= c.positioning <= ONE,
        abs_spec(dy) <= 17592186044416,
        0 <= xg <= ONE,
    ensures
        save_probability_fits(keeper_quality(c), abs_spec(dy) as u64 as i64 as int, xg),
{
    crate::fixed::lemma_mul_unit(c.reflexes as int, W_GK_REFLEXES as int);
    crate::fixed::lemma_mul_unit(c.handling as int, W_GK_HANDLING as int);
    crate::fixed::lemma_mul_unit(c.one_on_ones as int, W_GK_ONE_ON_ONES as int);
    crate::fixed::lemma_mul_unit(c.positioning as int, W_GK_POSITIONING as int);
    let q = keeper_quality(c);
    assert(0 <= q <= ONE);
    let y = abs_spec(dy);
    assert(y as u64 as i64 as int == y);
    crate::fixed::lemma_mul_nonneg_bound(
        y,
        POSITION_PENALTY_RATE as int,
        17592186044416,
        POSITION_PENALTY_RATE as int,
    );
    crate::fixed::lemma_mul_unit(SAVE_BASE_MAX - SAVE_BASE_MIN, q);
    let save_base = SAVE_BASE_MIN + mul_spec(SAVE_BASE_MAX - SAVE_BASE_MIN, q);
    assert(0 <= save_base <= ONE);
    crate::fixed::lemma_mul_unit(save_base, ONE - xg);
    let pf_raw = ONE - mul_spec(y, POSITION_PENALTY_RATE as int);
    let pf = if pf_raw < POSITION_MIN {
        POSITION_MIN as int
    } else {
        pf_raw
    };
    assert(0 <= pf <= ONE);
    crate::fixed::lemma_mul_unit(mul_spec(save_base, ONE - xg), pf);
}

fn keeper_quality_exec(c: &CurvedGoalkeeperSkills) -> (q: i64)
    requires
        0 <= c.reflexes <= ONE,
        0 <= c.handling <= ONE,
        0 <= c.one_on_ones <= ONE,
        0 <= c.positioning <= ONE,
    ensures
        q == keeper_quality(*c),
        0 <= q <= ONE,
{
    proof {
        crate::fixed::lemma_mul_unit(c.reflexes as int, W_GK_REFLEXES as int);
        crate::fixed::lemma_mul_unit(c.handling as int, W_GK_HANDLING as int);
        crate::fixed::lemma_mul_unit(c.one_on_ones as int, W_GK_ONE_ON_ONES as int);
        crate::fixed::lemma_mul_unit(c.positioning as int, W_GK_POSITIONING as int);
    }
    let q = q_mul(c.reflexes, W_GK_REFLEXES) + q_mul(c.handling, W_GK_HANDLING) + q_mul(
        c.one_on_ones,
        W_GK_ONE_ON_ONES,
    ) + q_mul(c.positioning, W_GK_POSITIONING);
    if q > ONE {
        ONE
    } else {
        q
    }
}

/// The save probability of a keeper of quality `quality` in `[0, 1]`,
/// `y_error` from the ball, against a shot of `xg`.
pub fn compute_save_probability(quality: i64, y_error: i64, xg: i64) -> (p: i64)
    requires
        0 <= quality <= ONE,
        save_probability_fits(quality as int, y_error as int, xg as int),
    ensures
        p == save_probability(quality as int, y_error as int, xg as int),
        p <= SAVE_PROB_MAX,
{
    proof {
        crate::fixed::lemma_mul_unit(quality as int, (SAVE_BASE_MAX - SAVE_BASE_MIN) as int);
    }
    let save_base = SAVE_BASE_MIN + q_mul(SAVE_BASE_MAX - SAVE_BASE_MIN, quality);
    let pf_raw = ONE - q_mul(y_error, POSITION_PENALTY_RATE);
    let pf = if pf_raw < POSITION_MIN {
        POSITION_MIN
    } else {
        pf_raw
    };
    let xg_clamped = if xg > ONE {
        ONE
    } else {
        xg
    };
    let raw = q_mul(q_mul(save_base, ONE - xg_clamped), pf);
    if raw > SAVE_PROB_MAX {
        SAVE_PROB_MAX
    } else {
        raw
    }
}

/// Resolve a ball in the goal mouth (goal lines at ±`goal_line_x`, posts at
/// ±`goal_half_width`). The conceding keeper (`keepers[0]` the home
/// keeper's curved skills, `keepers[1]` the away keeper's) gathers a ball
/// that no shot put there when within 10 m; otherwise a shot may be saved,
/// the roll being the draw of the generator seeded by `save_seed`; a saved
/// shot's xG is cleared. Anything else is a goal for the side attacking
/// that end, credited to the last player to touch the ball. A ball outside
/// the goal mouth changes nothing.
pub fn resolve_goal_mouth(
    state: MatchState,
    goal_line_x: i64,
    goal_half_width: i64,
    keepers: &[CurvedGoalkeeperSkills; 2],
    save_seed: u64,
) -> (r: (MatchState, GoalMouthOutcome))
    requires
        state.wf(),
        goal_line_x > 0,
        goal_half_width >= 0,
        goal_mouth_inputs_ok(state, goal_line_x as int, goal_half_width as int, keepers@),
    ensures
        r.0.wf(),
        !in_goal_mouth(state.ball, goal_line_x as int, goal_half_width as int) ==> r == (
            state,
            GoalMouthOutcome::NotInGoal,
        ),
        in_goal_mouth(state.ball, goal_line_x as int, goal_half_width as int) ==> {
            let gk = conceding_keeper(state.ball);
            let xg = shot_xg_behind(state);
            if keeper_gathers(state, xg) {
                r == (keeper_claims(state, gk), GoalMouthOutcome::Gathered { keeper_slot: gk as u8 })
            } else if keeper_saves(state, keepers@, chacha8_first_u64(save_seed)) {
                &&& r.1 == GoalMouthOutcome::Saved { keeper_slot: gk as u8 }
                &&& r.0 == (MatchState {
                    last_shot_xg: r.0.last_shot_xg,
                    ..keeper_claims(state, gk)
                })
                &&& r.0.last_shot_xg@ == state.last_shot_xg@.update(
                    state.last_touched_by.unwrap() as int,
                    0,
                )
            } else {
                r == (
                    goal_scored(state),
                    GoalMouthOutcome::Goal {
                        scorer_slot: state.last_touched_by.unwrap(),
                        home_scored: state.ball.pos_x > 0,
                    },
                )
            }
        },
{
    let bx_abs = abs_bits(state.ball.pos_x);
    let by_abs = abs_bits(state.ball.pos_y);
    if !(bx_abs >= goal_line_x as u64 && by_abs < goal_half_width as u64) {
        return (state, GoalMouthOutcome::NotInGoal);
    }
    let mut state = state;
    let scorer_slot = state.last_touched_by.unwrap();
    let home_scored = state.ball.pos_x > 0;
    let gk_idx: usize = if home_scored {
        11
    } else {
        0
    };
    let scorer_idx = scorer_slot as usize;
    let xg_score = state.last_shot_xg[scorer_idx];
    let keeper = if home_scored {
        &keepers[1]
    } else {
        &keepers[0]
    };
    let gk_quality = keeper_quality_exec(keeper);
    let diff = state.ball.pos_y - state.players[gk_idx].pos_y;
    let gk_y_error = abs_bits(diff) as i64;
    let save_prob = compute_save_probability(gk_quality, gk_y_error, xg_score);
    let roll = chacha8_first_draw(save_seed);
    let gk_gathered = if xg_score == 0 {
        let d = dist_sq(
            state.players[gk_idx].pos_x,
            state.players[gk_idx].pos_y,
            state.ball.pos_x,
            state.ball.pos_y,
        );
        d <= GK_GATHER_RADIUS_SQ
    } else {
        false
    };
    if gk_gathered || (xg_score > 0 && completes_with_draw(roll, save_prob)) {
        if !gk_gathered {
            state.last_shot_xg[scorer_idx] = 0;
        }
        state.ball.vel_x = 0;
        state.ball.vel_y = 0;
        state.ball.vel_z = 0;
        state.ball.pos_x = state.players[gk_idx].pos_x;
        state.ball.pos_y = state.players[gk_idx].pos_y;
        let gk_slot = state.players[gk_idx].slot;
        state.possession = Some(gk_slot);
        state.last_touched_by = Some(gk_slot);
        state.ball_in_flight = None;
        if gk_gathered {
            (state, GoalMouthOutcome::Gathered { keeper_slot: gk_slot })
        } else {
            (state, GoalMouthOutcome::Saved { keeper_slot: gk_slot })
        }
    } else {
        if home_scored {
            state.home_score = state.home_score + 1;
        } else {
            state.away_score = state.away_score + 1;
        }
        state.ball = BallState::centre_spot();
        state.ball_in_flight = None;
        let taker: u8 = if home_scored {
            20
        } else {
            9
        };
        state.possession = Some(taker);
        state.last_touched_by = Some(taker);
        (state, GoalMouthOutcome::Goal { scorer_slot, home_scored })
    }
}

/// A ball that no shot put in the goal mouth is never saved: it is
/// gathered or it is a goal.
pub proof fn lemma_no_shot_no_save(s: MatchState, keepers: Seq<CurvedGoalkeeperSkills>, roll: u64)
    requires
        shot_xg_behind(s) == 0,
    ensures
        !keeper_saves(s, keepers, roll),
{
}

/// A shot is never gathered: a ball with a shot behind it is saved or is a
/// goal.
pub proof fn lemma_shot_never_gathered(s: MatchState)
    requires
        shot_xg_behind(s) != 0,
    ensures
        !keeper_gathers(s, shot_xg_behind(s)),
{
}

/// The save probability never exceeds 0.72; with a keeper of quality in
/// `[0, 1]`, a shot of xG in `[0, 1]` and a lateral error of at most 6 m,
/// it is at least 0 and a better keeper saves at least as often.
pub proof fn lemma_save_probability_monotone_in_quality(q_low: int, q_high: int, y_error: int, xg: int)
    requires
        0 <= q_low <= q_high <= ONE,
        0 <= xg <= ONE,
        0 <= y_error <= 6 * scale(),
    ensures
        0 <= save_probability(q_low, y_error, xg) <= save_probability(q_high, y_error, xg)
            <= SAVE_PROB_MAX,
{
    let d = (SAVE_BASE_MAX - SAVE_BASE_MIN) as int;
    crate::fixed::lemma_mul_monotone(d, q_high, d, q_low);
    crate::fixed::lemma_mul_nonneg_bound(d, q_low, d, q_low);
    crate::fixed::lemma_mul_nonneg_bound(y_error, POSITION_PENALTY_RATE as int, 6 * scale(), POSITION_PENALTY_RATE as int);
    let b_low = SAVE_BASE_MIN + mul_spec(d, q_low);
    let b_high = SAVE_BASE_MIN + mul_spec(d, q_high);
    crate::fixed::lemma_mul_monotone(b_high, ONE - xg, b_low, ONE - xg);
    crate::fixed::lemma_mul_nonneg_bound(b_low, ONE - xg, b_low, ONE - xg);
    let pf_raw = ONE - mul_spec(y_error, POSITION_PENALTY_RATE as int);
    let pf = if pf_raw < POSITION_MIN {
        POSITION_MIN as int
    } else {
        pf_raw
    };
    crate::fixed::lemma_mul_monotone(
        mul_spec(b_high, ONE - xg),
        pf,
        mul_spec(b_low, ONE - xg),
        pf,
    );
    crate::fixed::lemma_mul_nonneg_bound(mul_spec(b_low, ONE - xg), pf, mul_spec(b_low, ONE - xg), pf);
}

/// The draw site of a save roll against a shot by `scorer_slot`:
/// `scorer_slot << 16 | 0x5A7E`.
pub fn save_roll_site(scorer_slot: u8) -> (site: u32)
    ensures
        site == scorer_slot as int * 65536 + 23166,
{
    let s = scorer_slot as u32;
    let shifted: u32 = s << 16u32;
    assert(shifted == s * 65536) by (bit_vector)
        requires
            shifted == s << 16u32,
            s < 256,
    ;
    let site: u32 = shifted | 23166u32;
    assert(site == shifted + 23166) by (bit_vector)
        requires
            site == shifted | 23166u32,
            shifted == s * 65536,
            s < 256,
    ;
    site
}

/// The save is judged with the conceding keeper's skills alone: a ball at
/// the +x end with the away keeper's (`keepers[1]`), one at the −x end with
/// the home keeper's (`keepers[0]`), so the other keeper's skills never
/// change whether the shot is saved; neither keeper's skills decide a
/// gather; the keeper judged is the away one (slot 11) at the +x end and
/// the home one (slot 0) at the −x end; and a goal at the +x end is scored
/// by the home side, one at the −x end by the away side.
pub proof fn lemma_save_judged_by_conceding_keeper(
    s: MatchState,
    keepers: Seq<CurvedGoalkeeperSkills>,
    other: CurvedGoalkeeperSkills,
    roll: u64,
)
    requires
        keepers.len() == 2,
    ensures
        s.ball.pos_x > 0 ==> keeper_saves(s, keepers, roll) == keeper_saves(s, keepers.update(0, other), roll),
        s.ball.pos_x <= 0 ==> keeper_saves(s, keepers, roll) == keeper_saves(s, keepers.update(1, other), roll),
        s.ball.pos_x > 0 ==> keeper_saves(s, keepers, roll) == (!keeper_gathers(s, shot_xg_behind(s))
            && shot_xg_behind(s) > 0 && draw_completes(
            roll,
            save_probability(keeper_quality(keepers[1]), keeper_y_error(s), shot_xg_behind(s)),
        )),
        s.ball.pos_x <= 0 ==> keeper_saves(s, keepers, roll) == (!keeper_gathers(s, shot_xg_behind(s))
            && shot_xg_behind(s) > 0 && draw_completes(
            roll,
            save_probability(keeper_quality(keepers[0]), keeper_y_error(s), shot_xg_behind(s)),
        )),
        s.ball.pos_x > 0 ==> conceding_keeper(s.ball) == 11,
        s.ball.pos_x <= 0 ==> conceding_keeper(s.ball) == 0,
        s.ball.pos_x > 0 && s.home_score < 255 ==> goal_scored(s).home_score == s.home_score + 1
            && goal_scored(s).away_score == s.away_score,
        s.ball.pos_x <= 0 && s.away_score < 255 ==> goal_scored(s).away_score == s.away_score + 1
            && goal_scored(s).home_score == s.home_score,
        s.ball.pos_x > 0 ==> keeper_y_error(s) == abs_spec(s.ball.pos_y - s.players@[11].pos_y) as u64 as i64 as int,
        s.ball.pos_x <= 0 ==> keeper_y_error(s) == abs_spec(s.ball.pos_y - s.players@[0].pos_y) as u64 as i64 as int,
{
    assert(keepers.update(0, other)[1] == keepers[1]);
    assert(keepers.update(1, other)[0] == keepers[0]);
}

} // verus!
