//! Pass-completion contest model.
//!
//! Whether a pass arrives is decided by one seeded draw against a
//! completion probability:
//!
//! ```text
//! p_complete = clamp(
//!     P_BASE[kind] × (LOW_MOD + quality × (HIGH_MOD − LOW_MOD))
//!                  × (1 − RECV_PRESSURE_WEIGHT × recv_pressure)
//!                  × lane_gate,
//!     P_FLOOR[kind], 1)
//! ```
//!
//! All arithmetic is Q32 fixed point on raw `i64` bits (see `fixed`); each
//! product is rounded as `mul_spec` rounds, left to right.

use vstd::prelude::*;

use rand_chacha::ChaCha8Rng;
use rand_chacha::rand_core::{RngCore, SeedableRng};

use crate::fixed::{ONE, abs_spec, dist_sq, dist_sq_fits, dist_sq_spec, fits, mul_spec, q_mul, scale};
use crate::match_rules::trunc_div;
use crate::match_state::{MatchState, PLAYERS_PER_TEAM};
use crate::player::coordinates_within;

verus! {

// ---------------------------------------------------------------------------
// Pass kinds and their constants
// ---------------------------------------------------------------------------

/// The kind of a pass attempt.
#[derive(Debug, Clone, Copy, PartialEq, Eq, Structural)]
pub enum PassKind {
    Short,
    Long,
    Cross,
    LayOff,
}

/// Base completion probability of a short pass: ≈ 1.064.
pub const P_BASE_SHORT: i64 = 4569845203;

/// Base completion probability of a long pass: ≈ 0.986.
pub const P_BASE_LONG: i64 = 4233119767;

/// Base completion probability of a cross: ≈ 0.930.
pub const P_BASE_CROSS: i64 = 3992601598;

/// Base completion probability of a lay-off: ≈ 1.109.
pub const P_BASE_LAYOFF: i64 = 4762259738;

/// Floor of the lane gate when the lane is fully contested: ≈ 0.70.
pub const LANE_FLOOR: i64 = 3006477107;

/// Completion floor of a short pass: ≈ 0.60.
pub const P_FLOOR_SHORT: i64 = 2576980378;

/// Completion floor of a long pass: ≈ 0.40.
pub const P_FLOOR_LONG: i64 = 1717986918;

/// Completion floor of a cross: ≈ 0.30.
pub const P_FLOOR_CROSS: i64 = 1288490189;

/// Completion floor of a lay-off: ≈ 0.70.
pub const P_FLOOR_LAYOFF: i64 = 3006477107;

/// Weight of the receiver-pressure term: ≈ 0.15.
pub const RECV_PRESSURE_WEIGHT: i64 = 644245094;

/// Interception-quality weight of tackling: ≈ 0.60.
pub const W_IQ_TAC: i64 = 2576980378;

/// Interception-quality weight of anticipation: 0.25.
pub const W_IQ_ANT: i64 = 1073741824;

/// Interception-quality weight of pace: ≈ 0.15.
pub const W_IQ_PAC: i64 = 644245094;

/// Intercept scale of a quality-0 lane defender: ≈ 0.40.
pub const INTERCEPT_SCALE_LOW: i64 = 1717986918;

/// Intercept scale of a quality-1 lane defender: ≈ 1.20.
pub const INTERCEPT_SCALE_HIGH: i64 = 5154889677;

/// Passer-quality modifier at quality 0: ≈ 0.70.
pub const LOW_MOD: i64 = 3006477107;

/// Passer-quality modifier at quality 1: ≈ 1.30.
pub const HIGH_MOD: i64 = 5583457485;

/// Short / lay-off composite weight of passing: ≈ 0.40.
pub const W_PS: i64 = 1717986918;

/// Short / lay-off composite weight of technique: ≈ 0.30.
pub const W_TE: i64 = 1288490189;

/// Short / lay-off composite weight of first touch: ≈ 0.30.
pub const W_FT: i64 = 1288490189;

/// Long-pass composite weight of passing: ≈ 0.40.
pub const W_PL: i64 = 1717986918;

/// Long-pass composite weight of vision: ≈ 0.40.
pub const W_VI: i64 = 1717986918;

/// Long-pass composite weight of long shots: ≈ 0.20.
pub const W_LS: i64 = 858993459;

/// Cross composite weight of crossing: 0.50.
pub const W_CR: i64 = 2147483648;

/// Cross composite weight of technique: ≈ 0.20.
pub const W_TE_CROSS: i64 = 858993459;

/// Cross composite weight of vision: ≈ 0.30.
pub const W_VI_CROSS: i64 = 1288490189;

/// Base completion probability of a pass kind.
pub open spec fn p_base(kind: PassKind) -> int {
    match kind {
        PassKind::Short => P_BASE_SHORT as int,
        PassKind::Long => P_BASE_LONG as int,
        PassKind::Cross => P_BASE_CROSS as int,
        PassKind::LayOff => P_BASE_LAYOFF as int,
    }
}

/// Completion floor of a pass kind.
pub open spec fn p_floor(kind: PassKind) -> int {
    match kind {
        PassKind::Short => P_FLOOR_SHORT as int,
        PassKind::Long => P_FLOOR_LONG as int,
        PassKind::Cross => P_FLOOR_CROSS as int,
        PassKind::LayOff => P_FLOOR_LAYOFF as int,
    }
}

/// `(P_BASE, P_FLOOR)` of a pass kind.
pub fn kind_params(kind: PassKind) -> (r: (i64, i64))
    ensures
        r.0 == p_base(kind),
        r.1 == p_floor(kind),
{
    match kind {
        PassKind::Short => (P_BASE_SHORT, P_FLOOR_SHORT),
        PassKind::Long => (P_BASE_LONG, P_FLOOR_LONG),
        PassKind::Cross => (P_BASE_CROSS, P_FLOOR_CROSS),
        PassKind::LayOff => (P_BASE_LAYOFF, P_FLOOR_LAYOFF),
    }
}

/// The pass kinds are ordered lay-off > short > long > cross both by base
/// probability and by floor, every floor lies strictly below its base, and
/// the lane floor lies strictly inside `(0, 1)`.
pub proof fn lemma_pass_kind_ordering()
    ensures
        p_base(PassKind::LayOff) > p_base(PassKind::Short) > p_base(PassKind::Long) > p_base(
            PassKind::Cross,
        ),
        p_floor(PassKind::LayOff) > p_floor(PassKind::Short) > p_floor(PassKind::Long) > p_floor(
            PassKind::Cross,
        ),
        forall|kind: PassKind| 0 < #[trigger] p_floor(kind) < p_base(kind),
        0 < LANE_FLOOR < ONE,
{
}

// ---------------------------------------------------------------------------
// Passer quality
// ---------------------------------------------------------------------------

/// The passer's skills after the skill response curve has been applied to
/// each attribute (each normally in `[0, 1]`).
#[derive(Debug, Clone, Copy, PartialEq, Eq, Structural)]
pub struct CurvedPassingSkills {
    pub passing: i64,
    pub technique: i64,
    pub first_touch: i64,
    pub vision: i64,
    pub long_shots: i64,
    pub crossing: i64,
}

/// The three curved skills that a pass kind draws on, each with its weight.
pub open spec fn quality_terms(c: CurvedPassingSkills, kind: PassKind) -> (
    (int, int),
    (int, int),
    (int, int),
) {
    match kind {
        PassKind::Short | PassKind::LayOff => (
            (c.passing as int, W_PS as int),
            (c.technique as int, W_TE as int),
            (c.first_touch as int, W_FT as int),
        ),
        PassKind::Long => (
            (c.passing as int, W_PL as int),
            (c.vision as int, W_VI as int),
            (c.long_shots as int, W_LS as int),
        ),
        PassKind::Cross => (
            (c.crossing as int, W_CR as int),
            (c.technique as int, W_TE_CROSS as int),
            (c.vision as int, W_VI_CROSS as int),
        ),
    }
}

/// Weighted sum of three `(value, weight)` terms.
pub open spec fn weighted3(t: ((int, int), (int, int), (int, int))) -> int {
    mul_spec(t.0.0, t.0.1) + mul_spec(t.1.0, t.1.1) + mul_spec(t.2.0, t.2.1)
}

/// Every step of a three-term weighted sum fits in an `i64`.
pub open spec fn weighted3_fits(t: ((int, int), (int, int), (int, int))) -> bool {
    &&& fits(mul_spec(t.0.0, t.0.1))
    &&& fits(mul_spec(t.1.0, t.1.1))
    &&& fits(mul_spec(t.2.0, t.2.1))
    &&& fits(mul_spec(t.0.0, t.0.1) + mul_spec(t.1.0, t.1.1))
    &&& fits(weighted3(t))
}

/// Passer quality for a pass kind: the kind's weighted composite of curved
/// skills.
pub open spec fn passer_quality(c: CurvedPassingSkills, kind: PassKind) -> int {
    weighted3(quality_terms(c, kind))
}

/// Every curved skill lies in `[0, 1]`.
pub open spec fn skills_in_unit(c: CurvedPassingSkills) -> bool {
    &&& 0 <= c.passing <= ONE
    &&& 0 <= c.technique <= ONE
    &&& 0 <= c.first_touch <= ONE
    &&& 0 <= c.vision <= ONE
    &&& 0 <= c.long_shots <= ONE
    &&& 0 <= c.crossing <= ONE
}

/// Three values in `[0, 1]` weighted by non-negative weights that sum to at
/// most 1 give a value in `[0, 1]`.
pub proof fn lemma_weighted3_unit(t: ((int, int), (int, int), (int, int)))
    requires
        0 <= t.0.0 <= scale(),
        0 <= t.1.0 <= scale(),
        0 <= t.2.0 <= scale(),
        0 <= t.0.1,
        0 <= t.1.1,
        0 <= t.2.1,
        t.0.1 + t.1.1 + t.2.1 <= scale(),
    ensures
        0 <= weighted3(t) <= scale(),
        weighted3_fits(t),
{
    crate::fixed::lemma_mul_unit(t.0.0, t.0.1);
    crate::fixed::lemma_mul_unit(t.1.0, t.1.1);
    crate::fixed::lemma_mul_unit(t.2.0, t.2.1);
}

pub(crate) fn weighted3_exec(a: i64, wa: i64, b: i64, wb: i64, c: i64, wc: i64) -> (r: i64)
    requires
        weighted3_fits(((a as int, wa as int), (b as int, wb as int), (c as int, wc as int))),
    ensures
        r == weighted3(((a as int, wa as int), (b as int, wb as int), (c as int, wc as int))),
{
    q_mul(a, wa) + q_mul(b, wb) + q_mul(c, wc)
}

/// Passer quality for the given pass kind. With every curved skill in
/// `[0, 1]` the quality lies in `[0, 1]`.
pub fn compute_passer_quality(skills: &CurvedPassingSkills, kind: PassKind) -> (q: i64)
    requires
        weighted3_fits(quality_terms(*skills, kind)),
    ensures
        q == passer_quality(*skills, kind),
        skills_in_unit(*skills) ==> 0 <= q <= ONE,
{
    proof {
        if skills_in_unit(*skills) {
            lemma_weighted3_unit(quality_terms(*skills, kind));
        }
    }
    match kind {
        PassKind::Short | PassKind::LayOff => weighted3_exec(
            skills.passing,
            W_PS,
            skills.technique,
            W_TE,
            skills.first_touch,
            W_FT,
        ),
        PassKind::Long => weighted3_exec(
            skills.passing,
            W_PL,
            skills.vision,
            W_VI,
            skills.long_shots,
            W_LS,
        ),
        PassKind::Cross => weighted3_exec(
            skills.crossing,
            W_CR,
            skills.technique,
            W_TE_CROSS,
            skills.vision,
            W_VI_CROSS,
        ),
    }
}

// ---------------------------------------------------------------------------
// Lane defender and interception quality
// ---------------------------------------------------------------------------

/// First slot of the team defending against `passer_team` (0 = home
/// passes, so the away team defends).
pub open spec fn defender_start(passer_team: usize) -> int {
    if passer_team == 0 {
        11
    } else {
        0
    }
}

/// Squared distance from player `i` to `(mx, my)`.
pub open spec fn player_point_dist(s: MatchState, i: int, mx: int, my: int) -> int {
    dist_sq_spec(s.players@[i].pos_x as int, s.players@[i].pos_y as int, mx, my)
}

/// Among slots `lo..hi` except the goalkeeper slot `gk`, the one nearest
/// `(mx, my)` by squared distance, ties to the lower slot.
pub open spec fn nearest_defender(s: MatchState, lo: int, hi: int, gk: int, mx: int, my: int) -> Option<int>
    decreases hi - lo,
{
    if hi <= lo {
        None
    } else {
        let r = nearest_defender(s, lo, hi - 1, gk, mx, my);
        let i = hi - 1;
        if i != gk && (r is None || player_point_dist(s, i, mx, my) < player_point_dist(
            s,
            r.unwrap(),
            mx,
            my,
        )) {
            Some(i)
        } else {
            r
        }
    }
}

/// The squared distances of the defending team to `(mx, my)` can be
/// computed without overflow.
pub open spec fn defender_distances_fit(s: MatchState, passer_team: usize, mx: int, my: int) -> bool {
    forall|i: int|
        defender_start(passer_team) <= i < defender_start(passer_team) + 11 ==> dist_sq_fits(
            #[trigger] s.players@[i].pos_x as int,
            s.players@[i].pos_y as int,
            mx,
            my,
        )
}

/// The defending outfield player nearest the lane point `(mid_x, mid_y)`
/// (squared distance, ties to the lower slot); the goalkeeper is never
/// chosen. In an eleven-a-side state there always is one.
pub fn nearest_defender_slot(state: &MatchState, passer_team: usize, mid_x: i64, mid_y: i64) -> (r:
    Option<usize>)
    requires
        state.wf(),
        defender_distances_fit(*state, passer_team, mid_x as int, mid_y as int),
    ensures
        r matches Some(k) && nearest_defender(
            *state,
            defender_start(passer_team),
            defender_start(passer_team) + 11,
            defender_start(passer_team),
            mid_x as int,
            mid_y as int,
        ) == Some(k as int) && defender_start(passer_team) < k < defender_start(passer_team) + 11,
{
    let defender_start_idx: usize = if passer_team == 0 {
        PLAYERS_PER_TEAM
    } else {
        0
    };
    let defender_end = defender_start_idx + PLAYERS_PER_TEAM;
    let gk_slot = defender_start_idx;
    let mut best_slot: Option<usize> = None;
    let mut best_dist_sq: i64 = i64::MAX;
    let mut i = defender_start_idx;
    while i < defender_end
        invariant
            state.wf(),
            defender_distances_fit(*state, passer_team, mid_x as int, mid_y as int),
            defender_start_idx == defender_start(passer_team),
            defender_end == defender_start_idx + 11,
            gk_slot == defender_start_idx,
            defender_start_idx <= i <= defender_end,
            best_slot matches Some(k) ==> nearest_defender(
                *state,
                defender_start_idx as int,
                i as int,
                gk_slot as int,
                mid_x as int,
                mid_y as int,
            ) == Some(k as int) && best_dist_sq == player_point_dist(
                *state,
                k as int,
                mid_x as int,
                mid_y as int,
            ) && gk_slot < k < i,
            best_slot is None ==> nearest_defender(
                *state,
                defender_start_idx as int,
                i as int,
                gk_slot as int,
                mid_x as int,
                mid_y as int,
            ) is None && i <= gk_slot + 1,
        decreases defender_end - i,
    {
        if i != gk_slot {
            let p = &state.players[i];
            assert(dist_sq_fits(
                state.players@[i as int].pos_x as int,
                state.players@[i as int].pos_y as int,
                mid_x as int,
                mid_y as int,
            ));
            let d = dist_sq(p.pos_x, p.pos_y, mid_x, mid_y);
            if best_slot.is_none() || d < best_dist_sq {
                best_dist_sq = d;
                best_slot = Some(i);
            }
        }
        i = i + 1;
    }
    best_slot
}

/// The lane defender's curved interception attributes.
#[derive(Debug, Clone, Copy, PartialEq, Eq, Structural)]
pub struct CurvedInterceptionSkills {
    pub tackling: i64,
    pub anticipation: i64,
    pub pace: i64,
}

/// The interception-quality terms of a defender.
pub open spec fn interception_terms(c: CurvedInterceptionSkills) -> (
    (int, int),
    (int, int),
    (int, int),
) {
    (
        (c.tackling as int, W_IQ_TAC as int),
        (c.anticipation as int, W_IQ_ANT as int),
        (c.pace as int, W_IQ_PAC as int),
    )
}

/// Interception quality: `tackling × 0.60 + anticipation × 0.25 + pace × 0.15`
/// over the curved attributes.
pub open spec fn interception_quality(c: CurvedInterceptionSkills) -> int {
    weighted3(interception_terms(c))
}

/// Interception quality of a defender. With every curved attribute in
/// `[0, 1]` the quality lies in `[0, 1]`.
pub fn compute_interception_quality(c: &CurvedInterceptionSkills) -> (iq: i64)
    requires
        weighted3_fits(interception_terms(*c)),
    ensures
        iq == interception_quality(*c),
        (0 <= c.tackling <= ONE && 0 <= c.anticipation <= ONE && 0 <= c.pace <= ONE) ==> 0 <= iq
            <= ONE,
{
    proof {
        if 0 <= c.tackling <= ONE && 0 <= c.anticipation <= ONE && 0 <= c.pace <= ONE {
            lemma_weighted3_unit(interception_terms(*c));
        }
    }
    weighted3_exec(c.tackling, W_IQ_TAC, c.anticipation, W_IQ_ANT, c.pace, W_IQ_PAC)
}

// ---------------------------------------------------------------------------
// Lane gate
// ---------------------------------------------------------------------------

/// Lane gate from the lane openness alone:
/// `LANE_FLOOR + (1 − LANE_FLOOR) × openness`.
pub open spec fn plain_lane_gate(openness: int) -> int {
    LANE_FLOOR + mul_spec(ONE - LANE_FLOOR, openness)
}

/// Intercept scale of a defender of interception quality `iq`:
/// `lerp(0.40, 1.20, iq)`.
pub open spec fn intercept_scale(iq: int) -> int {
    INTERCEPT_SCALE_LOW + mul_spec(iq, INTERCEPT_SCALE_HIGH - INTERCEPT_SCALE_LOW)
}

/// Share of the lane the defender blocks: `(1 − openness) × scale`, capped
/// at 1.
pub open spec fn intercept_factor(iq: int, openness: int) -> int {
    let raw = mul_spec(ONE - openness, intercept_scale(iq));
    if raw > ONE {
        ONE as int
    } else {
        raw
    }
}

/// Lane gate with the lane defender's interception quality: the plain
/// gate of the openness that remains after the defender's block.
pub open spec fn interception_lane_gate(iq: int, openness: int) -> int {
    plain_lane_gate(ONE - intercept_factor(iq, openness))
}

/// Every step of the lane gate fits in an `i64`.
pub open spec fn lane_gate_fits(iq: int, openness: int) -> bool {
    &&& fits(mul_spec(iq, INTERCEPT_SCALE_HIGH - INTERCEPT_SCALE_LOW))
    &&& fits(intercept_scale(iq))
    &&& fits(ONE - openness)
    &&& fits(mul_spec(ONE - openness, intercept_scale(iq)))
    &&& fits(ONE - intercept_factor(iq, openness))
    &&& fits(mul_spec(ONE - LANE_FLOOR, ONE - intercept_factor(iq, openness)))
    &&& fits(interception_lane_gate(iq, openness))
}

/// A lane gate computed from an openness in `[0, 1]` lies in
/// `[LANE_FLOOR, 1]`.
proof fn lemma_plain_lane_gate_range(openness: int)
    requires
        0 <= openness <= ONE,
    ensures
        LANE_FLOOR <= plain_lane_gate(openness) <= ONE,
{
    crate::fixed::lemma_mul_unit(ONE - LANE_FLOOR, openness);
}

/// Lane gate from the lane defender's interception quality `iq` and the
/// raw lane openness. With `iq ≥ 0` and the openness in `[0, 1]` the lane gate
/// never drops below `LANE_FLOOR` nor rises above 1.
pub fn lane_gate_from_quality(iq: i64, lane_openness: i64) -> (g: i64)
    requires
        lane_gate_fits(iq as int, lane_openness as int),
    ensures
        g == interception_lane_gate(iq as int, lane_openness as int),
        (iq >= 0 && 0 <= lane_openness <= ONE) ==> LANE_FLOOR <= g <= ONE,
{
    proof {
        if iq >= 0 && 0 <= lane_openness <= ONE {
            lemma_interception_gate_range(iq as int, lane_openness as int);
        }
    }
    let scale_f = INTERCEPT_SCALE_LOW + q_mul(iq, INTERCEPT_SCALE_HIGH - INTERCEPT_SCALE_LOW);
    let defender_control = ONE - lane_openness;
    let intercept_factor_raw = q_mul(defender_control, scale_f);
    let intercept_factor = if intercept_factor_raw > ONE {
        ONE
    } else {
        intercept_factor_raw
    };
    let lane_openness_adjusted = ONE - intercept_factor;
    LANE_FLOOR + q_mul(ONE - LANE_FLOOR, lane_openness_adjusted)
}

/// With `iq ≥ 0` and the openness in `[0, 1]`, the intercept factor lies in
/// `[0, 1]` and the lane gate in `[LANE_FLOOR, 1]`.
proof fn lemma_interception_gate_range(iq: int, openness: int)
    requires
        iq >= 0,
        0 <= openness <= ONE,
    ensures
        0 <= intercept_factor(iq, openness) <= ONE,
        LANE_FLOOR <= interception_lane_gate(iq, openness) <= ONE,
{
    crate::fixed::lemma_mul_nonneg_bound(
        iq,
        INTERCEPT_SCALE_HIGH - INTERCEPT_SCALE_LOW,
        iq,
        INTERCEPT_SCALE_HIGH - INTERCEPT_SCALE_LOW,
    );
    crate::fixed::lemma_mul_nonneg_bound(
        ONE - openness,
        intercept_scale(iq),
        ONE - openness,
        intercept_scale(iq),
    );
    lemma_plain_lane_gate_range(ONE - intercept_factor(iq, openness));
}

/// A better interceptor never opens the lane: for an openness in `[0, 1]`
/// the lane gate does not increase with the defender's interception
/// quality.
pub proof fn lemma_lane_gate_antitone_in_quality(iq_low: int, iq_high: int, openness: int)
    requires
        0 <= iq_low <= iq_high,
        0 <= openness <= ONE,
    ensures
        interception_lane_gate(iq_high, openness) <= interception_lane_gate(iq_low, openness),
        LANE_FLOOR <= interception_lane_gate(iq_high, openness),
        interception_lane_gate(iq_low, openness) <= ONE,
{
    let d = INTERCEPT_SCALE_HIGH - INTERCEPT_SCALE_LOW;
    crate::fixed::lemma_mul_monotone(iq_high, d as int, iq_low, d as int);
    crate::fixed::lemma_mul_nonneg_bound(iq_low, d as int, iq_low, d as int);
    crate::fixed::lemma_mul_monotone(
        ONE - openness,
        intercept_scale(iq_high),
        ONE - openness,
        intercept_scale(iq_low),
    );
    lemma_interception_gate_range(iq_low, openness);
    lemma_interception_gate_range(iq_high, openness);
    crate::fixed::lemma_mul_monotone(
        ONE - LANE_FLOOR,
        ONE - intercept_factor(iq_low, openness),
        ONE - LANE_FLOOR,
        ONE - intercept_factor(iq_high, openness),
    );
}

/// The lane gate for a pass whose lane midpoint is `(mid_x, mid_y)`: the
/// nearest defending outfield player's interception quality (read from
/// `curved`, indexed by slot) scales how much of the lane they block; with
/// no such defender the plain gate of the openness is used.
pub fn lane_gate_with_interception(
    state: &MatchState,
    passer_team: usize,
    mid_x: i64,
    mid_y: i64,
    lane_openness: i64,
    curved: &Vec<CurvedInterceptionSkills>,
) -> (g: i64)
    requires
        state.wf(),
        curved@.len() == 22,
        defender_distances_fit(*state, passer_team, mid_x as int, mid_y as int),
        forall|k: int| 0 <= k < 22 ==> weighted3_fits(interception_terms(#[trigger] curved@[k])),
        forall|k: int|
            0 <= k < 22 ==> lane_gate_fits(
                interception_quality(#[trigger] curved@[k]),
                lane_openness as int,
            ),
    ensures
        g == match nearest_defender(
            *state,
            defender_start(passer_team),
            defender_start(passer_team) + 11,
            defender_start(passer_team),
            mid_x as int,
            mid_y as int,
        ) {
            Some(k) => interception_lane_gate(interception_quality(curved@[k]), lane_openness as int),
            None => plain_lane_gate(lane_openness as int),
        },
{
    let k = nearest_defender_slot(state, passer_team, mid_x, mid_y).unwrap();
    let iq = compute_interception_quality(&curved[k]);
    lane_gate_from_quality(iq, lane_openness)
}

// ---------------------------------------------------------------------------
// Completion probability
// ---------------------------------------------------------------------------

/// Passer-quality modifier `lerp(LOW_MOD, HIGH_MOD, quality)`.
pub open spec fn quality_mod(q: int) -> int {
    LOW_MOD + mul_spec(q, HIGH_MOD - LOW_MOD)
}

/// Receiver-pressure term `1 − RECV_PRESSURE_WEIGHT × pressure`.
pub open spec fn pressure_term(rp: int) -> int {
    ONE - mul_spec(RECV_PRESSURE_WEIGHT as int, rp)
}

/// Unclamped completion probability
/// `P_BASE × quality_mod × pressure_term × lane_gate`, left to right.
pub open spec fn raw_pass_probability(kind: PassKind, q: int, rp: int, lg: int) -> int {
    mul_spec(mul_spec(mul_spec(p_base(kind), quality_mod(q)), pressure_term(rp)), lg)
}

/// Clamp `p` to `[floor, 1]`.
pub open spec fn clamp_probability(p: int, floor: int) -> int {
    if p < floor {
        floor
    } else if p > ONE {
        ONE as int
    } else {
        p
    }
}

/// Completion probability of a pass: the raw probability clamped to
/// `[P_FLOOR[kind], 1]`.
pub open spec fn pass_probability(kind: PassKind, q: int, rp: int, lg: int) -> int {
    clamp_probability(raw_pass_probability(kind, q, rp, lg), p_floor(kind))
}

/// Every step of the completion probability fits in an `i64`.
pub open spec fn pass_probability_fits(kind: PassKind, q: int, rp: int, lg: int) -> bool {
    &&& fits(mul_spec(q, HIGH_MOD - LOW_MOD))
    &&& fits(quality_mod(q))
    &&& fits(mul_spec(RECV_PRESSURE_WEIGHT as int, rp))
    &&& fits(pressure_term(rp))
    &&& fits(mul_spec(p_base(kind), quality_mod(q)))
    &&& fits(mul_spec(mul_spec(p_base(kind), quality_mod(q)), pressure_term(rp)))
    &&& fits(raw_pass_probability(kind, q, rp, lg))
}

/// Completion probability of a pass of `kind` by a passer of quality
/// `passer_quality`, with receiver pressure `recv_pressure` and lane gate
/// `lane_gate`. The result always lies in `[P_FLOOR[kind], 1]`.
pub fn pass_completion_probability(
    kind: PassKind,
    passer_quality: i64,
    recv_pressure: i64,
    lane_gate: i64,
) -> (p: i64)
    requires
        pass_probability_fits(kind, passer_quality as int, recv_pressure as int, lane_gate as int),
    ensures
        p == pass_probability(kind, passer_quality as int, recv_pressure as int, lane_gate as int),
        p_floor(kind) <= p <= ONE,
{
    let (p_base_k, p_floor_k) = kind_params(kind);
    let qm = LOW_MOD + q_mul(passer_quality, HIGH_MOD - LOW_MOD);
    let pt = ONE - q_mul(RECV_PRESSURE_WEIGHT, recv_pressure);
    let p_raw = q_mul(q_mul(q_mul(p_base_k, qm), pt), lane_gate);
    if p_raw < p_floor_k {
        p_floor_k
    } else if p_raw > ONE {
        ONE
    } else {
        p_raw
    }
}

/// A better passer, a less pressed receiver and a more open lane never
/// make a pass less likely to arrive: for qualities and lane gates ≥ 0 and
/// pressures in `[0, 1]`, the completion probability is non-decreasing in
/// quality and lane gate and non-increasing in receiver pressure.
pub proof fn lemma_pass_probability_monotone(
    kind: PassKind,
    q_low: int,
    q_high: int,
    rp_low: int,
    rp_high: int,
    lg_low: int,
    lg_high: int,
)
    requires
        0 <= q_low <= q_high,
        0 <= rp_low <= rp_high <= ONE,
        0 <= lg_low <= lg_high,
    ensures
        pass_probability(kind, q_low, rp_high, lg_low) <= pass_probability(
            kind,
            q_high,
            rp_low,
            lg_high,
        ),
{
    let d = HIGH_MOD - LOW_MOD;
    let w = RECV_PRESSURE_WEIGHT as int;
    // quality modifier: positive and monotone in quality
    crate::fixed::lemma_mul_monotone(q_high, d as int, q_low, d as int);
    crate::fixed::lemma_mul_nonneg_bound(q_low, d as int, q_low, d as int);
    // pressure term: positive and antitone in pressure
    crate::fixed::lemma_mul_monotone(w, rp_high, w, rp_low);
    crate::fixed::lemma_mul_unit(w, rp_high);
    crate::fixed::lemma_mul_nonneg_bound(w, rp_low, w, rp_low);
    // left-to-right products
    let a_low = mul_spec(p_base(kind), quality_mod(q_low));
    let a_high = mul_spec(p_base(kind), quality_mod(q_high));
    crate::fixed::lemma_mul_monotone(p_base(kind), quality_mod(q_high), p_base(kind), quality_mod(q_low));
    crate::fixed::lemma_mul_nonneg_bound(p_base(kind), quality_mod(q_low), p_base(kind), quality_mod(q_low));
    let b_low = mul_spec(a_low, pressure_term(rp_high));
    let b_high = mul_spec(a_high, pressure_term(rp_low));
    crate::fixed::lemma_mul_monotone(a_high, pressure_term(rp_low), a_low, pressure_term(rp_high));
    crate::fixed::lemma_mul_nonneg_bound(a_low, pressure_term(rp_high), a_low, pressure_term(rp_high));
    crate::fixed::lemma_mul_monotone(b_high, lg_high, b_low, lg_low);
}

// ---------------------------------------------------------------------------
// The seeded draw
// ---------------------------------------------------------------------------

/// The first 64-bit output of a ChaCha8 generator seeded from `seed` by
/// `seed_from_u64`.
pub uninterp spec fn chacha8_first_u64(seed: u64) -> u64;

/// Seeds `rand_chacha::ChaCha8Rng` with `SeedableRng::seed_from_u64(seed)`
/// and returns its first `RngCore::next_u64()`. Claimed: the result is the
/// same for the same seed (the generator and its seed expansion are
/// deterministic), named [`chacha8_first_u64`]; nothing is claimed about its
/// value.
#[verifier::external_body]
pub(crate) fn chacha8_first_draw(seed: u64) -> (r: u64)
    ensures
        r == chacha8_first_u64(seed),
{
    let mut rng = ChaCha8Rng::seed_from_u64(seed);
    rng.next_u64()
}

/// The draw's upper 32 bits, read as a Q32 value in `[0, 1)`, fall below
/// the completion probability.
pub open spec fn draw_completes(draw: u64, p_complete: int) -> bool {
    (draw as int) / scale() < p_complete
}

/// Whether a 64-bit draw completes a pass of probability `p_complete`.
pub fn completes_with_draw(draw: u64, p_complete: i64) -> (r: bool)
    ensures
        r == draw_completes(draw, p_complete as int),
        p_complete >= ONE ==> r,
        p_complete <= 0 ==> !r,
{
    let hi: u64 = draw >> 32u64;
    assert(hi == draw / 4294967296) by (bit_vector)
        requires
            hi == draw >> 32u64,
    ;
    let raw_draw = hi as i64;
    raw_draw < p_complete
}

/// The draw site of a pass by `from_slot`: `from_slot << 16 | 0xCB01`.
pub fn pass_draw_site(from_slot: u8) -> (site: u32)
    ensures
        site == from_slot as int * 65536 + 51969,
{
    let s = from_slot as u32;
    let shifted: u32 = s << 16u32;
    assert(shifted == s * 65536) by (bit_vector)
        requires
            shifted == s << 16u32,
            s < 256,
    ;
    let site: u32 = shifted | 51969u32;
    assert(site == shifted + 51969) by (bit_vector)
        requires
            site == shifted | 51969u32,
            shifted == s * 65536,
            s < 256,
    ;
    site
}

// ---------------------------------------------------------------------------
// Ranges of the resolution inputs
// ---------------------------------------------------------------------------

/// Every curved interception attribute lies in `[0, 1]`.
pub open spec fn interception_skills_in_unit(c: CurvedInterceptionSkills) -> bool {
    &&& 0 <= c.tackling <= ONE
    &&& 0 <= c.anticipation <= ONE
    &&& 0 <= c.pace <= ONE
}

/// Passer quality from skills in `[0, 1]` lies in `[0, 1]`, and its
/// arithmetic fits.
pub proof fn lemma_passer_quality_unit(c: CurvedPassingSkills, kind: PassKind)
    requires
        skills_in_unit(c),
    ensures
        weighted3_fits(quality_terms(c, kind)),
        0 <= passer_quality(c, kind) <= ONE,
{
    lemma_weighted3_unit(quality_terms(c, kind));
}

/// Interception quality from attributes in `[0, 1]` lies in `[0, 1]`, and
/// its arithmetic fits.
pub proof fn lemma_interception_quality_unit(c: CurvedInterceptionSkills)
    requires
        interception_skills_in_unit(c),
    ensures
        weighted3_fits(interception_terms(c)),
        0 <= interception_quality(c) <= ONE,
{
    lemma_weighted3_unit(interception_terms(c));
}

/// With the interception quality and the openness in `[0, 1]` every step of
/// the lane gate fits, and its value lies in `[LANE_FLOOR, 1]`.
pub proof fn lemma_lane_gate_fits_unit(iq: int, openness: int)
    requires
        0 <= iq <= ONE,
        0 <= openness <= ONE,
    ensures
        lane_gate_fits(iq, openness),
        LANE_FLOOR <= interception_lane_gate(iq, openness) <= ONE,
        LANE_FLOOR <= plain_lane_gate(openness) <= ONE,
{
    let d = INTERCEPT_SCALE_HIGH - INTERCEPT_SCALE_LOW;
    crate::fixed::lemma_mul_nonneg_bound(iq, d as int, ONE as int, d as int);
    crate::fixed::lemma_mul_nonneg_bound(
        ONE - openness,
        intercept_scale(iq),
        ONE as int,
        INTERCEPT_SCALE_HIGH as int,
    );
    lemma_interception_gate_range(iq, openness);
    crate::fixed::lemma_mul_unit(ONE - LANE_FLOOR, ONE - intercept_factor(iq, openness));
    lemma_plain_lane_gate_range(openness);
}

/// With the quality, the receiver pressure and the lane gate in `[0, 1]`
/// the completion-probability arithmetic fits.
pub proof fn lemma_pass_probability_fits_unit(kind: PassKind, q: int, rp: int, lg: int)
    requires
        0 <= q <= ONE,
        0 <= rp <= ONE,
        0 <= lg <= ONE,
    ensures
        pass_probability_fits(kind, q, rp, lg),
{
    let d = HIGH_MOD - LOW_MOD;
    crate::fixed::lemma_mul_nonneg_bound(q, d as int, ONE as int, d as int);
    crate::fixed::lemma_mul_unit(RECV_PRESSURE_WEIGHT as int, rp);
    let qm = quality_mod(q);
    let pt = pressure_term(rp);
    crate::fixed::lemma_mul_nonneg_bound(p_base(kind), qm, 2 * ONE, 2 * ONE);
    let a = mul_spec(p_base(kind), qm);
    crate::fixed::lemma_mul_nonneg_bound(a, pt, 4 * ONE, ONE as int);
    let b = mul_spec(a, pt);
    crate::fixed::lemma_mul_nonneg_bound(b, lg, 4 * ONE, ONE as int);
}

/// A nearest defender, when there is one, comes from the scanned range.
pub proof fn lemma_nearest_defender_in_range(
    s: MatchState,
    lo: int,
    hi: int,
    gk: int,
    mx: int,
    my: int,
)
    ensures
        nearest_defender(s, lo, hi, gk, mx, my) matches Some(k) ==> lo <= k < hi,
    decreases hi - lo,
{
    if hi > lo {
        lemma_nearest_defender_in_range(s, lo, hi - 1, gk, mx, my);
    }
}

/// Halving and summing two coordinates within 2^44 stays within 2^44.
proof fn lemma_midpoint_bound(a: int, b: int)
    requires
        abs_spec(a) <= 17592186044416,
        abs_spec(b) <= 17592186044416,
    ensures
        abs_spec(trunc_div(a, 2) + trunc_div(b, 2)) <= 17592186044416,
{
}

/// With positions within 2^44 and every skill, the lane openness and the
/// receiver pressure in `[0, 1]`, every precondition of
/// [`resolve_pass_completion`] on its arithmetic holds.
pub proof fn lemma_pass_resolution_fits(
    s: MatchState,
    from: int,
    to: int,
    kind: PassKind,
    openness: int,
    rp: int,
    passer: CurvedPassingSkills,
    curved: Seq<CurvedInterceptionSkills>,
)
    requires
        s.wf(),
        0 <= from < 22,
        0 <= to < 22,
        coordinates_within(s.players@, 17592186044416),
        skills_in_unit(passer),
        curved.len() == 22,
        forall|k: int| 0 <= k < 22 ==> interception_skills_in_unit(#[trigger] curved[k]),
        0 <= openness <= ONE,
        0 <= rp <= ONE,
    ensures
        weighted3_fits(quality_terms(passer, kind)),
        forall|k: int| 0 <= k < 22 ==> weighted3_fits(interception_terms(#[trigger] curved[k])),
        forall|k: int|
            0 <= k < 22 ==> lane_gate_fits(interception_quality(#[trigger] curved[k]), openness),
        defender_distances_fit(
            s,
            passer_team_of(from),
            pass_lane_midpoint(s, from, to).0,
            pass_lane_midpoint(s, from, to).1,
        ),
        pass_probability_fits(
            kind,
            passer_quality(passer, kind),
            rp,
            pass_lane_gate(s, from, to, openness, curved),
        ),
{
    lemma_passer_quality_unit(passer, kind);
    assert forall|k: int| 0 <= k < 22 implies weighted3_fits(
        interception_terms(#[trigger] curved[k]),
    ) && lane_gate_fits(interception_quality(curved[k]), openness) by {
        lemma_interception_quality_unit(curved[k]);
        lemma_lane_gate_fits_unit(interception_quality(curved[k]), openness);
    }
    let p = s.players@[from];
    let r = s.players@[to];
    assert(abs_spec(p.pos_x as int) <= 17592186044416);
    assert(abs_spec(r.pos_x as int) <= 17592186044416);
    lemma_midpoint_bound(p.pos_x as int, r.pos_x as int);
    lemma_midpoint_bound(p.pos_y as int, r.pos_y as int);
    let m = pass_lane_midpoint(s, from, to);
    let team = passer_team_of(from);
    assert forall|i: int|
        defender_start(team) <= i < defender_start(team) + 11 implies dist_sq_fits(
        #[trigger] s.players@[i].pos_x as int,
        s.players@[i].pos_y as int,
        m.0,
        m.1,
    ) by {
        assert(abs_spec(s.players@[i].pos_x as int) <= 17592186044416);
        crate::fixed::lemma_dist_sq_fits_bounded(
            s.players@[i].pos_x as int,
            s.players@[i].pos_y as int,
            m.0,
            m.1,
        );
    }
    let lo = defender_start(team);
    lemma_nearest_defender_in_range(s, lo, lo + 11, lo, m.0, m.1);
    match nearest_defender(s, lo, lo + 11, lo, m.0, m.1) {
        Some(k) => {
            lemma_interception_quality_unit(curved[k]);
            lemma_lane_gate_fits_unit(interception_quality(curved[k]), openness);
        },
        None => {
            lemma_lane_gate_fits_unit(0, openness);
        },
    }
    lemma_pass_probability_fits_unit(
        kind,
        passer_quality(passer, kind),
        rp,
        pass_lane_gate(s, from, to, openness, curved),
    );
}

// ---------------------------------------------------------------------------
// The completion resolver
// ---------------------------------------------------------------------------

/// Midpoint of a passing lane, each coordinate halved before summing
/// (Q32 division by 2, truncating toward zero).
pub open spec fn lane_midpoint(ax: int, ay: int, bx: int, by: int) -> (int, int) {
    (trunc_div(ax, 2) + trunc_div(bx, 2), trunc_div(ay, 2) + trunc_div(by, 2))
}

/// Midpoint of the lane from slot `from` to slot `to`.
pub open spec fn pass_lane_midpoint(s: MatchState, from: int, to: int) -> (int, int) {
    lane_midpoint(
        s.players@[from].pos_x as int,
        s.players@[from].pos_y as int,
        s.players@[to].pos_x as int,
        s.players@[to].pos_y as int,
    )
}

/// The team (0 home, 1 away) of the passer in slot `from`.
pub open spec fn passer_team_of(from: int) -> usize {
    if from < 11 {
        0
    } else {
        1
    }
}

/// Lane gate of the pass from slot `from` to slot `to`: the interception
/// gate of the defending outfield player nearest the lane midpoint.
pub open spec fn pass_lane_gate(
    s: MatchState,
    from: int,
    to: int,
    openness: int,
    curved: Seq<CurvedInterceptionSkills>,
) -> int {
    let m = pass_lane_midpoint(s, from, to);
    let team = passer_team_of(from);
    match nearest_defender(
        s,
        defender_start(team),
        defender_start(team) + 11,
        defender_start(team),
        m.0,
        m.1,
    ) {
        Some(k) => interception_lane_gate(interception_quality(curved[k]), openness),
        None => plain_lane_gate(openness),
    }
}

/// Decide whether the pass from `from_slot_idx` to `to_slot` arrives.
///
/// The caller supplies what the pitch-control model and the skill curves
/// give: `lane_openness` (one minus the defending control at the lane
/// midpoint), `recv_pressure` (the defending control at the receiver),
/// the passer's curved skills, every player's curved interception skills,
/// and `rng_seed`, the seed of this draw's generator (derived from the
/// match seed, the tick and [`pass_draw_site`]). One ChaCha8 draw is
/// compared against the completion probability.
pub fn resolve_pass_completion(
    state: &MatchState,
    from_slot_idx: usize,
    to_slot: u8,
    kind: PassKind,
    lane_openness: i64,
    recv_pressure: i64,
    passer_skills: &CurvedPassingSkills,
    curved: &Vec<CurvedInterceptionSkills>,
    rng_seed: u64,
) -> (r: bool)
    requires
        state.wf(),
        from_slot_idx < 22,
        to_slot < 22,
        curved@.len() == 22,
        weighted3_fits(quality_terms(*passer_skills, kind)),
        forall|k: int| 0 <= k < 22 ==> weighted3_fits(interception_terms(#[trigger] curved@[k])),
        forall|k: int|
            0 <= k < 22 ==> lane_gate_fits(
                interception_quality(#[trigger] curved@[k]),
                lane_openness as int,
            ),
        defender_distances_fit(
            *state,
            passer_team_of(from_slot_idx as int),
            pass_lane_midpoint(*state, from_slot_idx as int, to_slot as int).0,
            pass_lane_midpoint(*state, from_slot_idx as int, to_slot as int).1,
        ),
        pass_probability_fits(
            kind,
            passer_quality(*passer_skills, kind),
            recv_pressure as int,
            pass_lane_gate(*state, from_slot_idx as int, to_slot as int, lane_openness as int, curved@),
        ),
    ensures
        r == draw_completes(
            chacha8_first_u64(rng_seed),
            pass_probability(
                kind,
                passer_quality(*passer_skills, kind),
                recv_pressure as int,
                pass_lane_gate(
                    *state,
                    from_slot_idx as int,
                    to_slot as int,
                    lane_openness as int,
                    curved@,
                ),
            ),
        ),
{
    let passer = &state.players[from_slot_idx];
    let receiver = &state.players[to_slot as usize];
    let mid_x = passer.pos_x / 2 + receiver.pos_x / 2;
    let mid_y = passer.pos_y / 2 + receiver.pos_y / 2;
    let passer_quality = compute_passer_quality(passer_skills, kind);
    let passer_team: usize = if from_slot_idx < PLAYERS_PER_TEAM {
        0
    } else {
        1
    };
    let lane_gate = lane_gate_with_interception(
        state,
        passer_team,
        mid_x,
        mid_y,
        lane_openness,
        curved,
    );
    let p_complete = pass_completion_probability(kind, passer_quality, recv_pressure, lane_gate);
    let draw = chacha8_first_draw(rng_seed);
    completes_with_draw(draw, p_complete)
}

/// The lane defender found is never the excluded goalkeeper.
pub proof fn lemma_nearest_defender_not_keeper(
    s: MatchState,
    lo: int,
    hi: int,
    gk: int,
    mx: int,
    my: int,
)
    ensures
        nearest_defender(s, lo, hi, gk, mx, my) matches Some(k) ==> k != gk,
    decreases hi - lo,
{
    if hi > lo {
        lemma_nearest_defender_not_keeper(s, lo, hi - 1, gk, mx, my);
    }
}

/// A stronger lane defender never opens the lane: for openness in
/// `[0, 1]`, raising the interception quality (within `[0, 1]`) never raises
/// the lane gate.
pub proof fn lemma_lane_gate_falls_with_quality(iq1: int, iq2: int, openness: int)
    requires
        0 <= iq1 <= iq2 <= ONE,
        0 <= openness <= ONE,
    ensures
        interception_lane_gate(iq2, openness) <= interception_lane_gate(iq1, openness),
{
    let h = INTERCEPT_SCALE_HIGH - INTERCEPT_SCALE_LOW;
    crate::fixed::lemma_mul_monotone(iq2, h as int, iq1, h as int);
    crate::fixed::lemma_mul_unit(iq1, h as int);
    let s1 = intercept_scale(iq1);
    let s2 = intercept_scale(iq2);
    assert(0 <= s1 <= s2);
    crate::fixed::lemma_mul_monotone(ONE - openness, s2, ONE - openness, s1);
    crate::fixed::lemma_mul_nonneg_bound(ONE - openness, s1, ONE as int, s1);
    let f1 = intercept_factor(iq1, openness);
    let f2 = intercept_factor(iq2, openness);
    assert(0 <= f1 <= f2 <= ONE);
    crate::fixed::lemma_mul_monotone(ONE - LANE_FLOOR, ONE - f1, ONE - LANE_FLOOR, ONE - f2);
}

/// The lane gate of a pass reads interception skills only of the lane
/// defender, an outfielder of the team without the ball: changing the
/// skills of any player of the passing team (passer and receiver
/// included) or of the defending goalkeeper never changes it; and giving
/// any one player skills of at least the quality they had (within `[0, 1]`)
/// never raises it.
pub proof fn lemma_lane_gate_reads_only_the_lane_defender(
    s: MatchState,
    from: int,
    to: int,
    openness: int,
    curved: Seq<CurvedInterceptionSkills>,
    j: int,
    c: CurvedInterceptionSkills,
)
    requires
        0 <= from < 22,
        curved.len() == 22,
        0 <= j < 22,
    ensures
        ((j < 11) == (from < 11) || j == (if from < 11 { 11int } else { 0int })) ==> pass_lane_gate(
            s,
            from,
            to,
            openness,
            curved.update(j, c),
        ) == pass_lane_gate(s, from, to, openness, curved),
        0 <= openness <= ONE && 0 <= interception_quality(curved[j]) <= interception_quality(c) <= ONE
            ==> pass_lane_gate(s, from, to, openness, curved.update(j, c)) <= pass_lane_gate(
            s,
            from,
            to,
            openness,
            curved,
        ),
{
    let m = pass_lane_midpoint(s, from, to);
    let lo = defender_start(passer_team_of(from));
    lemma_nearest_defender_in_range(s, lo, lo + 11, lo, m.0, m.1);
    lemma_nearest_defender_not_keeper(s, lo, lo + 11, lo, m.0, m.1);
    match nearest_defender(s, lo, lo + 11, lo, m.0, m.1) {
        Some(k) => {
            if k == j {
                if 0 <= openness <= ONE && 0 <= interception_quality(curved[j]) <= interception_quality(c)
                    <= ONE {
                    lemma_lane_gate_falls_with_quality(
                        interception_quality(curved[j]),
                        interception_quality(c),
                        openness,
                    );
                }
            } else {
                assert(curved.update(j, c)[k] == curved[k]);
            }
        },
        None => {},
    }
}

/// With an openness in `[0, 1]` and every player's interception quality in
/// `[0, 1]`, the lane gate of any pass lies in `[LANE_FLOOR, 1]`.
pub proof fn lemma_pass_lane_gate_range(
    s: MatchState,
    from: int,
    to: int,
    openness: int,
    curved: Seq<CurvedInterceptionSkills>,
)
    requires
        0 <= from < 22,
        curved.len() == 22,
        0 <= openness <= ONE,
        forall|k: int| 0 <= k < 22 ==> 0 <= #[trigger] interception_quality(curved[k]) <= ONE,
    ensures
        LANE_FLOOR <= pass_lane_gate(s, from, to, openness, curved) <= ONE,
{
    let m = pass_lane_midpoint(s, from, to);
    let lo = defender_start(passer_team_of(from));
    lemma_nearest_defender_in_range(s, lo, lo + 11, lo, m.0, m.1);
    match nearest_defender(s, lo, lo + 11, lo, m.0, m.1) {
        Some(k) => {
            lemma_lane_gate_fits_unit(interception_quality(curved[k]), openness);
        },
        None => {
            lemma_lane_gate_fits_unit(0, openness);
        },
    }
}

/// Whether a pass arrives depends on interception skills only through the
/// lane defender: changing the skills of any player of the passing team
/// (passer and receiver included) or of the defending goalkeeper leaves the
/// completion probability, and so the outcome of every draw, unchanged; and
/// giving any one player skills of at least the interception quality they
/// had never makes the pass more likely to arrive, so a draw that completes
/// it against the stronger player completes it against the weaker one too.
pub proof fn lemma_completion_reads_only_the_lane_defender(
    s: MatchState,
    from: int,
    to: int,
    kind: PassKind,
    q: int,
    rp: int,
    openness: int,
    curved: Seq<CurvedInterceptionSkills>,
    j: int,
    c: CurvedInterceptionSkills,
    draw: u64,
)
    requires
        0 <= from < 22,
        curved.len() == 22,
        0 <= j < 22,
    ensures
        ((j < 11) == (from < 11) || j == (if from < 11 { 11int } else { 0int })) ==> pass_probability(
            kind,
            q,
            rp,
            pass_lane_gate(s, from, to, openness, curved.update(j, c)),
        ) == pass_probability(kind, q, rp, pass_lane_gate(s, from, to, openness, curved)),
        ((j < 11) == (from < 11) || j == (if from < 11 { 11int } else { 0int })) ==> (draw_completes(
            draw,
            pass_probability(kind, q, rp, pass_lane_gate(s, from, to, openness, curved.update(j, c))),
        ) == draw_completes(draw, pass_probability(kind, q, rp, pass_lane_gate(s, from, to, openness, curved)))),
        (0 <= q && 0 <= rp <= ONE && 0 <= openness <= ONE && (forall|k: int|
            0 <= k < 22 ==> 0 <= #[trigger] interception_quality(curved[k]) <= ONE) && interception_quality(
            curved[j],
        ) <= interception_quality(c) <= ONE) ==> {
            let p_strong = pass_probability(
                kind,
                q,
                rp,
                pass_lane_gate(s, from, to, openness, curved.update(j, c)),
            );
            let p_weak = pass_probability(kind, q, rp, pass_lane_gate(s, from, to, openness, curved));
            &&& p_strong <= p_weak
            &&& draw_completes(draw, p_strong) ==> draw_completes(draw, p_weak)
        },
{
    lemma_lane_gate_reads_only_the_lane_defender(s, from, to, openness, curved, j, c);
    if 0 <= q && 0 <= rp <= ONE && 0 <= openness <= ONE && (forall|k: int|
        0 <= k < 22 ==> 0 <= #[trigger] interception_quality(curved[k]) <= ONE) && interception_quality(
        curved[j],
    ) <= interception_quality(c) <= ONE {
        let u = curved.update(j, c);
        assert forall|k: int| 0 <= k < 22 implies 0 <= #[trigger] interception_quality(u[k]) <= ONE by {
            if k != j {
                assert(u[k] == curved[k]);
            }
        }
        lemma_pass_lane_gate_range(s, from, to, openness, u);
        lemma_pass_lane_gate_range(s, from, to, openness, curved);
        lemma_pass_probability_monotone(
            kind,
            q,
            q,
            rp,
            rp,
            pass_lane_gate(s, from, to, openness, u),
            pass_lane_gate(s, from, to, openness, curved),
        );
    }
}

} // verus!
