//! Signature trigger predicates: each returns 0 when the player is not
//! eligible for the signature, and otherwise a fit score in `(0, 1]` — the
//! product of the signature's attributes. Eligibility is a roster-position
//! check (by in-team slot, slot mod 11) plus every listed attribute at
//! least 0.45.

use vstd::prelude::*;

use crate::fixed::{ONE, mul_spec, q_mul, scale};
use crate::match_state::MatchState;
use crate::player::PlayerState;

verus! {

/// Attribute threshold of every trigger: 0.45.
pub const TRIGGER_THRESHOLD: i64 = 1932735283;

/// Every player's attributes lie in `[0, 1]`.
pub open spec fn all_attributes_wf(players: Seq<PlayerState>) -> bool {
    forall|i: int| 0 <= i < players.len() ==> #[trigger] players[i].attributes.wf()
}

/// Fixed-point product of a list of factors, multiplied left to right.
pub open spec fn product(v: Seq<i64>) -> int
    decreases v.len(),
{
    if v.len() == 0 {
        ONE as int
    } else if v.len() == 1 {
        v[0] as int
    } else {
        mul_spec(product(v.drop_last()), v.last() as int)
    }
}

/// Every factor is at least the trigger threshold.
pub open spec fn all_above_threshold(v: Seq<i64>) -> bool {
    forall|i: int| 0 <= i < v.len() ==> #[trigger] v[i] >= TRIGGER_THRESHOLD
}

/// A trigger's value: its product when eligible, otherwise 0.
pub open spec fn trigger_value(role_ok: bool, v: Seq<i64>) -> i64 {
    if role_ok && all_above_threshold(v) {
        product(v) as i64
    } else {
        0
    }
}

/// Products of one to five unit factors lie in `[0, 1]`, and are positive
/// when every factor reaches the threshold.
pub proof fn lemma_product_bounds(v: Seq<i64>)
    requires
        1 <= v.len() <= 5,
        forall|i: int| 0 <= i < v.len() ==> 0 <= #[trigger] v[i] <= ONE,
    ensures
        0 <= product(v) <= ONE,
        all_above_threshold(v) ==> product(v) >= threshold_floor(v.len() as int),
    decreases v.len(),
{
    if v.len() > 1 {
        let w = v.drop_last();
        assert forall|i: int| 0 <= i < w.len() implies 0 <= #[trigger] w[i] <= ONE by {
            assert(w[i] == v[i]);
        }
        lemma_product_bounds(w);
        crate::fixed::lemma_mul_unit(product(w), v.last() as int);
        if all_above_threshold(v) {
            assert forall|i: int| 0 <= i < w.len() implies #[trigger] w[i] >= TRIGGER_THRESHOLD by {
                assert(w[i] == v[i]);
            }
            assert(v.last() >= TRIGGER_THRESHOLD);
            lemma_product_lower(v.len() as int, product(w), v.last() as int);
        }
    }
}

/// A trigger's value is positive exactly when the player is eligible: the
/// roster position fits and every factor (each in `[0, 1]`) reaches the
/// threshold. It then lies in `(0, 1]`; otherwise it is 0.
pub proof fn lemma_trigger_positive_iff_eligible(role_ok: bool, v: Seq<i64>)
    requires
        1 <= v.len() <= 5,
        forall|i: int| 0 <= i < v.len() ==> 0 <= #[trigger] v[i] <= ONE,
    ensures
        trigger_value(role_ok, v) > 0 <==> (role_ok && all_above_threshold(v)),
        0 <= trigger_value(role_ok, v) <= ONE,
{
    lemma_product_bounds(v);
}

/// One more factor at or above the threshold keeps a product of up to four
/// thresholded factors above the floor for five.
proof fn lemma_product_lower(n: int, p: int, x: int)
    requires
        2 <= n <= 5,
        p >= threshold_floor(n - 1),
        x >= TRIGGER_THRESHOLD,
    ensures
        mul_spec(p, x) >= threshold_floor(n),
{
    crate::fixed::lemma_mul_monotone(p, x, threshold_floor(n - 1), TRIGGER_THRESHOLD as int);
    if n == 2 {
        assert(mul_spec(1932735283, 1932735283) >= 869730877);
    } else if n == 3 {
        assert(mul_spec(869730877, 1932735283) >= 391378894);
    } else if n == 4 {
        assert(mul_spec(391378894, 1932735283) >= 176120502);
    } else {
        assert(mul_spec(176120502, 1932735283) >= 79254225);
    }
}

/// A lower bound on the product of `n` factors at or above the threshold:
/// 0.45, 0.2025, 0.091, 0.041, 0.018 (rounded down).
pub open spec fn threshold_floor(n: int) -> int {
    if n <= 1 {
        TRIGGER_THRESHOLD as int
    } else if n == 2 {
        869730877
    } else if n == 3 {
        391378894
    } else if n == 4 {
        176120502
    } else {
        79254225
    }
}

/// Attribute factors of body shield pressure.
pub open spec fn body_shield_pressure_factors(s: MatchState, slot: u8) -> Seq<i64> {
    let a = s.players@[slot as int].attributes;
    seq![a.technical.marking, a.physical.strength, a.personality.aggression]
}

/// Value of the body shield pressure trigger for the player in `slot`
/// (0 for a slot with no player).
pub open spec fn body_shield_pressure_fit(s: MatchState, slot: u8) -> i64 {
    let idx = slot as int;
    if idx >= s.players@.len() {
        0
    } else {
        let in_team = idx % 11;
        trigger_value(1 <= in_team <= 7, body_shield_pressure_factors(s, slot))
    }
}

/// `fwh.core:signature.body-shield-pressure` — a defender or midfielder (in-team slots 1–7) with the marking, strength and aggression to hold off a carrier.
pub fn body_shield_pressure_trigger(state: &MatchState, slot: u8) -> (r: i64)
    requires
        all_attributes_wf(state.players@),
    ensures
        r == body_shield_pressure_fit(*state, slot),
        0 <= r <= ONE,
{
    let idx = slot as usize;
    if idx >= state.players.len() {
        return 0;
    }
    let a = &state.players[idx].attributes;
    let in_team = idx % 11;
    if !((1..=7usize).contains(&in_team)) {
        return 0;
    }
    proof {
        let v = body_shield_pressure_factors(*state, slot);
        assert(state.players@[idx as int].attributes.wf());
        lemma_product_bounds(v);
    }
    if a.technical.marking < TRIGGER_THRESHOLD || a.physical.strength < TRIGGER_THRESHOLD || a.personality.aggression < TRIGGER_THRESHOLD {
        proof {
            let v = body_shield_pressure_factors(*state, slot);
            assert(!all_above_threshold(v)) by {
                assert(v[0] == a.technical.marking);
                assert(v[1] == a.physical.strength);
                assert(v[2] == a.personality.aggression);
            }
        }
        return 0;
    }
    proof {
        let v = body_shield_pressure_factors(*state, slot);
        assert(v.subrange(0, 1) == seq![a.technical.marking]);
        assert(v.subrange(0, 2) == seq![a.technical.marking, a.physical.strength]);
        assert(v.subrange(0, 3) == seq![a.technical.marking, a.physical.strength, a.personality.aggression]);
    }
    let p0 = a.technical.marking;
    proof {
        let v = body_shield_pressure_factors(*state, slot);
        assert(p0 == product(v.subrange(0, 1)));
        lemma_product_bounds(v.subrange(0, 1));
        crate::fixed::lemma_mul_unit(p0 as int, a.physical.strength as int);
        assert(v.subrange(0, 2).drop_last() == v.subrange(0, 1));
    }
    let p1 = q_mul(p0, a.physical.strength);
    proof {
        let v = body_shield_pressure_factors(*state, slot);
        assert(p1 == product(v.subrange(0, 2)));
        lemma_product_bounds(v.subrange(0, 2));
        crate::fixed::lemma_mul_unit(p1 as int, a.personality.aggression as int);
        assert(v.subrange(0, 3).drop_last() == v.subrange(0, 2));
    }
    let p2 = q_mul(p1, a.personality.aggression);
    proof {
        let v = body_shield_pressure_factors(*state, slot);
        assert(v.subrange(0, 3) == v);
        assert(all_above_threshold(v));
    }
    p2
}

/// Attribute factors of long range strike.
pub open spec fn long_range_strike_factors(s: MatchState, slot: u8) -> Seq<i64> {
    let a = s.players@[slot as int].attributes;
    seq![a.mental.composure, a.technical.long_shots]
}

/// Value of the long range strike trigger for the player in `slot`
/// (0 for a slot with no player).
pub open spec fn long_range_strike_fit(s: MatchState, slot: u8) -> i64 {
    let idx = slot as int;
    if idx >= s.players@.len() {
        0
    } else {
        let in_team = idx % 11;
        trigger_value(5 <= in_team <= 10, long_range_strike_factors(s, slot))
    }
}

/// `fwh.core:signature.long-range-strike` — a midfielder or forward (in-team slots 5–10) with the composure and technique to shoot from distance.
pub fn long_range_strike_trigger(state: &MatchState, slot: u8) -> (r: i64)
    requires
        all_attributes_wf(state.players@),
    ensures
        r == long_range_strike_fit(*state, slot),
        0 <= r <= ONE,
{
    let idx = slot as usize;
    if idx >= state.players.len() {
        return 0;
    }
    let a = &state.players[idx].attributes;
    let in_team = idx % 11;
    if !((5..=10usize).contains(&in_team)) {
        return 0;
    }
    proof {
        let v = long_range_strike_factors(*state, slot);
        assert(state.players@[idx as int].attributes.wf());
        lemma_product_bounds(v);
    }
    if a.mental.composure < TRIGGER_THRESHOLD || a.technical.long_shots < TRIGGER_THRESHOLD {
        proof {
            let v = long_range_strike_factors(*state, slot);
            assert(!all_above_threshold(v)) by {
                assert(v[0] == a.mental.composure);
                assert(v[1] == a.technical.long_shots);
            }
        }
        return 0;
    }
    proof {
        let v = long_range_strike_factors(*state, slot);
        assert(v.subrange(0, 1) == seq![a.mental.composure]);
        assert(v.subrange(0, 2) == seq![a.mental.composure, a.technical.long_shots]);
    }
    let p0 = a.mental.composure;
    proof {
        let v = long_range_strike_factors(*state, slot);
        assert(p0 == product(v.subrange(0, 1)));
        lemma_product_bounds(v.subrange(0, 1));
        crate::fixed::lemma_mul_unit(p0 as int, a.technical.long_shots as int);
        assert(v.subrange(0, 2).drop_last() == v.subrange(0, 1));
    }
    let p1 = q_mul(p0, a.technical.long_shots);
    proof {
        let v = long_range_strike_factors(*state, slot);
        assert(v.subrange(0, 2) == v);
        assert(all_above_threshold(v));
    }
    p1
}

/// Attribute factors of first time diagonal switch.
pub open spec fn first_time_diagonal_switch_factors(s: MatchState, slot: u8) -> Seq<i64> {
    let a = s.players@[slot as int].attributes;
    seq![a.mental.vision, a.technical.passing]
}

/// Value of the first time diagonal switch trigger for the player in `slot`
/// (0 for a slot with no player).
pub open spec fn first_time_diagonal_switch_fit(s: MatchState, slot: u8) -> i64 {
    let idx = slot as int;
    if idx >= s.players@.len() {
        0
    } else {
        let in_team = idx % 11;
        trigger_value(5 <= in_team <= 7, first_time_diagonal_switch_factors(s, slot))
    }
}

/// `fwh.core:signature.first-time-diagonal-switch` — a midfielder (in-team slots 5–7) with the vision and passing to switch play first time.
pub fn first_time_diagonal_switch_trigger(state: &MatchState, slot: u8) -> (r: i64)
    requires
        all_attributes_wf(state.players@),
    ensures
        r == first_time_diagonal_switch_fit(*state, slot),
        0 <= r <= ONE,
{
    let idx = slot as usize;
    if idx >= state.players.len() {
        return 0;
    }
    let a = &state.players[idx].attributes;
    let in_team = idx % 11;
    if !((5..=7usize).contains(&in_team)) {
        return 0;
    }
    proof {
        let v = first_time_diagonal_switch_factors(*state, slot);
        assert(state.players@[idx as int].attributes.wf());
        lemma_product_bounds(v);
    }
    if a.mental.vision < TRIGGER_THRESHOLD || a.technical.passing < TRIGGER_THRESHOLD {
        proof {
            let v = first_time_diagonal_switch_factors(*state, slot);
            assert(!all_above_threshold(v)) by {
                assert(v[0] == a.mental.vision);
                assert(v[1] == a.technical.passing);
            }
        }
        return 0;
    }
    proof {
        let v = first_time_diagonal_switch_factors(*state, slot);
        assert(v.subrange(0, 1) == seq![a.mental.vision]);
        assert(v.subrange(0, 2) == seq![a.mental.vision, a.technical.passing]);
    }
    let p0 = a.mental.vision;
    proof {
        let v = first_time_diagonal_switch_factors(*state, slot);
        assert(p0 == product(v.subrange(0, 1)));
        lemma_product_bounds(v.subrange(0, 1));
        crate::fixed::lemma_mul_unit(p0 as int, a.technical.passing as int);
        assert(v.subrange(0, 2).drop_last() == v.subrange(0, 1));
    }
    let p1 = q_mul(p0, a.technical.passing);
    proof {
        let v = first_time_diagonal_switch_factors(*state, slot);
        assert(v.subrange(0, 2) == v);
        assert(all_above_threshold(v));
    }
    p1
}

/// Attribute factors of commanding claim.
pub open spec fn commanding_claim_factors(s: MatchState, slot: u8) -> Seq<i64> {
    let a = s.players@[slot as int].attributes;
    seq![a.goalkeeper.aerial_reach, a.goalkeeper.handling, a.goalkeeper.command_of_area]
}

/// Value of the commanding claim trigger for the player in `slot`
/// (0 for a slot with no player).
pub open spec fn commanding_claim_fit(s: MatchState, slot: u8) -> i64 {
    let idx = slot as int;
    if idx >= s.players@.len() {
        0
    } else {
        let in_team = idx % 11;
        trigger_value(in_team == 0, commanding_claim_factors(s, slot))
    }
}

/// `fwh.core:signature.commanding-claim` — a goalkeeper (in-team slot 0) with the reach, handling and command of area to claim decisively.
pub fn commanding_claim_trigger(state: &MatchState, slot: u8) -> (r: i64)
    requires
        all_attributes_wf(state.players@),
    ensures
        r == commanding_claim_fit(*state, slot),
        0 <= r <= ONE,
{
    let idx = slot as usize;
    if idx >= state.players.len() {
        return 0;
    }
    let a = &state.players[idx].attributes;
    let in_team = idx % 11;
    if !(in_team == 0) {
        return 0;
    }
    proof {
        let v = commanding_claim_factors(*state, slot);
        assert(state.players@[idx as int].attributes.wf());
        lemma_product_bounds(v);
    }
    if a.goalkeeper.aerial_reach < TRIGGER_THRESHOLD || a.goalkeeper.handling < TRIGGER_THRESHOLD || a.goalkeeper.command_of_area < TRIGGER_THRESHOLD {
        proof {
            let v = commanding_claim_factors(*state, slot);
            assert(!all_above_threshold(v)) by {
                assert(v[0] == a.goalkeeper.aerial_reach);
                assert(v[1] == a.goalkeeper.handling);
                assert(v[2] == a.goalkeeper.command_of_area);
            }
        }
        return 0;
    }
    proof {
        let v = commanding_claim_factors(*state, slot);
        assert(v.subrange(0, 1) == seq![a.goalkeeper.aerial_reach]);
        assert(v.subrange(0, 2) == seq![a.goalkeeper.aerial_reach, a.goalkeeper.handling]);
        assert(v.subrange(0, 3) == seq![a.goalkeeper.aerial_reach, a.goalkeeper.handling, a.goalkeeper.command_of_area]);
    }
    let p0 = a.goalkeeper.aerial_reach;
    proof {
        let v = commanding_claim_factors(*state, slot);
        assert(p0 == product(v.subrange(0, 1)));
        lemma_product_bounds(v.subrange(0, 1));
        crate::fixed::lemma_mul_unit(p0 as int, a.goalkeeper.handling as int);
        assert(v.subrange(0, 2).drop_last() == v.subrange(0, 1));
    }
    let p1 = q_mul(p0, a.goalkeeper.handling);
    proof {
        let v = commanding_claim_factors(*state, slot);
        assert(p1 == product(v.subrange(0, 2)));
        lemma_product_bounds(v.subrange(0, 2));
        crate::fixed::lemma_mul_unit(p1 as int, a.goalkeeper.command_of_area as int);
        assert(v.subrange(0, 3).drop_last() == v.subrange(0, 2));
    }
    let p2 = q_mul(p1, a.goalkeeper.command_of_area);
    proof {
        let v = commanding_claim_factors(*state, slot);
        assert(v.subrange(0, 3) == v);
        assert(all_above_threshold(v));
    }
    p2
}

/// Attribute factors of overlapping surge.
pub open spec fn overlapping_surge_factors(s: MatchState, slot: u8) -> Seq<i64> {
    let a = s.players@[slot as int].attributes;
    seq![a.physical.pace, a.physical.stamina, a.technical.crossing]
}

/// Value of the overlapping surge trigger for the player in `slot`
/// (0 for a slot with no player).
pub open spec fn overlapping_surge_fit(s: MatchState, slot: u8) -> i64 {
    let idx = slot as int;
    if idx >= s.players@.len() {
        0
    } else {
        let in_team = idx % 11;
        trigger_value(in_team == 1 || in_team == 4, overlapping_surge_factors(s, slot))
    }
}

/// `fwh.core:signature.overlapping-surge` — a full-back (in-team slot 1 or 4) with the pace, stamina and crossing for an overlapping run.
pub fn overlapping_surge_trigger(state: &MatchState, slot: u8) -> (r: i64)
    requires
        all_attributes_wf(state.players@),
    ensures
        r == overlapping_surge_fit(*state, slot),
        0 <= r <= ONE,
{
    let idx = slot as usize;
    if idx >= state.players.len() {
        return 0;
    }
    let a = &state.players[idx].attributes;
    let in_team = idx % 11;
    if !(in_team == 1 || in_team == 4) {
        return 0;
    }
    proof {
        let v = overlapping_surge_factors(*state, slot);
        assert(state.players@[idx as int].attributes.wf());
        lemma_product_bounds(v);
    }
    if a.physical.pace < TRIGGER_THRESHOLD || a.physical.stamina < TRIGGER_THRESHOLD || a.technical.crossing < TRIGGER_THRESHOLD {
        proof {
            let v = overlapping_surge_factors(*state, slot);
            assert(!all_above_threshold(v)) by {
                assert(v[0] == a.physical.pace);
                assert(v[1] == a.physical.stamina);
                assert(v[2] == a.technical.crossing);
            }
        }
        return 0;
    }
    proof {
        let v = overlapping_surge_factors(*state, slot);
        assert(v.subrange(0, 1) == seq![a.physical.pace]);
        assert(v.subrange(0, 2) == seq![a.physical.pace, a.physical.stamina]);
        assert(v.subrange(0, 3) == seq![a.physical.pace, a.physical.stamina, a.technical.crossing]);
    }
    let p0 = a.physical.pace;
    proof {
        let v = overlapping_surge_factors(*state, slot);
        assert(p0 == product(v.subrange(0, 1)));
        lemma_product_bounds(v.subrange(0, 1));
        crate::fixed::lemma_mul_unit(p0 as int, a.physical.stamina as int);
        assert(v.subrange(0, 2).drop_last() == v.subrange(0, 1));
    }
    let p1 = q_mul(p0, a.physical.stamina);
    proof {
        let v = overlapping_surge_factors(*state, slot);
        assert(p1 == product(v.subrange(0, 2)));
        lemma_product_bounds(v.subrange(0, 2));
        crate::fixed::lemma_mul_unit(p1 as int, a.technical.crossing as int);
        assert(v.subrange(0, 3).drop_last() == v.subrange(0, 2));
    }
    let p2 = q_mul(p1, a.technical.crossing);
    proof {
        let v = overlapping_surge_factors(*state, slot);
        assert(v.subrange(0, 3) == v);
        assert(all_above_threshold(v));
    }
    p2
}

/// Attribute factors of screening interception.
pub open spec fn screening_interception_factors(s: MatchState, slot: u8) -> Seq<i64> {
    let a = s.players@[slot as int].attributes;
    seq![a.mental.anticipation, a.mental.positioning, a.technical.tackling, a.technical.marking]
}

/// Value of the screening interception trigger for the player in `slot`
/// (0 for a slot with no player).
pub open spec fn screening_interception_fit(s: MatchState, slot: u8) -> i64 {
    let idx = slot as int;
    if idx >= s.players@.len() {
        0
    } else {
        let in_team = idx % 11;
        trigger_value(in_team == 5, screening_interception_factors(s, slot))
    }
}

/// `fwh.core:signature.screening-interception` — the holding midfielder (in-team slot 5) with the anticipation, positioning, tackling and marking to intercept.
pub fn screening_interception_trigger(state: &MatchState, slot: u8) -> (r: i64)
    requires
        all_attributes_wf(state.players@),
    ensures
        r == screening_interception_fit(*state, slot),
        0 <= r <= ONE,
{
    let idx = slot as usize;
    if idx >= state.players.len() {
        return 0;
    }
    let a = &state.players[idx].attributes;
    let in_team = idx % 11;
    if !(in_team == 5) {
        return 0;
    }
    proof {
        let v = screening_interception_factors(*state, slot);
        assert(state.players@[idx as int].attributes.wf());
        lemma_product_bounds(v);
    }
    if a.mental.anticipation < TRIGGER_THRESHOLD || a.mental.positioning < TRIGGER_THRESHOLD || a.technical.tackling < TRIGGER_THRESHOLD || a.technical.marking < TRIGGER_THRESHOLD {
        proof {
            let v = screening_interception_factors(*state, slot);
            assert(!all_above_threshold(v)) by {
                assert(v[0] == a.mental.anticipation);
                assert(v[1] == a.mental.positioning);
                assert(v[2] == a.technical.tackling);
                assert(v[3] == a.technical.marking);
            }
        }
        return 0;
    }
    proof {
        let v = screening_interception_factors(*state, slot);
        assert(v.subrange(0, 1) == seq![a.mental.anticipation]);
        assert(v.subrange(0, 2) == seq![a.mental.anticipation, a.mental.positioning]);
        assert(v.subrange(0, 3) == seq![a.mental.anticipation, a.mental.positioning, a.technical.tackling]);
        assert(v.subrange(0, 4) == seq![a.mental.anticipation, a.mental.positioning, a.technical.tackling, a.technical.marking]);
    }
    let p0 = a.mental.anticipation;
    proof {
        let v = screening_interception_factors(*state, slot);
        assert(p0 == product(v.subrange(0, 1)));
        lemma_product_bounds(v.subrange(0, 1));
        crate::fixed::lemma_mul_unit(p0 as int, a.mental.positioning as int);
        assert(v.subrange(0, 2).drop_last() == v.subrange(0, 1));
    }
    let p1 = q_mul(p0, a.mental.positioning);
    proof {
        let v = screening_interception_factors(*state, slot);
        assert(p1 == product(v.subrange(0, 2)));
        lemma_product_bounds(v.subrange(0, 2));
        crate::fixed::lemma_mul_unit(p1 as int, a.technical.tackling as int);
        assert(v.subrange(0, 3).drop_last() == v.subrange(0, 2));
    }
    let p2 = q_mul(p1, a.technical.tackling);
    proof {
        let v = screening_interception_factors(*state, slot);
        assert(p2 == product(v.subrange(0, 3)));
        lemma_product_bounds(v.subrange(0, 3));
        crate::fixed::lemma_mul_unit(p2 as int, a.technical.marking as int);
        assert(v.subrange(0, 4).drop_last() == v.subrange(0, 3));
    }
    let p3 = q_mul(p2, a.technical.marking);
    proof {
        let v = screening_interception_factors(*state, slot);
        assert(v.subrange(0, 4) == v);
        assert(all_above_threshold(v));
    }
    p3
}

/// Attribute factors of touchline beat.
pub open spec fn touchline_beat_factors(s: MatchState, slot: u8) -> Seq<i64> {
    let a = s.players@[slot as int].attributes;
    seq![a.technical.dribbling, a.physical.pace, a.technical.crossing]
}

/// Value of the touchline beat trigger for the player in `slot`
/// (0 for a slot with no player).
pub open spec fn touchline_beat_fit(s: MatchState, slot: u8) -> i64 {
    let idx = slot as int;
    if idx >= s.players@.len() {
        0
    } else {
        let in_team = idx % 11;
        trigger_value(in_team == 8 || in_team == 10, touchline_beat_factors(s, slot))
    }
}

/// `fwh.core:signature.touchline-beat` — a winger (in-team slot 8 or 10) with the dribbling, pace and crossing to beat a full-back on the line.
pub fn touchline_beat_trigger(state: &MatchState, slot: u8) -> (r: i64)
    requires
        all_attributes_wf(state.players@),
    ensures
        r == touchline_beat_fit(*state, slot),
        0 <= r <= ONE,
{
    let idx = slot as usize;
    if idx >= state.players.len() {
        return 0;
    }
    let a = &state.players[idx].attributes;
    let in_team = idx % 11;
    if !(in_team == 8 || in_team == 10) {
        return 0;
    }
    proof {
        let v = touchline_beat_factors(*state, slot);
        assert(state.players@[idx as int].attributes.wf());
        lemma_product_bounds(v);
    }
    if a.technical.dribbling < TRIGGER_THRESHOLD || a.physical.pace < TRIGGER_THRESHOLD || a.technical.crossing < TRIGGER_THRESHOLD {
        proof {
            let v = touchline_beat_factors(*state, slot);
            assert(!all_above_threshold(v)) by {
                assert(v[0] == a.technical.dribbling);
                assert(v[1] == a.physical.pace);
                assert(v[2] == a.technical.crossing);
            }
        }
        return 0;
    }
    proof {
        let v = touchline_beat_factors(*state, slot);
        assert(v.subrange(0, 1) == seq![a.technical.dribbling]);
        assert(v.subrange(0, 2) == seq![a.technical.dribbling, a.physical.pace]);
        assert(v.subrange(0, 3) == seq![a.technical.dribbling, a.physical.pace, a.technical.crossing]);
    }
    let p0 = a.technical.dribbling;
    proof {
        let v = touchline_beat_factors(*state, slot);
        assert(p0 == product(v.subrange(0, 1)));
        lemma_product_bounds(v.subrange(0, 1));
        crate::fixed::lemma_mul_unit(p0 as int, a.physical.pace as int);
        assert(v.subrange(0, 2).drop_last() == v.subrange(0, 1));
    }
    let p1 = q_mul(p0, a.physical.pace);
    proof {
        let v = touchline_beat_factors(*state, slot);
        assert(p1 == product(v.subrange(0, 2)));
        lemma_product_bounds(v.subrange(0, 2));
        crate::fixed::lemma_mul_unit(p1 as int, a.technical.crossing as int);
        assert(v.subrange(0, 3).drop_last() == v.subrange(0, 2));
    }
    let p2 = q_mul(p1, a.technical.crossing);
    proof {
        let v = touchline_beat_factors(*state, slot);
        assert(v.subrange(0, 3) == v);
        assert(all_above_threshold(v));
    }
    p2
}

/// Attribute factors of poachers dart.
pub open spec fn poachers_dart_factors(s: MatchState, slot: u8) -> Seq<i64> {
    let a = s.players@[slot as int].attributes;
    seq![a.mental.off_the_ball, a.mental.anticipation, a.technical.finishing, a.physical.acceleration, a.physical.pace]
}

/// Value of the poachers dart trigger for the player in `slot`
/// (0 for a slot with no player).
pub open spec fn poachers_dart_fit(s: MatchState, slot: u8) -> i64 {
    let idx = slot as int;
    if idx >= s.players@.len() {
        0
    } else {
        let in_team = idx % 11;
        trigger_value(in_team == 9, poachers_dart_factors(s, slot))
    }
}

/// `fwh.core:signature.poachers-dart` — the centre-forward (in-team slot 9) with the movement, anticipation, finishing, acceleration and pace to dart in behind.
pub fn poachers_dart_trigger(state: &MatchState, slot: u8) -> (r: i64)
    requires
        all_attributes_wf(state.players@),
    ensures
        r == poachers_dart_fit(*state, slot),
        0 <= r <= ONE,
{
    let idx = slot as usize;
    if idx >= state.players.len() {
        return 0;
    }
    let a = &state.players[idx].attributes;
    let in_team = idx % 11;
    if !(in_team == 9) {
        return 0;
    }
    proof {
        let v = poachers_dart_factors(*state, slot);
        assert(state.players@[idx as int].attributes.wf());
        lemma_product_bounds(v);
    }
    if a.mental.off_the_ball < TRIGGER_THRESHOLD || a.mental.anticipation < TRIGGER_THRESHOLD || a.technical.finishing < TRIGGER_THRESHOLD || a.physical.acceleration < TRIGGER_THRESHOLD || a.physical.pace < TRIGGER_THRESHOLD {
        proof {
            let v = poachers_dart_factors(*state, slot);
            assert(!all_above_threshold(v)) by {
                assert(v[0] == a.mental.off_the_ball);
                assert(v[1] == a.mental.anticipation);
                assert(v[2] == a.technical.finishing);
                assert(v[3] == a.physical.acceleration);
                assert(v[4] == a.physical.pace);
            }
        }
        return 0;
    }
    proof {
        let v = poachers_dart_factors(*state, slot);
        assert(v.subrange(0, 1) == seq![a.mental.off_the_ball]);
        assert(v.subrange(0, 2) == seq![a.mental.off_the_ball, a.mental.anticipation]);
        assert(v.subrange(0, 3) == seq![a.mental.off_the_ball, a.mental.anticipation, a.technical.finishing]);
        assert(v.subrange(0, 4) == seq![a.mental.off_the_ball, a.mental.anticipation, a.technical.finishing, a.physical.acceleration]);
        assert(v.subrange(0, 5) == seq![a.mental.off_the_ball, a.mental.anticipation, a.technical.finishing, a.physical.acceleration, a.physical.pace]);
    }
    let p0 = a.mental.off_the_ball;
    proof {
        let v = poachers_dart_factors(*state, slot);
        assert(p0 == product(v.subrange(0, 1)));
        lemma_product_bounds(v.subrange(0, 1));
        crate::fixed::lemma_mul_unit(p0 as int, a.mental.anticipation as int);
        assert(v.subrange(0, 2).drop_last() == v.subrange(0, 1));
    }
    let p1 = q_mul(p0, a.mental.anticipation);
    proof {
        let v = poachers_dart_factors(*state, slot);
        assert(p1 == product(v.subrange(0, 2)));
        lemma_product_bounds(v.subrange(0, 2));
        crate::fixed::lemma_mul_unit(p1 as int, a.technical.finishing as int);
        assert(v.subrange(0, 3).drop_last() == v.subrange(0, 2));
    }
    let p2 = q_mul(p1, a.technical.finishing);
    proof {
        let v = poachers_dart_factors(*state, slot);
        assert(p2 == product(v.subrange(0, 3)));
        lemma_product_bounds(v.subrange(0, 3));
        crate::fixed::lemma_mul_unit(p2 as int, a.physical.acceleration as int);
        assert(v.subrange(0, 4).drop_last() == v.subrange(0, 3));
    }
    let p3 = q_mul(p2, a.physical.acceleration);
    proof {
        let v = poachers_dart_factors(*state, slot);
        assert(p3 == product(v.subrange(0, 4)));
        lemma_product_bounds(v.subrange(0, 4));
        crate::fixed::lemma_mul_unit(p3 as int, a.physical.pace as int);
        assert(v.subrange(0, 5).drop_last() == v.subrange(0, 4));
    }
    let p4 = q_mul(p3, a.physical.pace);
    proof {
        let v = poachers_dart_factors(*state, slot);
        assert(v.subrange(0, 5) == v);
        assert(all_above_threshold(v));
    }
    p4
}

/// Trigger of the no-op stub signature: never eligible.
pub fn no_op_trigger(state: &MatchState, slot: u8) -> (r: i64)
    ensures
        r == 0,
{
    0
}

} // verus!
