//! The second firing gate of a signature: is the player, this tick, really
//! performing the signature's move in live play? And the binding of each
//! signature id to its attribute-fit trigger.

use vstd::prelude::*;

use crate::dispatch::attacking_goal_x;
use crate::fixed::{ONE, abs_bits, abs_spec, dist_sq, dist_sq_fits, dist_sq_spec, fits};
use crate::match_rules::PitchGeometry;
use crate::match_state::{MatchState, PLAYERS_PER_TEAM};
use crate::role_states::PlayerIntent;
use crate::signature::triggers::{
    all_attributes_wf, body_shield_pressure_fit, body_shield_pressure_trigger,
    commanding_claim_fit, commanding_claim_trigger, first_time_diagonal_switch_fit,
    first_time_diagonal_switch_trigger, long_range_strike_fit, long_range_strike_trigger,
    no_op_trigger, overlapping_surge_fit, overlapping_surge_trigger, poachers_dart_fit,
    poachers_dart_trigger, screening_interception_fit, screening_interception_trigger,
    touchline_beat_fit, touchline_beat_trigger,
};

verus! {

/// No signature fires in the first 60 ticks (one second) of a match.
pub const SIGNATURE_SETTLE_TICKS: i64 = 60;

/// Width of the wide channel inside each sideline: 10 m.
pub const TOUCHLINE_BAND_M: i64 = 42949672960;

/// Penalty-area depth from the goal line: 16.5 m.
pub const PENALTY_AREA_DEPTH_M: i64 = 70866960384;

/// Penalty-area half-width: 20 m.
pub const PENALTY_AREA_HALF_WIDTH_M: i64 = 85899345920;

/// A long-range strike is taken at least 22 m from the goal line attacked.
pub const LONG_RANGE_MIN_DIST_M: i64 = 94489280512;

/// Squared press-contest radius: (4 m)² = 16 m².
pub const PRESS_CONTEST_RADIUS_SQ: i64 = 68719476736;

/// The signatures shipped with the game.
#[derive(Debug, Clone, Copy, PartialEq, Eq, Structural)]
pub enum SignatureKind {
    BodyShieldPressure,
    LongRangeStrike,
    FirstTimeDiagonalSwitch,
    CommandingClaim,
    OverlappingSurge,
    ScreeningInterception,
    TouchlineBeat,
    PoachersDart,
    NoOpStub,
}

/// The signature an id names, if it is one of the shipped signatures.
pub open spec fn kind_of_id(id: Seq<char>) -> Option<SignatureKind> {
    if id == "fwh.core:signature.body-shield-pressure"@ {
        Some(SignatureKind::BodyShieldPressure)
    } else if id == "fwh.core:signature.long-range-strike"@ {
        Some(SignatureKind::LongRangeStrike)
    } else if id == "fwh.core:signature.first-time-diagonal-switch"@ {
        Some(SignatureKind::FirstTimeDiagonalSwitch)
    } else if id == "fwh.core:signature.commanding-claim"@ {
        Some(SignatureKind::CommandingClaim)
    } else if id == "fwh.core:signature.overlapping-surge"@ {
        Some(SignatureKind::OverlappingSurge)
    } else if id == "fwh.core:signature.screening-interception"@ {
        Some(SignatureKind::ScreeningInterception)
    } else if id == "fwh.core:signature.touchline-beat"@ {
        Some(SignatureKind::TouchlineBeat)
    } else if id == "fwh.core:signature.poachers-dart"@ {
        Some(SignatureKind::PoachersDart)
    } else if id == "fwh.core:signature.no-op-stub"@ {
        Some(SignatureKind::NoOpStub)
    } else {
        None
    }
}

fn id_is(id: &String, lit: &str) -> (b: bool)
    ensures
        b == (id@ == lit@),
{
    let s = lit.to_owned();
    *id == s
}

/// The shipped signature an id names; `None` for an unknown id.
pub fn signature_kind(id: &String) -> (k: Option<SignatureKind>)
    ensures
        k == kind_of_id(id@),
{
    if id_is(id, "fwh.core:signature.body-shield-pressure") {
        Some(SignatureKind::BodyShieldPressure)
    } else if id_is(id, "fwh.core:signature.long-range-strike") {
        Some(SignatureKind::LongRangeStrike)
    } else if id_is(id, "fwh.core:signature.first-time-diagonal-switch") {
        Some(SignatureKind::FirstTimeDiagonalSwitch)
    } else if id_is(id, "fwh.core:signature.commanding-claim") {
        Some(SignatureKind::CommandingClaim)
    } else if id_is(id, "fwh.core:signature.overlapping-surge") {
        Some(SignatureKind::OverlappingSurge)
    } else if id_is(id, "fwh.core:signature.screening-interception") {
        Some(SignatureKind::ScreeningInterception)
    } else if id_is(id, "fwh.core:signature.touchline-beat") {
        Some(SignatureKind::TouchlineBeat)
    } else if id_is(id, "fwh.core:signature.poachers-dart") {
        Some(SignatureKind::PoachersDart)
    } else if id_is(id, "fwh.core:signature.no-op-stub") {
        Some(SignatureKind::NoOpStub)
    } else {
        None
    }
}

// ---------------------------------------------------------------------------
// Trigger binding
// ---------------------------------------------------------------------------

/// The attribute-fit trigger value of a signature for the player in `slot`.
pub open spec fn trigger_fit(kind: SignatureKind, s: MatchState, slot: u8) -> i64 {
    match kind {
        SignatureKind::BodyShieldPressure => body_shield_pressure_fit(s, slot),
        SignatureKind::LongRangeStrike => long_range_strike_fit(s, slot),
        SignatureKind::FirstTimeDiagonalSwitch => first_time_diagonal_switch_fit(s, slot),
        SignatureKind::CommandingClaim => commanding_claim_fit(s, slot),
        SignatureKind::OverlappingSurge => overlapping_surge_fit(s, slot),
        SignatureKind::ScreeningInterception => screening_interception_fit(s, slot),
        SignatureKind::TouchlineBeat => touchline_beat_fit(s, slot),
        SignatureKind::PoachersDart => poachers_dart_fit(s, slot),
        SignatureKind::NoOpStub => 0,
    }
}

/// Every trigger's fit score lies in `[0, 1]`.
pub proof fn lemma_trigger_fit_unit(kind: SignatureKind, s: MatchState, slot: u8)
    requires
        crate::signature::triggers::all_attributes_wf(s.players@),
    ensures
        0 <= trigger_fit(kind, s, slot) <= ONE,
{
    if (slot as int) < s.players@.len() {
        match kind {
        SignatureKind::BodyShieldPressure => {
            let v = crate::signature::triggers::body_shield_pressure_factors(s, slot);
            assert forall|i: int| 0 <= i < v.len() implies 0 <= #[trigger] v[i] <= ONE by {
                assert(s.players@[slot as int].attributes.wf());
            }
            crate::signature::triggers::lemma_product_bounds(v);
        },
        SignatureKind::LongRangeStrike => {
            let v = crate::signature::triggers::long_range_strike_factors(s, slot);
            assert forall|i: int| 0 <= i < v.len() implies 0 <= #[trigger] v[i] <= ONE by {
                assert(s.players@[slot as int].attributes.wf());
            }
            crate::signature::triggers::lemma_product_bounds(v);
        },
        SignatureKind::FirstTimeDiagonalSwitch => {
            let v = crate::signature::triggers::first_time_diagonal_switch_factors(s, slot);
            assert forall|i: int| 0 <= i < v.len() implies 0 <= #[trigger] v[i] <= ONE by {
                assert(s.players@[slot as int].attributes.wf());
            }
            crate::signature::triggers::lemma_product_bounds(v);
        },
        SignatureKind::CommandingClaim => {
            let v = crate::signature::triggers::commanding_claim_factors(s, slot);
            assert forall|i: int| 0 <= i < v.len() implies 0 <= #[trigger] v[i] <= ONE by {
                assert(s.players@[slot as int].attributes.wf());
            }
            crate::signature::triggers::lemma_product_bounds(v);
        },
        SignatureKind::OverlappingSurge => {
            let v = crate::signature::triggers::overlapping_surge_factors(s, slot);
            assert forall|i: int| 0 <= i < v.len() implies 0 <= #[trigger] v[i] <= ONE by {
                assert(s.players@[slot as int].attributes.wf());
            }
            crate::signature::triggers::lemma_product_bounds(v);
        },
        SignatureKind::ScreeningInterception => {
            let v = crate::signature::triggers::screening_interception_factors(s, slot);
            assert forall|i: int| 0 <= i < v.len() implies 0 <= #[trigger] v[i] <= ONE by {
                assert(s.players@[slot as int].attributes.wf());
            }
            crate::signature::triggers::lemma_product_bounds(v);
        },
        SignatureKind::TouchlineBeat => {
            let v = crate::signature::triggers::touchline_beat_factors(s, slot);
            assert forall|i: int| 0 <= i < v.len() implies 0 <= #[trigger] v[i] <= ONE by {
                assert(s.players@[slot as int].attributes.wf());
            }
            crate::signature::triggers::lemma_product_bounds(v);
        },
        SignatureKind::PoachersDart => {
            let v = crate::signature::triggers::poachers_dart_factors(s, slot);
            assert forall|i: int| 0 <= i < v.len() implies 0 <= #[trigger] v[i] <= ONE by {
                assert(s.players@[slot as int].attributes.wf());
            }
            crate::signature::triggers::lemma_product_bounds(v);
        },
            SignatureKind::NoOpStub => {},
        }
    }
}

/// Evaluate the trigger bound to the signature id `id` for the player in
/// `slot`: `None` when no trigger is bound to the id, otherwise the fit
/// score (0 when not eligible, else in `(0, 1]`).
pub fn evaluate_trigger(id: &String, state: &MatchState, slot: u8) -> (r: Option<i64>)
    requires
        all_attributes_wf(state.players@),
    ensures
        r is None <==> kind_of_id(id@) is None,
        r matches Some(v) ==> v == trigger_fit(kind_of_id(id@).unwrap(), *state, slot) && 0 <= v
            <= crate::fixed::ONE,
{
    match signature_kind(id) {
        None => None,
        Some(kind) => Some(
            match kind {
                SignatureKind::BodyShieldPressure => body_shield_pressure_trigger(state, slot),
                SignatureKind::LongRangeStrike => long_range_strike_trigger(state, slot),
                SignatureKind::FirstTimeDiagonalSwitch => first_time_diagonal_switch_trigger(
                    state,
                    slot,
                ),
                SignatureKind::CommandingClaim => commanding_claim_trigger(state, slot),
                SignatureKind::OverlappingSurge => overlapping_surge_trigger(state, slot),
                SignatureKind::ScreeningInterception => screening_interception_trigger(state, slot),
                SignatureKind::TouchlineBeat => touchline_beat_trigger(state, slot),
                SignatureKind::PoachersDart => poachers_dart_trigger(state, slot),
                SignatureKind::NoOpStub => no_op_trigger(state, slot),
            },
        ),
    }
}

// ---------------------------------------------------------------------------
// In-play action gate
// ---------------------------------------------------------------------------

/// Every distance this check compares can be computed without overflow.
pub open spec fn gate_fits(slot: u8, px: int, py: int, bx: int, by: int, g: PitchGeometry) -> bool {
    &&& fits(attacking_goal_x(slot, g.goal_line_x as int) - px)
    &&& fits(g.sideline_y - TOUCHLINE_BAND_M)
    &&& dist_sq_fits(px, py, bx, by)
}

/// The player is in the wide channel: `|y| > |sideline − 10 m|`.
pub open spec fn on_touchline(py: int, g: PitchGeometry) -> bool {
    abs_spec(py) > abs_spec(g.sideline_y - TOUCHLINE_BAND_M)
}

/// The player is inside the penalty area they attack.
pub open spec fn in_attacking_box(slot: u8, px: int, py: int, g: PitchGeometry) -> bool {
    &&& abs_spec(attacking_goal_x(slot, g.goal_line_x as int) - px) <= PENALTY_AREA_DEPTH_M
    &&& abs_spec(py) <= PENALTY_AREA_HALF_WIDTH_M
}

/// The player is at least 22 m from the goal line they attack.
pub open spec fn far_from_goal(slot: u8, px: int, g: PitchGeometry) -> bool {
    abs_spec(attacking_goal_x(slot, g.goal_line_x as int) - px) >= LONG_RANGE_MIN_DIST_M
}

/// The ball is within 4 m of the player.
pub open spec fn near_ball(px: int, py: int, bx: int, by: int) -> bool {
    dist_sq_spec(px, py, bx, by) <= PRESS_CONTEST_RADIUS_SQ
}

/// Does `intent` perform the move of signature `kind` at this point of play?
/// Nothing fires in the settle window or for an unknown or stub signature;
/// a touchline beat is a dribble in the wide channel; a poacher's dart a
/// shot or run inside the box; a long-range strike a shot from 22 m or
/// more; a diagonal switch a long pass or cross; an overlapping surge a
/// dribble, run or cross in the wide channel; a screening interception or
/// body-shield press a press or mark with the ball within 4 m; a
/// commanding claim a cross collection or sweeper rush.
pub open spec fn executes_now(
    kind: Option<SignatureKind>,
    intent: PlayerIntent,
    slot: u8,
    tick: i64,
    px: int,
    py: int,
    bx: int,
    by: int,
    g: PitchGeometry,
) -> bool {
    if tick < SIGNATURE_SETTLE_TICKS {
        false
    } else {
        match kind {
            Some(SignatureKind::TouchlineBeat) => intent is Dribble && on_touchline(py, g),
            Some(SignatureKind::PoachersDart) => (intent is AttemptShot || intent is RunOffBall)
                && in_attacking_box(slot, px, py, g),
            Some(SignatureKind::LongRangeStrike) => intent is AttemptShot && far_from_goal(
                slot,
                px,
                g,
            ),
            Some(SignatureKind::FirstTimeDiagonalSwitch) => intent is AttemptPassLong
                || intent is Cross,
            Some(SignatureKind::OverlappingSurge) => (intent is Dribble || intent is RunOffBall
                || intent is Cross) && on_touchline(py, g),
            Some(SignatureKind::ScreeningInterception) | Some(
                SignatureKind::BodyShieldPressure,
            ) => (intent is Press || intent is MarkPlayer) && near_ball(px, py, bx, by),
            Some(SignatureKind::CommandingClaim) => intent is GkCollectCross
                || intent is GkSweeperRush,
            Some(SignatureKind::NoOpStub) | None => false,
        }
    }
}

/// Second firing gate: does the player's chosen `intent` this tick really
/// perform signature `sig_id` during live play? See [`executes_now`].
pub fn signature_executes_now(
    sig_id: &String,
    intent: &PlayerIntent,
    slot: u8,
    tick: i64,
    player_pos: (i64, i64),
    ball_pos: (i64, i64),
    geometry: &PitchGeometry,
) -> (r: bool)
    requires
        geometry.goal_line_x >= 0,
        gate_fits(
            slot,
            player_pos.0 as int,
            player_pos.1 as int,
            ball_pos.0 as int,
            ball_pos.1 as int,
            *geometry,
        ),
    ensures
        r == executes_now(
            kind_of_id(sig_id@),
            *intent,
            slot,
            tick,
            player_pos.0 as int,
            player_pos.1 as int,
            ball_pos.0 as int,
            ball_pos.1 as int,
            *geometry,
        ),
{
    if tick < SIGNATURE_SETTLE_TICKS {
        return false;
    }
    let (px, py) = player_pos;
    let (bx, by) = ball_pos;
    let goal_x = if (slot as usize) < PLAYERS_PER_TEAM {
        geometry.goal_line_x
    } else {
        -geometry.goal_line_x
    };
    let on_touchline = abs_bits(py) > abs_bits(geometry.sideline_y - TOUCHLINE_BAND_M);
    let depth_ok = abs_bits(goal_x - px) <= abs_bits(PENALTY_AREA_DEPTH_M);
    let width_ok = abs_bits(py) <= abs_bits(PENALTY_AREA_HALF_WIDTH_M);
    let in_box = depth_ok && width_ok;
    let far_from_goal = abs_bits(goal_x - px) >= abs_bits(LONG_RANGE_MIN_DIST_M);
    let near_ball = dist_sq(px, py, bx, by) <= PRESS_CONTEST_RADIUS_SQ;
    match signature_kind(sig_id) {
        Some(SignatureKind::TouchlineBeat) => {
            matches!(intent, PlayerIntent::Dribble { .. }) && on_touchline
        },
        Some(SignatureKind::PoachersDart) => {
            matches!(intent, PlayerIntent::AttemptShot { .. } | PlayerIntent::RunOffBall { .. })
                && in_box
        },
        Some(SignatureKind::LongRangeStrike) => {
            matches!(intent, PlayerIntent::AttemptShot { .. }) && far_from_goal
        },
        Some(SignatureKind::FirstTimeDiagonalSwitch) => {
            matches!(intent, PlayerIntent::AttemptPassLong { .. } | PlayerIntent::Cross { .. })
        },
        Some(SignatureKind::OverlappingSurge) => {
            matches!(
                intent,
                PlayerIntent::Dribble { .. } | PlayerIntent::RunOffBall { .. }
                    | PlayerIntent::Cross { .. }
            ) && on_touchline
        },
        Some(SignatureKind::ScreeningInterception) | Some(SignatureKind::BodyShieldPressure) => {
            matches!(intent, PlayerIntent::Press { .. } | PlayerIntent::MarkPlayer { .. })
                && near_ball
        },
        Some(SignatureKind::CommandingClaim) => {
            matches!(intent, PlayerIntent::GkCollectCross { .. } | PlayerIntent::GkSweeperRush { .. })
        },
        Some(SignatureKind::NoOpStub) => false,
        None => false,
    }
}

} // verus!
