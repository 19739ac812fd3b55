//! Signature dispatch: which of a player's signature candidates are
//! eligible to fire this tick, and which one fires.

use vstd::prelude::*;

use crate::fixed::{fits, mul_spec, q_mul};
use crate::match_state::MatchState;
use crate::signature::gate::{evaluate_trigger, kind_of_id, trigger_fit};
use crate::signature::triggers::all_attributes_wf;

verus! {

/// The bias category lane a signature occupies while in flight.
#[derive(Debug, Clone, Copy, PartialEq, Eq, Structural)]
pub enum BiasCategory {
    Attacking,
    Defensive,
    BuildUp,
    SetPiece,
}

/// Lane index of a bias category, in canonical order.
pub open spec fn category_index(c: BiasCategory) -> int {
    match c {
        BiasCategory::Attacking => 0,
        BiasCategory::Defensive => 1,
        BiasCategory::BuildUp => 2,
        BiasCategory::SetPiece => 3,
    }
}

pub(crate) fn category_lane(c: BiasCategory) -> (i: usize)
    ensures
        i == category_index(c),
        i < 4,
{
    match c {
        BiasCategory::Attacking => 0,
        BiasCategory::Defensive => 1,
        BiasCategory::BuildUp => 2,
        BiasCategory::SetPiece => 3,
    }
}

/// One of a player's signature candidates, with what the content store
/// and the cooldown table hold for it: its affinity, the stacking category
/// of its definition (`None` when the store has no definition for it) and
/// the tick its cooldown ends (`None` when it has none).
#[derive(Debug, Clone, PartialEq, Eq)]
pub struct CandidateContext {
    pub signature_id: String,
    pub affinity: i64,
    pub category: Option<BiasCategory>,
    pub cooldown_end: Option<i64>,
}

/// The candidate reaches the trigger: it has a definition and is not
/// cooling down at `tick`.
pub open spec fn reaches_trigger(c: CandidateContext, tick: i64) -> bool {
    &&& c.category is Some
    &&& !(c.cooldown_end matches Some(end) && tick < end)
}

/// The candidate is eligible: it reaches the trigger, its trigger's fit
/// score is positive, and its category lane is free.
pub open spec fn candidate_eligible(
    s: MatchState,
    slot: u8,
    c: CandidateContext,
    lanes: Seq<bool>,
) -> bool {
    &&& reaches_trigger(c, s.tick)
    &&& trigger_fit(kind_of_id(c.signature_id@).unwrap(), s, slot) != 0
    &&& !lanes[category_index(c.category.unwrap())]
}

/// The eligible candidates among the first `n`, in candidate order, each
/// with its softmax weight `affinity × fit`.
pub open spec fn eligible_prefix(
    s: MatchState,
    slot: u8,
    cands: Seq<CandidateContext>,
    lanes: Seq<bool>,
    n: nat,
) -> Seq<(Seq<char>, int)>
    decreases n,
{
    if n == 0 {
        Seq::empty()
    } else {
        let prev = eligible_prefix(s, slot, cands, lanes, (n - 1) as nat);
        let c = cands[n - 1];
        if candidate_eligible(s, slot, c, lanes) {
            prev.push(
                (
                    c.signature_id@,
                    mul_spec(
                        c.affinity as int,
                        trigger_fit(kind_of_id(c.signature_id@).unwrap(), s, slot) as int,
                    ),
                ),
            )
        } else {
            prev
        }
    }
}

/// Every candidate that reaches its trigger names a signature with a bound
/// trigger, and its weight fits in an `i64`.
pub open spec fn candidates_bound(s: MatchState, slot: u8, cands: Seq<CandidateContext>) -> bool {
    forall|k: int|
        0 <= k < cands.len() && reaches_trigger(#[trigger] cands[k], s.tick) ==> {
            &&& kind_of_id(cands[k].signature_id@) is Some
            &&& fits(
                mul_spec(
                    cands[k].affinity as int,
                    trigger_fit(kind_of_id(cands[k].signature_id@).unwrap(), s, slot) as int,
                ),
            )
        }
}

/// The signature candidates of the player in `slot` that may fire now, in
/// candidate order, each with its weight `affinity × fit score`. A
/// candidate is skipped when the store has no definition for it, while its
/// cooldown has not expired, when its trigger's fit score is 0, and when
/// its category lane (`active_lanes`, in category order) is occupied.
pub fn eligible_signatures(
    state: &MatchState,
    slot: u8,
    candidates: &Vec<CandidateContext>,
    active_lanes: &[bool; 4],
) -> (r: Vec<(String, i64)>)
    requires
        all_attributes_wf(state.players@),
        candidates_bound(*state, slot, candidates@),
    ensures
        r@.len() == eligible_prefix(
            *state,
            slot,
            candidates@,
            active_lanes@,
            candidates@.len(),
        ).len(),
        forall|k: int|
            0 <= k < r@.len() ==> (#[trigger] r@[k]).0@ == eligible_prefix(
                *state,
                slot,
                candidates@,
                active_lanes@,
                candidates@.len(),
            )[k].0 && r@[k].1 == eligible_prefix(
                *state,
                slot,
                candidates@,
                active_lanes@,
                candidates@.len(),
            )[k].1,
{
    let tick = state.tick;
    let mut eligible: Vec<(String, i64)> = Vec::new();
    let mut i: usize = 0;
    while i < candidates.len()
        invariant
            i <= candidates@.len(),
            tick == state.tick,
            all_attributes_wf(state.players@),
            candidates_bound(*state, slot, candidates@),
            eligible@.len() == eligible_prefix(
                *state,
                slot,
                candidates@,
                active_lanes@,
                i as nat,
            ).len(),
            forall|k: int|
                0 <= k < eligible@.len() ==> (#[trigger] eligible@[k]).0@ == eligible_prefix(
                    *state,
                    slot,
                    candidates@,
                    active_lanes@,
                    i as nat,
                )[k].0 && eligible@[k].1 == eligible_prefix(
                    *state,
                    slot,
                    candidates@,
                    active_lanes@,
                    i as nat,
                )[k].1,
        decreases candidates@.len() - i,
    {
        let c = &candidates[i];
        let ghost prev = eligible_prefix(*state, slot, candidates@, active_lanes@, i as nat);
        let ghost next = eligible_prefix(
            *state,
            slot,
            candidates@,
            active_lanes@,
            (i + 1) as nat,
        );
        let mut eligible_now = false;
        if let Some(category) = c.category {
            let cooling = match c.cooldown_end {
                Some(end) => tick < end,
                None => false,
            };
            if !cooling {
                assert(reaches_trigger(candidates@[i as int], state.tick));
                let fit = evaluate_trigger(&c.signature_id, state, slot).unwrap();
                if fit != 0 {
                    let lane = category_lane(category);
                    if !active_lanes[lane] {
                        let weight = q_mul(c.affinity, fit);
                        eligible.push((c.signature_id.clone(), weight));
                        eligible_now = true;
                    }
                }
            }
        }
        proof {
            assert(eligible_now == candidate_eligible(
                *state,
                slot,
                candidates@[i as int],
                active_lanes@,
            ));
            if eligible_now {
                assert(next == prev.push(
                    (
                        candidates@[i as int].signature_id@,
                        mul_spec(
                            candidates@[i as int].affinity as int,
                            trigger_fit(
                                kind_of_id(candidates@[i as int].signature_id@).unwrap(),
                                *state,
                                slot,
                            ) as int,
                        ),
                    ),
                ));
            } else {
                assert(next == prev);
            }
        }
        i = i + 1;
    }
    eligible
}

/// Decide which signature fires for the player in `slot`: none when no
/// candidate is eligible; the only eligible one when there is exactly one;
/// otherwise the eligible candidate at index `picked` of the weighted draw
/// over the eligible list (none when the draw picked nothing or an index
/// out of range).
pub fn evaluate_signatures(
    state: &MatchState,
    slot: u8,
    candidates: &Vec<CandidateContext>,
    active_lanes: &[bool; 4],
    picked: Option<usize>,
) -> (r: Option<String>)
    requires
        all_attributes_wf(state.players@),
        candidates_bound(*state, slot, candidates@),
    ensures
        ({
            let e = eligible_prefix(*state, slot, candidates@, active_lanes@, candidates@.len());
            &&& e.len() == 0 ==> r is None
            &&& e.len() == 1 ==> (r matches Some(id) && id@ == e[0].0)
            &&& e.len() > 1 ==> match picked {
                Some(k) => if k < e.len() {
                    (r matches Some(id) && id@ == e[k as int].0)
                } else {
                    r is None
                },
                None => r is None,
            }
        }),
{
    let mut eligible = eligible_signatures(state, slot, candidates, active_lanes);
    if eligible.len() == 0 {
        return None;
    }
    if eligible.len() == 1 {
        let (id, _) = eligible.remove(0);
        return Some(id);
    }
    match picked {
        Some(k) => {
            if k < eligible.len() {
                let (id, _) = eligible.remove(k);
                Some(id)
            } else {
                None
            }
        },
        None => None,
    }
}

} // verus!
