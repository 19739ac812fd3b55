//! Composition of a signature's bias multipliers into utility scores.

use vstd::prelude::*;

use crate::fixed::{fits, mul_spec, q_mul};

verus! {

/// Per-consideration utility multipliers of an active signature (Q32 raw
/// bits; 1.0 leaves a utility unchanged).
#[derive(Debug, Clone, Copy, PartialEq, Eq, Structural)]
pub struct SimBiasSnapshot {
    pub shoot_mul: i64,
    pub pass_mul: i64,
    pub dribble_mul: i64,
    pub press_mul: i64,
    pub cover_mul: i64,
}

impl SimBiasSnapshot {
    /// The snapshot that changes no utility: every multiplier 1.0.
    pub fn no_op() -> (s: SimBiasSnapshot)
        ensures
            s == unit_snapshot(),
    {
        SimBiasSnapshot {
            shoot_mul: crate::fixed::ONE,
            pass_mul: crate::fixed::ONE,
            dribble_mul: crate::fixed::ONE,
            press_mul: crate::fixed::ONE,
            cover_mul: crate::fixed::ONE,
        }
    }
}

/// Which utility-scoring site a signature bias applies to.
#[derive(Debug, Clone, Copy, PartialEq, Eq, Structural)]
pub enum BiasConsideration {
    /// Shooting: `shoot_mul`.
    Shoot,
    /// Every pass kind (short, long, cross, lay-off): `pass_mul`.
    Pass,
    /// Dribbling: `dribble_mul`.
    Dribble,
    /// Pressing and tracking back: `press_mul`.
    Press,
    /// Marking and holding formation: `cover_mul`.
    Cover,
    /// No multiplier (standing still carries no bias).
    Neutral,
}

/// The multiplier a snapshot applies to a consideration; `None` for
/// `Neutral`.
pub open spec fn multiplier_for(snapshot: SimBiasSnapshot, c: BiasConsideration) -> Option<i64> {
    match c {
        BiasConsideration::Shoot => Some(snapshot.shoot_mul),
        BiasConsideration::Pass => Some(snapshot.pass_mul),
        BiasConsideration::Dribble => Some(snapshot.dribble_mul),
        BiasConsideration::Press => Some(snapshot.press_mul),
        BiasConsideration::Cover => Some(snapshot.cover_mul),
        BiasConsideration::Neutral => None,
    }
}

/// The signature-biased utility: the utility times the snapshot's
/// multiplier for the consideration, or the utility unchanged for
/// `Neutral`.
pub open spec fn biased_utility(u: int, snapshot: SimBiasSnapshot, c: BiasConsideration) -> int {
    match multiplier_for(snapshot, c) {
        Some(m) => mul_spec(u, m as int),
        None => u,
    }
}

/// Apply an active signature's bias to a (personality-biased, non-negative)
/// utility score. A negative utility is a simulation invariant violation.
pub fn apply_signature_bias(
    biased_utility_in: i64,
    snapshot: &SimBiasSnapshot,
    consideration: BiasConsideration,
) -> (r: i64)
    requires
        biased_utility_in >= 0,
        fits(biased_utility(biased_utility_in as int, *snapshot, consideration)),
    ensures
        r == biased_utility(biased_utility_in as int, *snapshot, consideration),
{
    let multiplier = match consideration {
        BiasConsideration::Shoot => snapshot.shoot_mul,
        BiasConsideration::Pass => snapshot.pass_mul,
        BiasConsideration::Dribble => snapshot.dribble_mul,
        BiasConsideration::Press => snapshot.press_mul,
        BiasConsideration::Cover => snapshot.cover_mul,
        BiasConsideration::Neutral => return biased_utility_in,
    };
    q_mul(biased_utility_in, multiplier)
}

/// A multiplier of exactly 1.0 leaves every utility unchanged.
pub proof fn lemma_unit_multiplier_is_identity(u: int, snapshot: SimBiasSnapshot, c: BiasConsideration)
    requires
        multiplier_for(snapshot, c) matches Some(m) ==> m == crate::fixed::ONE,
    ensures
        biased_utility(u, snapshot, c) == u,
{
    if let Some(m) = multiplier_for(snapshot, c) {
        assert(u * crate::fixed::scale() / crate::fixed::scale() == u) by (nonlinear_arith);
    }
}

// ---------------------------------------------------------------------------
// Combining the active lanes
// ---------------------------------------------------------------------------

/// The snapshot that changes nothing: every multiplier 1.0.
pub open spec fn unit_snapshot() -> SimBiasSnapshot {
    SimBiasSnapshot {
        shoot_mul: crate::fixed::ONE,
        pass_mul: crate::fixed::ONE,
        dribble_mul: crate::fixed::ONE,
        press_mul: crate::fixed::ONE,
        cover_mul: crate::fixed::ONE,
    }
}

/// Field-by-field fixed-point product of two snapshots.
pub open spec fn compose_snapshots(a: SimBiasSnapshot, b: SimBiasSnapshot) -> SimBiasSnapshot {
    SimBiasSnapshot {
        shoot_mul: mul_spec(a.shoot_mul as int, b.shoot_mul as int) as i64,
        pass_mul: mul_spec(a.pass_mul as int, b.pass_mul as int) as i64,
        dribble_mul: mul_spec(a.dribble_mul as int, b.dribble_mul as int) as i64,
        press_mul: mul_spec(a.press_mul as int, b.press_mul as int) as i64,
        cover_mul: mul_spec(a.cover_mul as int, b.cover_mul as int) as i64,
    }
}

/// Every field product of two snapshots fits in an `i64`.
pub open spec fn compose_fits(a: SimBiasSnapshot, b: SimBiasSnapshot) -> bool {
    &&& fits(mul_spec(a.shoot_mul as int, b.shoot_mul as int))
    &&& fits(mul_spec(a.pass_mul as int, b.pass_mul as int))
    &&& fits(mul_spec(a.dribble_mul as int, b.dribble_mul as int))
    &&& fits(mul_spec(a.press_mul as int, b.press_mul as int))
    &&& fits(mul_spec(a.cover_mul as int, b.cover_mul as int))
}

/// The product of the snapshots of the active lanes among the first `n`,
/// in lane order, starting from the unit snapshot.
pub open spec fn fold_lanes(lanes: Seq<Option<SimBiasSnapshot>>, n: nat) -> SimBiasSnapshot
    decreases n,
{
    if n == 0 {
        unit_snapshot()
    } else {
        let acc = fold_lanes(lanes, (n - 1) as nat);
        match lanes[n - 1] {
            Some(b) => compose_snapshots(acc, b),
            None => acc,
        }
    }
}

/// Some lane among the first `n` is active.
pub open spec fn any_active(lanes: Seq<Option<SimBiasSnapshot>>, n: nat) -> bool {
    exists|i: int| 0 <= i < n && #[trigger] lanes[i] is Some
}

/// The composite bias of the four category lanes: `None` when no lane is
/// active, else the lane-order product of the active lanes' snapshots.
pub open spec fn combined_bias(lanes: Seq<Option<SimBiasSnapshot>>) -> Option<SimBiasSnapshot> {
    if any_active(lanes, 4) {
        Some(fold_lanes(lanes, 4))
    } else {
        None
    }
}

/// Every step of the lane product fits in an `i64`.
pub open spec fn lanes_fit(lanes: Seq<Option<SimBiasSnapshot>>) -> bool {
    forall|n: int|
        0 <= n < 4 ==> (#[trigger] lanes[n] matches Some(b) ==> compose_fits(
            fold_lanes(lanes, n as nat),
            b,
        ))
}

/// Combine the bias snapshots of a player's active signature lanes (one
/// lane per bias category, in category order; `None` for an empty lane or
/// one whose signature has no known definition) into one composite
/// snapshot: each multiplier is the product, in lane order, of the active
/// lanes' multipliers. `None` when no lane is active.
pub fn combine_active_biases(lanes: &[Option<SimBiasSnapshot>; 4]) -> (r: Option<SimBiasSnapshot>)
    requires
        lanes_fit(lanes@),
    ensures
        r == combined_bias(lanes@),
{
    let mut any = false;
    let mut composite = SimBiasSnapshot {
        shoot_mul: crate::fixed::ONE,
        pass_mul: crate::fixed::ONE,
        dribble_mul: crate::fixed::ONE,
        press_mul: crate::fixed::ONE,
        cover_mul: crate::fixed::ONE,
    };
    let mut i: usize = 0;
    while i < 4
        invariant
            i <= 4,
            lanes@.len() == 4,
            lanes_fit(lanes@),
            composite == fold_lanes(lanes@, i as nat),
            any == any_active(lanes@, i as nat),
        decreases 4 - i,
    {
        if let Some(b) = lanes[i] {
            assert(lanes@[i as int] == Some(b));
            assert(compose_fits(fold_lanes(lanes@, i as nat), b));
            composite = SimBiasSnapshot {
                shoot_mul: q_mul(composite.shoot_mul, b.shoot_mul),
                pass_mul: q_mul(composite.pass_mul, b.pass_mul),
                dribble_mul: q_mul(composite.dribble_mul, b.dribble_mul),
                press_mul: q_mul(composite.press_mul, b.press_mul),
                cover_mul: q_mul(composite.cover_mul, b.cover_mul),
            };
            any = true;
        } else {
            assert(lanes@[i as int] is None);
        }
        proof {
            assert(any_active(lanes@, (i + 1) as nat) == (any_active(lanes@, i as nat)
                || lanes@[i as int] is Some));
        }
        i = i + 1;
    }
    if any {
        Some(composite)
    } else {
        None
    }
}

/// The unit multiplier is a left identity of the fixed-point product of
/// raw bits in `i64`.
proof fn lemma_one_times(x: int)
    ensures
        mul_spec(crate::fixed::ONE as int, x) == x,
{
    assert(crate::fixed::ONE as int * x == x * crate::fixed::scale()) by (nonlinear_arith);
    assert(x * crate::fixed::scale() / crate::fixed::scale() == x) by (nonlinear_arith);
}

/// With exactly one active lane, the composite is that lane's snapshot.
pub proof fn lemma_single_lane_is_identity(lanes: Seq<Option<SimBiasSnapshot>>, i: int)
    requires
        lanes.len() == 4,
        0 <= i < 4,
        lanes[i] is Some,
        forall|j: int| 0 <= j < 4 && j != i ==> #[trigger] lanes[j] is None,
    ensures
        combined_bias(lanes) == Some(lanes[i].unwrap()),
{
    let b = lanes[i].unwrap();
    assert(fold_lanes(lanes, 0) == unit_snapshot());
    assert(lanes[0] is Some || lanes[0] is None);
    reveal_with_fuel(fold_lanes, 5);
    lemma_one_times(b.shoot_mul as int);
    lemma_one_times(b.pass_mul as int);
    lemma_one_times(b.dribble_mul as int);
    lemma_one_times(b.press_mul as int);
    lemma_one_times(b.cover_mul as int);
    assert(lanes[0] is None || i == 0);
    assert(lanes[1] is None || i == 1);
    assert(lanes[2] is None || i == 2);
    assert(lanes[3] is None || i == 3);
    assert(compose_snapshots(unit_snapshot(), b) == b);
    assert(fold_lanes(lanes, 4) == b);
    assert(any_active(lanes, 4));
}

/// With no active lane there is no composite.
pub proof fn lemma_no_lane_no_bias(lanes: Seq<Option<SimBiasSnapshot>>)
    requires
        lanes.len() == 4,
        forall|j: int| 0 <= j < 4 ==> #[trigger] lanes[j] is None,
    ensures
        combined_bias(lanes) is None,
{
}

} // verus!
