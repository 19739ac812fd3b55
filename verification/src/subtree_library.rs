//! Formation table and the behaviour-tree subtree registry.
//!
//! Pitch coordinates: home defends the −x goal, away defends the +x goal.
//! Slots 0..11 are the home roster (0 = GK, 1–4 = DEF, 5–7 = MID,
//! 8–10 = FWD); slots 11..22 are the away roster in the same order.

use vstd::prelude::*;
use std::collections::BTreeMap;

use crate::bt::{LeafKind, Node, Tree, stub_tree};
use crate::fixed::{from_int, from_int_spec};
use crate::fixed::fits;
use crate::role_states::{
    DefenderState, ForwardState, MidfielderState, PlayerIntent, PlayerRoleState, Role, role_of,
    role_tag, state_tag_of,
};
use crate::signature::bias_apply::{
    BiasConsideration, SimBiasSnapshot, apply_signature_bias, biased_utility,
};

verus! {

broadcast use vstd::std_specs::btree::group_btree_axioms, vstd::laws_cmp::group_laws_cmp;

// ---------------------------------------------------------------------------
// Formation positions — 4-3-3
// ---------------------------------------------------------------------------

/// Default 4-3-3 formation positions `(x, y)` in whole metres, indexed by
/// roster slot. The away half mirrors the home half across the halfway line.
pub const FORMATION_4_3_3_POSITIONS: [(i32, i32); 22] = [
    (-45, 0),
    (-30, -20),
    (-30, -7),
    (-30, 7),
    (-30, 20),
    (-10, -15),
    (-10, 0),
    (-10, 15),
    (10, -15),
    (10, 0),
    (10, 15),
    (45, 0),
    (30, -20),
    (30, -7),
    (30, 7),
    (30, 20),
    (10, -15),
    (10, 0),
    (10, 15),
    (-10, -15),
    (-10, 0),
    (-10, 15),
];

/// Formation position of a home-roster slot (`0..11`), in whole metres.
pub open spec fn home_formation_xy(slot: int) -> (int, int) {
    if slot == 0 {
        (-45, 0)
    } else if slot == 1 {
        (-30, -20)
    } else if slot == 2 {
        (-30, -7)
    } else if slot == 3 {
        (-30, 7)
    } else if slot == 4 {
        (-30, 20)
    } else if slot == 5 {
        (-10, -15)
    } else if slot == 6 {
        (-10, 0)
    } else if slot == 7 {
        (-10, 15)
    } else if slot == 8 {
        (10, -15)
    } else if slot == 9 {
        (10, 0)
    } else {
        (10, 15)
    }
}

/// Formation position of any slot `0..22`, in whole metres: away slots are
/// the home slot eleven below, reflected in x.
pub open spec fn formation_xy(slot: int) -> (int, int) {
    if slot < 11 {
        home_formation_xy(slot)
    } else {
        (-home_formation_xy(slot - 11).0, home_formation_xy(slot - 11).1)
    }
}

/// The formation target `(x, y)` of roster slot `slot`, in Q32 raw bits.
/// Slots outside `0..22` are a simulation invariant violation.
pub fn formation_position(slot: u8) -> (p: (i64, i64))
    requires
        slot < 22,
    ensures
        p.0 == from_int_spec(formation_xy(slot as int).0),
        p.1 == from_int_spec(formation_xy(slot as int).1),
{
    let (x, y) = FORMATION_4_3_3_POSITIONS[slot as usize];
    (from_int(x), from_int(y))
}

/// The away formation is the home formation reflected across the halfway
/// line: slot `s + 11` stands at `(−x, y)` where slot `s` stands at `(x, y)`.
pub proof fn lemma_formation_mirror(s: int)
    requires
        0 <= s < 11,
    ensures
        formation_xy(s + 11) == (-formation_xy(s).0, formation_xy(s).1),
{
}

// ---------------------------------------------------------------------------
// SubtreeLibrary
// ---------------------------------------------------------------------------

/// Is `(role_tag, state_tag)` the key of an outfield role state?
pub open spec fn outfield_key(k: (u8, u8)) -> bool {
    1 <= k.0 <= 3 && k.1 < 7
}

/// Registry of behaviour-tree subtrees keyed by `(role tag, state tag)`.
/// The skeleton library holds the stub tree for every outfield role state
/// and nothing for the goalkeeper, who runs the pure state machine.
pub struct SubtreeLibrary {
    trees: BTreeMap<(u8, u8), Tree>,
}

impl View for SubtreeLibrary {
    type V = Map<(u8, u8), Tree>;

    closed spec fn view(&self) -> Map<(u8, u8), Tree> {
        self.trees@
    }
}

impl SubtreeLibrary {
    /// The skeleton contents: exactly the outfield keys, each mapped to the
    /// stub tree.
    pub open spec fn is_skeleton(m: Map<(u8, u8), Tree>) -> bool {
        &&& forall|k: (u8, u8)| #[trigger] m.contains_key(k) <==> outfield_key(k)
        &&& forall|k: (u8, u8)| #[trigger] m.contains_key(k) ==> m[k] == stub_tree()
    }

    #[verifier::type_invariant]
    closed spec fn inv(self) -> bool {
        Self::is_skeleton(self.trees@)
    }

    /// Build the skeleton library: the stub tree for each of the seven
    /// states of each outfield role.
    pub fn default_skeleton() -> (lib: SubtreeLibrary)
        ensures
            Self::is_skeleton(lib@),
    {
        let mut trees: BTreeMap<(u8, u8), Tree> = BTreeMap::new();
        let mut role: u8 = 1;
        while role <= 3
            invariant
                1 <= role <= 4,
                forall|k: (u8, u8)| #[trigger]
                    trees@.contains_key(k) <==> (outfield_key(k) && k.0 < role),
                forall|k: (u8, u8)| #[trigger] trees@.contains_key(k) ==> trees@[k] == stub_tree(),
            decreases 4 - role,
        {
            let mut tag: u8 = 0;
            while tag < 7
                invariant
                    1 <= role <= 3,
                    tag <= 7,
                    forall|k: (u8, u8)| #[trigger]
                        trees@.contains_key(k) <==> (outfield_key(k) && (k.0 < role || (k.0
                            == role && k.1 < tag))),
                    forall|k: (u8, u8)| #[trigger]
                        trees@.contains_key(k) ==> trees@[k] == stub_tree(),
                decreases 7 - tag,
            {
                trees.insert((role, tag), Tree::new(Node::Leaf(LeafKind::MoveToFormationPosition)));
                tag = tag + 1;
            }
            role = role + 1;
        }
        SubtreeLibrary { trees }
    }

    /// The subtree for an outfield role state. Asking for a goalkeeper
    /// state is a simulation invariant violation.
    pub fn lookup_outfield(&self, role_state: PlayerRoleState) -> (t: &Tree)
        requires
            role_of(role_state) != Role::Goalkeeper,
        ensures
            *t == stub_tree(),
            *t == self@[(role_tag(role_of(role_state)), state_tag_of(role_state))],
    {
        proof {
            use_type_invariant(self);
        }
        let (role_tag, state_tag) = role_state.to_tags();
        match self.trees.get(&(role_tag, state_tag)) {
            Some(t) => t,
            None => vstd::pervasive::unreached(),
        }
    }

    /// The subtree for `(role, state_tag)`: `None` for the goalkeeper and for
    /// any tag that is not a state of `role`.
    pub fn lookup(&self, role: Role, state_tag: u8) -> (t: Option<&Tree>)
        ensures
            t is Some <==> (role != Role::Goalkeeper && state_tag < 7),
            t matches Some(tr) ==> *tr == stub_tree() && *tr == self@[(role_tag(role), state_tag)],
    {
        proof {
            use_type_invariant(self);
        }
        if role == Role::Goalkeeper {
            return None;
        }
        let role_tag = role.to_tag();
        self.trees.get(&(role_tag, state_tag))
    }
}

// ---------------------------------------------------------------------------
// Outfield candidate sets
// ---------------------------------------------------------------------------

/// The utility scorers an outfield player can weigh.
#[derive(Debug, Clone, Copy, PartialEq, Eq, Structural)]
pub enum UtilityKind {
    Shoot,
    PassShort,
    PassLong,
    Cross,
    Dribble,
    HoldBall,
    LayOff,
    Press,
    TrackBack,
    RunOffBall,
    HoldFormation,
    MarkPlayer,
}

/// The scorers an outfield role state weighs, in scoring order; the
/// goalkeeper has none (it runs its own state machine):
/// in possession, the seven on-ball options; pressing, press then track
/// back; running off the ball or making a run, run, press, hold; the
/// defensive, recovering, tracking and set-piece states, track back, hold,
/// mark; supporting and holding up, hold, run, mark.
pub open spec fn candidate_kinds(rs: PlayerRoleState) -> Option<Seq<UtilityKind>> {
    let on_ball = seq![
        UtilityKind::Shoot,
        UtilityKind::PassShort,
        UtilityKind::PassLong,
        UtilityKind::Cross,
        UtilityKind::Dribble,
        UtilityKind::HoldBall,
        UtilityKind::LayOff,
    ];
    let pressing = seq![UtilityKind::Press, UtilityKind::TrackBack];
    let running = seq![UtilityKind::RunOffBall, UtilityKind::Press, UtilityKind::HoldFormation];
    let holding = seq![UtilityKind::TrackBack, UtilityKind::HoldFormation, UtilityKind::MarkPlayer];
    let supporting = seq![UtilityKind::HoldFormation, UtilityKind::RunOffBall, UtilityKind::MarkPlayer];
    match rs {
        PlayerRoleState::Goalkeeper(_) => None,
        PlayerRoleState::Defender(d) => Some(
            match d {
                DefenderState::InPossession => on_ball,
                DefenderState::Pressing => pressing,
                DefenderState::Supporting => supporting,
                _ => holding,
            },
        ),
        PlayerRoleState::Midfielder(m) => Some(
            match m {
                MidfielderState::InPossession => on_ball,
                MidfielderState::Pressing => pressing,
                MidfielderState::RunningOffBall => running,
                MidfielderState::Supporting => supporting,
                _ => holding,
            },
        ),
        PlayerRoleState::Forward(f) => Some(
            match f {
                ForwardState::InPossession => on_ball,
                ForwardState::Pressing => pressing,
                ForwardState::RunningOffBall | ForwardState::MakingRun => running,
                ForwardState::HoldingUp => supporting,
                _ => holding,
            },
        ),
    }
}

/// The utility scorers an outfield role state weighs, in scoring order;
/// `None` for a goalkeeper state.
pub fn outfield_candidate_kinds(role_state: PlayerRoleState) -> (r: Option<Vec<UtilityKind>>)
    ensures
        r is None <==> candidate_kinds(role_state) is None,
        r matches Some(v) ==> candidate_kinds(role_state) == Some(v@),
{
    let r = match role_state {
        PlayerRoleState::Goalkeeper(_) => None,
        PlayerRoleState::Defender(DefenderState::InPossession)
        | PlayerRoleState::Midfielder(MidfielderState::InPossession)
        | PlayerRoleState::Forward(ForwardState::InPossession) => Some(
            vec![
                UtilityKind::Shoot,
                UtilityKind::PassShort,
                UtilityKind::PassLong,
                UtilityKind::Cross,
                UtilityKind::Dribble,
                UtilityKind::HoldBall,
                UtilityKind::LayOff,
            ],
        ),
        PlayerRoleState::Defender(DefenderState::Pressing)
        | PlayerRoleState::Midfielder(MidfielderState::Pressing)
        | PlayerRoleState::Forward(ForwardState::Pressing) => Some(
            vec![UtilityKind::Press, UtilityKind::TrackBack],
        ),
        PlayerRoleState::Midfielder(MidfielderState::RunningOffBall)
        | PlayerRoleState::Forward(ForwardState::RunningOffBall)
        | PlayerRoleState::Forward(ForwardState::MakingRun) => Some(
            vec![UtilityKind::RunOffBall, UtilityKind::Press, UtilityKind::HoldFormation],
        ),
        PlayerRoleState::Defender(DefenderState::Defending)
        | PlayerRoleState::Defender(DefenderState::Recovering)
        | PlayerRoleState::Defender(DefenderState::Tracking)
        | PlayerRoleState::Defender(DefenderState::SetPieceWaiting)
        | PlayerRoleState::Midfielder(MidfielderState::Defending)
        | PlayerRoleState::Midfielder(MidfielderState::Recovering)
        | PlayerRoleState::Midfielder(MidfielderState::SetPieceWaiting)
        | PlayerRoleState::Forward(ForwardState::Recovering)
        | PlayerRoleState::Forward(ForwardState::SetPieceWaiting) => Some(
            vec![UtilityKind::TrackBack, UtilityKind::HoldFormation, UtilityKind::MarkPlayer],
        ),
        PlayerRoleState::Defender(DefenderState::Supporting)
        | PlayerRoleState::Midfielder(MidfielderState::Supporting)
        | PlayerRoleState::Forward(ForwardState::HoldingUp) => Some(
            vec![UtilityKind::HoldFormation, UtilityKind::RunOffBall, UtilityKind::MarkPlayer],
        ),
    };
    proof {
        if r is Some {
            assert(candidate_kinds(role_state) == Some(r.unwrap()@));
        }
    }
    r
}

// ---------------------------------------------------------------------------
// Intent → bias consideration
// ---------------------------------------------------------------------------

/// The bias consideration that scales an intent's utility: shots →
/// `Shoot`; passes, crosses, lay-offs and goalkeeper distributions →
/// `Pass`; dribbling and shielding → `Dribble`; pressing and tracking back
/// → `Press`; positional and goalkeeper collection moves → `Cover`; `Idle`
/// → `Neutral`.
pub open spec fn bias_consideration_of(i: PlayerIntent) -> BiasConsideration {
    match i {
        PlayerIntent::AttemptShot { .. } => BiasConsideration::Shoot,
        PlayerIntent::AttemptPassShort { .. }
        | PlayerIntent::AttemptPassLong { .. }
        | PlayerIntent::Cross { .. }
        | PlayerIntent::LayOff { .. }
        | PlayerIntent::GkDistributeShort { .. }
        | PlayerIntent::GkDistributeLong { .. } => BiasConsideration::Pass,
        PlayerIntent::Dribble { .. } | PlayerIntent::HoldBall { .. } => BiasConsideration::Dribble,
        PlayerIntent::Press { .. } | PlayerIntent::TrackBack { .. } => BiasConsideration::Press,
        PlayerIntent::RunOffBall { .. }
        | PlayerIntent::MarkPlayer { .. }
        | PlayerIntent::HoldFormation { .. }
        | PlayerIntent::MoveToPosition { .. }
        | PlayerIntent::GkShotStop { .. }
        | PlayerIntent::GkCollectCross { .. }
        | PlayerIntent::GkSweeperRush { .. } => BiasConsideration::Cover,
        PlayerIntent::Idle => BiasConsideration::Neutral,
    }
}

/// The bias consideration that governs an intent's utility scaling.
pub fn intent_to_bias_consideration(intent: &PlayerIntent) -> (c: BiasConsideration)
    ensures
        c == bias_consideration_of(*intent),
{
    match intent {
        PlayerIntent::AttemptShot { .. } => BiasConsideration::Shoot,
        PlayerIntent::AttemptPassShort { .. }
        | PlayerIntent::AttemptPassLong { .. }
        | PlayerIntent::Cross { .. }
        | PlayerIntent::LayOff { .. } => BiasConsideration::Pass,
        PlayerIntent::Dribble { .. } | PlayerIntent::HoldBall { .. } => BiasConsideration::Dribble,
        PlayerIntent::Press { .. } | PlayerIntent::TrackBack { .. } => BiasConsideration::Press,
        PlayerIntent::RunOffBall { .. }
        | PlayerIntent::MarkPlayer { .. }
        | PlayerIntent::HoldFormation { .. }
        | PlayerIntent::MoveToPosition { .. } => BiasConsideration::Cover,
        PlayerIntent::Idle => BiasConsideration::Neutral,
        PlayerIntent::GkShotStop { .. }
        | PlayerIntent::GkCollectCross { .. }
        | PlayerIntent::GkSweeperRush { .. } => BiasConsideration::Cover,
        PlayerIntent::GkDistributeShort { .. } | PlayerIntent::GkDistributeLong { .. } => {
            BiasConsideration::Pass
        },
    }
}

/// A candidate's score after the active signature bias (unchanged when no
/// signature is in flight).
pub open spec fn biased_candidate(
    c: (PlayerIntent, i64),
    active_bias: Option<SimBiasSnapshot>,
) -> (PlayerIntent, int) {
    match active_bias {
        Some(snap) => (c.0, biased_utility(c.1 as int, snap, bias_consideration_of(c.0))),
        None => (c.0, c.1 as int),
    }
}

/// Apply the in-flight signature's bias to scored candidates: each
/// candidate keeps its intent and has its score scaled by the snapshot's
/// multiplier for the intent's consideration; with no signature in flight
/// the candidates are returned unchanged.
pub fn apply_bias_to_candidates(
    candidates: Vec<(PlayerIntent, i64)>,
    active_bias: Option<SimBiasSnapshot>,
) -> (r: Vec<(PlayerIntent, i64)>)
    requires
        forall|k: int| 0 <= k < candidates@.len() ==> #[trigger] candidates@[k].1 >= 0,
        forall|k: int|
            0 <= k < candidates@.len() ==> fits(#[trigger] biased_candidate(candidates@[k], active_bias).1),
    ensures
        r@.len() == candidates@.len(),
        forall|k: int|
            0 <= k < r@.len() ==> (#[trigger] r@[k]).0 == candidates@[k].0 && r@[k].1
                == biased_candidate(candidates@[k], active_bias).1,
{
    match active_bias {
        None => {
            assert forall|k: int| 0 <= k < candidates@.len() implies (#[trigger] candidates@[k]).1
                == biased_candidate(candidates@[k], active_bias).1 by {}
            candidates
        },
        Some(snap) => {
            let mut out: Vec<(PlayerIntent, i64)> = Vec::with_capacity(candidates.len());
            let mut k: usize = 0;
            while k < candidates.len()
                invariant
                    k <= candidates@.len(),
                    out@.len() == k,
                    active_bias == Some(snap),
                    forall|j: int| 0 <= j < candidates@.len() ==> #[trigger] candidates@[j].1 >= 0,
                    forall|j: int|
                        0 <= j < candidates@.len() ==> fits(
                            #[trigger] biased_candidate(candidates@[j], active_bias).1,
                        ),
                    forall|j: int|
                        0 <= j < k ==> (#[trigger] out@[j]).0 == candidates@[j].0 && out@[j].1
                            == biased_candidate(candidates@[j], active_bias).1,
                decreases candidates@.len() - k,
            {
                let (intent, score) = candidates[k];
                assert(fits(biased_candidate(candidates@[k as int], active_bias).1));
                assert(candidates@[k as int].1 >= 0);
                let consideration = intent_to_bias_consideration(&intent);
                let biased = apply_signature_bias(score, &snap, consideration);
                out.push((intent, biased));
                k = k + 1;
            }
            out
        },
    }
}

} // verus!
