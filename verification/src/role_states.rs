//! Per-player roles, per-role state enums, and the player intent type.
//!
//! The `u8` tags are stable wire values:
//! - Role: 0 = Goalkeeper, 1 = Defender, 2 = Midfielder, 3 = Forward.
//! - Each per-role state's tag is its position in the variant list below.

use vstd::prelude::*;

use crate::match_state::MatchState;

verus! {

// ---------------------------------------------------------------------------
// Role
// ---------------------------------------------------------------------------

/// Coarse player role. The goalkeeper runs a pure state machine; the three
/// outfield roles run a state machine of behaviour trees.
#[derive(Debug, Clone, Copy, PartialEq, Eq, Structural)]
pub enum Role {
    Goalkeeper,
    Defender,
    Midfielder,
    Forward,
}

/// Stable wire tag of a role.
pub open spec fn role_tag(r: Role) -> u8 {
    match r {
        Role::Goalkeeper => 0,
        Role::Defender => 1,
        Role::Midfielder => 2,
        Role::Forward => 3,
    }
}

/// Number of per-role states a role has (valid state tags are `0..n`).
pub open spec fn role_state_count(r: Role) -> u8 {
    match r {
        Role::Goalkeeper => 8,
        _ => 7,
    }
}

impl Role {
    /// Stable canonical wire tag.
    pub fn to_tag(self) -> (t: u8)
        ensures
            t == role_tag(self),
            t < 4,
    {
        match self {
            Role::Goalkeeper => 0,
            Role::Defender => 1,
            Role::Midfielder => 2,
            Role::Forward => 3,
        }
    }

    /// Tag of the state every role starts a match in (always the first
    /// state of its role).
    pub fn default_state_tag(self) -> (t: u8)
        ensures
            t == 0,
            t < role_state_count(self),
    {
        match self {
            Role::Goalkeeper => 0,
            Role::Defender => 0,
            Role::Midfielder => 0,
            Role::Forward => 0,
        }
    }
}

// ---------------------------------------------------------------------------
// GoalkeeperState
// ---------------------------------------------------------------------------

/// Goalkeeper states. Variant order is the wire tag.
#[derive(Debug, Clone, Copy, PartialEq, Eq, Structural)]
pub enum GoalkeeperState {
    InBoxPositioning,
    SweeperKeeperRush,
    ShotStopping,
    DistributingFromHand,
    DistributingFromFeet,
    PenaltyStance,
    SetPieceWall,
    Recovering,
}

/// Wire tag of a goalkeeper state.
pub open spec fn gk_state_tag(s: GoalkeeperState) -> u8 {
    match s {
        GoalkeeperState::InBoxPositioning => 0,
        GoalkeeperState::SweeperKeeperRush => 1,
        GoalkeeperState::ShotStopping => 2,
        GoalkeeperState::DistributingFromHand => 3,
        GoalkeeperState::DistributingFromFeet => 4,
        GoalkeeperState::PenaltyStance => 5,
        GoalkeeperState::SetPieceWall => 6,
        GoalkeeperState::Recovering => 7,
    }
}

/// The goalkeeper state with wire tag `tag`, if any.
pub open spec fn gk_state_of_tag(tag: u8) -> Option<GoalkeeperState> {
    match tag {
        0 => Some(GoalkeeperState::InBoxPositioning),
        1 => Some(GoalkeeperState::SweeperKeeperRush),
        2 => Some(GoalkeeperState::ShotStopping),
        3 => Some(GoalkeeperState::DistributingFromHand),
        4 => Some(GoalkeeperState::DistributingFromFeet),
        5 => Some(GoalkeeperState::PenaltyStance),
        6 => Some(GoalkeeperState::SetPieceWall),
        7 => Some(GoalkeeperState::Recovering),
        _ => None,
    }
}

impl GoalkeeperState {
    /// Canonical wire tag.
    pub fn to_tag(self) -> (t: u8)
        ensures
            t == gk_state_tag(self),
            t < 8,
            gk_state_of_tag(t) == Some(self),
    {
        match self {
            GoalkeeperState::InBoxPositioning => 0,
            GoalkeeperState::SweeperKeeperRush => 1,
            GoalkeeperState::ShotStopping => 2,
            GoalkeeperState::DistributingFromHand => 3,
            GoalkeeperState::DistributingFromFeet => 4,
            GoalkeeperState::PenaltyStance => 5,
            GoalkeeperState::SetPieceWall => 6,
            GoalkeeperState::Recovering => 7,
        }
    }

    /// Decode a wire tag; `None` for tags outside `0..8`.
    pub fn from_tag(tag: u8) -> (r: Option<GoalkeeperState>)
        ensures
            r == gk_state_of_tag(tag),
            r is Some <==> tag < 8,
            r matches Some(s) ==> gk_state_tag(s) == tag,
    {
        match tag {
            0 => Some(GoalkeeperState::InBoxPositioning),
            1 => Some(GoalkeeperState::SweeperKeeperRush),
            2 => Some(GoalkeeperState::ShotStopping),
            3 => Some(GoalkeeperState::DistributingFromHand),
            4 => Some(GoalkeeperState::DistributingFromFeet),
            5 => Some(GoalkeeperState::PenaltyStance),
            6 => Some(GoalkeeperState::SetPieceWall),
            7 => Some(GoalkeeperState::Recovering),
            _ => None,
        }
    }
}

// ---------------------------------------------------------------------------
// DefenderState
// ---------------------------------------------------------------------------

/// Defender states. Variant order is the wire tag.
#[derive(Debug, Clone, Copy, PartialEq, Eq, Structural)]
pub enum DefenderState {
    Defending,
    Pressing,
    Recovering,
    Supporting,
    InPossession,
    SetPieceWaiting,
    Tracking,
}

/// Wire tag of a defender state.
pub open spec fn def_state_tag(s: DefenderState) -> u8 {
    match s {
        DefenderState::Defending => 0,
        DefenderState::Pressing => 1,
        DefenderState::Recovering => 2,
        DefenderState::Supporting => 3,
        DefenderState::InPossession => 4,
        DefenderState::SetPieceWaiting => 5,
        DefenderState::Tracking => 6,
    }
}

/// The defender state with wire tag `tag`, if any.
pub open spec fn def_state_of_tag(tag: u8) -> Option<DefenderState> {
    match tag {
        0 => Some(DefenderState::Defending),
        1 => Some(DefenderState::Pressing),
        2 => Some(DefenderState::Recovering),
        3 => Some(DefenderState::Supporting),
        4 => Some(DefenderState::InPossession),
        5 => Some(DefenderState::SetPieceWaiting),
        6 => Some(DefenderState::Tracking),
        _ => None,
    }
}

impl DefenderState {
    /// Canonical wire tag.
    pub fn to_tag(self) -> (t: u8)
        ensures
            t == def_state_tag(self),
            t < 7,
            def_state_of_tag(t) == Some(self),
    {
        match self {
            DefenderState::Defending => 0,
            DefenderState::Pressing => 1,
            DefenderState::Recovering => 2,
            DefenderState::Supporting => 3,
            DefenderState::InPossession => 4,
            DefenderState::SetPieceWaiting => 5,
            DefenderState::Tracking => 6,
        }
    }

    /// Decode a wire tag; `None` for tags outside `0..7`.
    pub fn from_tag(tag: u8) -> (r: Option<DefenderState>)
        ensures
            r == def_state_of_tag(tag),
            r is Some <==> tag < 7,
            r matches Some(s) ==> def_state_tag(s) == tag,
    {
        match tag {
            0 => Some(DefenderState::Defending),
            1 => Some(DefenderState::Pressing),
            2 => Some(DefenderState::Recovering),
            3 => Some(DefenderState::Supporting),
            4 => Some(DefenderState::InPossession),
            5 => Some(DefenderState::SetPieceWaiting),
            6 => Some(DefenderState::Tracking),
            _ => None,
        }
    }
}

// ---------------------------------------------------------------------------
// MidfielderState
// ---------------------------------------------------------------------------

/// Midfielder states. Variant order is the wire tag.
#[derive(Debug, Clone, Copy, PartialEq, Eq, Structural)]
pub enum MidfielderState {
    Defending,
    Pressing,
    Recovering,
    Supporting,
    InPossession,
    RunningOffBall,
    SetPieceWaiting,
}

/// Wire tag of a midfielder state.
pub open spec fn mid_state_tag(s: MidfielderState) -> u8 {
    match s {
        MidfielderState::Defending => 0,
        MidfielderState::Pressing => 1,
        MidfielderState::Recovering => 2,
        MidfielderState::Supporting => 3,
        MidfielderState::InPossession => 4,
        MidfielderState::RunningOffBall => 5,
        MidfielderState::SetPieceWaiting => 6,
    }
}

/// The midfielder state with wire tag `tag`, if any.
pub open spec fn mid_state_of_tag(tag: u8) -> Option<MidfielderState> {
    match tag {
        0 => Some(MidfielderState::Defending),
        1 => Some(MidfielderState::Pressing),
        2 => Some(MidfielderState::Recovering),
        3 => Some(MidfielderState::Supporting),
        4 => Some(MidfielderState::InPossession),
        5 => Some(MidfielderState::RunningOffBall),
        6 => Some(MidfielderState::SetPieceWaiting),
        _ => None,
    }
}

impl MidfielderState {
    /// Canonical wire tag.
    pub fn to_tag(self) -> (t: u8)
        ensures
            t == mid_state_tag(self),
            t < 7,
            mid_state_of_tag(t) == Some(self),
    {
        match self {
            MidfielderState::Defending => 0,
            MidfielderState::Pressing => 1,
            MidfielderState::Recovering => 2,
            MidfielderState::Supporting => 3,
            MidfielderState::InPossession => 4,
            MidfielderState::RunningOffBall => 5,
            MidfielderState::SetPieceWaiting => 6,
        }
    }

    /// Decode a wire tag; `None` for tags outside `0..7`.
    pub fn from_tag(tag: u8) -> (r: Option<MidfielderState>)
        ensures
            r == mid_state_of_tag(tag),
            r is Some <==> tag < 7,
            r matches Some(s) ==> mid_state_tag(s) == tag,
    {
        match tag {
            0 => Some(MidfielderState::Defending),
            1 => Some(MidfielderState::Pressing),
            2 => Some(MidfielderState::Recovering),
            3 => Some(MidfielderState::Supporting),
            4 => Some(MidfielderState::InPossession),
            5 => Some(MidfielderState::RunningOffBall),
            6 => Some(MidfielderState::SetPieceWaiting),
            _ => None,
        }
    }
}

// ---------------------------------------------------------------------------
// ForwardState
// ---------------------------------------------------------------------------

/// Forward states. Variant order is the wire tag.
#[derive(Debug, Clone, Copy, PartialEq, Eq, Structural)]
pub enum ForwardState {
    RunningOffBall,
    Pressing,
    Recovering,
    InPossession,
    HoldingUp,
    MakingRun,
    SetPieceWaiting,
}

/// Wire tag of a forward state.
pub open spec fn fwd_state_tag(s: ForwardState) -> u8 {
    match s {
        ForwardState::RunningOffBall => 0,
        ForwardState::Pressing => 1,
        ForwardState::Recovering => 2,
        ForwardState::InPossession => 3,
        ForwardState::HoldingUp => 4,
        ForwardState::MakingRun => 5,
        ForwardState::SetPieceWaiting => 6,
    }
}

/// The forward state with wire tag `tag`, if any.
pub open spec fn fwd_state_of_tag(tag: u8) -> Option<ForwardState> {
    match tag {
        0 => Some(ForwardState::RunningOffBall),
        1 => Some(ForwardState::Pressing),
        2 => Some(ForwardState::Recovering),
        3 => Some(ForwardState::InPossession),
        4 => Some(ForwardState::HoldingUp),
        5 => Some(ForwardState::MakingRun),
        6 => Some(ForwardState::SetPieceWaiting),
        _ => None,
    }
}

impl ForwardState {
    /// Canonical wire tag.
    pub fn to_tag(self) -> (t: u8)
        ensures
            t == fwd_state_tag(self),
            t < 7,
            fwd_state_of_tag(t) == Some(self),
    {
        match self {
            ForwardState::RunningOffBall => 0,
            ForwardState::Pressing => 1,
            ForwardState::Recovering => 2,
            ForwardState::InPossession => 3,
            ForwardState::HoldingUp => 4,
            ForwardState::MakingRun => 5,
            ForwardState::SetPieceWaiting => 6,
        }
    }

    /// Decode a wire tag; `None` for tags outside `0..7`.
    pub fn from_tag(tag: u8) -> (r: Option<ForwardState>)
        ensures
            r == fwd_state_of_tag(tag),
            r is Some <==> tag < 7,
            r matches Some(s) ==> fwd_state_tag(s) == tag,
    {
        match tag {
            0 => Some(ForwardState::RunningOffBall),
            1 => Some(ForwardState::Pressing),
            2 => Some(ForwardState::Recovering),
            3 => Some(ForwardState::InPossession),
            4 => Some(ForwardState::HoldingUp),
            5 => Some(ForwardState::MakingRun),
            6 => Some(ForwardState::SetPieceWaiting),
            _ => None,
        }
    }
}

// ---------------------------------------------------------------------------
// PlayerRoleState
// ---------------------------------------------------------------------------

/// A role paired with a state of that same role; mismatched pairs (a
/// defender in a goalkeeper state) cannot be built.
#[derive(Debug, Clone, Copy, PartialEq, Eq, Structural)]
pub enum PlayerRoleState {
    Goalkeeper(GoalkeeperState),
    Defender(DefenderState),
    Midfielder(MidfielderState),
    Forward(ForwardState),
}

/// The coarse role of a role state.
pub open spec fn role_of(s: PlayerRoleState) -> Role {
    match s {
        PlayerRoleState::Goalkeeper(_) => Role::Goalkeeper,
        PlayerRoleState::Defender(_) => Role::Defender,
        PlayerRoleState::Midfielder(_) => Role::Midfielder,
        PlayerRoleState::Forward(_) => Role::Forward,
    }
}

/// The per-role state tag of a role state.
pub open spec fn state_tag_of(s: PlayerRoleState) -> u8 {
    match s {
        PlayerRoleState::Goalkeeper(g) => gk_state_tag(g),
        PlayerRoleState::Defender(d) => def_state_tag(d),
        PlayerRoleState::Midfielder(m) => mid_state_tag(m),
        PlayerRoleState::Forward(f) => fwd_state_tag(f),
    }
}

/// The wire tag pair `(role_tag, state_tag)` of a role state.
pub open spec fn role_state_tags(s: PlayerRoleState) -> (u8, u8) {
    (role_tag(role_of(s)), state_tag_of(s))
}

/// The role state encoded by a wire tag pair, if the pair is valid.
pub open spec fn role_state_of_tags(role_tag: u8, state_tag: u8) -> Option<PlayerRoleState> {
    match role_tag {
        0 => match gk_state_of_tag(state_tag) {
            Some(g) => Some(PlayerRoleState::Goalkeeper(g)),
            None => None,
        },
        1 => match def_state_of_tag(state_tag) {
            Some(d) => Some(PlayerRoleState::Defender(d)),
            None => None,
        },
        2 => match mid_state_of_tag(state_tag) {
            Some(m) => Some(PlayerRoleState::Midfielder(m)),
            None => None,
        },
        3 => match fwd_state_of_tag(state_tag) {
            Some(f) => Some(PlayerRoleState::Forward(f)),
            None => None,
        },
        _ => None,
    }
}

/// The state a player of role `r` starts a match in.
pub open spec fn initial_role_state(r: Role) -> PlayerRoleState {
    match r {
        Role::Goalkeeper => PlayerRoleState::Goalkeeper(GoalkeeperState::InBoxPositioning),
        Role::Defender => PlayerRoleState::Defender(DefenderState::Defending),
        Role::Midfielder => PlayerRoleState::Midfielder(MidfielderState::Defending),
        Role::Forward => PlayerRoleState::Forward(ForwardState::RunningOffBall),
    }
}

impl PlayerRoleState {
    /// The coarse role of this state.
    pub fn role(self) -> (r: Role)
        ensures
            r == role_of(self),
    {
        match self {
            PlayerRoleState::Goalkeeper(_) => Role::Goalkeeper,
            PlayerRoleState::Defender(_) => Role::Defender,
            PlayerRoleState::Midfielder(_) => Role::Midfielder,
            PlayerRoleState::Forward(_) => Role::Forward,
        }
    }

    /// Canonical wire tag pair `(role_tag, state_tag)`.
    pub fn to_tags(self) -> (t: (u8, u8))
        ensures
            t == role_state_tags(self),
            t.1 < role_state_count(role_of(self)),
    {
        match self {
            PlayerRoleState::Goalkeeper(s) => (0, s.to_tag()),
            PlayerRoleState::Defender(s) => (1, s.to_tag()),
            PlayerRoleState::Midfielder(s) => (2, s.to_tag()),
            PlayerRoleState::Forward(s) => (3, s.to_tag()),
        }
    }

    /// Decode a wire tag pair; `None` unless `role_tag < 4` and `state_tag`
    /// is a valid state of that role.
    pub fn from_tags(role_tag: u8, state_tag: u8) -> (r: Option<PlayerRoleState>)
        ensures
            r == role_state_of_tags(role_tag, state_tag),
            r is Some <==> (role_tag < 4 && (if role_tag == 0 {
                state_tag < 8
            } else {
                state_tag < 7
            })),
            r matches Some(s) ==> role_state_tags(s) == (role_tag, state_tag),
    {
        match role_tag {
            0 => match GoalkeeperState::from_tag(state_tag) {
                Some(g) => Some(PlayerRoleState::Goalkeeper(g)),
                None => None,
            },
            1 => match DefenderState::from_tag(state_tag) {
                Some(d) => Some(PlayerRoleState::Defender(d)),
                None => None,
            },
            2 => match MidfielderState::from_tag(state_tag) {
                Some(m) => Some(PlayerRoleState::Midfielder(m)),
                None => None,
            },
            3 => match ForwardState::from_tag(state_tag) {
                Some(f) => Some(PlayerRoleState::Forward(f)),
                None => None,
            },
            _ => None,
        }
    }

    /// Match-start state for a role: goalkeeper `InBoxPositioning`, defender
    /// and midfielder `Defending`, forward `RunningOffBall`.
    pub fn initial(role: Role) -> (s: PlayerRoleState)
        ensures
            s == initial_role_state(role),
            role_of(s) == role,
            state_tag_of(s) == 0,
    {
        match role {
            Role::Goalkeeper => PlayerRoleState::Goalkeeper(GoalkeeperState::InBoxPositioning),
            Role::Defender => PlayerRoleState::Defender(DefenderState::Defending),
            Role::Midfielder => PlayerRoleState::Midfielder(MidfielderState::Defending),
            Role::Forward => PlayerRoleState::Forward(ForwardState::RunningOffBall),
        }
    }
}

/// The player in `slot` holds the ball.
pub open spec fn is_carrier(s: MatchState, slot: int) -> bool {
    s.possession matches Some(p) && p as int == slot
}

/// The team of the player in `slot` still has the ball: the effective
/// possessor is on that team (slots `0..11` home, `11..22` away).
pub open spec fn team_keeps_ball(s: MatchState, slot: int) -> bool {
    s.effective_possession_spec() matches Some(p) && (p < 11) == (slot < 11)
}

/// Role-state routing around the ball: the carrier's outfield role moves
/// into its `InPossession` state; an outfield player in `InPossession` who
/// no longer holds the ball moves to supporting play (a forward: running
/// off the ball) while the team keeps the ball, and to recovering when it
/// does not; every other state, and a goalkeeper's (run by its own state
/// machine), is kept.
pub open spec fn role_transition(r: PlayerRoleState, s: MatchState, slot: int) -> PlayerRoleState {
    let carrier = is_carrier(s, slot);
    let keeps = team_keeps_ball(s, slot);
    match r {
        PlayerRoleState::Goalkeeper(g) => r,
        PlayerRoleState::Defender(d) => if carrier {
            PlayerRoleState::Defender(DefenderState::InPossession)
        } else if d is InPossession {
            PlayerRoleState::Defender(
                if keeps {
                    DefenderState::Supporting
                } else {
                    DefenderState::Recovering
                },
            )
        } else {
            r
        },
        PlayerRoleState::Midfielder(m) => if carrier {
            PlayerRoleState::Midfielder(MidfielderState::InPossession)
        } else if m is InPossession {
            PlayerRoleState::Midfielder(
                if keeps {
                    MidfielderState::Supporting
                } else {
                    MidfielderState::Recovering
                },
            )
        } else {
            r
        },
        PlayerRoleState::Forward(f) => if carrier {
            PlayerRoleState::Forward(ForwardState::InPossession)
        } else if f is InPossession {
            PlayerRoleState::Forward(
                if keeps {
                    ForwardState::RunningOffBall
                } else {
                    ForwardState::Recovering
                },
            )
        } else {
            r
        },
    }
}

impl PlayerRoleState {
    /// The role state of the player in roster slot `slot_idx` after the
    /// routing around the ball (see [`role_transition`]).
    pub fn evaluate_transitions(self, state: &MatchState, slot_idx: usize) -> (s: PlayerRoleState)
        ensures
            s == role_transition(self, *state, slot_idx as int),
    {
        let carrier = match state.possession {
            Some(p) => p as usize == slot_idx,
            None => false,
        };
        let keeps = match state.effective_possession() {
            Some(p) => (p < 11) == (slot_idx < 11),
            None => false,
        };
        match self {
            PlayerRoleState::Goalkeeper(_) => self,
            PlayerRoleState::Defender(d) => {
                if carrier {
                    PlayerRoleState::Defender(DefenderState::InPossession)
                } else if let DefenderState::InPossession = d {
                    if keeps {
                        PlayerRoleState::Defender(DefenderState::Supporting)
                    } else {
                        PlayerRoleState::Defender(DefenderState::Recovering)
                    }
                } else {
                    self
                }
            },
            PlayerRoleState::Midfielder(m) => {
                if carrier {
                    PlayerRoleState::Midfielder(MidfielderState::InPossession)
                } else if let MidfielderState::InPossession = m {
                    if keeps {
                        PlayerRoleState::Midfielder(MidfielderState::Supporting)
                    } else {
                        PlayerRoleState::Midfielder(MidfielderState::Recovering)
                    }
                } else {
                    self
                }
            },
            PlayerRoleState::Forward(f) => {
                if carrier {
                    PlayerRoleState::Forward(ForwardState::InPossession)
                } else if let ForwardState::InPossession = f {
                    if keeps {
                        PlayerRoleState::Forward(ForwardState::RunningOffBall)
                    } else {
                        PlayerRoleState::Forward(ForwardState::Recovering)
                    }
                } else {
                    self
                }
            },
        }
    }
}

// ---------------------------------------------------------------------------
// PlayerIntent
// ---------------------------------------------------------------------------

/// What a player wants to do this tick. Targets are pitch coordinates in
/// Q32.32 raw bits.
#[derive(Debug, Clone, Copy, PartialEq, Eq, Structural)]
pub enum PlayerIntent {
    /// Move toward `(target_x, target_y)`.
    MoveToPosition { target_x: i64, target_y: i64 },
    /// Stay in place.
    Idle,
    /// Shoot at `(target_x, target_y)`.
    AttemptShot { target_x: i64, target_y: i64 },
    /// Short pass toward `(target_x, target_y)`.
    AttemptPassShort { target_x: i64, target_y: i64 },
    /// Long pass toward `(target_x, target_y)`.
    AttemptPassLong { target_x: i64, target_y: i64 },
    /// Cross toward `(target_x, target_y)`.
    Cross { target_x: i64, target_y: i64 },
    /// Dribble toward `(target_x, target_y)`.
    Dribble { target_x: i64, target_y: i64 },
    /// Shield the ball while moving toward `(target_x, target_y)`.
    HoldBall { target_x: i64, target_y: i64 },
    /// Lay the ball off toward `(target_x, target_y)`.
    LayOff { target_x: i64, target_y: i64 },
    /// Track back toward `(target_x, target_y)`.
    TrackBack { target_x: i64, target_y: i64 },
    /// Press toward `(target_x, target_y)`.
    Press { target_x: i64, target_y: i64 },
    /// Mark the opponent at `(target_x, target_y)`.
    MarkPlayer { target_x: i64, target_y: i64 },
    /// Run into space at `(target_x, target_y)`.
    RunOffBall { target_x: i64, target_y: i64 },
    /// Hold the formation spot `(target_x, target_y)`.
    HoldFormation { target_x: i64, target_y: i64 },
    /// Goalkeeper sets for a shot at `(target_x, target_y)`.
    GkShotStop { target_x: i64, target_y: i64 },
    /// Goalkeeper comes to collect a cross at `(target_x, target_y)`.
    GkCollectCross { target_x: i64, target_y: i64 },
    /// Goalkeeper rushes off the line toward `(target_x, target_y)`.
    GkSweeperRush { target_x: i64, target_y: i64 },
    /// Goalkeeper throws or rolls the ball short to `(target_x, target_y)`.
    GkDistributeShort { target_x: i64, target_y: i64 },
    /// Goalkeeper kicks the ball long to `(target_x, target_y)`.
    GkDistributeLong { target_x: i64, target_y: i64 },
}

// ---------------------------------------------------------------------------
// Laws
// ---------------------------------------------------------------------------

/// Encoding a role state to its wire tag pair and decoding the pair gives
/// the same role state back.
pub proof fn lemma_role_state_tags_round_trip(s: PlayerRoleState)
    ensures
        role_state_of_tags(role_state_tags(s).0, role_state_tags(s).1) == Some(s),
{
}

/// Every valid wire tag pair decodes to a role state whose encoding is that
/// same pair; every other pair fails to decode.
pub proof fn lemma_role_state_tags_decode(role_tag: u8, state_tag: u8)
    ensures
        role_state_of_tags(role_tag, state_tag) matches Some(s) ==> role_state_tags(s) == (
            role_tag,
            state_tag,
        ),
        role_state_of_tags(role_tag, state_tag) is Some <==> (role_tag < 4 && state_tag
            < (if role_tag == 0 {
            8u8
        } else {
            7u8
        })),
{
}

/// A role's initial state belongs to that role and is encoded as the pair
/// `(role tag, default state tag 0)`.
pub proof fn lemma_initial_state_tags(r: Role)
    ensures
        role_of(initial_role_state(r)) == r,
        role_state_tags(initial_role_state(r)) == (role_tag(r), 0u8),
{
}

} // verus!
