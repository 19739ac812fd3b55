//! Team-tactic states and set-piece restart kinds.

use vstd::prelude::*;

verus! {

/// Kind of restart a team is taking or facing. Each `For` kind is the
/// reciprocal of the matching `Against` kind (the goal kick's reciprocal is
/// `GoalKickOpponent`).
#[derive(Debug, Clone, Copy, PartialEq, Eq, Structural)]
pub enum SetPieceKind {
    ThrowInFor,
    ThrowInAgainst,
    CornerFor,
    CornerAgainst,
    GoalKick,
    GoalKickOpponent,
    KickOff,
    FreeKickFor,
    FreeKickAgainst,
}

/// The kind the other team sees for the same restart.
pub open spec fn reciprocal_kind(k: SetPieceKind) -> SetPieceKind {
    match k {
        SetPieceKind::ThrowInFor => SetPieceKind::ThrowInAgainst,
        SetPieceKind::ThrowInAgainst => SetPieceKind::ThrowInFor,
        SetPieceKind::CornerFor => SetPieceKind::CornerAgainst,
        SetPieceKind::CornerAgainst => SetPieceKind::CornerFor,
        SetPieceKind::GoalKick => SetPieceKind::GoalKickOpponent,
        SetPieceKind::GoalKickOpponent => SetPieceKind::GoalKick,
        SetPieceKind::KickOff => SetPieceKind::KickOff,
        SetPieceKind::FreeKickFor => SetPieceKind::FreeKickAgainst,
        SetPieceKind::FreeKickAgainst => SetPieceKind::FreeKickFor,
    }
}

/// A team's tactical mode.
#[derive(Debug, Clone, Copy, PartialEq, Eq, Structural)]
pub enum TacticState {
    MidBlock,
    LowBlock,
    HighPress,
    CounterAttack,
    SetPiece(SetPieceKind),
}

/// What happens to a team, as its tactic state machine is told.
#[derive(Debug, Clone, Copy, PartialEq, Eq, Structural)]
pub enum TacticEvent {
    /// The team lost the ball; `recovery_likely` when the opponent won it
    /// in a contest this very tick.
    PossessionLost { recovery_likely: bool },
    /// The team won the ball; `opponent_shape_broken` when the opponents are
    /// caught committed forward.
    BallRecovered { opponent_shape_broken: bool },
    /// A restart was taken and play is live again.
    BallInPlay,
    /// The ball went out of play; the team's restart is `kind`.
    BallOutOfPlay { kind: SetPieceKind },
    /// A goal was scored.
    Goal,
}

} // verus!
