//! The match-event stream: what happened, in order, over a match.

use vstd::prelude::*;

use crate::pass_completion::PassKind;
use crate::signature::gate::SignatureKind;

verus! {

/// One entry of the match-event stream. Events accumulate across the
/// match; nothing is ever removed.
#[derive(Debug, Clone, Copy, PartialEq, Eq, Structural)]
pub enum MatchEvent {
    /// Play starts (or restarts after a goal) from the centre spot.
    KickOff { tick: i64, is_second_half: bool },
    /// A shot toward `(target_x, target_y)`, on target when the lateral
    /// target lies within the goal's half-width.
    Shot { shooter_slot: u8, tick: i64, target_x: i64, target_y: i64, on_target: bool },
    /// A pass of `kind` from `from_slot` to `to_slot`; `completed` when its
    /// completion draw succeeded.
    Pass { from_slot: u8, to_slot: u8, tick: i64, kind: PassKind, completed: bool },
    /// A pass of `kind` that failed and dropped loose.
    PassIncomplete { from_slot: u8, to_slot: u8, tick: i64, kind: PassKind },
    /// The receiver `offending_slot` was offside when the pass was played.
    Offside { offending_slot: u8, tick: i64 },
    /// A goal, credited to the last player to touch the ball, with the
    /// score after it.
    Goal { scorer_slot: u8, tick: i64, score_home_after: u16, score_away_after: u16 },
    /// A player fired a signature move for the first time this match.
    SignatureFirstFired { player_slot: u8, signature: SignatureKind, tick: i64 },
    /// The final whistle, with the final score.
    FullTime { tick: i64, home_score: u16, away_score: u16 },
}

} // verus!
