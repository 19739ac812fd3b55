//! The tactic events a change of possession sends to the two teams.

use vstd::prelude::*;

use crate::match_rules::{compute_opponent_shape_broken, opponent_shape_broken};
use crate::match_state::MatchState;
use crate::tactic::{TacticEvent, TacticState};

verus! {

/// Team index (0 home, 1 away) of a roster slot.
pub open spec fn team_index(slot: u8) -> usize {
    if slot < 11 {
        0
    } else {
        1
    }
}

/// A team still in a set-piece state first returns to live play.
pub open spec fn exit_set_piece(tactics: Seq<TacticState>, team: usize) -> Seq<(usize, TacticEvent)> {
    if tactics[team as int] is SetPiece {
        seq![(team, TacticEvent::BallInPlay)]
    } else {
        Seq::empty()
    }
}

/// The tactic events, in order and each with its team, that follow a
/// change of possession from `before` to the state's effective possession
/// (a successful pass in flight already belongs to its receiver):
/// a release loses the ball; a pass or dribble within a team changes
/// nothing; a cross-team change loses the ball for one team (recovery
/// likely) and recovers it for the other; a loose-ball pickup recovers it.
/// Each team involved still in a set piece first returns to live play.
pub open spec fn possession_transition_plan(
    s: MatchState,
    before: Option<u8>,
    tactics: Seq<TacticState>,
) -> Seq<(usize, TacticEvent)> {
    match (before, s.effective_possession_spec()) {
        (Some(a), None) => {
            let lost = team_index(a);
            exit_set_piece(tactics, lost).push(
                (lost, TacticEvent::PossessionLost { recovery_likely: false }),
            )
        },
        (Some(a), Some(b)) => {
            let lost = team_index(a);
            let gained = team_index(b);
            if lost == gained {
                Seq::empty()
            } else {
                (exit_set_piece(tactics, lost) + exit_set_piece(tactics, gained)).push(
                    (lost, TacticEvent::PossessionLost { recovery_likely: true }),
                ).push(
                    (
                        gained,
                        TacticEvent::BallRecovered {
                            opponent_shape_broken: opponent_shape_broken(s, gained),
                        },
                    ),
                )
            }
        },
        (None, Some(b)) => {
            let gained = team_index(b);
            exit_set_piece(tactics, gained).push(
                (
                    gained,
                    TacticEvent::BallRecovered {
                        opponent_shape_broken: opponent_shape_broken(s, gained),
                    },
                ),
            )
        },
        (None, None) => Seq::empty(),
    }
}

fn push_set_piece_exit(events: &mut Vec<(usize, TacticEvent)>, tactics: &[TacticState; 2], team: usize)
    requires
        team < 2,
    ensures
        final(events)@ == old(events)@ + exit_set_piece(tactics@, team),
{
    if let TacticState::SetPiece(_) = tactics[team] {
        events.push((team, TacticEvent::BallInPlay));
    } else {
        assert(old(events)@ + Seq::<(usize, TacticEvent)>::empty() == old(events)@);
    }
}

/// The tactic events for the two teams (`tactics`: their current tactic
/// states, home first) after possession changed from `possession_before`
/// this tick; see [`possession_transition_plan`].
pub fn possession_transition_events(
    state: &MatchState,
    possession_before: Option<u8>,
    tactics: &[TacticState; 2],
) -> (r: Vec<(usize, TacticEvent)>)
    requires
        state.wf(),
    ensures
        r@ == possession_transition_plan(*state, possession_before, tactics@),
{
    let possession_after = state.effective_possession();
    let mut events: Vec<(usize, TacticEvent)> = Vec::new();
    match (possession_before, possession_after) {
        (Some(a), None) => {
            let team_lost: usize = if a < 11 {
                0
            } else {
                1
            };
            push_set_piece_exit(&mut events, tactics, team_lost);
            events.push((team_lost, TacticEvent::PossessionLost { recovery_likely: false }));
        },
        (Some(a), Some(b)) => {
            let team_lost: usize = if a < 11 {
                0
            } else {
                1
            };
            let team_gained: usize = if b < 11 {
                0
            } else {
                1
            };
            if team_lost != team_gained {
                push_set_piece_exit(&mut events, tactics, team_lost);
                push_set_piece_exit(&mut events, tactics, team_gained);
                let shape_broken = compute_opponent_shape_broken(state, team_gained);
                events.push((team_lost, TacticEvent::PossessionLost { recovery_likely: true }));
                events.push(
                    (team_gained, TacticEvent::BallRecovered { opponent_shape_broken: shape_broken }),
                );
            }
        },
        (None, Some(b)) => {
            let team_gained: usize = if b < 11 {
                0
            } else {
                1
            };
            push_set_piece_exit(&mut events, tactics, team_gained);
            let shape_broken = compute_opponent_shape_broken(state, team_gained);
            events.push(
                (team_gained, TacticEvent::BallRecovered { opponent_shape_broken: shape_broken }),
            );
        },
        (None, None) => {},
    }
    proof {
        assert(Seq::<(usize, TacticEvent)>::empty() + exit_set_piece(tactics@, 0) == exit_set_piece(
            tactics@,
            0,
        ));
        assert(Seq::<(usize, TacticEvent)>::empty() + exit_set_piece(tactics@, 1) == exit_set_piece(
            tactics@,
            1,
        ));
    }
    events
}

/// Launching a successful pass to a teammate is not a loss of possession:
/// while it is in flight no tactic event fires for either team.
pub proof fn lemma_successful_pass_in_flight_keeps_possession(
    s: MatchState,
    passer: u8,
    tactics: Seq<TacticState>,
)
    requires
        s.possession is None,
        s.ball_in_flight matches Some(b) && b.outcome_is_success && team_index(b.intended_receiver)
            == team_index(passer),
    ensures
        possession_transition_plan(s, Some(passer), tactics) == Seq::<(usize, TacticEvent)>::empty(),
{
}

/// A failed pass in flight is a loss of possession for the passer's team,
/// and the only event besides a set-piece exit.
pub proof fn lemma_failed_pass_in_flight_loses_possession(
    s: MatchState,
    passer: u8,
    tactics: Seq<TacticState>,
)
    requires
        s.possession is None,
        s.ball_in_flight matches Some(b) && !b.outcome_is_success,
    ensures
        possession_transition_plan(s, Some(passer), tactics).last() == (
            team_index(passer),
            TacticEvent::PossessionLost { recovery_likely: false },
        ),
{
}

} // verus!
