use fw_match_sim::match_state::{BallInFlight, MatchState};
use fw_match_sim::possession::possession_transition_events;
use fw_match_sim::tactic::{SetPieceKind, TacticEvent, TacticState};

const LIVE: [TacticState; 2] = [TacticState::MidBlock, TacticState::MidBlock];

#[test]
fn release_without_pickup_loses_possession() {
    let mut s = MatchState::initial(1);
    s.possession = None;
    let ev = possession_transition_events(&s, Some(9), &LIVE);
    assert_eq!(ev, vec![(0, TacticEvent::PossessionLost { recovery_likely: false })]);
}

#[test]
fn within_team_transfer_fires_nothing() {
    let mut s = MatchState::initial(1);
    s.possession = Some(7);
    assert!(possession_transition_events(&s, Some(9), &LIVE).is_empty());
}

#[test]
fn successful_pass_in_flight_is_not_a_loss() {
    let mut s = MatchState::initial(1);
    s.possession = None;
    s.ball_in_flight = Some(BallInFlight { intended_receiver: 7, outcome_is_success: true, launch_tick: 0 });
    assert!(possession_transition_events(&s, Some(9), &LIVE).is_empty());
    // A failed pass in flight is a loss.
    s.ball_in_flight = Some(BallInFlight { intended_receiver: 7, outcome_is_success: false, launch_tick: 0 });
    assert_eq!(
        possession_transition_events(&s, Some(9), &LIVE),
        vec![(0, TacticEvent::PossessionLost { recovery_likely: false })]
    );
}

#[test]
fn cross_team_change_exits_set_pieces_first() {
    let mut s = MatchState::initial(1);
    s.possession = Some(15);
    let tactics = [TacticState::SetPiece(SetPieceKind::ThrowInFor), TacticState::LowBlock];
    let ev = possession_transition_events(&s, Some(9), &tactics);
    // Initial formation: the home side sits in its own half, so the away
    // recovery finds the home mean x below 0 — not committed forward.
    assert_eq!(
        ev,
        vec![
            (0, TacticEvent::BallInPlay),
            (0, TacticEvent::PossessionLost { recovery_likely: true }),
            (1, TacticEvent::BallRecovered { opponent_shape_broken: false }),
        ]
    );
}

#[test]
fn loose_ball_pickup_recovers() {
    let mut s = MatchState::initial(1);
    s.possession = Some(3);
    // Push the away side into the home half: their mean x is below 0, so
    // a home recovery finds them committed forward.
    for slot in 11..22 {
        s.players[slot].pos_x = -(10i64 << 32);
    }
    let tactics = [TacticState::HighPress, TacticState::SetPiece(SetPieceKind::CornerFor)];
    assert_eq!(
        possession_transition_events(&s, None, &tactics),
        vec![(0, TacticEvent::BallRecovered { opponent_shape_broken: true })]
    );
    s.possession = None;
    assert!(possession_transition_events(&s, None, &tactics).is_empty());
}
