use fw_match_sim::match_state::MatchState;
use fw_match_sim::role_states::{
    DefenderState, ForwardState, GoalkeeperState, MidfielderState, PlayerRoleState, Role,
};

#[test]
fn role_tags_are_stable() {
    assert_eq!(Role::Goalkeeper.to_tag(), 0);
    assert_eq!(Role::Defender.to_tag(), 1);
    assert_eq!(Role::Midfielder.to_tag(), 2);
    assert_eq!(Role::Forward.to_tag(), 3);
}

#[test]
fn goalkeeper_state_tag_round_trip() {
    for tag in 0u8..8 {
        let state = GoalkeeperState::from_tag(tag).expect("all tags 0..8 must decode");
        assert_eq!(state.to_tag(), tag);
    }
}

#[test]
fn goalkeeper_state_out_of_range_returns_none() {
    assert!(GoalkeeperState::from_tag(8).is_none());
    assert!(GoalkeeperState::from_tag(255).is_none());
}

#[test]
fn goalkeeper_state_default_is_in_box_positioning() {
    assert_eq!(Role::Goalkeeper.default_state_tag(), 0);
    let state = GoalkeeperState::from_tag(0).unwrap();
    assert_eq!(state, GoalkeeperState::InBoxPositioning);
}

#[test]
fn defender_state_tag_round_trip() {
    for tag in 0u8..7 {
        let state = DefenderState::from_tag(tag).expect("all tags 0..7 must decode");
        assert_eq!(state.to_tag(), tag);
    }
}

#[test]
fn defender_state_default_is_defending() {
    assert_eq!(Role::Defender.default_state_tag(), 0);
    let state = DefenderState::from_tag(0).unwrap();
    assert_eq!(state, DefenderState::Defending);
}

#[test]
fn midfielder_state_tag_round_trip() {
    for tag in 0u8..7 {
        let state = MidfielderState::from_tag(tag).expect("all tags 0..7 must decode");
        assert_eq!(state.to_tag(), tag);
    }
}

#[test]
fn midfielder_state_default_is_defending() {
    assert_eq!(Role::Midfielder.default_state_tag(), 0);
    let state = MidfielderState::from_tag(0).unwrap();
    assert_eq!(state, MidfielderState::Defending);
}

#[test]
fn forward_state_tag_round_trip() {
    for tag in 0u8..7 {
        let state = ForwardState::from_tag(tag).expect("all tags 0..7 must decode");
        assert_eq!(state.to_tag(), tag);
    }
}

#[test]
fn forward_state_default_is_running_off_ball() {
    assert_eq!(Role::Forward.default_state_tag(), 0);
    let state = ForwardState::from_tag(0).unwrap();
    assert_eq!(state, ForwardState::RunningOffBall);
}

#[test]
fn player_role_state_to_tags_round_trip_via_from_tags() {
    let cases = [
        PlayerRoleState::Goalkeeper(GoalkeeperState::InBoxPositioning),
        PlayerRoleState::Goalkeeper(GoalkeeperState::Recovering),
        PlayerRoleState::Defender(DefenderState::Defending),
        PlayerRoleState::Defender(DefenderState::Tracking),
        PlayerRoleState::Midfielder(MidfielderState::Defending),
        PlayerRoleState::Midfielder(MidfielderState::SetPieceWaiting),
        PlayerRoleState::Forward(ForwardState::RunningOffBall),
        PlayerRoleState::Forward(ForwardState::SetPieceWaiting),
    ];
    for prs in cases {
        let (rt, st) = prs.to_tags();
        let back = PlayerRoleState::from_tags(rt, st).expect("round-trip must succeed");
        assert_eq!(prs, back, "round-trip failed for {:?}", prs);
    }
}

#[test]
fn player_role_state_from_tags_invalid_role_returns_none() {
    assert!(PlayerRoleState::from_tags(4, 0).is_none());
    assert!(PlayerRoleState::from_tags(255, 0).is_none());
}

#[test]
fn player_role_state_from_tags_invalid_state_returns_none() {
    assert!(PlayerRoleState::from_tags(0, 8).is_none());
}

#[test]
fn player_role_state_initial_matches_role() {
    assert_eq!(
        PlayerRoleState::initial(Role::Goalkeeper).role(),
        Role::Goalkeeper
    );
    assert_eq!(
        PlayerRoleState::initial(Role::Defender).role(),
        Role::Defender
    );
    assert_eq!(
        PlayerRoleState::initial(Role::Midfielder).role(),
        Role::Midfielder
    );
    assert_eq!(
        PlayerRoleState::initial(Role::Forward).role(),
        Role::Forward
    );
}

#[test]
fn player_role_state_initial_tag_pairs_are_stable() {
    let (rt, st) = PlayerRoleState::initial(Role::Goalkeeper).to_tags();
    assert_eq!((rt, st), (0, 0), "GK initial should be (0, 0)");
    let (rt, st) = PlayerRoleState::initial(Role::Defender).to_tags();
    assert_eq!((rt, st), (1, 0), "DEF initial should be (1, 0)");
    let (rt, st) = PlayerRoleState::initial(Role::Midfielder).to_tags();
    assert_eq!((rt, st), (2, 0), "MID initial should be (2, 0)");
    let (rt, st) = PlayerRoleState::initial(Role::Forward).to_tags();
    assert_eq!((rt, st), (3, 0), "FWD initial should be (3, 0)");
}

#[test]
fn player_role_state_evaluate_transitions_is_identity_in_skeleton() {
    let state = MatchState::initial(1);
    let prs = PlayerRoleState::initial(Role::Midfielder);
    let next = prs.evaluate_transitions(&state, 5);
    assert_eq!(prs, next, "skeleton evaluate_transitions must be identity");
}

#[test]
fn all_roles_have_valid_default_state_tags() {
    for role in [
        Role::Goalkeeper,
        Role::Defender,
        Role::Midfielder,
        Role::Forward,
    ] {
        let tag = role.default_state_tag();
        let max = match role {
            Role::Goalkeeper => 8,
            Role::Defender => 7,
            Role::Midfielder => 7,
            Role::Forward => 7,
        };
        assert!(
            tag < max,
            "role {:?} default_state_tag {} is out of range (max {})",
            role,
            tag,
            max
        );
    }
}
#[test]
fn carrier_moves_into_in_possession() {
    let mut state = MatchState::initial(1);
    state.possession = Some(2);
    let prs = PlayerRoleState::initial(Role::Defender);
    assert_eq!(
        prs.evaluate_transitions(&state, 2),
        PlayerRoleState::Defender(DefenderState::InPossession)
    );
}

#[test]
fn player_who_lost_the_ball_leaves_in_possession() {
    let mut state = MatchState::initial(1);
    let holder = PlayerRoleState::Forward(ForwardState::InPossession);
    // A teammate now has the ball: back to running off the ball.
    state.possession = Some(10);
    assert_eq!(
        holder.evaluate_transitions(&state, 9),
        PlayerRoleState::Forward(ForwardState::RunningOffBall)
    );
    // The opponents have it: recovering.
    state.possession = Some(15);
    assert_eq!(
        holder.evaluate_transitions(&state, 9),
        PlayerRoleState::Forward(ForwardState::Recovering)
    );
    // A keeper's state is left to its own state machine.
    let keeper = PlayerRoleState::Goalkeeper(GoalkeeperState::ShotStopping);
    state.possession = Some(0);
    assert_eq!(keeper.evaluate_transitions(&state, 0), keeper);
}
