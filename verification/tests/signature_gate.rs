use fw_match_sim::fixed::from_int;
use fw_match_sim::match_rules::PitchGeometry;
use fw_match_sim::role_states::PlayerIntent;
use fw_match_sim::signature::gate::{SignatureKind, signature_executes_now, signature_kind};

fn geometry() -> PitchGeometry {
    PitchGeometry {
        goal_line_x: 225485783040,
        sideline_y: from_int(34),
        goal_half_width: 15719580303,
    }
}

fn t() -> (i64, i64) {
    (from_int(1), from_int(1))
}

fn gate(id: &str, intent: PlayerIntent, slot: u8, tick: i64, p: (i64, i64), b: (i64, i64)) -> bool {
    signature_executes_now(&id.to_string(), &intent, slot, tick, p, b, &geometry())
}

#[test]
fn ids_name_the_shipped_signatures() {
    assert_eq!(
        signature_kind(&"fwh.core:signature.touchline-beat".to_string()),
        Some(SignatureKind::TouchlineBeat)
    );
    assert_eq!(
        signature_kind(&"fwh.core:signature.poachers-dart".to_string()),
        Some(SignatureKind::PoachersDart)
    );
    assert_eq!(signature_kind(&"fwh.core:signature.unknown".to_string()), None);
    assert_eq!(signature_kind(&String::new()), None);
}

#[test]
fn nothing_fires_in_the_settle_window() {
    let dribble = PlayerIntent::Dribble { target_x: t().0, target_y: t().1 };
    let wide = (0, from_int(30));
    assert!(!gate("fwh.core:signature.touchline-beat", dribble, 8, 59, wide, wide));
    assert!(gate("fwh.core:signature.touchline-beat", dribble, 8, 60, wide, wide));
}

#[test]
fn touchline_beat_needs_a_dribble_in_the_wide_channel() {
    let dribble = PlayerIntent::Dribble { target_x: t().0, target_y: t().1 };
    let shot = PlayerIntent::AttemptShot { target_x: t().0, target_y: t().1 };
    // |y| must exceed 34 − 10 = 24 m.
    assert!(gate("fwh.core:signature.touchline-beat", dribble, 8, 100, (0, -from_int(25)), (0, 0)));
    assert!(!gate("fwh.core:signature.touchline-beat", dribble, 8, 100, (0, from_int(24)), (0, 0)));
    assert!(!gate("fwh.core:signature.touchline-beat", shot, 8, 100, (0, from_int(30)), (0, 0)));
}

#[test]
fn poachers_dart_needs_a_shot_or_run_in_the_attacked_box() {
    let shot = PlayerIntent::AttemptShot { target_x: t().0, target_y: t().1 };
    let run = PlayerIntent::RunOffBall { target_x: t().0, target_y: t().1 };
    // Home attacks +52.5 m: x = 40 m is 12.5 m out, inside the 16.5 m box.
    assert!(gate("fwh.core:signature.poachers-dart", shot, 9, 100, (from_int(40), 0), (0, 0)));
    assert!(gate("fwh.core:signature.poachers-dart", run, 9, 100, (from_int(40), 0), (0, 0)));
    // The same spot is the away team's far end.
    assert!(!gate("fwh.core:signature.poachers-dart", shot, 20, 100, (from_int(40), 0), (0, 0)));
    assert!(gate("fwh.core:signature.poachers-dart", shot, 20, 100, (-from_int(40), 0), (0, 0)));
}

#[test]
fn long_range_strike_needs_a_shot_from_distance() {
    let shot = PlayerIntent::AttemptShot { target_x: t().0, target_y: t().1 };
    assert!(gate("fwh.core:signature.long-range-strike", shot, 9, 100, (from_int(20), 0), (0, 0)));
    assert!(!gate("fwh.core:signature.long-range-strike", shot, 9, 100, (from_int(40), 0), (0, 0)));
}

#[test]
fn press_signatures_need_the_ball_within_four_metres() {
    let press = PlayerIntent::Press { target_x: t().0, target_y: t().1 };
    let mark = PlayerIntent::MarkPlayer { target_x: t().0, target_y: t().1 };
    let near = (from_int(3), 0);
    let far = (from_int(5), 0);
    for id in ["fwh.core:signature.screening-interception", "fwh.core:signature.body-shield-pressure"] {
        assert!(gate(id, press, 5, 100, (0, 0), near));
        assert!(gate(id, mark, 5, 100, (0, 0), (from_int(4), 0)));
        assert!(!gate(id, press, 5, 100, (0, 0), far));
    }
}

#[test]
fn other_gates() {
    let long = PlayerIntent::AttemptPassLong { target_x: t().0, target_y: t().1 };
    let cross = PlayerIntent::Cross { target_x: t().0, target_y: t().1 };
    let claim = PlayerIntent::GkCollectCross { target_x: t().0, target_y: t().1 };
    assert!(gate("fwh.core:signature.first-time-diagonal-switch", long, 6, 100, (0, 0), (0, 0)));
    assert!(gate("fwh.core:signature.first-time-diagonal-switch", cross, 6, 100, (0, 0), (0, 0)));
    assert!(gate("fwh.core:signature.commanding-claim", claim, 0, 100, (0, 0), (0, 0)));
    assert!(gate("fwh.core:signature.overlapping-surge", cross, 1, 100, (0, from_int(30)), (0, 0)));
    assert!(!gate("fwh.core:signature.overlapping-surge", cross, 1, 100, (0, 0), (0, 0)));
    assert!(!gate("fwh.core:signature.no-op-stub", cross, 1, 100, (0, 0), (0, 0)));
    assert!(!gate("fwh.core:signature.unknown", cross, 1, 100, (0, 0), (0, 0)));
}
