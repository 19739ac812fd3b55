use fw_match_sim::fixed::ONE;
use fw_match_sim::signature::bias_apply::{BiasConsideration, SimBiasSnapshot, apply_signature_bias};

fn half() -> i64 {
    (2_147_483_648_i64)
}

#[test]
fn no_op_snapshot_all_considerations_unchanged() {
    let snap = SimBiasSnapshot::no_op();
    let utility = half();
    for c in [
        BiasConsideration::Shoot,
        BiasConsideration::Pass,
        BiasConsideration::Dribble,
        BiasConsideration::Press,
        BiasConsideration::Cover,
    ] {
        let result = apply_signature_bias(utility, &snap, c);
        assert_eq!(
            result, utility,
            "NO_OP snapshot should leave utility unchanged for {c:?}"
        );
    }
}

#[test]
fn shoot_mul_1_4_amplifies_shoot_utility() {
    let snap = SimBiasSnapshot {
        shoot_mul: (6_012_954_214_i64),
        ..SimBiasSnapshot::no_op()
    };
    let utility = ONE;
    let result = apply_signature_bias(utility, &snap, BiasConsideration::Shoot);
    let expected = (6_012_954_214_i64);
    let diff = if result > expected {
        result - expected
    } else {
        expected - result
    };
    assert!(
        diff <= (1),
        "shoot_mul=1.4 should produce ≈1.4; got {result:?} expected {expected:?}"
    );
}

#[test]
fn shoot_mul_does_not_affect_dribble_consideration() {
    let snap = SimBiasSnapshot {
        shoot_mul: (6_012_954_214_i64),
        ..SimBiasSnapshot::no_op()
    };
    let utility = half();
    let result = apply_signature_bias(utility, &snap, BiasConsideration::Dribble);
    assert_eq!(result, utility);
}

#[test]
fn dribble_mul_0_7_suppresses_dribble_utility() {
    let snap = SimBiasSnapshot {
        dribble_mul: (3_006_477_107_i64),
        ..SimBiasSnapshot::no_op()
    };
    let utility = ONE;
    let result = apply_signature_bias(utility, &snap, BiasConsideration::Dribble);
    let expected = (3_006_477_107_i64);
    let diff = if result > expected {
        result - expected
    } else {
        expected - result
    };
    assert!(
        diff <= (256),
        "dribble_mul=0.7 should produce ≈0.7; got {result:?} expected {expected:?}"
    );
}

#[test]
fn pass_mul_1_5_amplifies_pass_utility() {
    let snap = SimBiasSnapshot {
        pass_mul: (6_442_450_944_i64),
        ..SimBiasSnapshot::no_op()
    };
    let utility = half();
    let result = apply_signature_bias(utility, &snap, BiasConsideration::Pass);
    let expected = (3_221_225_472_i64);
    let diff = if result > expected {
        result - expected
    } else {
        expected - result
    };
    assert!(
        diff <= (256),
        "pass_mul=1.5 × 0.5 should be ≈0.75; got {result:?}"
    );
}

#[test]
fn press_mul_amplifies_press_consideration() {
    let snap = SimBiasSnapshot {
        press_mul: (5_368_709_120_i64),
        ..SimBiasSnapshot::no_op()
    };
    let utility = (2_147_483_648_i64);
    let result = apply_signature_bias(utility, &snap, BiasConsideration::Press);
    assert!(
        result > utility,
        "press_mul > 1.0 should amplify press utility"
    );
}

#[test]
fn cover_mul_amplifies_cover_consideration() {
    let snap = SimBiasSnapshot {
        cover_mul: (5_583_457_280_i64),
        ..SimBiasSnapshot::no_op()
    };
    let utility = (2_147_483_648_i64);
    let result = apply_signature_bias(utility, &snap, BiasConsideration::Cover);
    assert!(
        result > utility,
        "cover_mul > 1.0 should amplify cover utility"
    );
}

#[test]
fn zero_utility_stays_zero_regardless_of_multiplier() {
    let snap = SimBiasSnapshot {
        shoot_mul: (6_012_954_214_i64),
        ..SimBiasSnapshot::no_op()
    };
    let result = apply_signature_bias(0i64, &snap, BiasConsideration::Shoot);
    assert_eq!(result, 0i64, "0 × anything = 0");
}