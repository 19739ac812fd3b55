use fw_match_sim::signature::dispatcher::BiasCategory;
use fw_match_sim::signature::ledger::{
    CooldownPolicy, MemoryEvent, SignatureLedger, expire_firings, record_firing,
};

#[test]
fn signature_first_fired_constructs() {
    let id = "fwh.core:signature.no-op-stub".to_string();
    let ev = MemoryEvent::SignatureFirstFired {
        player_slot: 7,
        signature_id: id.clone(),
        tick: 100,
    };
    let dbg = format!("{ev:?}");
    assert!(dbg.contains("SignatureFirstFired"));
    assert!(dbg.contains("no-op-stub"));
}

#[test]
fn two_different_signatures_produce_distinct_events() {
    let id_a = "fwh.core:signature.long-range-strike".to_string();
    let id_b = "fwh.core:signature.body-shield-pressure".to_string();
    let ev_a = MemoryEvent::SignatureFirstFired {
        player_slot: 5,
        signature_id: id_a,
        tick: 42,
    };
    let ev_b = MemoryEvent::SignatureFirstFired {
        player_slot: 5,
        signature_id: id_b,
        tick: 42,
    };
    assert_ne!(ev_a, ev_b);
}
#[test]
fn fresh_ledger_is_empty() {
    let l = SignatureLedger::new();
    assert_eq!(l.firings.len(), 88);
    assert_eq!(l.cooldown_ends.len(), 198);
    assert_eq!(l.fired.len(), 198);
    assert!(l.firings.iter().all(|f| f.is_none()));
    assert!(l.cooldown_ends.iter().all(|c| c.is_none()));
    assert!(l.fired.iter().all(|f| !f));
}

#[test]
fn first_firing_is_reported_once_per_player_and_signature() {
    let mut l = SignatureLedger::new();
    let id = "fwh.core:signature.long-range-strike".to_string();
    let first = record_firing(
        &mut l,
        9,
        id.clone(),
        BiasCategory::Attacking,
        CooldownPolicy::EveryTicks(300),
        100,
    );
    assert_eq!(
        first,
        Some(MemoryEvent::SignatureFirstFired { player_slot: 9, signature_id: id.clone(), tick: 100 })
    );
    let again = record_firing(
        &mut l,
        9,
        id.clone(),
        BiasCategory::Attacking,
        CooldownPolicy::EveryTicks(300),
        400,
    );
    assert_eq!(again, None);
    let other_player = record_firing(
        &mut l,
        10,
        id.clone(),
        BiasCategory::Attacking,
        CooldownPolicy::EveryTicks(300),
        400,
    );
    assert!(other_player.is_some());
}

#[test]
fn cooldown_end_follows_the_policy() {
    let mut l = SignatureLedger::new();
    let strike = "fwh.core:signature.long-range-strike".to_string();
    record_firing(&mut l, 3, strike, BiasCategory::Attacking, CooldownPolicy::EveryTicks(250), 40);
    // slot 3, kind index 1 (long-range strike)
    assert_eq!(l.cooldown_ends[3 * 9 + 1], Some(290));
    let claim = "fwh.core:signature.commanding-claim".to_string();
    record_firing(&mut l, 0, claim, BiasCategory::Defensive, CooldownPolicy::PerMatchCount(2), 40);
    // slot 0, kind index 3 (commanding claim): per-match spacing of 600
    assert_eq!(l.cooldown_ends[3], Some(640));
}

#[test]
fn firing_window_fills_the_category_lane_and_expires() {
    let mut l = SignatureLedger::new();
    let id = "fwh.core:signature.body-shield-pressure".to_string();
    record_firing(&mut l, 5, id.clone(), BiasCategory::BuildUp, CooldownPolicy::EveryTicks(100), 200);
    let lane = 5 * 4 + 2;
    let f = l.firings[lane].as_ref().unwrap();
    assert_eq!(f.id(), &id);
    assert_eq!(f.start_tick(), 200);
    assert_eq!(f.duration_ticks(), 60);
    for (i, other) in l.firings.iter().enumerate() {
        if i != lane {
            assert!(other.is_none());
        }
    }
    expire_firings(&mut l, 259);
    assert!(l.firings[lane].is_some());
    expire_firings(&mut l, 260);
    assert!(l.firings[lane].is_none());
}
