use xinfer::ggml::QuantType;
use xinfer::moe_w2_delta::{read_switch, DeltaPolicy, MoeW2DeltaManager};

#[test]
fn settings_name_policies_in_any_case() {
    assert_eq!(DeltaPolicy::from_setting(Some("FREQ")), DeltaPolicy::Freq);
    assert_eq!(DeltaPolicy::from_setting(Some("Lru")), DeltaPolicy::Lru);
    assert_eq!(DeltaPolicy::from_setting(Some("need")), DeltaPolicy::Need);
    assert_eq!(DeltaPolicy::from_setting(Some("other")), DeltaPolicy::Need);
    assert_eq!(DeltaPolicy::from_setting(None), DeltaPolicy::Need);
    assert_eq!(DeltaPolicy::from_lowercase("FREQ"), DeltaPolicy::Need);
}

#[test]
fn switches_are_off_for_zero_and_false() {
    assert!(!read_switch(Some("0"), true));
    assert!(!read_switch(Some("FALSE"), true));
    assert!(!read_switch(Some("False"), true));
    assert!(read_switch(Some("1"), false));
    assert!(read_switch(Some("no"), false));
    assert!(read_switch(None, true));
    assert!(!read_switch(None, false));
}

#[test]
fn a_pool_starts_empty() {
    let pool = MoeW2DeltaManager::new(3, DeltaPolicy::Lru, true);
    assert_eq!(pool.capacity(), 3);
    assert!(pool.gate_enabled());
    assert!(!pool.is_promoted(0, 0));
    assert!(pool.should_replay(true));
    assert!(!pool.should_replay(false));
    assert!(!MoeW2DeltaManager::new(3, DeltaPolicy::Lru, false).should_replay(true));
}

#[test]
fn the_least_recently_used_expert_makes_room() {
    let mut pool = MoeW2DeltaManager::new(2, DeltaPolicy::Lru, true);
    pool.observe(0, &[1]);
    pool.observe(0, &[2]);
    pool.observe(0, &[1]);
    pool.observe(0, &[3]);
    assert!(pool.is_promoted(0, 1) && pool.is_promoted(0, 3));
    assert!(!pool.is_promoted(0, 2));
}

#[test]
fn the_least_often_used_expert_makes_room() {
    let mut pool = MoeW2DeltaManager::new(2, DeltaPolicy::Freq, true);
    pool.observe(0, &[1]);
    pool.observe(0, &[1]);
    pool.observe(0, &[2]);
    pool.observe(0, &[3]);
    assert!(pool.is_promoted(0, 1) && pool.is_promoted(0, 3));
    assert!(!pool.is_promoted(0, 2));
}

#[test]
fn need_promotes_only_when_forced() {
    let mut pool = MoeW2DeltaManager::new(2, DeltaPolicy::Need, true);
    pool.observe(0, &[1, 2]);
    assert!(!pool.is_promoted(0, 1));
    pool.force_promote(0, &[1]);
    pool.force_promote(1, &[1]);
    assert!(pool.is_promoted(0, 1) && pool.is_promoted(1, 1));
    pool.observe(0, &[5, 6]);
    assert!(pool.is_promoted(0, 1) && pool.is_promoted(1, 1));
}

#[test]
fn a_promotion_evicts_at_most_one_expert() {
    let mut pool = MoeW2DeltaManager::new(3, DeltaPolicy::Lru, true);
    pool.force_promote(0, &[1, 2, 3, 4]);
    let held = (1..5).filter(|e| pool.is_promoted(0, *e)).count();
    assert_eq!(held, 3);
    assert!(pool.is_promoted(0, 4));
    assert_eq!(pool.capacity(), 3);
}

#[test]
fn an_empty_pool_promotes_nothing() {
    let mut pool = MoeW2DeltaManager::new(0, DeltaPolicy::Freq, true);
    pool.observe(0, &[1]);
    pool.force_promote(0, &[1]);
    assert!(!pool.is_promoted(0, 1));
}

#[test]
fn quantization_falls_back_to_types_whose_blocks_fit() {
    assert_eq!(QuantType::from_name("q4k"), Some(QuantType::Q4K));
    assert_eq!(QuantType::from_name("q4"), Some(QuantType::Q4_1));
    assert_eq!(QuantType::from_name("Q4K"), None);
    assert_eq!(QuantType::Q4K.choose_in_situ(512), Some(QuantType::Q4K));
    assert_eq!(QuantType::Q4K.choose_in_situ(288), Some(QuantType::Q8_0));
    assert_eq!(QuantType::Q4K.choose_in_situ(100), None);
    assert_eq!(QuantType::Q6K.fit(256), QuantType::Q6K);
    assert_eq!(QuantType::Q6K.fit(255), QuantType::Q8_0);
    assert_eq!(QuantType::F16.fit(255), QuantType::F16);
    assert_eq!(QuantType::Q5_0.fit(64), QuantType::Q5_0);
    assert_eq!(QuantType::Q5_0.fit(48), QuantType::Q8_0);
}

#[test]
fn forced_experts_do_not_push_each_other_out() {
    for policy in [DeltaPolicy::Need, DeltaPolicy::Lru, DeltaPolicy::Freq] {
        let mut pool = MoeW2DeltaManager::new(2, policy, true);
        pool.force_promote(0, &[1, 2]);
        pool.force_promote(0, &[3, 4]);
        assert!(pool.is_promoted(0, 3) && pool.is_promoted(0, 4));
        // one that is in the pool already is spared, too
        pool.force_promote(0, &[5, 3, 5]);
        assert!(pool.is_promoted(0, 3) && pool.is_promoted(0, 5));
        // an expert of another layer has no claim
        pool.force_promote(1, &[3]);
        assert!(pool.is_promoted(1, 3));
        // more than fit: the last ones stay
        pool.force_promote(2, &[1, 2, 3]);
        assert!(pool.is_promoted(2, 3));
    }
}
