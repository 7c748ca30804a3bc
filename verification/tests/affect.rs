use sel_core::hormones::decay_factor_for;
use sel_core::hormones::Hormone;
use sel_core::hormones::HormoneState;
use sel_core::hormones::Sentiment;
use sel_core::hormones::DECAY_HORIZON;
use sel_core::hormones::DECAY_RATE;
use sel_core::hormones::DECAY_STEPS;
use sel_core::hormones::DECAY_TABLE;
use sel_core::hormones::FACTOR_SCALE;
use sel_core::hormones::SCALE;

const HORMONES: [Hormone; 8] = [
    Hormone::Dopamine,
    Hormone::Serotonin,
    Hormone::Oxytocin,
    Hormone::Cortisol,
    Hormone::Melatonin,
    Hormone::Novelty,
    Hormone::Curiosity,
    Hormone::Patience,
];

fn baseline(h: Hormone) -> u32 {
    match h {
        Hormone::Dopamine => 500_000,
        Hormone::Serotonin => 500_000,
        Hormone::Oxytocin => 400_000,
        Hormone::Cortisol => 300_000,
        Hormone::Melatonin => 200_000,
        Hormone::Novelty => 400_000,
        Hormone::Curiosity => 600_000,
        Hormone::Patience => 700_000,
    }
}

fn stirred_up(now: i64) -> HormoneState {
    HormoneState {
        dopamine: 900_000,
        serotonin: 100_000,
        oxytocin: 1_000_000,
        cortisol: 0,
        melatonin: 200_000,
        novelty: 950_000,
        curiosity: 50_000,
        patience: 700_001,
        last_updated: now,
    }
}

#[test]
fn new_state_has_the_default_levels() {
    let s = HormoneState::new(77);
    assert_eq!(s.dopamine, 500_000);
    assert_eq!(s.serotonin, 500_000);
    assert_eq!(s.oxytocin, 500_000);
    assert_eq!(s.cortisol, 300_000);
    assert_eq!(s.melatonin, 200_000);
    assert_eq!(s.novelty, 500_000);
    assert_eq!(s.curiosity, 600_000);
    assert_eq!(s.patience, 700_000);
    assert_eq!(s.last_updated, 77);
}

#[test]
fn decay_factor_is_one_without_elapsed_time() {
    assert_eq!(decay_factor_for(0, DECAY_RATE), FACTOR_SCALE);
    assert_eq!(decay_factor_for(5_000, 0), FACTOR_SCALE);
}

#[test]
fn decay_factor_has_the_expected_values() {
    assert_eq!(decay_factor_for(1, DECAY_RATE), 999_986_112);
    assert_eq!(decay_factor_for(60, DECAY_RATE), 999_167_013);
    assert_eq!(decay_factor_for(3_600, DECAY_RATE), 951_229_420);
    assert_eq!(decay_factor_for(36_000, DECAY_RATE), 606_530_657);
    assert_eq!(decay_factor_for(86_400, DECAY_RATE), 301_194_210);
    assert_eq!(decay_factor_for(864_000, DECAY_RATE), 6_144);
    assert_eq!(decay_factor_for(2_748_779, DECAY_RATE), 0);
    assert_eq!(decay_factor_for(u64::MAX, u32::MAX), 0);
}

#[test]
fn decay_factor_follows_the_exponential() {
    let mut seconds: u64 = 0;
    while seconds < 2_000_000 {
        let got = decay_factor_for(seconds, DECAY_RATE) as f64;
        let want = 1.0e9 * (-0.05 * (seconds as f64) / 3600.0).exp();
        assert!((got - want).abs() < 20.0, "at {} s: {} against {}", seconds, got, want);
        seconds += 977;
    }
}

#[test]
fn decay_factor_scales_with_the_rate() {
    assert_eq!(decay_factor_for(3_600, 100_000), decay_factor_for(7_200, DECAY_RATE));
    let got = decay_factor_for(3_600, 1_000_000) as f64;
    let want = 1.0e9 * (-1.0f64).exp();
    assert!((got - want).abs() < 20.0);
}

#[test]
fn decay_after_one_hour_has_the_expected_levels() {
    let mut s = stirred_up(1_000);
    s.decay(1_000 + 3_600, DECAY_RATE);
    assert_eq!(s.dopamine, 880_492);
    assert_eq!(s.serotonin, 119_508);
    assert_eq!(s.oxytocin, 970_738);
    assert_eq!(s.cortisol, 14_631);
    assert_eq!(s.melatonin, 200_000);
    assert_eq!(s.novelty, 923_176);
    assert_eq!(s.curiosity, 76_824);
    assert_eq!(s.patience, 700_001);
    assert_eq!(s.last_updated, 4_600);
}

#[test]
fn decay_twice_at_the_same_time_changes_nothing_more() {
    let mut s = stirred_up(1_000);
    s.decay(50_000, DECAY_RATE);
    let once = s;
    s.decay(50_000, DECAY_RATE);
    assert_eq!(s, once);
}

#[test]
fn decay_without_elapsed_time_is_a_no_op() {
    let mut s = stirred_up(1_000);
    s.decay(1_000, DECAY_RATE);
    assert_eq!(s, stirred_up(1_000));
    s.decay(999, DECAY_RATE);
    assert_eq!(s, stirred_up(1_000));
    s.decay(i64::MIN, DECAY_RATE);
    assert_eq!(s, stirred_up(1_000));
}

#[test]
fn decay_moves_every_level_towards_its_baseline_and_never_past_it() {
    let mut s = stirred_up(0);
    let start = s;
    let mut now: i64 = 0;
    let mut step: i64 = 1;
    while now < 4_000_000 {
        let before = s;
        now += step;
        step += 997;
        s.decay(now, DECAY_RATE);
        for h in HORMONES {
            let base = baseline(h);
            if start.get(h) >= base {
                assert!(base <= s.get(h) && s.get(h) <= before.get(h));
            } else {
                assert!(before.get(h) <= s.get(h) && s.get(h) <= base);
            }
        }
    }
    s.decay(now + 3_000_000, DECAY_RATE);
    for h in HORMONES {
        assert_eq!(s.get(h), baseline(h));
    }
}

#[test]
fn decay_over_the_whole_range_of_time_reaches_the_baselines() {
    let mut s = stirred_up(i64::MIN);
    s.decay(i64::MAX, DECAY_RATE);
    for h in HORMONES {
        assert_eq!(s.get(h), baseline(h));
    }
    assert_eq!(s.last_updated, i64::MAX);
}

#[test]
fn adjust_holds_a_level_to_the_unit_interval() {
    let mut s = HormoneState::new(0);
    s.adjust(Hormone::Patience, 400_000);
    assert_eq!(s.patience, SCALE);
    s.adjust(Hormone::Cortisol, -400_000);
    assert_eq!(s.cortisol, 0);
    s.adjust(Hormone::Melatonin, 150_000);
    assert_eq!(s.melatonin, 350_000);
    s.adjust(Hormone::Melatonin, i32::MIN);
    assert_eq!(s.melatonin, 0);
    s.adjust(Hormone::Melatonin, i32::MAX);
    assert_eq!(s.melatonin, SCALE);
    assert_eq!(s.dopamine, 500_000);
}

#[test]
fn adjust_brings_a_level_from_outside_back_into_the_interval() {
    let mut s = HormoneState::new(0);
    s.novelty = u32::MAX;
    s.adjust(Hormone::Novelty, 0);
    assert_eq!(s.novelty, SCALE);
}

#[test]
fn positive_interaction_moves_the_listed_levels() {
    let mut s = HormoneState::new(10);
    s.update_from_interaction(Sentiment::Positive, false, 10, DECAY_RATE);
    assert_eq!(s.dopamine, 600_000);
    assert_eq!(s.serotonin, 650_000);
    assert_eq!(s.oxytocin, 600_000);
    assert_eq!(s.cortisol, 200_000);
    assert_eq!(s.melatonin, 200_000);
    assert_eq!(s.novelty, 500_000);
    assert_eq!(s.curiosity, 600_000);
    assert_eq!(s.patience, 700_000);
}

#[test]
fn negative_interaction_moves_the_listed_levels() {
    let mut s = HormoneState::new(10);
    s.update_from_interaction(Sentiment::Negative, false, 10, DECAY_RATE);
    assert_eq!(s.cortisol, 500_000);
    assert_eq!(s.serotonin, 400_000);
    assert_eq!(s.patience, 650_000);
    assert_eq!(s.dopamine, 500_000);
}

#[test]
fn question_moves_the_listed_levels() {
    let mut s = HormoneState::new(10);
    s.update_from_interaction(Sentiment::Question, false, 10, DECAY_RATE);
    assert_eq!(s.curiosity, 700_000);
    assert_eq!(s.dopamine, 550_000);
    assert_eq!(s.serotonin, 500_000);
}

#[test]
fn neutral_interaction_only_sets_the_time() {
    let mut s = HormoneState::new(10);
    s.update_from_interaction(Sentiment::Neutral, false, 10, DECAY_RATE);
    assert_eq!(s, HormoneState::new(10));
    s.update_from_interaction(Sentiment::Neutral, false, 3, DECAY_RATE);
    assert_eq!(s, HormoneState::new(3));
}

#[test]
fn novel_interaction_adds_the_novelty_moves() {
    let mut s = HormoneState::new(10);
    s.update_from_interaction(Sentiment::Question, true, 10, DECAY_RATE);
    assert_eq!(s.novelty, 700_000);
    assert_eq!(s.dopamine, 650_000);
    assert_eq!(s.curiosity, 850_000);
}

#[test]
fn interaction_decays_before_it_moves() {
    let mut s = stirred_up(1_000);
    s.update_from_interaction(Sentiment::Positive, false, 4_600, DECAY_RATE);
    assert_eq!(s.dopamine, 980_492);
    assert_eq!(s.cortisol, 0);
    assert_eq!(s.last_updated, 4_600);
}

#[test]
fn levels_stay_in_the_unit_interval_over_many_interactions() {
    let sentiments =
        [Sentiment::Positive, Sentiment::Negative, Sentiment::Question, Sentiment::Neutral];
    let mut s = HormoneState::new(0);
    let mut now: i64 = 0;
    for round in 0..400usize {
        now += ((round * 37) % 5_000) as i64;
        s.update_from_interaction(sentiments[round % 4], round % 3 == 0, now, DECAY_RATE);
        for h in HORMONES {
            assert!(s.get(h) <= SCALE);
        }
    }
    for _ in 0..50 {
        s.update_from_interaction(Sentiment::Positive, true, now, DECAY_RATE);
    }
    assert_eq!(s.dopamine, SCALE);
    assert_eq!(s.cortisol, 0);
    for _ in 0..50 {
        s.update_from_interaction(Sentiment::Negative, false, now, DECAY_RATE);
    }
    assert_eq!(s.cortisol, SCALE);
    assert_eq!(s.serotonin, 0);
    assert_eq!(s.patience, 0);
}

#[test]
fn emotional_state_follows_the_order_of_the_conditions() {
    let mut s = HormoneState::new(0);
    assert_eq!(s.get_emotional_state(), "balanced");
    s.patience = 299_999;
    assert_eq!(s.get_emotional_state(), "impatient");
    s.curiosity = 700_001;
    assert_eq!(s.get_emotional_state(), "curious and engaged");
    s.melatonin = 700_001;
    assert_eq!(s.get_emotional_state(), "drowsy");
    s.cortisol = 700_001;
    assert_eq!(s.get_emotional_state(), "stressed");
    s.dopamine = 700_001;
    assert_eq!(s.get_emotional_state(), "stressed");
    s.serotonin = 600_001;
    assert_eq!(s.get_emotional_state(), "energized and content");
}

#[test]
fn emotional_state_thresholds_are_strict() {
    let mut s = HormoneState::new(0);
    s.cortisol = 700_000;
    s.melatonin = 700_000;
    s.curiosity = 700_000;
    s.patience = 300_000;
    s.dopamine = 700_000;
    s.serotonin = 900_000;
    assert_eq!(s.get_emotional_state(), "balanced");
}

#[test]
fn format_for_prompt_lists_every_level_with_two_decimals() {
    let s = HormoneState::new(0);
    assert_eq!(
        s.format_for_prompt(),
        "[HORMONE STATE]\n\
dopamine: 0.50 (reward, engagement)\n\
serotonin: 0.50 (well-being, contentment)\n\
oxytocin: 0.50 (bonding, trust)\n\
cortisol: 0.30 (stress, urgency)\n\
melatonin: 0.20 (rest, reduced activity)\n\
novelty: 0.50 (exposure to new stimuli)\n\
curiosity: 0.60 (drive to explore)\n\
patience: 0.70 (tolerance for delays)\n\
[/HORMONE STATE]"
    );
}

#[test]
fn format_for_prompt_rounds_the_third_decimal() {
    let mut s = HormoneState::new(0);
    s.dopamine = 0;
    s.serotonin = 1_000_000;
    s.oxytocin = 4_999;
    s.cortisol = 5_000;
    s.melatonin = 994_999;
    s.novelty = 995_000;
    s.curiosity = 123_456;
    s.patience = 12_345_678;
    let text = s.format_for_prompt();
    assert!(text.contains("dopamine: 0.00 ("));
    assert!(text.contains("serotonin: 1.00 ("));
    assert!(text.contains("oxytocin: 0.00 ("));
    assert!(text.contains("cortisol: 0.01 ("));
    assert!(text.contains("melatonin: 0.99 ("));
    assert!(text.contains("novelty: 1.00 ("));
    assert!(text.contains("curiosity: 0.12 ("));
    assert!(text.contains("patience: 12.35 ("));
}

#[test]
fn hormones_are_found_by_name() {
    assert_eq!(Hormone::from_name("dopamine"), Some(Hormone::Dopamine));
    assert_eq!(Hormone::from_name("serotonin"), Some(Hormone::Serotonin));
    assert_eq!(Hormone::from_name("oxytocin"), Some(Hormone::Oxytocin));
    assert_eq!(Hormone::from_name("cortisol"), Some(Hormone::Cortisol));
    assert_eq!(Hormone::from_name("melatonin"), Some(Hormone::Melatonin));
    assert_eq!(Hormone::from_name("novelty"), Some(Hormone::Novelty));
    assert_eq!(Hormone::from_name("curiosity"), Some(Hormone::Curiosity));
    assert_eq!(Hormone::from_name("patience"), Some(Hormone::Patience));
    assert_eq!(Hormone::from_name("Dopamine"), None);
    assert_eq!(Hormone::from_name("adrenaline"), None);
    assert_eq!(Hormone::from_name(""), None);
}

#[test]
fn sentiments_are_found_by_tag() {
    assert_eq!(Sentiment::from_tag("positive"), Sentiment::Positive);
    assert_eq!(Sentiment::from_tag("negative"), Sentiment::Negative);
    assert_eq!(Sentiment::from_tag("question"), Sentiment::Question);
    assert_eq!(Sentiment::from_tag("neutral"), Sentiment::Neutral);
    assert_eq!(Sentiment::from_tag("angry"), Sentiment::Neutral);
    assert_eq!(Sentiment::from_tag(""), Sentiment::Neutral);
}

#[test]
fn decay_table_holds_the_rounded_exponentials() {
    assert_eq!(DECAY_TABLE.len(), DECAY_STEPS);
    for i in 0..DECAY_STEPS {
        let exponent = (1u64 << i) as f64 / 3_600_000_000.0;
        let want = (1.0e9 * (-exponent).exp()).round() as u64;
        assert_eq!(DECAY_TABLE[i], want, "entry {}", i);
    }
    assert_eq!(DECAY_HORIZON, 1u128 << DECAY_STEPS);
}
