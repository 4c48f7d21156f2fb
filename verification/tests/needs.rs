use substrate::needs::{
    Needs, NeedTag, HUNGER_DECAY_PER_MIN, NEED_MAX, TIREDNESS_DECAY_PER_MIN,
};

#[test]
fn starts_fully_satisfied() {
    let n = Needs::new();
    assert_eq!(n.hunger, NEED_MAX);
    assert_eq!(n.tiredness, NEED_MAX);
    assert_eq!(n.hygiene, NEED_MAX);
    assert_eq!(n.mood, NEED_MAX);
    assert!(!n.is_hungry());
    assert!(!n.is_exhausted());
    assert!(!n.needs_shower());
    assert!(!n.is_sad());
}
#[test]
fn decay_drains_hunger_fastest() {
    let mut n = Needs::new();
    n.apply_minute_decay(100); // 100 in-game minutes
    assert_eq!(n.hunger, NEED_MAX - 100 * HUNGER_DECAY_PER_MIN);
    assert_eq!(n.tiredness, NEED_MAX - 100 * TIREDNESS_DECAY_PER_MIN);
    assert!(n.hunger < n.tiredness);
    assert!(n.tiredness < n.hygiene);
    assert!(n.hygiene < n.mood);
}
#[test]
fn decay_saturates_at_zero() {
    let mut n = Needs::new();
    n.apply_minute_decay(100_000);
    assert_eq!(n.hunger, 0);
    assert_eq!(n.tiredness, 0);
    assert_eq!(n.hygiene, 0);
    assert_eq!(n.mood, 0);
}
#[test]
fn eating_restores_hunger_and_a_bit_of_mood() {
    let mut n = Needs { hunger: 2000, tiredness: NEED_MAX, hygiene: NEED_MAX, mood: 5000 };
    n.eat(3000);
    assert_eq!(n.hunger, 5000);
    assert_eq!(n.mood, 5000 + 600); // amount/5 bonus
}
#[test]
fn eating_clamps_at_max() {
    let mut n = Needs::new();
    n.eat(50_000);
    assert_eq!(n.hunger, NEED_MAX);
    assert_eq!(n.mood, NEED_MAX);
}
#[test]
fn full_night_of_sleep_restores_max_tiredness() {
    let mut n = Needs { hunger: NEED_MAX, tiredness: 0, hygiene: NEED_MAX, mood: 5000 };
    n.sleep(480);
    assert_eq!(n.tiredness, NEED_MAX);
    assert!(n.mood > 5000);
}
#[test]
fn shower_restores_hygiene() {
    let mut n = Needs { hunger: NEED_MAX, tiredness: NEED_MAX, hygiene: 0, mood: NEED_MAX };
    n.shower(60);
    assert_eq!(n.hygiene, 6000);
}
#[test]
fn hungry_threshold_predicates() {
    let mut n = Needs::new();
    n.apply_minute_decay(800); // 800 * 10 = 8000 hunger drain -> at 2000
    assert!(n.is_hungry());
    n.eat(3000);
    assert!(!n.is_hungry());
}
#[test]
fn coffee_bumps_tiredness_and_mood() {
    let mut n = Needs { hunger: NEED_MAX, tiredness: 3000, hygiene: NEED_MAX, mood: 4000 };
    n.drink_coffee();
    assert_eq!(n.tiredness, 4500);
    assert_eq!(n.mood, 4500);
}
#[test]
fn wellbeing_is_mean_of_four() {
    let n = Needs { hunger: 10_000, tiredness: 6_000, hygiene: 4_000, mood: 0 };
    assert_eq!(n.wellbeing(), 5_000);
}
#[test]
fn most_urgent_finds_worst_need() {
    let n = Needs { hunger: 8_000, tiredness: 2_000, hygiene: 5_000, mood: 9_000 };
    assert_eq!(n.most_urgent(), NeedTag::Tiredness);

    let n = Needs { hunger: 1_000, tiredness: 2_000, hygiene: 5_000, mood: 9_000 };
    assert_eq!(n.most_urgent(), NeedTag::Hunger);

    let n = Needs { hunger: 8_000, tiredness: 8_000, hygiene: 8_000, mood: 500 };
    assert_eq!(n.most_urgent(), NeedTag::Mood);
}
#[test]
fn toilet_then_wash_is_net_positive_hygiene() {
    let mut n = Needs { hunger: NEED_MAX, tiredness: NEED_MAX, hygiene: 5000, mood: NEED_MAX };
    n.use_toilet();
    assert_eq!(n.hygiene, 4800);
    n.wash_hands();
    assert_eq!(n.hygiene, 5300);
}
#[test]
fn reading_brightens_mood_proportional_to_minutes() {
    let mut n = Needs { hunger: NEED_MAX, tiredness: NEED_MAX, hygiene: NEED_MAX, mood: 1000 };
    n.read(30);
    assert_eq!(n.mood, 1000 + 900); // 30 * 30
}
#[test]
fn a_day_without_care_makes_everything_urgent() {
    let mut n = Needs::new();
    n.apply_minute_decay(1440);
    // After a full day, hunger (10/min) is well past 0.
    assert!(n.is_hungry());
    assert!(n.is_exhausted());
    // Hygiene (5/min) drains 7200 -> 2800, which is < 4000 dirty threshold.
    assert!(n.needs_shower());
    // Mood (3/min) drains 4320 -> 5680, above 3500 sad threshold.
    assert!(!n.is_sad());
}

