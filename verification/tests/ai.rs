use substrate::ai::{decide_intent, kinds_for_need, pick_urgent_target, restore_for_kind, use_and_restore, Intent};
use substrate::kinds::{Bed, Fridge, Object, ObjectKindTag};
use substrate::needs::{NeedTag, Needs};
use substrate::routine::Activity;
use substrate::traits::Openable;

#[test]
fn kinds_for_hunger_is_fridge() {
    assert_eq!(kinds_for_need(NeedTag::Hunger), &[ObjectKindTag::Fridge]);
}

#[test]
fn hygiene_kinds_are_ordered_preference() {
    let ks = kinds_for_need(NeedTag::Hygiene);
    assert_eq!(ks[0], ObjectKindTag::Shower);
    assert_eq!(ks[1], ObjectKindTag::Bathtub);
}

#[test]
fn restore_for_kind_fridge_restores_hunger() {
    let mut n = Needs { hunger: 1000, tiredness: 5000, hygiene: 5000, mood: 5000 };
    restore_for_kind(&mut n, ObjectKindTag::Fridge);
    assert_eq!(n.hunger, 4000);
}

#[test]
fn restore_for_kind_mug_is_decorative() {
    let before = Needs::new();
    let mut after = before;
    restore_for_kind(&mut after, ObjectKindTag::Mug);
    assert_eq!(before, after);
}

#[test]
fn restore_for_kind_plant_is_decorative() {
    let before = Needs::new();
    let mut after = before;
    restore_for_kind(&mut after, ObjectKindTag::Plant);
    assert_eq!(before, after);
}

#[test]
fn restore_for_kind_painting_is_decorative() {
    let before = Needs::new();
    let mut after = before;
    restore_for_kind(&mut after, ObjectKindTag::Painting);
    assert_eq!(before, after);
}

#[test]
fn restore_for_kind_diary_is_decorative() {
    let before = Needs::new();
    let mut after = before;
    restore_for_kind(&mut after, ObjectKindTag::Diary);
    assert_eq!(before, after);
}

#[test]
fn restore_for_kind_chair_is_decorative() {
    let before = Needs::new();
    let mut after = before;
    restore_for_kind(&mut after, ObjectKindTag::Chair);
    assert_eq!(before, after);
}

#[test]
fn restore_for_each_restoring_kind() {
    let base = Needs { hunger: 5_000, tiredness: 2_000, hygiene: 0, mood: 4_000 };
    let mut n = base;
    restore_for_kind(&mut n, ObjectKindTag::Bed);
    assert_eq!(n.tiredness, 3_260);
    assert_eq!(n.mood, 4_120);
    let mut n = base;
    restore_for_kind(&mut n, ObjectKindTag::Bathtub);
    assert_eq!(n.hygiene, 10_000);
    assert_eq!(n.mood, 4_030);
    let mut n = Needs { hygiene: 5_000, ..base };
    restore_for_kind(&mut n, ObjectKindTag::Toilet);
    assert_eq!(n.hygiene, 5_300);
    let mut n = base;
    restore_for_kind(&mut n, ObjectKindTag::CoffeeMaker);
    assert_eq!(n.tiredness, 3_500);
    assert_eq!(n.mood, 4_500);
}

#[test]
fn pick_urgent_target_prefers_hunger_first() {
    let needs = Needs { hunger: 1000, tiredness: 1000, hygiene: 1000, mood: 1000 };
    let (tag, idx) = pick_urgent_target(&needs, &[Some(0), Some(1), None, None]).unwrap();
    assert_eq!(tag, NeedTag::Hunger);
    assert_eq!(idx, 0);
}

#[test]
fn pick_urgent_target_skips_needs_without_objects() {
    let needs = Needs { hunger: 1000, tiredness: 1000, hygiene: 1000, mood: 1000 };
    let (tag, idx) = pick_urgent_target(&needs, &[None, Some(3), None, None]).unwrap();
    assert_eq!(tag, NeedTag::Tiredness);
    assert_eq!(idx, 3);
}

#[test]
fn pick_urgent_target_returns_none_when_no_need_urgent() {
    let needs = Needs::new();
    assert!(pick_urgent_target(&needs, &[Some(0), Some(0), Some(0), Some(0)]).is_none());
}

#[test]
fn decide_intent_idle_when_schedule_out() {
    let needs = Needs::new();
    assert_eq!(decide_intent(&needs, &[None, None, None, None], Activity::Out), Intent::Idle);
    assert_eq!(
        decide_intent(&needs, &[None, None, None, None], Activity::InKitchen),
        Intent::FollowSchedule
    );
}

#[test]
fn decide_intent_satisfy_hunger_with_fridge_nearby() {
    let mut needs = Needs::new();
    needs.hunger = 1000;
    match decide_intent(&needs, &[Some(0), None, None, None], Activity::Out) {
        Intent::Satisfy { need, obj_idx } => {
            assert_eq!(need, NeedTag::Hunger);
            assert_eq!(obj_idx, 0);
        }
        _ => panic!("expected Satisfy"),
    }
}

#[test]
fn using_a_fridge_opens_it_and_feeds() {
    let mut obj = Object::Fridge(Fridge::new());
    let mut needs = Needs { hunger: 1000, tiredness: 5000, hygiene: 5000, mood: 5000 };
    use_and_restore(&mut obj, &mut needs);
    assert_eq!(needs.hunger, 4000);
    match obj {
        Object::Fridge(f) => assert!(f.is_open()),
        _ => panic!("kind changed"),
    }
    let mut bed = Object::Bed(Bed::new());
    let mut tired = Needs { hunger: 8000, tiredness: 500, hygiene: 8000, mood: 8000 };
    use_and_restore(&mut bed, &mut tired);
    assert!(tired.tiredness > 500);
}
