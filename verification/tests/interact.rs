use substrate::body::Posture;
use substrate::interact::{apply, Target, Verb};
use substrate::kinds::{
    BathSink, Bathtub, Bed, Book, CoffeeMaker, Diary, Fridge, Mug, Object, Painting, Plant, Shower,
    Sink, Stove, Toilet,
};
use substrate::mind::{FactKey, Mind, MindObjectKind, TileCoord};
use substrate::needs::{Needs, NEED_MAX};
use substrate::objects::Objects;
use substrate::time::InGameClock;
use substrate::traits::{Openable, Switchable};

struct Ctx {
    objs: Objects,
    npcs: Vec<&'static str>,
    mind: Mind,
    clock: InGameClock,
    posture: Posture,
    needs: Needs,
}

fn ctx() -> Ctx {
    Ctx {
        objs: Objects::new(),
        npcs: vec![],
        mind: Mind::new(),
        clock: InGameClock::at_hour(8),
        posture: Posture::Standing,
        needs: Needs::new(),
    }
}

const HERE: TileCoord = TileCoord { x: 2, y: 2 };

fn act(c: &mut Ctx, verb: Verb, target: Target) {
    apply(
        verb,
        target,
        &mut c.objs,
        &c.npcs,
        &mut c.posture,
        &mut c.needs,
        &mut c.mind,
        &c.clock,
        HERE,
    );
}

fn use_first(c: &mut Ctx) {
    act(c, Verb::UseObject, Target::Object(0));
}

#[test]
fn use_fridge_toggles_open_closed() {
    let mut c = ctx();
    c.objs.add(Object::Fridge(Fridge::new()));
    use_first(&mut c);
    if let Object::Fridge(f) = c.objs.get(0) { assert!(f.is_open()); } else { panic!(); }
}

#[test]
fn use_sink_toggles_on_off() {
    let mut c = ctx();
    c.objs.add(Object::Sink(Sink::new()));
    use_first(&mut c);
    if let Object::Sink(s) = c.objs.get(0) { assert!(s.is_on()); } else { panic!(); }
}

#[test]
fn use_stove_turns_first_burner_on() {
    let mut c = ctx();
    c.objs.add(Object::Stove(Stove::new()));
    use_first(&mut c);
    if let Object::Stove(s) = c.objs.get(0) { assert!(s.any_burner_on()); } else { panic!(); }
}

#[test]
fn use_bed_changes_posture_to_lying() {
    let mut c = ctx();
    c.objs.add(Object::Bed(Bed::new()));
    use_first(&mut c);
    assert_eq!(c.posture, Posture::Standing);
    use_first(&mut c);
    assert_eq!(c.posture, Posture::Lying);
}

#[test]
fn use_diary_toggles_open_closed() {
    let mut c = ctx();
    c.objs.add(Object::Diary(Diary::new()));
    use_first(&mut c);
    if let Object::Diary(d) = c.objs.get(0) { assert!(d.is_open()); } else { panic!(); }
    use_first(&mut c);
    if let Object::Diary(d) = c.objs.get(0) { assert!(!d.is_open()); } else { panic!(); }
}

#[test]
fn approach_npc_records_memory() {
    let mut c = ctx();
    c.npcs = vec!["friend"];
    act(&mut c, Verb::ApproachNpc, Target::Npc(0));
    assert!(c.mind.recall(&FactKey::SawPerson("friend")).is_some());
}

fn pre_needs(mood: u32) -> Needs {
    Needs { hunger: 5_000, tiredness: 5_000, hygiene: 5_000, mood }
}

#[test]
fn using_fridge_restores_hunger() {
    let mut c = ctx();
    c.needs = pre_needs(5_000);
    c.objs.add(Object::Fridge(Fridge::new()));
    use_first(&mut c);
    assert_eq!(c.needs.hunger, 8_000);
}

#[test]
fn using_bed_restores_tiredness() {
    let mut c = ctx();
    c.needs = pre_needs(5_000);
    c.needs.tiredness = 2_000;
    c.objs.add(Object::Bed(Bed::new()));
    use_first(&mut c);
    assert_eq!(c.needs.tiredness, 2_000 + 1_260);
}

#[test]
fn using_shower_restores_hygiene() {
    let mut c = ctx();
    c.needs = pre_needs(5_000);
    c.needs.hygiene = 1_000;
    c.objs.add(Object::Shower(Shower::new()));
    use_first(&mut c);
    assert_eq!(c.needs.hygiene, 7_000);
}

#[test]
fn using_bath_sink_washes_hands() {
    let mut c = ctx();
    c.needs = pre_needs(5_000);
    c.needs.hygiene = 3_000;
    c.objs.add(Object::BathSink(BathSink::new()));
    use_first(&mut c);
    assert_eq!(c.needs.hygiene, 3_500);
}

#[test]
fn using_toilet_is_net_positive_hygiene() {
    let mut c = ctx();
    c.needs = pre_needs(5_000);
    c.needs.hygiene = 5_000;
    c.objs.add(Object::Toilet(Toilet::new()));
    use_first(&mut c);
    assert_eq!(c.needs.hygiene, 5_300);
}

#[test]
fn using_book_brightens_mood() {
    let mut c = ctx();
    c.needs = pre_needs(2_000);
    c.objs.add(Object::Book(Book::new()));
    use_first(&mut c);
    assert_eq!(c.needs.mood, 2_000 + 900);
}

#[test]
fn using_coffee_maker_bumps_alertness() {
    let mut c = ctx();
    c.needs = pre_needs(4_000);
    c.needs.tiredness = 3_000;
    c.objs.add(Object::CoffeeMaker(CoffeeMaker::new()));
    use_first(&mut c);
    assert_eq!(c.needs.tiredness, 3_000 + 1_500);
    assert_eq!(c.needs.mood, 4_000 + 500);
}

#[test]
fn using_bathtub_restores_hygiene_bigger_than_shower() {
    let mut c = ctx();
    c.needs = pre_needs(5_000);
    c.needs.hygiene = 0;
    c.objs.add(Object::Bathtub(Bathtub::new()));
    use_first(&mut c);
    assert_eq!(c.needs.hygiene, NEED_MAX);
}

#[test]
fn approaching_an_npc_brightens_mood() {
    let mut c = ctx();
    c.needs = pre_needs(4_000);
    c.npcs = vec!["friend"];
    act(&mut c, Verb::ApproachNpc, Target::Npc(0));
    assert_eq!(c.needs.mood, 4_500);
}

#[test]
fn decorative_objects_do_not_change_needs() {
    let mut c = ctx();
    let before = c.needs;
    c.objs.add(Object::Stove(Stove::new()));
    use_first(&mut c);
    assert_eq!(c.needs, before);
}

#[test]
fn using_a_mug_does_not_change_needs() {
    let mut c = ctx();
    let before = c.needs;
    c.objs.add(Object::Mug(Mug::new()));
    use_first(&mut c);
    assert_eq!(c.needs, before);
}

#[test]
fn using_a_mug_records_a_memory() {
    let mut c = ctx();
    c.objs.add(Object::Mug(Mug::new()));
    use_first(&mut c);
    assert!(!c.mind.is_empty());
}

#[test]
fn using_a_plant_does_not_change_needs() {
    let mut c = ctx();
    let before = c.needs;
    c.objs.add(Object::Plant(Plant::new()));
    use_first(&mut c);
    assert_eq!(c.needs, before);
}

#[test]
fn using_a_plant_records_a_memory() {
    let mut c = ctx();
    c.objs.add(Object::Plant(Plant::new()));
    use_first(&mut c);
    assert!(!c.mind.is_empty());
}

#[test]
fn using_a_painting_does_not_change_needs() {
    let mut c = ctx();
    let before = c.needs;
    c.objs.add(Object::Painting(Painting::new()));
    use_first(&mut c);
    assert_eq!(c.needs, before);
}

#[test]
fn using_a_painting_records_a_memory() {
    let mut c = ctx();
    c.objs.add(Object::Painting(Painting::new()));
    use_first(&mut c);
    assert!(!c.mind.is_empty());
}

#[test]
fn using_a_diary_does_not_change_needs() {
    let mut c = ctx();
    let before = c.needs;
    c.objs.add(Object::Diary(Diary::new()));
    use_first(&mut c);
    assert_eq!(c.needs, before);
}

#[test]
fn using_a_diary_records_a_memory() {
    let mut c = ctx();
    c.objs.add(Object::Diary(Diary::new()));
    use_first(&mut c);
    assert!(!c.mind.is_empty());
}

#[test]
fn a_full_morning_loop_is_game_shaped() {
    let mut c = ctx();
    c.needs = Needs { hunger: 3_000, tiredness: 2_500, hygiene: 4_000, mood: 5_000 };
    let starting = c.needs.wellbeing();
    c.objs.add(Object::Bed(Bed::new()));
    c.objs.add(Object::Toilet(Toilet::new()));
    c.objs.add(Object::Shower(Shower::new()));
    c.objs.add(Object::Fridge(Fridge::new()));
    c.objs.add(Object::CoffeeMaker(CoffeeMaker::new()));
    c.objs.add(Object::Book(Book::new()));
    for i in 0..6 {
        act(&mut c, Verb::UseObject, Target::Object(i));
    }
    c.needs.apply_minute_decay(120);
    assert!(c.needs.wellbeing() > starting);
    assert!(!c.needs.is_hungry());
    assert!(!c.needs.needs_shower());
    assert!(!c.needs.is_exhausted());
}

#[test]
fn a_full_day_of_neglect_is_worse_than_nothing() {
    let mut needs = Needs::new();
    needs.apply_minute_decay(1_440);
    assert!(needs.is_hungry());
    assert!(needs.is_exhausted());
    assert!(needs.needs_shower());
}

#[test]
fn using_an_object_remembers_its_kind_cell_and_time() {
    let mut c = ctx();
    c.objs.add(Object::Fridge(Fridge::new()));
    use_first(&mut c);
    let fact = c
        .mind
        .recall(&FactKey::SawObject(MindObjectKind::Fridge, HERE))
        .expect("the fridge was seen");
    assert_eq!(fact.observed_at, InGameClock::at_hour(8));
    assert!(c.mind.recall(&FactKey::SawObject(MindObjectKind::Fridge, TileCoord { x: 0, y: 0 })).is_none());
    assert_eq!(c.mind.len(), 1);
    use_first(&mut c);
    assert_eq!(c.mind.len(), 1);
}

#[test]
fn mismatched_verbs_do_nothing() {
    let mut c = ctx();
    c.objs.add(Object::Fridge(Fridge::new()));
    c.npcs = vec!["friend"];
    let before = c.needs;
    act(&mut c, Verb::LookAt, Target::Object(0));
    act(&mut c, Verb::UseObject, Target::Npc(0));
    act(&mut c, Verb::ApproachNpc, Target::Object(0));
    assert_eq!(c.needs, before);
    assert!(c.mind.is_empty());
    if let Object::Fridge(f) = c.objs.get(0) { assert!(!f.is_open()); } else { panic!(); }
}

#[test]
fn greeting_caps_mood_at_max() {
    let mut c = ctx();
    c.needs = pre_needs(NEED_MAX - 100);
    c.npcs = vec!["a", "b"];
    act(&mut c, Verb::ApproachNpc, Target::Npc(1));
    assert_eq!(c.needs.mood, NEED_MAX);
    assert!(c.mind.recall(&FactKey::SawPerson("b")).is_some());
    assert!(c.mind.recall(&FactKey::SawPerson("a")).is_none());
}
