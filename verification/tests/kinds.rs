use substrate::kinds::bath_sink::teeth_brush_water_ml;
use substrate::kinds::bathtub::drain_time_seconds;
use substrate::kinds::bed::{minutes_until_alarm, rest_score, sleep_deficit_minutes};
use substrate::kinds::book::{chapters_covered, estimate_reading_time_minutes, pages_read_in_minutes};
use substrate::kinds::coffee_maker::{brew_progress_percent, cups_from_ml, water_for_n_cups};
use substrate::kinds::dresser::{
    clamp_drawer_idx, drawer_delta, is_valid_drawer, next_drawer, total_bedroom_slots,
};
use substrate::kinds::fridge::{fraction_fresh_percent, minutes_until_spoiled, spoilage_rate_per_hour};
use substrate::kinds::lamp::{
    all_lamps_off, bank_lumens, describe_lamp_state, is_dim, is_warm_tone, lamp_bank_watts,
    log_noop, lumens_from_watts, safe_lumens, watts_consumed_when, watts_for_lumens,
};
use substrate::kinds::nightstand::{nightstand_can_hold, nightstand_volume_cm3, slot_offset};
use substrate::kinds::shower::hot_water_remaining_ml;
use substrate::kinds::sink::dishes_washable_count;
use substrate::kinds::stove::{burner_bank_watts, heat_stage, joules_delta};
use substrate::kinds::toilet::seconds_to_refill;
use substrate::kinds::window_obj::is_daylight_hour;
use substrate::kinds::{
    all_kind_tags, BathSink, Bathtub, Bed, BedState, Book, BrewState, Burner, BurnerLevel,
    CoffeeMaker, Diary, Dresser, FoodItem, Fridge, FridgeSlot, Lamp, Mug, Nightstand, Object,
    ObjectKindTag, Shower, Sink, Stove, Toilet, ToiletState, WindowObj,
};
use substrate::traits::{
    Container, Cyclable, Liquid, LiquidContainer, Openable, Powered, Switchable, TimeDecayMinutes,
};

#[test]
fn smaller_flow_than_kitchen() {
        assert!(BathSink::FLOW_ML_PER_SEC < Sink::FLOW_ML_PER_SEC);
}

#[test]
fn smaller_flow_than_shower() {
        assert!(BathSink::FLOW_ML_PER_SEC < Shower::FLOW_ML_PER_SEC);
}

#[test]
fn bath_sink_water_delivered_ml_scales_with_seconds() {
    assert_eq!(BathSink::water_delivered_ml(0), 0);
    assert_eq!(BathSink::water_delivered_ml(2), 2 * BathSink::water_delivered_ml(1));
}

#[test]
fn test_teeth_brush_water_ml() {
            assert_eq!(teeth_brush_water_ml(120, 80), 9600);
    assert_eq!(teeth_brush_water_ml(0, 80), 0);

}

#[test]
fn starts_empty_with_drain_open() {
    let t = Bathtub::new();
    assert!(!t.is_on());
    assert!(t.is_open());
    assert_eq!(t.water_ml(), 0);
}

#[test]
fn capacity_enforced() {
    let mut t = Bathtub::new();
    let overflow = t.add_liquid(Liquid::Water, Bathtub::CAPACITY_ML * 2);
    assert_eq!(overflow, Bathtub::CAPACITY_ML);
    assert_eq!(t.water_ml(), Bathtub::CAPACITY_ML);
}

#[test]
fn bathtub_fill_time_seconds_zero_flow_returns_zero() {
    assert_eq!(Bathtub::fill_time_seconds(0), 0);
    assert!(Bathtub::fill_time_seconds(1) >= Bathtub::fill_time_seconds(2));
}

#[test]
fn test_drain_time_seconds() {
            assert_eq!(drain_time_seconds(10000, 500), 20);
    assert_eq!(drain_time_seconds(100, 0), 0);
    assert_eq!(drain_time_seconds(0, 500), 0);

}

#[test]
fn bed_starts_unmade() {
    let b = Bed::new();
    assert!(b.is_unmade());
}

#[test]
fn use_toggles_state() {
    let mut b = Bed::new();
    b.use_action();
    assert!(!b.is_unmade());
    b.use_action();
    assert!(b.is_unmade());
}

#[test]
fn test_rest_score() {
            assert_eq!(rest_score(0), 0);
    assert_eq!(rest_score(480), 100);
    assert_eq!(rest_score(1000), 100);
    assert_eq!(rest_score(60), 12);

}

#[test]
fn test_sleep_deficit_minutes() {
            assert_eq!(sleep_deficit_minutes(480, 400), 80);
    assert_eq!(sleep_deficit_minutes(480, 500), 0);

}

#[test]
fn test_minutes_until_alarm() {
    assert_eq!(minutes_until_alarm(8, 0, 9, 30), 90); assert_eq!(minutes_until_alarm(23, 0, 1, 0), 120); assert_eq!(minutes_until_alarm(9, 30, 9, 30), 1440);
}

#[test]
fn book_starts_closed() {
    let b = Book::new();
    assert!(!b.is_open());
}

#[test]
fn book_toggle_opens_and_closes() {
    let mut b = Book::new();
    b.toggle_open(); assert!(b.is_open());
    b.toggle_open(); assert!(!b.is_open());
}

#[test]
fn test_pages_read_in_minutes() {
            assert_eq!(pages_read_in_minutes(0, 5), 0);
    assert_eq!(pages_read_in_minutes(30, 2), 60);

}

#[test]
fn test_chapters_covered() {
            assert_eq!(chapters_covered(100, 25), 4);
    assert_eq!(chapters_covered(20, 0), 0);
    assert_eq!(chapters_covered(0, 25), 0);

}

#[test]
fn test_estimate_reading_time_minutes() {
    assert_eq!(estimate_reading_time_minutes(3000, 200), 15); assert_eq!(estimate_reading_time_minutes(1000, 0), 0);
}

#[test]
fn starts_idle_with_water_no_coffee() {
    let cm = CoffeeMaker::new();
    assert_eq!(cm.brew_state(), BrewState::Idle);
    assert!(cm.reservoir_ml() > 0);
    assert_eq!(cm.output_ml(), 0);
}

#[test]
fn cycle_starts_brew_when_water_present() {
    let mut cm = CoffeeMaker::new();
    cm.cycle();
    assert_eq!(cm.brew_state(), BrewState::Brewing);
}

#[test]
fn powered_only_while_brewing() {
    let mut cm = CoffeeMaker::new();
    assert_eq!(cm.power_draw_watts(), 0);
    cm.cycle();
    assert_eq!(cm.power_draw_watts(), CoffeeMaker::POWER_BREWING_W);
}

#[test]
fn add_water_up_to_capacity_returns_overflow() {
    let mut cm = CoffeeMaker::new();
    // Reservoir starts full.
    let overflow = cm.add_liquid(Liquid::Water, 100);
    assert_eq!(overflow, 100);
}

#[test]
fn add_wrong_liquid_returns_all_as_overflow() {
    let mut cm = CoffeeMaker::new();
    let overflow = cm.add_liquid(Liquid::Coffee, 100);
    assert_eq!(overflow, 100);
}

#[test]
fn test_brew_progress_percent() {
            assert_eq!(brew_progress_percent(0, 60), 0);
    assert_eq!(brew_progress_percent(30, 60), 50);
    assert_eq!(brew_progress_percent(60, 60), 100);
    assert_eq!(brew_progress_percent(10, 0), 0);

}

#[test]
fn test_cups_from_ml() {
            assert_eq!(cups_from_ml(750, 250), 3);
    assert_eq!(cups_from_ml(100, 0), 0);
    assert_eq!(cups_from_ml(0, 250), 0);

}

#[test]
fn test_water_for_n_cups() {
    assert_eq!(water_for_n_cups(4, 250), 1000); assert_eq!(water_for_n_cups(0, 250), 0);
}

#[test]
fn diary_starts_closed() {
    let x = Diary::new();
    assert!(!x.is_open());
}

#[test]
fn diary_toggle_opens_and_closes() {
    let mut x = Diary::new();
    x.toggle_open();
    assert!(x.is_open());
    x.toggle_open();
    assert!(!x.is_open());
}

#[test]
fn has_four_drawers() {
    let d = Dresser::new();
    assert_eq!(d.slot_count(), 4);
    for i in 0..4 {
        assert!(d.slot_is_empty(i));
        assert!(d.slot_label(i).is_none());
    }
}

#[test]
fn test_total_bedroom_slots() {
        assert_eq!(total_bedroom_slots(1, 1), 5);
assert_eq!(total_bedroom_slots(0, 3), 3);

}

#[test]
fn test_is_valid_drawer() {
            assert!(is_valid_drawer(0));
    assert!(is_valid_drawer(3));
    assert!(!is_valid_drawer(4));

}

#[test]
fn test_next_drawer() {
        assert_eq!(next_drawer(0), 1);
assert_eq!(next_drawer(3), 4);
assert_eq!(next_drawer(4), 4);

}

#[test]
fn test_drawer_delta() {
        assert_eq!(drawer_delta(4, 1), 3);
assert_eq!(drawer_delta(1, 4), -3);

}

#[test]
fn test_clamp_drawer_idx() {
        assert_eq!(clamp_drawer_idx(2), 2);
assert_eq!(clamp_drawer_idx(9), 3);

}

#[test]
fn starts_closed_and_stocked() {
    let f = Fridge::new();
    assert!(!f.is_open());
    assert_eq!(f.fresh_count(), 3);
}

#[test]
fn toggle_open_works() {
    let mut f = Fridge::new();
    f.toggle_open(); assert!(f.is_open());
    f.toggle_open(); assert!(!f.is_open());
}

#[test]
fn tick_minutes_decays_contents() {
    let mut f = Fridge::new();
    let before = f.slots[0].minutes_remaining;
    f.tick_minutes(60);
    assert_eq!(f.slots[0].minutes_remaining, before - 60);
}

#[test]
fn spoilage_does_not_underflow() {
    let mut f = Fridge::new();
    f.tick_minutes(u32::MAX);
    assert_eq!(f.slots[0].minutes_remaining, 0);
    f.tick_minutes(10);
    assert_eq!(f.slots[0].minutes_remaining, 0);
}

#[test]
fn draws_power_always() {
    let f = Fridge::new();
    assert!(f.is_on());
    assert!(f.power_draw_watts() > 0);
}

#[test]
fn container_labels() {
    let f = Fridge::new();
    assert_eq!(f.slot_count(), 3);
    assert_eq!(f.slot_label(0), Some("milk"));
    assert_eq!(f.slot_label(1), Some("eggs"));
    assert_eq!(f.slot_label(2), Some("leftovers"));
}

#[test]
fn test_minutes_until_spoiled() {
            assert_eq!(minutes_until_spoiled(1000, 300), 700);
    assert_eq!(minutes_until_spoiled(50, 999), 0);

}

#[test]
fn test_fraction_fresh_percent() {
            assert_eq!(fraction_fresh_percent(0, 100), 0);
    assert_eq!(fraction_fresh_percent(50, 100), 50);
    assert_eq!(fraction_fresh_percent(100, 0), 0);

}

#[test]
fn test_spoilage_rate_per_hour() {
    assert_eq!(spoilage_rate_per_hour(true), 5); assert_eq!(spoilage_rate_per_hour(false), 1);
}

#[test]
fn switchable_contract_holds() {
    let mut l = Lamp::new();
    let start = Switchable::is_on(&l);
    l.toggle();
    l.toggle();
    assert_eq!(Switchable::is_on(&l), start);
}

#[test]
fn power_tracks_state() {
    let mut l = Lamp::new();
    assert_eq!(l.power_draw_watts(), 0);
    l.toggle();
    assert_eq!(l.power_draw_watts(), Lamp::POWER_W);
    l.toggle();
    assert_eq!(l.power_draw_watts(), 0);
}

#[test]
fn test_watts_consumed_when() {
            assert_eq!(watts_consumed_when(true), 40);
    assert_eq!(watts_consumed_when(false), 0);

}

#[test]
fn test_is_warm_tone() {
        assert_eq!(is_warm_tone(255, 220, 150), true);
assert_eq!(is_warm_tone(100, 150, 200), false);

}

#[test]
fn test_lumens_from_watts() {
            assert_eq!(lumens_from_watts(40), 3200);
    assert_eq!(lumens_from_watts(0), 0);

}

#[test]
fn test_safe_lumens() {
        assert_eq!(safe_lumens(40), Ok(3200));
assert!(safe_lumens(1500).is_err());

}

#[test]
fn test_log_noop() {
        log_noop();

}

#[test]
fn test_describe_lamp_state() {
        assert_eq!(describe_lamp_state(true), "on");
assert_eq!(describe_lamp_state(false), "off");

}

#[test]
fn test_lamp_bank_watts() {
        assert_eq!(lamp_bank_watts(0), 0);
assert_eq!(lamp_bank_watts(3), 120);

}

#[test]
fn test_all_lamps_off() {
        assert!(all_lamps_off(0));
assert!(!all_lamps_off(1));

}

#[test]
fn test_bank_lumens() {
            assert_eq!(bank_lumens(0, 800), 0);
    assert_eq!(bank_lumens(3, 500), 1500);

}

#[test]
fn test_watts_for_lumens() {
            assert_eq!(watts_for_lumens(1600, 80), 20);
    assert_eq!(watts_for_lumens(100, 0), 0);

}

#[test]
fn test_is_dim() {
    assert!(is_dim(100)); assert!(is_dim(199)); assert!(!is_dim(200)); assert!(!is_dim(1000));
}

#[test]
fn add_water_bounded_by_capacity() {
    let mut m = Mug::new();
    let overflow = m.add_liquid(Liquid::Water, Mug::CAPACITY_ML * 2);
    assert_eq!(overflow, Mug::CAPACITY_ML);
    assert_eq!(m.water_ml(), Mug::CAPACITY_ML);
}

#[test]
fn mug_reject_non_water() {
    let mut m = Mug::new();
    let overflow = m.add_liquid(Liquid::Coffee, 100);
    assert_eq!(overflow, 100);
    assert_eq!(m.water_ml(), 0);
}

#[test]
fn drain_removes_water() {
    let mut m = Mug::new();
    m.add_liquid(Liquid::Water, 200);
    let (kind, ml) = m.drain_liquid(50);
    assert_eq!(kind, Liquid::Water);
    assert_eq!(ml, 50);
    assert_eq!(m.water_ml(), 150);
}

#[test]
fn has_one_empty_slot() {
    let n = Nightstand::new();
    assert_eq!(n.slot_count(), 1);
    assert!(n.slot_is_empty(0));
    assert!(n.slot_label(0).is_none());
}

#[test]
fn test_nightstand_can_hold() {
            assert!(nightstand_can_hold(0));
    assert!(!nightstand_can_hold(1));

}

#[test]
fn test_slot_offset() {
        assert_eq!(slot_offset(0), 0);
assert_eq!(slot_offset(3), 192);

}

#[test]
fn test_nightstand_volume_cm3() {
        assert_eq!(nightstand_volume_cm3(30, 45, 60), 81000);

}

#[test]
fn shower_starts_off() {
    let s = Shower::new();
    assert!(!s.is_on());
}

#[test]
fn shower_toggle_turns_on() {
    let mut s = Shower::new();
    s.toggle();
    assert!(s.is_on());
}

#[test]
fn higher_flow_than_kitchen_sink() {
        assert!(Shower::FLOW_ML_PER_SEC > Sink::FLOW_ML_PER_SEC);
}

#[test]
fn shower_water_delivered_ml_scales_with_seconds() {
    assert_eq!(Shower::water_delivered_ml(0), 0);
    assert_eq!(Shower::water_delivered_ml(2), 2 * Shower::water_delivered_ml(1));
}

#[test]
fn test_hot_water_remaining_ml() {
            assert_eq!(hot_water_remaining_ml(50000, 15000), 35000);
    assert_eq!(hot_water_remaining_ml(1000, 9999), 0);

}

#[test]
fn sink_starts_off() {
    let s = Sink::new();
    assert!(!s.is_on());
}

#[test]
fn sink_toggle_turns_on() {
    let mut s = Sink::new();
    s.toggle();
    assert!(s.is_on());
}

#[test]
fn sink_water_delivered_ml_scales_with_seconds() {
    assert_eq!(Sink::water_delivered_ml(0), 0);
    assert_eq!(Sink::water_delivered_ml(2), 2 * Sink::water_delivered_ml(1));
}

#[test]
fn test_dishes_washable_count() {
            assert_eq!(dishes_washable_count(1000, 200), 5);
    assert_eq!(dishes_washable_count(50, 200), 0);
    assert_eq!(dishes_washable_count(1000, 0), 0);

}

#[test]
fn stove_starts_off() {
    let s = Stove::new();
    assert!(!s.any_burner_on());
}

#[test]
fn press_cycles_burner_0() {
    let mut s = Stove::new();
    s.press();
    assert_eq!(s.burner(0).level, BurnerLevel::Low);
    assert_eq!(s.cursor(), 1);
}

#[test]
fn four_presses_advance_cursor_around() {
    let mut s = Stove::new();
    s.press(); s.press(); s.press(); s.press();
    assert_eq!(s.cursor(), 0);
}

#[test]
fn burner_warms_to_cooked() {
    let mut b = Burner::off();
    b.level = BurnerLevel::Low;
    b.tick_minutes(40);
    assert!(b.is_cooked());
    assert!(!b.burned);
}

#[test]
fn burner_burns_on_high() {
    let mut b = Burner::off();
    b.level = BurnerLevel::High;
    b.tick_minutes(30);
    assert!(b.burned);
}

#[test]
fn powered_scales_with_burners_on() {
    let mut s = Stove::new();
    assert_eq!(s.power_draw_watts(), 0);
    s.press();
    assert_eq!(s.power_draw_watts(), Stove::POWER_PER_ACTIVE_BURNER_W);
}

#[test]
fn warmth_at_or_above_cooked_threshold_boundary() {
    assert!(Burner::warmth_at_or_above_cooked(u32::MAX));
    assert!(Burner::warmth_at_or_above_cooked(Burner::WARMTH_COOKED));
    assert!(!Burner::warmth_at_or_above_cooked(Burner::WARMTH_COOKED - 1));
    assert!(!Burner::warmth_at_or_above_cooked(0));
}

#[test]
fn test_burner_bank_watts() {
            assert_eq!(burner_bank_watts(0), 0);
    assert_eq!(burner_bank_watts(4), 6000);

}

#[test]
fn test_joules_delta() {
            assert_eq!(joules_delta(1500, 60), 90000);
    assert_eq!(joules_delta(0, 100), 0);

}

#[test]
fn test_heat_stage() {
    assert_eq!(heat_stage(0), 0); assert_eq!(heat_stage(29), 0); assert_eq!(heat_stage(30), 1); assert_eq!(heat_stage(75), 2); assert_eq!(heat_stage(150), 3);
}

#[test]
fn starts_idle_with_full_tank() {
    let t = Toilet::new();
    assert_eq!(t.state(), ToiletState::Idle);
    assert_eq!(t.tank_ml(), Toilet::TANK_CAPACITY_ML);
}

#[test]
fn cycle_during_flush_is_noop() {
    let mut t = Toilet::new();
    t.cycle();
    t.cycle();
    assert_eq!(t.state(), ToiletState::Flushing);
}

#[test]
fn flush_requires_full_tank() {
    let mut t = Toilet::new();
    t.drain_liquid(Toilet::TANK_CAPACITY_ML);
    t.cycle();
    assert_eq!(t.state(), ToiletState::Idle);
}

#[test]
fn add_water_stops_at_capacity() {
    let mut t = Toilet::new();
    let overflow = t.add_liquid(Liquid::Water, 1000);
    assert_eq!(overflow, 1000);
}

#[test]
fn toilet_reject_non_water() {
    let mut t = Toilet::new();
    let overflow = t.add_liquid(Liquid::Coffee, 500);
    assert_eq!(overflow, 500);
}

#[test]
fn toilet_total_flush_water_ml_saturates_on_overflow() {
    assert_eq!(Toilet::total_flush_water_ml(0), 0);
    assert_eq!(Toilet::total_flush_water_ml(u32::MAX), u32::MAX);
}

#[test]
fn test_seconds_to_refill() {
            assert_eq!(seconds_to_refill(6000, 1500), 4);
    assert_eq!(seconds_to_refill(100, 0), 0);

}

#[test]
fn starts_open() {
    let w = WindowObj::new();
    assert!(w.is_on());
}

#[test]
fn test_is_daylight_hour() {
            assert!(!is_daylight_hour(3));
    assert!(is_daylight_hour(12));
    assert!(is_daylight_hour(6));
    assert!(!is_daylight_hour(20));
    assert!(!is_daylight_hour(23));

}

#[test]
fn all_kind_tags_has_nineteen_unique_entries() {
    let tags = all_kind_tags();
    assert_eq!(tags.len(), 19);
    for i in 0..tags.len() {
        for j in (i + 1)..tags.len() {
            assert_ne!(tags[i], tags[j]);
        }
    }
}

#[test]
fn tag_names_cover_generated_and_hand_crafted_kinds() {
    let names: Vec<&str> = all_kind_tags().iter().map(|t| t.name()).collect();
    for n in ["Mug", "Plant", "Painting", "Chair", "Diary", "Bed", "Bathtub"] {
        assert!(names.contains(&n));
    }
    assert_eq!(ObjectKindTag::CoffeeMaker.name(), "CoffeeMaker");
}

#[test]
fn brew_completes_when_the_timer_elapses() {
    let mut cm = CoffeeMaker::new();
    cm.cycle();
    cm.complete_brew();
    assert_eq!(cm.brew_state(), BrewState::Done);
    assert_eq!(cm.output_ml(), CoffeeMaker::COFFEE_PER_BREW_ML);
    assert_eq!(cm.reservoir_ml(), CoffeeMaker::RESERVOIR_CAPACITY - CoffeeMaker::WATER_PER_BREW_ML);
    cm.cycle();
    assert_eq!(cm.output_ml(), 0);
    assert_eq!(cm.brew_state(), BrewState::Idle);
}

#[test]
fn coffee_maker_runs_dry_and_stays_idle() {
    let mut cm = CoffeeMaker::new();
    for _ in 0..10 {
        cm.cycle();
        cm.complete_brew();
        cm.cycle();
    }
    assert!(cm.reservoir_ml() < CoffeeMaker::WATER_PER_BREW_ML);
    let before = cm.brew_state();
    cm.cycle();
    assert_eq!(cm.brew_state(), before);
    assert_eq!(cm.state_index(), 0);
    assert_eq!(cm.state_count(), 3);
}

#[test]
fn coffee_maker_drains_coffee_and_reports_liquids() {
    let mut cm = CoffeeMaker::new();
    assert_eq!(cm.liquid(), Some((Liquid::Water, 500)));
    cm.cycle();
    cm.complete_brew();
    assert_eq!(cm.liquid(), Some((Liquid::Coffee, 250)));
    assert_eq!(cm.drain_liquid(100), (Liquid::Coffee, 100));
    assert_eq!(cm.output_ml(), 150);
    assert_eq!(cm.capacity_ml(), CoffeeMaker::OUTPUT_CAPACITY);
}

#[test]
fn toilet_flush_then_refill_returns_to_idle() {
    let mut t = Toilet::new();
    t.cycle();
    assert_eq!(t.state(), ToiletState::Flushing);
    t.finish_flush();
    assert_eq!(t.state(), ToiletState::Refilling);
    assert_eq!(t.tank_ml(), Toilet::TANK_CAPACITY_ML - Toilet::FLUSH_VOLUME_ML);
    t.refill(1500);
    assert_eq!(t.state(), ToiletState::Refilling);
    assert_eq!(t.tank_ml(), 2500);
    t.refill(15000);
    assert_eq!(t.state(), ToiletState::Idle);
    assert_eq!(t.tank_ml(), Toilet::TANK_CAPACITY_ML);
}

#[test]
fn toilet_refill_and_finish_are_noops_when_idle() {
    let mut t = Toilet::new();
    t.finish_flush();
    t.refill(100);
    assert_eq!(t.state(), ToiletState::Idle);
    assert_eq!(t.tank_ml(), Toilet::TANK_CAPACITY_ML);
}

#[test]
fn bathtub_fills_only_with_drain_closed() {
    let mut t = Bathtub::new();
    t.toggle();
    t.flow(3000, 5000);
    assert_eq!(t.water_ml(), 0);
    t.toggle_open();
    t.flow(3000, 5000);
    assert_eq!(t.water_ml(), 3000);
    t.toggle();
    t.toggle_open();
    t.flow(3000, 1000);
    assert_eq!(t.water_ml(), 2000);
    t.flow(0, 5000);
    assert_eq!(t.water_ml(), 0);
}

#[test]
fn bathtub_fill_clamps_at_capacity() {
    let mut t = Bathtub::new();
    t.toggle();
    t.toggle_open();
    t.flow(250_000, 0);
    assert_eq!(t.water_ml(), Bathtub::CAPACITY_ML);
    assert_eq!(Bathtub::fill_time_seconds(300), 666);
    assert!(!t.drain_open());
}

#[test]
fn faucets_flow_only_when_on() {
    let mut s = Sink::new();
    assert!(!s.is_producing());
    s.toggle();
    assert!(s.is_producing());
    assert_eq!(s.produced_liquid(), Liquid::Water);
    let mut b = BathSink::new();
    b.toggle();
    assert!(b.is_on());
    assert_eq!(BathSink::water_delivered_ml(3), 240);
    let sh = Shower::new();
    assert!(!sh.is_producing());
    assert_eq!(Shower::water_delivered_ml(u32::MAX), u32::MAX);
}

#[test]
fn mug_starts_empty() {
    let m = Mug::new();
    assert_eq!(m.water_ml(), 0);
    assert_eq!(m.liquid(), None);
}

#[test]
fn lamp_starts_off_and_draws_nothing() {
    let mut l = Lamp::new();
    assert!(!Switchable::is_on(&l));
    assert!(!l.emits_light());
    assert_eq!(l.power_draw_watts(), 0);
    l.toggle();
    assert!(l.emits_light());
    assert!(Powered::is_on(&l));
    assert_eq!(l.power_draw_watts(), Lamp::POWER_W);
}

#[test]
fn fridge_slot_spoils_exactly_once() {
    let mut slot = FridgeSlot::stock(FoodItem::Leftovers);
    assert_eq!(slot.minutes_remaining, 1440);
    assert!(!slot.tick_minutes(1000));
    assert!(slot.tick_minutes(1000));
    assert!(!slot.is_fresh());
    assert!(!slot.tick_minutes(1000));
    let mut empty = FridgeSlot::empty();
    assert!(!empty.tick_minutes(5));
    assert_eq!(empty, FridgeSlot::empty());
    assert_eq!(FoodItem::Milk.starting_minutes(), 2880);
}

#[test]
fn stove_ticks_its_burners() {
    let mut s = Stove::new();
    s.press();
    s.tick_minutes(10);
    assert_eq!(s.burner(0).warmth, 20);
    assert_eq!(s.burner(1).warmth, 0);
    assert!(Powered::is_on(&s));
    assert_eq!(s.burners().count_on(), 1);
    assert!(s.burners().any_on());
    let mut b = Burner::off();
    b.warmth = 50;
    b.tick_minutes(10);
    assert_eq!(b.warmth, 20);
    assert_eq!(BurnerLevel::High.cycle(), BurnerLevel::Off);
    assert_eq!(BurnerLevel::High.heat_per_minute(), 6);
}

#[test]
fn objects_dispatch_use_to_their_kind() {
    let mut o = Object::Bed(Bed::new());
    o.use_action();
    match o {
        Object::Bed(b) => assert_eq!(b.state, BedState::Made),
        _ => panic!("kind changed"),
    }
    let mut s = Object::Stove(Stove::new());
    s.use_action();
    assert_eq!(s.as_powered().map(|p| p.power_draw_watts()), Some(1500));
    let mut d = Object::Diary(Diary::new());
    d.use_action();
    match d {
        Object::Diary(x) => assert!(x.is_open()),
        _ => panic!("kind changed"),
    }
    assert!(Object::Mug(Mug::new()).as_powered().is_none());
    assert_eq!(Object::Fridge(Fridge::new()).kind_tag(), ObjectKindTag::Fridge);
}

#[test]
fn object_tick_spoils_food() {
    let mut o = Object::Fridge(Fridge::new());
    o.tick_minutes(60);
    match o {
        Object::Fridge(f) => assert_eq!(f.slots[0].minutes_remaining, 2820),
        _ => panic!("kind changed"),
    }
}

#[test]
fn containers_report_their_slots() {
    let d = Dresser::new();
    assert_eq!(d.slot_count(), 4);
    let f = Fridge::new();
    assert!(!f.slot_is_empty(0));
    assert!(f.slot_is_empty(7));
    assert_eq!(f.slot_label(7), None);
    let n = Nightstand::new();
    assert_eq!(n.slot_label(0), None);
    let w = WindowObj::new();
    assert!(w.is_on());
    let mut b = Book::new();
    b.toggle_open();
    assert!(b.is_open());
}

#[test]
fn all_kind_tags_entries_are_unique() {
    let tags = all_kind_tags();
    let s: std::collections::HashSet<&ObjectKindTag> = tags.iter().collect();
    assert_eq!(s.len(), tags.len());
}

#[test]
fn tag_name_round_trips_through_all_variants() {
    let names: Vec<&str> = all_kind_tags().iter().map(|t| t.name()).collect();
    assert!(names.contains(&"Mug"));
    assert!(names.contains(&"Plant"));
    assert!(names.contains(&"Painting"));
    assert!(names.contains(&"Diary"));
    assert!(names.contains(&"Bed"));
    assert!(names.contains(&"Bathtub"));
}

#[test]
fn object_views_follow_the_kind() {
    let book = Object::Book(Book::new());
    assert_eq!(book.as_openable().map(|o| o.is_open()), Some(false));
    assert!(book.as_switchable().is_none());
    assert!(book.as_powered().is_none());

    let bed = Object::Bed(Bed::new());
    assert!(bed.as_openable().is_none());
    assert!(bed.as_container().is_none());
    assert!(bed.as_liquid_container().is_none());

    let mut lamp = Lamp::new();
    lamp.toggle();
    let lamp = Object::Lamp(lamp);
    assert_eq!(lamp.as_switchable().map(|s| s.is_on()), Some(true));
    assert_eq!(lamp.as_powered().map(|p| p.power_draw_watts()), Some(Lamp::POWER_W));

    let dresser = Object::Dresser(Dresser::new());
    assert_eq!(dresser.as_container().map(|c| c.slot_count()), Some(4));

    let mug = Object::Mug(Mug::new());
    assert!(mug.as_liquid_container().is_some());
}
