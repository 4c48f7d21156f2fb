use substrate::routine::{Activity, RoutineSlot, Schedule};
use substrate::time::InGameClock;

#[test]
fn wrap_midnight_slot_includes_0() {
    let s = RoutineSlot { start_hour: 22, end_hour: 7, activity: Activity::Sleeping };
    assert!(s.contains_hour(0));
    assert!(s.contains_hour(23));
    assert!(!s.contains_hour(7));
}

#[test]
fn roommate_default_covers_typical_hours() {
    let sch = Schedule::roommate_default();
    assert_eq!(sch.activity_at(&InGameClock::at_hour(7)), Activity::InKitchen);
    assert_eq!(sch.activity_at(&InGameClock::at_hour(12)), Activity::Out);
    assert_eq!(sch.activity_at(&InGameClock::at_hour(23)), Activity::Sleeping);
}

#[test]
fn empty_schedule_is_always_out() {
    let sch = Schedule::new(vec![]);
    assert_eq!(sch.activity_at(&InGameClock::at_hour(8)), Activity::Out);
}

#[test]
fn hours_wrap_modulo_a_day() {
    let s = RoutineSlot { start_hour: 7, end_hour: 9, activity: Activity::InKitchen };
    assert!(s.contains_hour(31));
    assert!(!s.contains_hour(33));
}
