use substrate::time::{InGameClock, COMPRESSION_RATIO, REAL_SECONDS_PER_IN_GAME_DAY};

#[test]
fn ratio_is_72() {
    assert_eq!(COMPRESSION_RATIO, 72);
}

#[test]
fn twenty_real_minutes_rolls_one_day() {
    let mut c = InGameClock::new();
    c.advance_real_seconds(REAL_SECONDS_PER_IN_GAME_DAY);
    assert_eq!(c.day, 1);
    assert_eq!(c.second_of_day, 0);
}

#[test]
fn at_hour_wraps_and_reads_back() {
    let c = InGameClock::at_hour(31);
    assert_eq!(c.hour(), 7);
    assert_eq!(c.second_of_day, 7 * 3600);
}

#[test]
fn advancing_in_two_steps_equals_one_step() {
    let mut a = InGameClock::at_hour(23);
    a.advance_in_game_seconds(3_000);
    a.advance_in_game_seconds(4_000);
    let mut b = InGameClock::at_hour(23);
    b.advance_in_game_seconds(7_000);
    assert_eq!(a, b);
    assert_eq!(b.day, 1);
    assert_eq!(b.total_minutes(), 1440 + (82_800 + 7_000 - 86_400) / 60);
}

#[test]
fn day_counter_saturates() {
    let mut c = InGameClock { day: u32::MAX, second_of_day: 86_000 };
    c.advance_in_game_seconds(1_000);
    assert_eq!(c.day, u32::MAX);
    assert_eq!(c.second_of_day, 600);
}
