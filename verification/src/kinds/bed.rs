//! Bed: two-state (Made/Unmade). Not Openable: Made/Unmade is not about
//! accessibility.

use vstd::prelude::*;

use crate::arith::{spec_sat_add, spec_sat_mul, spec_sat_sub, sat_add, sat_mul};

verus! {

#[derive(Debug, Clone, Copy, PartialEq, Eq, Structural)]
pub enum BedState {
    Made,
    Unmade,
}

#[derive(Debug, Clone, Copy)]
pub struct Bed {
    pub state: BedState,
}

impl Bed {
    pub fn new() -> (b: Self)
        ensures
            b.state == BedState::Unmade,
    {
        Self { state: BedState::Unmade }
    }

    pub fn is_unmade(&self) -> (b: bool)
        ensures
            b == (self.state == BedState::Unmade),
    {
        self.state == BedState::Unmade
    }

    /// Using the bed flips Made <-> Unmade.
    pub fn use_action(&mut self)
        ensures
            final(self).state == (if old(self).state == BedState::Made {
                BedState::Unmade
            } else {
                BedState::Made
            }),
    {
        self.state = match self.state {
            BedState::Made => BedState::Unmade,
            BedState::Unmade => BedState::Made,
        };
    }
}

/// Sleep quality in percent: a full 480-minute night scores 100, shorter
/// sleep scores a fifth of its minutes.
pub fn rest_score(minutes_slept: u32) -> (r: u8)
    ensures
        r == (if minutes_slept >= 480 { 100 } else { minutes_slept / 5 }),
{
    if minutes_slept >= 480 {
        return 100;
    }
    let s = minutes_slept / 5;
    if s < 100 {
        s as u8
    } else {
        100
    }
}

/// Minutes short of the target sleep (zero when the target was met).
pub fn sleep_deficit_minutes(target: u32, actual: u32) -> (r: u32)
    ensures
        r == spec_sat_sub(target as int, actual as int),
{
    target.saturating_sub(actual)
}

/// The minute-of-day of `hour:minute`, saturating.
pub open spec fn clock_minutes(hour: int, minute: int) -> int {
    spec_sat_add(spec_sat_mul(hour, 60), minute)
}

/// Minutes from `now` until the next alarm; an alarm at the current
/// minute is a full day away.
pub fn minutes_until_alarm(now_hour: u32, now_minute: u32, alarm_hour: u32, alarm_minute: u32) -> (r: u32)
    ensures
        ({
            let now = clock_minutes(now_hour as int, now_minute as int);
            let alarm = clock_minutes(alarm_hour as int, alarm_minute as int);
            r == (if alarm > now {
                alarm - now
            } else {
                spec_sat_add(spec_sat_sub(1440, now), alarm)
            })
        }),
{
    let now = sat_add(sat_mul(now_hour, 60), now_minute);
    let alarm = sat_add(sat_mul(alarm_hour, 60), alarm_minute);
    if alarm > now {
        alarm - now
    } else {
        sat_add(1440u32.saturating_sub(now), alarm)
    }
}

} // verus!
