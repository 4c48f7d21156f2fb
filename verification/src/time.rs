//! In-game clock at 72:1 compression (20 real minutes = 1 game day).
//!
//! The clock keeps whole in-game seconds; a fraction of a second left
//! over from real-time frames is carried by the caller.

use vstd::prelude::*;

use crate::arith::{sat_add, sat_mul, spec_sat_add, spec_sat_mul};

verus! {

pub const REAL_SECONDS_PER_IN_GAME_DAY: u32 = 1200;

pub const IN_GAME_SECONDS_PER_IN_GAME_DAY: u32 = 86_400;

pub const COMPRESSION_RATIO: u32 = IN_GAME_SECONDS_PER_IN_GAME_DAY / REAL_SECONDS_PER_IN_GAME_DAY;

#[derive(Debug, Clone, Copy, PartialEq, Eq)]
pub struct InGameClock {
    pub day: u32,
    pub second_of_day: u32,
}

/// The clock after `delta` more in-game seconds: whole days carry into
/// `day` (saturating), the rest stays in `second_of_day`.
pub open spec fn advanced(c: InGameClock, delta: int) -> InGameClock {
    let total = c.second_of_day + delta;
    InGameClock {
        day: spec_sat_add(c.day as int, total / (IN_GAME_SECONDS_PER_IN_GAME_DAY as int)) as u32,
        second_of_day: (total % (IN_GAME_SECONDS_PER_IN_GAME_DAY as int)) as u32,
    }
}

impl InGameClock {
    /// The clock reads a time of day within one day.
    pub open spec fn well_formed(self) -> bool {
        self.second_of_day < IN_GAME_SECONDS_PER_IN_GAME_DAY
    }

    /// In-game seconds since day 0, 00:00.
    pub open spec fn total_seconds(self) -> int {
        self.day * IN_GAME_SECONDS_PER_IN_GAME_DAY + self.second_of_day
    }

    /// Day 0, midnight.
    pub fn new() -> (c: Self)
        ensures
            c.day == 0,
            c.second_of_day == 0,
    {
        Self { day: 0, second_of_day: 0 }
    }

    /// Day 0 at the start of `hour` (taken modulo 24).
    pub fn at_hour(hour: u32) -> (c: Self)
        ensures
            c.day == 0,
            c.second_of_day == (hour % 24) * 3600,
            c.well_formed(),
    {
        Self { day: 0, second_of_day: (hour % 24) * 3600 }
    }

    /// Advance by `real_seconds` of real time (72 in-game seconds each,
    /// saturating).
    pub fn advance_real_seconds(&mut self, real_seconds: u32)
        ensures
            *final(self) == advanced(*old(self), spec_sat_mul(real_seconds as int, 72)),
    {
        let in_game_delta = sat_mul(real_seconds, COMPRESSION_RATIO);
        self.advance_in_game_seconds(in_game_delta);
    }

    /// Advance by `delta` in-game seconds, rolling whole days into `day`.
    pub fn advance_in_game_seconds(&mut self, delta: u32)
        ensures
            *final(self) == advanced(*old(self), delta as int),
            final(self).well_formed(),
    {
        let total: u64 = self.second_of_day as u64 + delta as u64;
        let extra_days = (total / 86_400u64) as u32;
        self.day = sat_add(self.day, extra_days);
        self.second_of_day = (total % 86_400u64) as u32;
    }

    /// The hour of the day.
    pub fn hour(&self) -> (h: u32)
        ensures
            h == self.second_of_day / 3600,
            self.well_formed() ==> h < 24,
    {
        self.second_of_day / 3600
    }

    /// Whole in-game minutes since day 0, 00:00.
    pub fn total_minutes(&self) -> (m: u64)
        ensures
            m == self.day * 1440 + self.second_of_day / 60,
    {
        (self.day as u64) * 1440 + (self.second_of_day as u64) / 60
    }
}

impl Default for InGameClock {
    fn default() -> (c: Self)
        ensures
            c.day == 0,
            c.second_of_day == 0,
    {
        Self::new()
    }
}

/// Advancing a well-formed clock keeps the total count of seconds exact,
/// as long as the day counter does not saturate.
pub proof fn lemma_advance_exact(c: InGameClock, delta: nat)
    requires
        c.well_formed(),
        c.day + (c.second_of_day + delta) / 86_400 <= u32::MAX,
    ensures
        advanced(c, delta as int).total_seconds() == c.total_seconds() + delta,
        advanced(c, delta as int).well_formed(),
{
    let total = c.second_of_day + delta;
    assert(total == (total / 86_400) * 86_400 + total % 86_400) by (nonlinear_arith);
    assert((c.day + total / 86_400) * 86_400 == c.day * 86_400 + (total / 86_400) * 86_400)
        by (nonlinear_arith);
}

/// Advancing by `a` then by `b` seconds is advancing by `a + b`, when the
/// day counter does not saturate.
pub proof fn lemma_advance_additive(c: InGameClock, a: nat, b: nat)
    requires
        c.well_formed(),
        c.day + (c.second_of_day + a + b) / 86_400 <= u32::MAX,
    ensures
        advanced(advanced(c, a as int), b as int) == advanced(c, (a + b) as int),
{
    let t1 = c.second_of_day + a;
    let c1 = advanced(c, a as int);
    assert(t1 == (t1 / 86_400) * 86_400 + t1 % 86_400) by (nonlinear_arith);
    let t2 = c1.second_of_day + b;
    assert(t2 == (t2 / 86_400) * 86_400 + t2 % 86_400) by (nonlinear_arith);
    let t = c.second_of_day + a + b;
    assert(t == (t / 86_400) * 86_400 + t % 86_400) by (nonlinear_arith);
    assert((t1 / 86_400) <= t / 86_400) by (nonlinear_arith)
        requires
            t1 <= t,
            t1 >= 0,
    ;
    assert(c1.day == c.day + t1 / 86_400);
    // t = (t1/D)*D + t2, so t / D = t1/D + t2/D and t % D = t2 % D
    assert(t == (t1 / 86_400) * 86_400 + t2);
    assert(t / 86_400 == t1 / 86_400 + t2 / 86_400 && t % 86_400 == t2 % 86_400) by (nonlinear_arith)
        requires
            t == (t1 / 86_400) * 86_400 + t2,
            t2 >= 0,
            t1 >= 0,
    ;
}

} // verus!
