//! Routine primitive: NPC daily schedules (hour-slot -> activity).

use vstd::prelude::*;

use crate::time::InGameClock;

verus! {

#[derive(Debug, Clone, Copy, PartialEq, Eq, Structural)]
pub enum Activity {
    Sleeping,
    InKitchen,
    Out,
}

#[derive(Debug, Clone, Copy)]
pub struct RoutineSlot {
    pub start_hour: u32,
    pub end_hour: u32,
    pub activity: Activity,
}

/// Whether a slot covers an hour (taken modulo 24); a slot whose start is
/// after its end wraps around midnight.
pub open spec fn covers(slot: RoutineSlot, hour: int) -> bool {
    let h = hour % 24;
    if slot.start_hour <= slot.end_hour {
        slot.start_hour <= h && h < slot.end_hour
    } else {
        h >= slot.start_hour || h < slot.end_hour
    }
}

impl RoutineSlot {
    pub fn contains_hour(&self, hour: u32) -> (b: bool)
        ensures
            b == covers(*self, hour as int),
    {
        let h = hour % 24;
        if self.start_hour <= self.end_hour {
            h >= self.start_hour && h < self.end_hour
        } else {
            h >= self.start_hour || h < self.end_hour
        }
    }
}

#[derive(Debug, Clone)]
pub struct Schedule {
    pub slots: Vec<RoutineSlot>,
}

/// The activity at an hour: that of the first slot covering it, else Out.
pub open spec fn activity_from(slots: Seq<RoutineSlot>, hour: int, i: int) -> Activity
    decreases slots.len() - i,
{
    if i < 0 || i >= slots.len() {
        Activity::Out
    } else if covers(slots[i], hour) {
        slots[i].activity
    } else {
        activity_from(slots, hour, i + 1)
    }
}

impl Schedule {
    pub fn new(slots: Vec<RoutineSlot>) -> (s: Self)
        ensures
            s.slots@ == slots@,
    {
        Self { slots }
    }

    /// The activity at the clock's hour.
    pub fn activity_at(&self, clock: &InGameClock) -> (a: Activity)
        ensures
            a == activity_from(self.slots@, (clock.second_of_day / 3600) as int, 0),
    {
        let h = clock.hour();
        let n = self.slots.len();
        let mut i: usize = 0;
        while i < n
            invariant
                n == self.slots@.len(),
                h == clock.second_of_day / 3600,
                i <= n,
                activity_from(self.slots@, h as int, 0) == activity_from(self.slots@, h as int, i as int),
            decreases n - i,
        {
            if self.slots[i].contains_hour(h) {
                assert(activity_from(self.slots@, h as int, i as int) == self.slots@[i as int].activity);
                return self.slots[i].activity;
            }
            i = i + 1;
        }
        Activity::Out
    }

    /// The roommate: asleep 22-7, in the kitchen 7-9 and 17-20, out
    /// 9-17 and 20-22.
    pub fn roommate_default() -> (s: Self)
        ensures
            s.slots@.len() == 5,
            s.slots@[0] == (RoutineSlot { start_hour: 22, end_hour: 7, activity: Activity::Sleeping }),
            s.slots@[1] == (RoutineSlot { start_hour: 7, end_hour: 9, activity: Activity::InKitchen }),
            s.slots@[2] == (RoutineSlot { start_hour: 9, end_hour: 17, activity: Activity::Out }),
            s.slots@[3] == (RoutineSlot { start_hour: 17, end_hour: 20, activity: Activity::InKitchen }),
            s.slots@[4] == (RoutineSlot { start_hour: 20, end_hour: 22, activity: Activity::Out }),
    {
        Self::new(
            vec![
                RoutineSlot { start_hour: 22, end_hour: 7, activity: Activity::Sleeping },
                RoutineSlot { start_hour: 7, end_hour: 9, activity: Activity::InKitchen },
                RoutineSlot { start_hour: 9, end_hour: 17, activity: Activity::Out },
                RoutineSlot { start_hour: 17, end_hour: 20, activity: Activity::InKitchen },
                RoutineSlot { start_hour: 20, end_hour: 22, activity: Activity::Out },
            ],
        )
    }
}

/// The roommate's schedule has an activity for every hour of the day:
/// each hour is covered by exactly one of its slots.
pub proof fn lemma_roommate_covers_each_hour_once(h: int)
    requires
        0 <= h < 24,
    ensures
        ({
            let s = seq![
                RoutineSlot { start_hour: 22, end_hour: 7, activity: Activity::Sleeping },
                RoutineSlot { start_hour: 7, end_hour: 9, activity: Activity::InKitchen },
                RoutineSlot { start_hour: 9, end_hour: 17, activity: Activity::Out },
                RoutineSlot { start_hour: 17, end_hour: 20, activity: Activity::InKitchen },
                RoutineSlot { start_hour: 20, end_hour: 22, activity: Activity::Out },
            ];
            &&& exists|i: int| 0 <= i < 5 && covers(s[i], h)
            &&& forall|i: int, j: int| 0 <= i < j < 5 && covers(s[i], h) ==> !covers(s[j], h)
        }),
{
    let s = seq![
        RoutineSlot { start_hour: 22, end_hour: 7, activity: Activity::Sleeping },
        RoutineSlot { start_hour: 7, end_hour: 9, activity: Activity::InKitchen },
        RoutineSlot { start_hour: 9, end_hour: 17, activity: Activity::Out },
        RoutineSlot { start_hour: 17, end_hour: 20, activity: Activity::InKitchen },
        RoutineSlot { start_hour: 20, end_hour: 22, activity: Activity::Out },
    ];
    assert(h % 24 == h);
    if h >= 22 || h < 7 {
        assert(covers(s[0], h));
    } else if h < 9 {
        assert(covers(s[1], h));
    } else if h < 17 {
        assert(covers(s[2], h));
    } else if h < 20 {
        assert(covers(s[3], h));
    } else {
        assert(covers(s[4], h));
    }
}

} // verus!
