//! The objects of the world and what happens to all of them at once: the
//! clock's minutes reach every object that ages, and the power draw adds
//! up. (Where each object stands is kept beside this collection by the
//! program around the library.)

use vstd::prelude::*;
use crate::kinds::{draw_of, minute_ticked, tag_of, Object};
use crate::time::InGameClock;

verus! {

/// The objects, and the last clock reading (in whole in-game minutes) that
/// was applied to them.
pub struct Objects {
    items: Vec<Object>,
    last_total_minutes: Option<u64>,
}

/// `a - b`, or 0 where `b` is larger.
pub open spec fn minus_or_zero(a: int, b: int) -> int {
    if a >= b {
        a - b
    } else {
        0
    }
}

/// The power draw of `items` added up, saturating at `u32::MAX` at each
/// step.
pub open spec fn power_total(items: Seq<Object>) -> int
    decreases items.len(),
{
    if items.len() == 0 {
        0
    } else {
        let s = power_total(items.drop_last()) + draw_of(items.last());
        if s > u32::MAX {
            u32::MAX as int
        } else {
            s
        }
    }
}

impl Objects {
    /// The objects, in the order they were added.
    pub closed spec fn items(&self) -> Seq<Object> {
        self.items@
    }

    /// The clock reading (whole minutes) last applied, if any.
    pub closed spec fn last_minutes(&self) -> Option<u64> {
        self.last_total_minutes
    }

    /// No objects, never ticked.
    pub fn new() -> (os: Self)
        ensures
            os.items() == Seq::<Object>::empty(),
            os.last_minutes() is None,
    {
        Self { items: Vec::new(), last_total_minutes: None }
    }

    /// Add an object at the end.
    pub fn add(&mut self, obj: Object)
        ensures
            final(self).items() == old(self).items().push(obj),
            final(self).last_minutes() == old(self).last_minutes(),
    {
        self.items.push(obj);
    }

    /// How many objects there are.
    pub fn len(&self) -> (n: usize)
        ensures
            n == self.items().len(),
    {
        self.items.len()
    }

    /// Whether there are none.
    pub fn is_empty(&self) -> (b: bool)
        ensures
            b == (self.items().len() == 0),
    {
        self.items.len() == 0
    }

    /// The object at `idx`.
    pub fn get(&self, idx: usize) -> (o: &Object)
        requires
            idx < self.items().len(),
        ensures
            *o == self.items()[idx as int],
    {
        &self.items[idx]
    }

    /// The object at `idx`, to change in place.
    pub fn get_mut(&mut self, idx: usize) -> (o: &mut Object)
        requires
            idx < old(self).items().len(),
        ensures
            *o == old(self).items()[idx as int],
            final(self).items() == old(self).items().update(idx as int, *final(o)),
            final(self).last_minutes() == old(self).last_minutes(),
    {
        &mut self.items[idx]
    }

    /// Bring every object up to the clock. The first call only records the
    /// reading; after that, the minutes elapsed since the last reading
    /// (none if the clock went back) age every object that ages, and the
    /// reading is recorded. When no whole minute has passed nothing changes.
    pub fn tick_time(&mut self, clock: &InGameClock)
        ensures
            ({
                let total = clock.day * 1440 + clock.second_of_day / 60;
                match old(self).last_minutes() {
                    None => final(self).last_minutes() == Some(total as u64) && final(self).items()
                        == old(self).items(),
                    Some(p) => {
                        let delta = minus_or_zero(total, p as int);
                        if delta == 0 {
                            &&& final(self).last_minutes() == old(self).last_minutes()
                            &&& final(self).items() == old(self).items()
                        } else {
                            &&& final(self).last_minutes() == Some(total as u64)
                            &&& final(self).items().len() == old(self).items().len()
                            &&& forall|i: int|
                                0 <= i < old(self).items().len() ==> minute_ticked(
                                    #[trigger] old(self).items()[i],
                                    final(self).items()[i],
                                    delta as u32 as int,
                                )
                        }
                    },
                }
            }),
    {
        let total_minutes = clock.total_minutes();
        let prev = match self.last_total_minutes {
            None => {
                self.last_total_minutes = Some(total_minutes);
                return;
            },
            Some(p) => p,
        };
        let delta = total_minutes.saturating_sub(prev);
        if delta == 0 {
            return;
        }
        self.last_total_minutes = Some(total_minutes);
        #[verifier::truncate]
        let dm = delta as u32;
        let ghost before = self.items@;
        let mut i: usize = 0;
        while i < self.items.len()
            invariant
                i <= self.items.len(),
                self.last_total_minutes == Some(total_minutes),
                self.items@.len() == before.len(),
                forall|j: int| 0 <= j < i ==> minute_ticked(#[trigger] before[j], self.items@[j], dm as int),
                forall|j: int| i <= j < before.len() ==> #[trigger] self.items@[j] == before[j],
            decreases self.items.len() - i,
        {
            let mut obj = self.items[i];
            obj.tick_minutes(dm);
            self.items.set(i, obj);
            i = i + 1;
        }
    }

    /// The power draw of all powered objects, added up (saturating).
    pub fn total_power_watts(&self) -> (w: u32)
        ensures
            w == power_total(self.items()),
    {
        let mut sum: u32 = 0;
        let mut i: usize = 0;
        assert(self.items@.subrange(0, 0) =~= Seq::<Object>::empty());
        while i < self.items.len()
            invariant
                i <= self.items.len(),
                sum == power_total(self.items@.subrange(0, i as int)),
            decreases self.items.len() - i,
        {
            assert(self.items@.subrange(0, i + 1).drop_last() =~= self.items@.subrange(0, i as int));
            assert(self.items@.subrange(0, i + 1).last() == self.items@[i as int]);
            if let Some(p) = self.items[i].as_powered() {
                sum = sum.saturating_add(p.power_draw_watts());
            }
            i = i + 1;
        }
        assert(self.items@.subrange(0, self.items.len() as int) =~= self.items@);
        sum
    }
}

impl Default for Objects {
    fn default() -> (os: Self)
        ensures
            os.items() == Seq::<Object>::empty(),
            os.last_minutes() is None,
    {
        Self::new()
    }
}

} // verus!
