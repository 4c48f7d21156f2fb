//! Fridge: Openable + Container + Powered + TimeDecayMinutes.
//!
//! Interior freshness ticks in in-game minutes. Three fixed slots.

use vstd::prelude::*;

use crate::arith::{sat_mul, spec_sat_mul, spec_sat_sub};
use crate::traits::{Container, Openable, Powered, TimeDecayMinutes};

verus! {

#[derive(Debug, Clone, Copy, PartialEq, Eq, Structural)]
pub enum FoodItem {
    Milk,
    Eggs,
    Leftovers,
}

/// Shelf life of a freshly stocked item, in minutes.
pub open spec fn shelf_life(item: FoodItem) -> nat {
    match item {
        FoodItem::Milk => 2 * 24 * 60,
        FoodItem::Eggs => 3 * 24 * 60,
        FoodItem::Leftovers => 1 * 24 * 60,
    }
}

impl FoodItem {
    pub fn starting_minutes(self) -> (m: u32)
        ensures
            m == shelf_life(self),
    {
        match self {
            FoodItem::Milk => 2 * 24 * 60,
            FoodItem::Eggs => 3 * 24 * 60,
            FoodItem::Leftovers => 1 * 24 * 60,
        }
    }
}

#[derive(Debug, Clone, Copy, PartialEq, Eq)]
pub struct FridgeSlot {
    pub item: Option<FoodItem>,
    pub minutes_remaining: u32,
}

impl FridgeSlot {
    pub open spec fn fresh(self) -> bool {
        self.item is Some && self.minutes_remaining > 0
    }

    /// The slot after `dm` minutes: stocked slots lose freshness (down to 0).
    pub open spec fn ticked(self, dm: int) -> FridgeSlot {
        if self.item is None {
            self
        } else {
            FridgeSlot {
                item: self.item,
                minutes_remaining: spec_sat_sub(self.minutes_remaining as int, dm) as u32,
            }
        }
    }

    pub fn empty() -> (s: Self)
        ensures
            s.item is None,
            s.minutes_remaining == 0,
    {
        Self { item: None, minutes_remaining: 0 }
    }

    pub fn stock(item: FoodItem) -> (s: Self)
        ensures
            s.item == Some(item),
            s.minutes_remaining == shelf_life(item),
    {
        Self { item: Some(item), minutes_remaining: item.starting_minutes() }
    }

    pub fn is_fresh(&self) -> (b: bool)
        ensures
            b == self.fresh(),
    {
        self.item.is_some() && self.minutes_remaining > 0
    }

    /// Age the slot by `dm` minutes; returns true exactly when the item
    /// spoiled during this tick.
    pub fn tick_minutes(&mut self, dm: u32) -> (spoiled_now: bool)
        ensures
            *final(self) == old(self).ticked(dm as int),
            spoiled_now == (old(self).fresh() && !final(self).fresh()),
    {
        if self.item.is_none() {
            return false;
        }
        let was_fresh = self.minutes_remaining > 0;
        self.minutes_remaining = self.minutes_remaining.saturating_sub(dm);
        was_fresh && self.minutes_remaining == 0
    }
}

pub const FRIDGE_POWER_W: u32 = 100;

#[derive(Debug, Clone, Copy)]
pub struct Fridge {
    open: bool,
    pub slots: [FridgeSlot; 3],
}

/// Number of fresh slots among the first `n`.
pub open spec fn fresh_prefix(slots: Seq<FridgeSlot>, n: int) -> nat
    decreases n,
{
    if n <= 0 {
        0
    } else {
        fresh_prefix(slots, n - 1) + (if slots[n - 1].fresh() { 1nat } else { 0nat })
    }
}

impl Fridge {
    pub const POWER_W: u32 = FRIDGE_POWER_W;

    /// The three slots, in order.
    pub closed spec fn contents(self) -> Seq<FridgeSlot> {
        self.slots@
    }

    /// Closed, stocked with milk, eggs and leftovers.
    pub fn new() -> (f: Self)
        ensures
            !f.open_state(),
            f.contents() == seq![
                FridgeSlot { item: Some(FoodItem::Milk), minutes_remaining: 2880 },
                FridgeSlot { item: Some(FoodItem::Eggs), minutes_remaining: 4320 },
                FridgeSlot { item: Some(FoodItem::Leftovers), minutes_remaining: 1440 },
            ],
    {
        let f = Self {
            open: false,
            slots: [
                FridgeSlot::stock(FoodItem::Milk),
                FridgeSlot::stock(FoodItem::Eggs),
                FridgeSlot::stock(FoodItem::Leftovers),
            ],
        };
        assert(f.slots@ =~= seq![
            FridgeSlot { item: Some(FoodItem::Milk), minutes_remaining: 2880 },
            FridgeSlot { item: Some(FoodItem::Eggs), minutes_remaining: 4320 },
            FridgeSlot { item: Some(FoodItem::Leftovers), minutes_remaining: 1440 },
        ]);
        f
    }

    /// How many slots hold a fresh item.
    pub fn fresh_count(&self) -> (n: usize)
        ensures
            n == fresh_prefix(self.contents(), 3),
    {
        let mut n: usize = 0;
        let mut i: usize = 0;
        while i < 3
            invariant
                i <= 3,
                n == fresh_prefix(self.slots@, i as int),
                n <= i,
            decreases 3 - i,
        {
            if self.slots[i].is_fresh() {
                n = n + 1;
            }
            i = i + 1;
        }
        n
    }
}

impl Openable for Fridge {
    closed spec fn open_state(&self) -> bool {
        self.open
    }

    fn is_open(&self) -> (b: bool) {
        self.open
    }

    fn toggle_open(&mut self)
        ensures
            final(self).contents() == old(self).contents(),
    {
        self.open = !self.open;
    }
}

impl Powered for Fridge {
    closed spec fn draw_watts(&self) -> nat {
        FRIDGE_POWER_W as nat
    }

    closed spec fn powered_on(&self) -> bool {
        true
    }

    /// A fridge always draws its rated power.
    fn power_draw_watts(&self) -> (w: u32)
        ensures
            w == FRIDGE_POWER_W,
    {
        FRIDGE_POWER_W
    }

    fn is_on(&self) -> (b: bool)
        ensures
            b,
    {
        true
    }
}

impl TimeDecayMinutes for Fridge {
    /// Every slot ages by `dm` minutes; the door is untouched.
    fn tick_minutes(&mut self, dm: u32)
        ensures
            final(self).open_state() == old(self).open_state(),
            final(self).contents().len() == 3,
            forall|i: int| 0 <= i < 3 ==> final(self).contents()[i] == #[trigger] old(self).contents()[i].ticked(dm as int),
    {
        let mut i: usize = 0;
        while i < 3
            invariant
                i <= 3,
                self.open == old(self).open,
                forall|j: int| 0 <= j < i ==> self.slots[j] == #[trigger] old(self).slots[j].ticked(dm as int),
                forall|j: int| i <= j < 3 ==> self.slots[j] == old(self).slots[j],
            decreases 3 - i,
        {
            let mut s = self.slots[i];
            s.tick_minutes(dm);
            self.slots[i] = s;
            i = i + 1;
        }
    }
}

impl Container for Fridge {
    closed spec fn slots(&self) -> nat {
        3
    }

    fn slot_count(&self) -> (n: usize) {
        3
    }

    fn slot_is_empty(&self, idx: usize) -> (b: bool)
        ensures
            idx < 3 ==> b == (self.contents()[idx as int].item is None),
    {
        if idx < 3 {
            self.slots[idx].item.is_none()
        } else {
            true
        }
    }

    /// The label of the item in a slot: "milk", "eggs" or "leftovers".
    fn slot_label(&self, idx: usize) -> (l: Option<&'static str>)
        ensures
            idx < 3 ==> match self.contents()[idx as int].item {
                None => l is None,
                Some(FoodItem::Milk) => l matches Some(s) && s@ == "milk"@,
                Some(FoodItem::Eggs) => l matches Some(s) && s@ == "eggs"@,
                Some(FoodItem::Leftovers) => l matches Some(s) && s@ == "leftovers"@,
            },
    {
        if idx >= 3 {
            return None;
        }
        match self.slots[idx].item {
            None => None,
            Some(FoodItem::Milk) => Some("milk"),
            Some(FoodItem::Eggs) => Some("eggs"),
            Some(FoodItem::Leftovers) => Some("leftovers"),
        }
    }
}

/// Minutes left after `elapsed` of `initial_minutes`, down to zero.
pub fn minutes_until_spoiled(initial_minutes: u32, elapsed: u32) -> (r: u32)
    ensures
        r == spec_sat_sub(initial_minutes as int, elapsed as int),
{
    initial_minutes.saturating_sub(elapsed)
}

/// Remaining freshness in percent; zero when the initial life is zero.
pub fn fraction_fresh_percent(remaining_minutes: u32, initial_minutes: u32) -> (r: u32)
    ensures
        r == (if initial_minutes == 0 {
            0
        } else {
            spec_sat_mul(remaining_minutes as int, 100) / initial_minutes as int
        }),
{
    if initial_minutes == 0 {
        return 0;
    }
    sat_mul(remaining_minutes, 100) / initial_minutes
}

/// Spoilage is five times faster with the door open.
pub fn spoilage_rate_per_hour(is_door_open: bool) -> (r: u32)
    ensures
        r == (if is_door_open { 5u32 } else { 1u32 }),
{
    if is_door_open {
        5
    } else {
        1
    }
}

} // verus!
