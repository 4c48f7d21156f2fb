//! Player needs: hunger, tiredness, hygiene, mood.
//!
//! Each need is a u32 score in [0, NEED_MAX]. NEED_MAX means fully
//! satisfied; 0 means maximally deficient. Needs decay over in-game
//! minutes and are restored by specific appliance/object interactions.

use vstd::prelude::*;

use crate::arith::{lemma_mul_nonneg, sat_mul};

verus! {

pub const NEED_MAX: u32 = 10_000;

/// Per-in-game-minute decay rates.
pub const HUNGER_DECAY_PER_MIN: u32 = 10;
pub const TIREDNESS_DECAY_PER_MIN: u32 = 7;
pub const HYGIENE_DECAY_PER_MIN: u32 = 5;
pub const MOOD_DECAY_PER_MIN: u32 = 3;

/// Low-threshold boundaries. Below these, the player is 'feeling it'.
pub const HUNGRY_THRESHOLD: u32 = 3_000;
pub const EXHAUSTED_THRESHOLD: u32 = 2_500;
pub const DIRTY_THRESHOLD: u32 = 4_000;
pub const SAD_THRESHOLD: u32 = 3_500;

#[derive(Debug, Clone, Copy, PartialEq, Eq)]
pub struct Needs {
    pub hunger: u32,
    pub tiredness: u32,
    pub hygiene: u32,
    pub mood: u32,
}

#[derive(Debug, Clone, Copy, PartialEq, Eq, Hash)]
pub enum NeedTag {
    Hunger,
    Tiredness,
    Hygiene,
    Mood,
}

/// A need raised by `amount`, clamped at NEED_MAX.
pub open spec fn restored(current: int, amount: int) -> int {
    if current + amount < NEED_MAX {
        current + amount
    } else {
        NEED_MAX as int
    }
}

/// A need lowered by `amount`, clamped at 0.
pub open spec fn lowered(current: int, amount: int) -> int {
    if current > amount {
        current - amount
    } else {
        0
    }
}

/// The needs after `minutes` of in-game time without care.
pub open spec fn decayed(n: Needs, minutes: int) -> Needs {
    Needs {
        hunger: lowered(n.hunger as int, HUNGER_DECAY_PER_MIN * minutes) as u32,
        tiredness: lowered(n.tiredness as int, TIREDNESS_DECAY_PER_MIN * minutes) as u32,
        hygiene: lowered(n.hygiene as int, HYGIENE_DECAY_PER_MIN * minutes) as u32,
        mood: lowered(n.mood as int, MOOD_DECAY_PER_MIN * minutes) as u32,
    }
}

/// The score of one need, by tag.
pub open spec fn need_value(n: Needs, tag: NeedTag) -> int {
    match tag {
        NeedTag::Hunger => n.hunger as int,
        NeedTag::Tiredness => n.tiredness as int,
        NeedTag::Hygiene => n.hygiene as int,
        NeedTag::Mood => n.mood as int,
    }
}

/// Declared order of the tags (used to break ties).
pub open spec fn tag_rank(tag: NeedTag) -> int {
    match tag {
        NeedTag::Hunger => 0,
        NeedTag::Tiredness => 1,
        NeedTag::Hygiene => 2,
        NeedTag::Mood => 3,
    }
}

/// `a` is `current` saturating-added with `amount` and clamped to NEED_MAX.
fn saturating_restore(current: u32, amount: u32) -> (r: u32)
    ensures
        r == restored(current as int, amount as int),
{
    let s = current.saturating_add(amount);
    if s < NEED_MAX {
        s
    } else {
        NEED_MAX
    }
}

/// `current` minus `rate * minutes`, saturating at zero.
fn decay_one(current: u32, rate: u32, minutes: u32) -> (r: u32)
    ensures
        r == lowered(current as int, rate * minutes),
{
    let drain = sat_mul(rate, minutes);
    proof {
        lemma_mul_nonneg(rate as int, minutes as int);
    }
    current.saturating_sub(drain)
}

impl Needs {
    /// Every need lies in [0, NEED_MAX].
    pub open spec fn well_formed(self) -> bool {
        &&& self.hunger <= NEED_MAX
        &&& self.tiredness <= NEED_MAX
        &&& self.hygiene <= NEED_MAX
        &&& self.mood <= NEED_MAX
    }

    /// Start fully satisfied.
    pub fn new() -> (n: Self)
        ensures
            n.hunger == NEED_MAX,
            n.tiredness == NEED_MAX,
            n.hygiene == NEED_MAX,
            n.mood == NEED_MAX,
            n.well_formed(),
    {
        Needs { hunger: NEED_MAX, tiredness: NEED_MAX, hygiene: NEED_MAX, mood: NEED_MAX }
    }

    /// Advance all needs by `minutes` of in-game time. Saturates at 0.
    pub fn apply_minute_decay(&mut self, minutes: u32)
        ensures
            *final(self) == decayed(*old(self), minutes as int),
            old(self).well_formed() ==> final(self).well_formed(),
    {
        self.hunger = decay_one(self.hunger, HUNGER_DECAY_PER_MIN, minutes);
        self.tiredness = decay_one(self.tiredness, TIREDNESS_DECAY_PER_MIN, minutes);
        self.hygiene = decay_one(self.hygiene, HYGIENE_DECAY_PER_MIN, minutes);
        self.mood = decay_one(self.mood, MOOD_DECAY_PER_MIN, minutes);
    }

    /// Eating food: restores hunger by `amount` and a fifth of it as mood.
    pub fn eat(&mut self, amount: u32)
        ensures
            final(self).hunger == restored(old(self).hunger as int, amount as int),
            final(self).mood == restored(old(self).mood as int, amount as int / 5),
            final(self).tiredness == old(self).tiredness,
            final(self).hygiene == old(self).hygiene,
            old(self).well_formed() ==> final(self).well_formed(),
    {
        self.hunger = saturating_restore(self.hunger, amount);
        self.mood = saturating_restore(self.mood, amount / 5);
    }

    /// Sleeping: 21 tiredness per minute slept, 2 mood per minute.
    pub fn sleep(&mut self, minutes: u32)
        requires
            minutes * 2 <= u32::MAX,
        ensures
            final(self).tiredness == restored(old(self).tiredness as int, 21 * minutes),
            final(self).mood == restored(old(self).mood as int, 2 * minutes),
            final(self).hunger == old(self).hunger,
            final(self).hygiene == old(self).hygiene,
            old(self).well_formed() ==> final(self).well_formed(),
    {
        let amount = sat_mul(minutes, 21);
        self.tiredness = saturating_restore(self.tiredness, amount);
        self.mood = saturating_restore(self.mood, minutes * 2);
    }

    /// Showering: 100 hygiene per second of shower.
    pub fn shower(&mut self, seconds: u32)
        ensures
            final(self).hygiene == restored(old(self).hygiene as int, 100 * seconds),
            final(self).hunger == old(self).hunger,
            final(self).tiredness == old(self).tiredness,
            final(self).mood == old(self).mood,
            old(self).well_formed() ==> final(self).well_formed(),
    {
        let amount = sat_mul(seconds, 100);
        self.hygiene = saturating_restore(self.hygiene, amount);
    }

    /// Drinking coffee: small mood + tiredness bump.
    pub fn drink_coffee(&mut self)
        ensures
            final(self).tiredness == restored(old(self).tiredness as int, 1_500),
            final(self).mood == restored(old(self).mood as int, 500),
            final(self).hunger == old(self).hunger,
            final(self).hygiene == old(self).hygiene,
            old(self).well_formed() ==> final(self).well_formed(),
    {
        self.tiredness = saturating_restore(self.tiredness, 1_500);
        self.mood = saturating_restore(self.mood, 500);
    }

    /// Reading a book: 30 mood per minute.
    pub fn read(&mut self, minutes: u32)
        ensures
            final(self).mood == restored(old(self).mood as int, 30 * minutes),
            final(self).hunger == old(self).hunger,
            final(self).tiredness == old(self).tiredness,
            final(self).hygiene == old(self).hygiene,
            old(self).well_formed() ==> final(self).well_formed(),
    {
        self.mood = saturating_restore(self.mood, sat_mul(minutes, 30));
    }

    /// Using the toilet: a small hygiene hit.
    pub fn use_toilet(&mut self)
        ensures
            final(self).hygiene == lowered(old(self).hygiene as int, 200),
            final(self).hunger == old(self).hunger,
            final(self).tiredness == old(self).tiredness,
            final(self).mood == old(self).mood,
            old(self).well_formed() ==> final(self).well_formed(),
    {
        self.hygiene = self.hygiene.saturating_sub(200);
    }

    /// Washing hands at a sink.
    pub fn wash_hands(&mut self)
        ensures
            final(self).hygiene == restored(old(self).hygiene as int, 500),
            final(self).hunger == old(self).hunger,
            final(self).tiredness == old(self).tiredness,
            final(self).mood == old(self).mood,
            old(self).well_formed() ==> final(self).well_formed(),
    {
        self.hygiene = saturating_restore(self.hygiene, 500);
    }

    pub fn is_hungry(&self) -> (b: bool)
        ensures
            b == (self.hunger < HUNGRY_THRESHOLD),
    {
        self.hunger < HUNGRY_THRESHOLD
    }

    pub fn is_exhausted(&self) -> (b: bool)
        ensures
            b == (self.tiredness < EXHAUSTED_THRESHOLD),
    {
        self.tiredness < EXHAUSTED_THRESHOLD
    }

    pub fn needs_shower(&self) -> (b: bool)
        ensures
            b == (self.hygiene < DIRTY_THRESHOLD),
    {
        self.hygiene < DIRTY_THRESHOLD
    }

    pub fn is_sad(&self) -> (b: bool)
        ensures
            b == (self.mood < SAD_THRESHOLD),
    {
        self.mood < SAD_THRESHOLD
    }

    /// Overall wellbeing: mean of the four needs (rounded down).
    pub fn wellbeing(&self) -> (w: u32)
        requires
            self.hunger + self.tiredness + self.hygiene + self.mood <= u32::MAX,
        ensures
            w == (self.hunger + self.tiredness + self.hygiene + self.mood) / 4,
    {
        (self.hunger + self.tiredness + self.hygiene + self.mood) / 4
    }

    /// The most urgent need: the lowest score, ties broken in declared order.
    pub fn most_urgent(&self) -> (t: NeedTag)
        ensures
            forall|o: NeedTag| need_value(*self, t) <= #[trigger] need_value(*self, o),
            forall|o: NeedTag|
                tag_rank(o) < tag_rank(t) ==> need_value(*self, t) < #[trigger] need_value(
                    *self,
                    o,
                ),
    {
        let mut worst = NeedTag::Hunger;
        let mut worst_val = self.hunger;
        if self.tiredness < worst_val {
            worst = NeedTag::Tiredness;
            worst_val = self.tiredness;
        }
        if self.hygiene < worst_val {
            worst = NeedTag::Hygiene;
            worst_val = self.hygiene;
        }
        if self.mood < worst_val {
            worst = NeedTag::Mood;
        }
        proof {
            assert forall|o: NeedTag| need_value(*self, worst) <= #[trigger] need_value(*self, o) by {
                match o {
                    NeedTag::Hunger => {},
                    NeedTag::Tiredness => {},
                    NeedTag::Hygiene => {},
                    NeedTag::Mood => {},
                }
            }
            assert forall|o: NeedTag| tag_rank(o) < tag_rank(worst) implies need_value(*self, worst)
                < #[trigger] need_value(*self, o) by {
                match o {
                    NeedTag::Hunger => {},
                    NeedTag::Tiredness => {},
                    NeedTag::Hygiene => {},
                    NeedTag::Mood => {},
                }
            }
        }
        worst
    }
}

impl Default for Needs {
    fn default() -> (n: Self)
        ensures
            n == Needs::spec_full(),
    {
        Self::new()
    }
}

impl Needs {
    /// All four needs fully satisfied.
    pub open spec fn spec_full() -> Needs {
        Needs { hunger: NEED_MAX, tiredness: NEED_MAX, hygiene: NEED_MAX, mood: NEED_MAX }
    }
}

/// Decay is additive: `a` minutes then `b` minutes is the same as `a + b`
/// minutes at once (saturation at zero included).
pub proof fn lemma_decay_additive(n: Needs, a: nat, b: nat)
    ensures
        decayed(decayed(n, a as int), b as int) == decayed(n, (a + b) as int),
{
    assert(HUNGER_DECAY_PER_MIN * (a + b) == HUNGER_DECAY_PER_MIN * a + HUNGER_DECAY_PER_MIN * b);
    assert(TIREDNESS_DECAY_PER_MIN * (a + b) == TIREDNESS_DECAY_PER_MIN * a + TIREDNESS_DECAY_PER_MIN * b);
    assert(HYGIENE_DECAY_PER_MIN * (a + b) == HYGIENE_DECAY_PER_MIN * a + HYGIENE_DECAY_PER_MIN * b);
    assert(MOOD_DECAY_PER_MIN * (a + b) == MOOD_DECAY_PER_MIN * a + MOOD_DECAY_PER_MIN * b);
}

/// Decay never raises a need: every score after decay is at most the score
/// before.
pub proof fn lemma_decay_never_raises(n: Needs, minutes: nat)
    ensures
        decayed(n, minutes as int).hunger <= n.hunger,
        decayed(n, minutes as int).tiredness <= n.tiredness,
        decayed(n, minutes as int).hygiene <= n.hygiene,
        decayed(n, minutes as int).mood <= n.mood,
{
}

/// Hunger drains fastest: from equal scores, after any decay the order
/// hunger <= tiredness <= hygiene <= mood holds.
pub proof fn lemma_hunger_drains_fastest(n: Needs, minutes: nat)
    requires
        n.hunger == n.tiredness,
        n.tiredness == n.hygiene,
        n.hygiene == n.mood,
    ensures
        decayed(n, minutes as int).hunger <= decayed(n, minutes as int).tiredness,
        decayed(n, minutes as int).tiredness <= decayed(n, minutes as int).hygiene,
        decayed(n, minutes as int).hygiene <= decayed(n, minutes as int).mood,
{
}

} // verus!
