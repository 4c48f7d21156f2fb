//! Stove: Powered + TimeDecayMinutes + (per-burner) light.
//!
//! Press cycles one burner at a time via an internal cursor. The stove
//! as a whole is Powered (any burner on).

use vstd::prelude::*;

use crate::arith::{sat_add, sat_mul, spec_sat_add, spec_sat_mul, spec_sat_sub};
use crate::traits::{Powered, TimeDecayMinutes};

verus! {

#[derive(Debug, Clone, Copy, PartialEq, Eq, Structural)]
pub enum BurnerLevel {
    Off,
    Low,
    High,
}

pub open spec fn heat_rate(l: BurnerLevel) -> nat {
    match l {
        BurnerLevel::Off => 0,
        BurnerLevel::Low => 2,
        BurnerLevel::High => 6,
    }
}

pub open spec fn next_level(l: BurnerLevel) -> BurnerLevel {
    match l {
        BurnerLevel::Off => BurnerLevel::Low,
        BurnerLevel::Low => BurnerLevel::High,
        BurnerLevel::High => BurnerLevel::Off,
    }
}

impl BurnerLevel {
    pub fn heat_per_minute(self) -> (h: u32)
        ensures
            h == heat_rate(self),
    {
        match self {
            BurnerLevel::Off => 0,
            BurnerLevel::Low => 2,
            BurnerLevel::High => 6,
        }
    }

    /// Off -> Low -> High -> Off.
    pub fn cycle(self) -> (n: Self)
        ensures
            n == next_level(self),
    {
        match self {
            BurnerLevel::Off => BurnerLevel::Low,
            BurnerLevel::Low => BurnerLevel::High,
            BurnerLevel::High => BurnerLevel::Off,
        }
    }
}

pub const WARMTH_COOKED: u32 = 60;
pub const WARMTH_BURNED: u32 = 140;

#[derive(Debug, Clone, Copy, PartialEq, Eq)]
pub struct Burner {
    pub level: BurnerLevel,
    pub warmth: u32,
    pub burned: bool,
}

/// A burner after `dm` minutes: a burned burner is frozen; otherwise it
/// heats by its level's rate (saturating), burns once warmth reaches
/// WARMTH_BURNED, and an Off burner then cools by 3 per minute.
pub open spec fn burner_ticked(b: Burner, dm: int) -> Burner {
    if b.burned {
        b
    } else {
        let heated = spec_sat_add(b.warmth as int, spec_sat_mul(heat_rate(b.level) as int, dm));
        let burned = heated >= WARMTH_BURNED;
        let warmth = if b.level == BurnerLevel::Off {
            spec_sat_sub(heated, spec_sat_mul(dm, 3))
        } else {
            heated
        };
        Burner { level: b.level, warmth: warmth as u32, burned }
    }
}

impl Burner {
    pub const WARMTH_COOKED: u32 = WARMTH_COOKED;
    pub const WARMTH_BURNED: u32 = WARMTH_BURNED;

    pub fn off() -> (b: Self)
        ensures
            b == (Burner { level: BurnerLevel::Off, warmth: 0, burned: false }),
    {
        Self { level: BurnerLevel::Off, warmth: 0, burned: false }
    }

    pub fn tick_minutes(&mut self, dm: u32)
        ensures
            *final(self) == burner_ticked(*old(self), dm as int),
    {
        if self.burned {
            return;
        }
        let add = sat_mul(self.level.heat_per_minute(), dm);
        self.warmth = sat_add(self.warmth, add);
        if self.warmth >= WARMTH_BURNED {
            self.burned = true;
        }
        if self.level == BurnerLevel::Off {
            self.warmth = self.warmth.saturating_sub(sat_mul(dm, 3));
        }
    }

    pub fn is_cooked(&self) -> (b: bool)
        ensures
            b == (!self.burned && self.warmth >= WARMTH_COOKED),
    {
        !self.burned && self.warmth >= WARMTH_COOKED
    }

    /// Would a burner with this warmth reading be cooked (ignoring burning)?
    pub fn warmth_at_or_above_cooked(warmth: u32) -> (b: bool)
        ensures
            b == (warmth >= WARMTH_COOKED),
    {
        warmth >= WARMTH_COOKED
    }
}

#[derive(Debug, Clone, Copy, PartialEq, Eq)]
pub struct StoveBurners {
    pub burners: [Burner; 4],
}

/// Number of burners among the first `n` that are not Off.
pub open spec fn on_prefix(bs: Seq<Burner>, n: int) -> nat
    decreases n,
{
    if n <= 0 {
        0
    } else {
        on_prefix(bs, n - 1) + (if bs[n - 1].level != BurnerLevel::Off { 1nat } else { 0nat })
    }
}

impl StoveBurners {
    pub fn off() -> (s: Self)
        ensures
            forall|i: int| 0 <= i < 4 ==> s.burners@[i] == Burner::spec_off(),
    {
        Self { burners: [Burner::off(), Burner::off(), Burner::off(), Burner::off()] }
    }

    /// Some burner is not Off.
    pub fn any_on(&self) -> (b: bool)
        ensures
            b == (exists|i: int| 0 <= i < 4 && self.burners@[i].level != BurnerLevel::Off),
    {
        let mut i: usize = 0;
        while i < 4
            invariant
                i <= 4,
                forall|j: int| 0 <= j < i ==> self.burners@[j].level == BurnerLevel::Off,
            decreases 4 - i,
        {
            if self.burners[i].level != BurnerLevel::Off {
                return true;
            }
            i = i + 1;
        }
        false
    }

    /// How many burners are not Off.
    pub fn count_on(&self) -> (n: u32)
        ensures
            n == on_prefix(self.burners@, 4),
            n <= 4,
    {
        let mut n: u32 = 0;
        let mut i: usize = 0;
        while i < 4
            invariant
                i <= 4,
                n == on_prefix(self.burners@, i as int),
                n <= i,
            decreases 4 - i,
        {
            if self.burners[i].level != BurnerLevel::Off {
                n = n + 1;
            }
            i = i + 1;
        }
        n
    }
}

impl Burner {
    pub open spec fn spec_off() -> Burner {
        Burner { level: BurnerLevel::Off, warmth: 0, burned: false }
    }
}

pub const POWER_PER_ACTIVE_BURNER_W: u32 = 1500;

#[derive(Debug, Clone, Copy)]
pub struct Stove {
    burners: StoveBurners,
    cursor: u8,
}

impl Stove {
    pub const POWER_PER_ACTIVE_BURNER_W: u32 = POWER_PER_ACTIVE_BURNER_W;

    #[verifier::type_invariant]
    spec fn cursor_in_range(self) -> bool {
        self.cursor < 4
    }

    pub closed spec fn burner_seq(self) -> Seq<Burner> {
        self.burners.burners@
    }

    pub closed spec fn cursor_at(self) -> nat {
        self.cursor as nat
    }

    /// All burners off, cursor on burner 0.
    pub fn new() -> (s: Self)
        ensures
            s.cursor_at() == 0,
            forall|i: int| 0 <= i < 4 ==> s.burner_seq()[i] == Burner::spec_off(),
    {
        Self { burners: StoveBurners::off(), cursor: 0 }
    }

    pub fn cursor(&self) -> (c: u8)
        ensures
            c == self.cursor_at(),
            c < 4,
    {
        proof {
            use_type_invariant(self);
        }
        self.cursor
    }

    pub fn burner(&self, i: usize) -> (b: Burner)
        requires
            i < 4,
        ensures
            b == self.burner_seq()[i as int],
    {
        self.burners.burners[i]
    }

    pub fn burners(&self) -> (b: StoveBurners)
        ensures
            b.burners@ == self.burner_seq(),
    {
        self.burners
    }

    pub fn any_burner_on(&self) -> (b: bool)
        ensures
            b == (exists|i: int| 0 <= i < 4 && self.burner_seq()[i].level != BurnerLevel::Off),
    {
        self.burners.any_on()
    }

    /// Press: cycle the burner at the cursor, then advance the cursor
    /// (wrapping after burner 3).
    pub fn press(&mut self)
        ensures
            pressed(*old(self), *final(self)),
    {
        proof {
            use_type_invariant(&*self);
        }
        let idx = self.cursor as usize;
        let mut bs = self.burners;
        let mut b = bs.burners[idx];
        b.level = b.level.cycle();
        bs.burners[idx] = b;
        let next: u8 = if self.cursor == 3 {
            0
        } else {
            self.cursor + 1
        };
        *self = Stove { burners: bs, cursor: next };
        assert(self.burners.burners@ =~= old(self).burners.burners@.update(idx as int, b));
    }
}

/// What one press does: the burner under the cursor goes to its next
/// level and the cursor moves to the next burner (wrapping after 3).
pub open spec fn pressed(a: Stove, b: Stove) -> bool {
    &&& b.cursor_at() == (a.cursor_at() + 1) % 4
    &&& b.burner_seq() == a.burner_seq().update(
        a.cursor_at() as int,
        Burner {
            level: next_level(a.burner_seq()[a.cursor_at() as int].level),
            ..a.burner_seq()[a.cursor_at() as int]
        },
    )
}

impl Powered for Stove {
    closed spec fn draw_watts(&self) -> nat {
        on_prefix(self.burners.burners@, 4) * (POWER_PER_ACTIVE_BURNER_W as nat)
    }

    closed spec fn powered_on(&self) -> bool {
        exists|i: int| 0 <= i < 4 && self.burners.burners@[i].level != BurnerLevel::Off
    }

    /// 1500 W per burner that is not Off.
    fn power_draw_watts(&self) -> (w: u32)
        ensures
            w == on_prefix(self.burner_seq(), 4) * POWER_PER_ACTIVE_BURNER_W,
    {
        let n = self.burners.count_on();
        n * POWER_PER_ACTIVE_BURNER_W
    }

    fn is_on(&self) -> (b: bool)
        ensures
            b == (exists|i: int| 0 <= i < 4 && self.burner_seq()[i].level != BurnerLevel::Off),
    {
        self.any_burner_on()
    }
}

impl TimeDecayMinutes for Stove {
    /// Every burner ages by `dm` minutes; the cursor is untouched.
    fn tick_minutes(&mut self, dm: u32)
        ensures
            final(self).cursor_at() == old(self).cursor_at(),
            final(self).burner_seq().len() == 4,
            forall|i: int|
                0 <= i < 4 ==> final(self).burner_seq()[i] == #[trigger] burner_ticked(
                    old(self).burner_seq()[i],
                    dm as int,
                ),
    {
        proof {
            use_type_invariant(&*self);
        }
        let mut bs = self.burners;
        let mut i: usize = 0;
        while i < 4
            invariant
                i <= 4,
                forall|j: int| 0 <= j < i ==> bs.burners@[j] == #[trigger] burner_ticked(old(self).burners.burners@[j], dm as int),
                forall|j: int| i <= j < 4 ==> bs.burners@[j] == old(self).burners.burners@[j],
            decreases 4 - i,
        {
            let mut b = bs.burners[i];
            b.tick_minutes(dm);
            bs.burners[i] = b;
            i = i + 1;
        }
        *self = Stove { burners: bs, cursor: self.cursor };
    }
}

/// Watts of `n_burners_on` burners at 1500 W each, saturating.
pub fn burner_bank_watts(n_burners_on: u32) -> (r: u32)
    ensures
        r == spec_sat_mul(n_burners_on as int, 1500),
{
    sat_mul(n_burners_on, 1500)
}

/// Energy over `seconds` at `watts`, saturating.
pub fn joules_delta(watts: u32, seconds: u32) -> (r: u32)
    ensures
        r == spec_sat_mul(watts as int, seconds as int),
{
    sat_mul(watts, seconds)
}

/// Heat stage: 0 below 30, 1 below 60, 2 below 100, else 3.
pub fn heat_stage(warmth: u32) -> (r: u32)
    ensures
        r == (if warmth < 30 {
            0u32
        } else if warmth < 60 {
            1u32
        } else if warmth < 100 {
            2u32
        } else {
            3u32
        }),
{
    if warmth < 30 {
        0
    } else if warmth < 60 {
        1
    } else if warmth < 100 {
        2
    } else {
        3
    }
}

/// Pressing walks the cursor over all four burners: four presses in a
/// row visit four different burners, bring the cursor back where it
/// started, and leave every burner one level further on, with its warmth
/// untouched.
pub proof fn lemma_four_presses_cycle_every_burner(s0: Stove, s1: Stove, s2: Stove, s3: Stove, s4: Stove)
    requires
        s0.cursor_at() < 4,
        pressed(s0, s1),
        pressed(s1, s2),
        pressed(s2, s3),
        pressed(s3, s4),
    ensures
        s4.cursor_at() == s0.cursor_at(),
        s1.cursor_at() < 4 && s2.cursor_at() < 4 && s3.cursor_at() < 4,
        s0.cursor_at() != s1.cursor_at() && s0.cursor_at() != s2.cursor_at() && s0.cursor_at()
            != s3.cursor_at(),
        s1.cursor_at() != s2.cursor_at() && s1.cursor_at() != s3.cursor_at() && s2.cursor_at()
            != s3.cursor_at(),
        forall|i: int|
            0 <= i < 4 ==> #[trigger] s4.burner_seq()[i] == (Burner {
                level: next_level(s0.burner_seq()[i].level),
                ..s0.burner_seq()[i]
            }),
{
    assert forall|i: int| 0 <= i < 4 implies #[trigger] s4.burner_seq()[i] == (Burner {
        level: next_level(s0.burner_seq()[i].level),
        ..s0.burner_seq()[i]
    }) by {
        if i == s0.cursor_at() {
        } else if i == s1.cursor_at() {
        } else if i == s2.cursor_at() {
        } else {
            assert(i == s3.cursor_at());
        }
    }
}

} // verus!
