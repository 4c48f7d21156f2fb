//! CoffeeMaker: a water reservoir (accepts only water) and a coffee
//! output. A brew-state machine moves Idle -> Brewing -> Done on Use
//! presses, but only if the reservoir holds enough water for a brew.
//! The brew timer itself runs in real (floating-point) seconds outside
//! this module; when it elapses, the caller completes the brew with
//! `complete_brew`.

use vstd::prelude::*;

use crate::arith::{sat_mul, spec_sat_mul};
use crate::traits::{Cyclable, Liquid, LiquidContainer, Powered};

verus! {

#[derive(Debug, Clone, Copy, PartialEq, Eq, Structural)]
pub enum BrewState {
    Idle,
    Brewing,
    Done,
}

pub const RESERVOIR_CAPACITY: u32 = 500;
pub const OUTPUT_CAPACITY: u32 = 500;
pub const WATER_PER_BREW_ML: u32 = 250;
pub const COFFEE_PER_BREW_ML: u32 = 250;
pub const POWER_BREWING_W: u32 = 800;

#[derive(Debug, Clone, Copy)]
pub struct CoffeeMaker {
    reservoir_ml: u32,
    output_ml: u32,
    brew: BrewState,
}

impl CoffeeMaker {
    pub const RESERVOIR_CAPACITY: u32 = RESERVOIR_CAPACITY;
    pub const OUTPUT_CAPACITY: u32 = OUTPUT_CAPACITY;
    pub const WATER_PER_BREW_ML: u32 = WATER_PER_BREW_ML;
    pub const COFFEE_PER_BREW_ML: u32 = COFFEE_PER_BREW_ML;
    pub const POWER_BREWING_W: u32 = POWER_BREWING_W;

    #[verifier::type_invariant]
    spec fn within_capacity(self) -> bool {
        self.reservoir_ml <= RESERVOIR_CAPACITY && self.output_ml <= OUTPUT_CAPACITY
    }

    pub closed spec fn reservoir(self) -> nat {
        self.reservoir_ml as nat
    }

    pub closed spec fn output(self) -> nat {
        self.output_ml as nat
    }

    pub closed spec fn brew(self) -> BrewState {
        self.brew
    }

    /// The reservoir starts full, the output empty, the machine idle.
    pub fn new() -> (c: Self)
        ensures
            c.reservoir() == RESERVOIR_CAPACITY,
            c.output() == 0,
            c.brew() == BrewState::Idle,
    {
        Self { reservoir_ml: RESERVOIR_CAPACITY, output_ml: 0, brew: BrewState::Idle }
    }

    pub fn brew_state(&self) -> (b: BrewState)
        ensures
            b == self.brew(),
    {
        self.brew
    }

    pub fn reservoir_ml(&self) -> (r: u32)
        ensures
            r == self.reservoir(),
            r <= RESERVOIR_CAPACITY,
    {
        proof {
            use_type_invariant(self);
        }
        self.reservoir_ml
    }

    pub fn output_ml(&self) -> (r: u32)
        ensures
            r == self.output(),
            r <= OUTPUT_CAPACITY,
    {
        proof {
            use_type_invariant(self);
        }
        self.output_ml
    }

    /// The brew timer elapsed: a running brew turns a brew's worth of
    /// water into coffee (the output is clamped at its capacity) and the
    /// machine is Done. Outside a brew this does nothing.
    pub fn complete_brew(&mut self)
        ensures
            old(self).brew() == BrewState::Brewing ==> {
                &&& final(self).brew() == BrewState::Done
                &&& final(self).reservoir() == (if old(self).reservoir() > WATER_PER_BREW_ML {
                    old(self).reservoir() - WATER_PER_BREW_ML
                } else {
                    0
                })
                &&& final(self).output() == (if old(self).output() + COFFEE_PER_BREW_ML
                    < OUTPUT_CAPACITY {
                    old(self).output() + COFFEE_PER_BREW_ML
                } else {
                    OUTPUT_CAPACITY as int
                })
            },
            old(self).brew() != BrewState::Brewing ==> *final(self) == *old(self),
    {
        proof {
            use_type_invariant(&*self);
        }
        if self.brew == BrewState::Brewing {
            let new_res = self.reservoir_ml.saturating_sub(WATER_PER_BREW_ML);
            let sum = self.output_ml + COFFEE_PER_BREW_ML;
            let new_out = if sum < OUTPUT_CAPACITY {
                sum
            } else {
                OUTPUT_CAPACITY
            };
            *self = CoffeeMaker { reservoir_ml: new_res, output_ml: new_out, brew: BrewState::Done };
        }
    }
}

/// What one press does: Idle starts a brew only with enough water;
/// pressing while brewing is a no-op; Done pours the coffee out and
/// returns to Idle.
pub open spec fn cycled(a: CoffeeMaker, b: CoffeeMaker) -> bool {
    &&& a.brew() == BrewState::Idle && a.reservoir() >= WATER_PER_BREW_ML ==> b.brew()
        == BrewState::Brewing && b.reservoir() == a.reservoir() && b.output() == a.output()
    &&& a.brew() == BrewState::Idle && a.reservoir() < WATER_PER_BREW_ML ==> b == a
    &&& a.brew() == BrewState::Brewing ==> b == a
    &&& a.brew() == BrewState::Done ==> b.brew() == BrewState::Idle && b.output() == 0
        && b.reservoir() == a.reservoir()
}

impl Cyclable for CoffeeMaker {
    closed spec fn index_state(&self) -> nat {
        match self.brew {
            BrewState::Idle => 0,
            BrewState::Brewing => 1,
            BrewState::Done => 2,
        }
    }

    closed spec fn count_state(&self) -> nat {
        3
    }

    fn state_index(&self) -> (i: usize) {
        match self.brew {
            BrewState::Idle => 0,
            BrewState::Brewing => 1,
            BrewState::Done => 2,
        }
    }

    fn state_count(&self) -> (n: usize) {
        3
    }

    /// Idle starts a brew only with enough water; pressing while brewing
    /// is a no-op; Done pours the coffee out and returns to Idle.
    fn cycle(&mut self)
        ensures
            cycled(*old(self), *final(self)),
    {
        proof {
            use_type_invariant(&*self);
        }
        match self.brew {
            BrewState::Idle => {
                if self.reservoir_ml >= WATER_PER_BREW_ML {
                    self.brew = BrewState::Brewing;
                }
            },
            BrewState::Brewing => {},
            BrewState::Done => {
                *self = CoffeeMaker {
                    reservoir_ml: self.reservoir_ml,
                    output_ml: 0,
                    brew: BrewState::Idle,
                };
            },
        }
    }
}

impl LiquidContainer for CoffeeMaker {
    closed spec fn intake_ml(&self) -> nat {
        self.reservoir_ml as nat
    }

    closed spec fn outlet_ml(&self) -> nat {
        self.output_ml as nat
    }

    /// The coffee in the output when there is some, else the water.
    fn liquid(&self) -> (l: Option<(Liquid, u32)>)
        ensures
            self.output() > 0 ==> l == Some((Liquid::Coffee, self.output() as u32)),
            self.output() == 0 && self.reservoir() > 0 ==> l == Some(
                (Liquid::Water, self.reservoir() as u32),
            ),
            self.output() == 0 && self.reservoir() == 0 ==> l is None,
    {
        if self.output_ml > 0 {
            Some((Liquid::Coffee, self.output_ml))
        } else if self.reservoir_ml > 0 {
            Some((Liquid::Water, self.reservoir_ml))
        } else {
            None
        }
    }

    fn capacity_ml(&self) -> (c: u32)
        ensures
            c == OUTPUT_CAPACITY,
    {
        OUTPUT_CAPACITY
    }

    /// Only water is accepted, into the reservoir, up to its capacity.
    fn add_liquid(&mut self, kind: Liquid, ml: u32) -> (overflow: u32)
        ensures
            kind != Liquid::Water ==> overflow == ml && *final(self) == *old(self),
            kind == Liquid::Water ==> {
                let taken = if ml < RESERVOIR_CAPACITY - old(self).reservoir() {
                    ml as int
                } else {
                    RESERVOIR_CAPACITY - old(self).reservoir()
                };
                &&& overflow == ml - taken
                &&& final(self).reservoir() == old(self).reservoir() + taken
                &&& final(self).output() == old(self).output()
                &&& final(self).brew() == old(self).brew()
            },
    {
        proof {
            use_type_invariant(&*self);
        }
        if kind != Liquid::Water {
            return ml;
        }
        let room = RESERVOIR_CAPACITY - self.reservoir_ml;
        let taken = if ml < room {
            ml
        } else {
            room
        };
        self.reservoir_ml = self.reservoir_ml + taken;
        ml - taken
    }

    /// Draining takes coffee from the output.
    fn drain_liquid(&mut self, ml: u32) -> (r: (Liquid, u32))
        ensures
            r.0 == Liquid::Coffee,
            r.1 == (if ml < old(self).output() { ml as nat } else { old(self).output() }),
            final(self).reservoir() == old(self).reservoir(),
            final(self).brew() == old(self).brew(),
    {
        proof {
            use_type_invariant(&*self);
        }
        let taken = if ml < self.output_ml {
            ml
        } else {
            self.output_ml
        };
        self.output_ml = self.output_ml - taken;
        (Liquid::Coffee, taken)
    }
}

impl Powered for CoffeeMaker {
    closed spec fn draw_watts(&self) -> nat {
        if self.brew == BrewState::Brewing {
            POWER_BREWING_W as nat
        } else {
            0
        }
    }

    closed spec fn powered_on(&self) -> bool {
        self.brew == BrewState::Brewing
    }

    fn power_draw_watts(&self) -> (w: u32)
        ensures
            w == (if self.brew() == BrewState::Brewing { POWER_BREWING_W } else { 0 }),
    {
        if self.brew == BrewState::Brewing {
            POWER_BREWING_W
        } else {
            0
        }
    }

    fn is_on(&self) -> (b: bool)
        ensures
            b == (self.brew() == BrewState::Brewing),
    {
        self.brew == BrewState::Brewing
    }
}

/// Percent of a brew done; zero for a zero-length brew.
pub fn brew_progress_percent(elapsed_seconds: u32, total_seconds: u32) -> (r: u32)
    ensures
        r == (if total_seconds == 0 {
            0
        } else {
            spec_sat_mul(elapsed_seconds as int, 100) / total_seconds as int
        }),
{
    if total_seconds == 0 {
        return 0;
    }
    sat_mul(elapsed_seconds, 100) / total_seconds
}

/// Whole cups in `total_ml`; zero for a zero-size cup.
pub fn cups_from_ml(total_ml: u32, cup_size_ml: u32) -> (r: u32)
    ensures
        r == (if cup_size_ml == 0 { 0 } else { total_ml / cup_size_ml }),
{
    if cup_size_ml == 0 {
        return 0;
    }
    total_ml / cup_size_ml
}

/// Water for `n_cups` cups, saturating.
pub fn water_for_n_cups(n_cups: u32, ml_per_cup: u32) -> (r: u32)
    ensures
        r == spec_sat_mul(n_cups as int, ml_per_cup as int),
{
    sat_mul(n_cups, ml_per_cup)
}

} // verus!
