//! Mug: a single-chamber ceramic drinking vessel holding up to 250ml.

use vstd::prelude::*;

use crate::traits::{Liquid, LiquidContainer};

verus! {

pub const MUG_CAPACITY_ML: u32 = 250;

#[derive(Debug, Clone, Copy)]
pub struct Mug {
    water_ml: u32,
}

impl Mug {
    pub const CAPACITY_ML: u32 = MUG_CAPACITY_ML;

    #[verifier::type_invariant]
    spec fn water_within_capacity(self) -> bool {
        self.water_ml <= MUG_CAPACITY_ML
    }

    pub closed spec fn water(self) -> nat {
        self.water_ml as nat
    }

    pub fn new() -> (m: Self)
        ensures
            m.water() == 0,
    {
        Self { water_ml: 0 }
    }

    pub fn water_ml(&self) -> (w: u32)
        ensures
            w == self.water(),
            w <= MUG_CAPACITY_ML,
    {
        proof {
            use_type_invariant(self);
        }
        self.water_ml
    }
}

impl LiquidContainer for Mug {
    closed spec fn intake_ml(&self) -> nat {
        self.water_ml as nat
    }

    closed spec fn outlet_ml(&self) -> nat {
        self.water_ml as nat
    }

    fn liquid(&self) -> (l: Option<(Liquid, u32)>)
        ensures
            self.water() > 0 ==> l == Some((Liquid::Water, self.water() as u32)),
            self.water() == 0 ==> l is None,
    {
        if self.water_ml > 0 {
            Some((Liquid::Water, self.water_ml))
        } else {
            None
        }
    }

    fn capacity_ml(&self) -> (c: u32)
        ensures
            c == MUG_CAPACITY_ML,
    {
        MUG_CAPACITY_ML
    }

    /// Only water is accepted, up to capacity.
    fn add_liquid(&mut self, kind: Liquid, ml: u32) -> (overflow: u32)
        ensures
            kind != Liquid::Water ==> overflow == ml && final(self).water() == old(self).water(),
            kind == Liquid::Water ==> {
                let taken = if ml < MUG_CAPACITY_ML - old(self).water() {
                    ml as int
                } else {
                    MUG_CAPACITY_ML - old(self).water()
                };
                &&& overflow == ml - taken
                &&& final(self).water() == old(self).water() + taken
            },
    {
        proof {
            use_type_invariant(&*self);
        }
        if kind != Liquid::Water {
            return ml;
        }
        let room = MUG_CAPACITY_ML - self.water_ml;
        let taken = if ml < room {
            ml
        } else {
            room
        };
        self.water_ml = self.water_ml + taken;
        ml - taken
    }

    fn drain_liquid(&mut self, ml: u32) -> (r: (Liquid, u32))
        ensures
            r.0 == Liquid::Water,
            r.1 == (if ml < old(self).water() { ml as nat } else { old(self).water() }),
    {
        proof {
            use_type_invariant(&*self);
        }
        let taken = if ml < self.water_ml {
            ml
        } else {
            self.water_ml
        };
        self.water_ml = self.water_ml - taken;
        (Liquid::Water, taken)
    }
}

} // verus!
