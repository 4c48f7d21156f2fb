//! Bathtub: Switchable (faucet) + Openable (drain plug) + LiquidContainer.
//!
//! Fills when the faucet is on AND the drain is closed; drains when the
//! drain is open. The fill and drain rates run in real (floating-point)
//! seconds outside this module, which reports the amounts through `flow`.

use vstd::prelude::*;

use crate::traits::{Liquid, LiquidContainer, Openable, Switchable};

verus! {

pub const BATHTUB_CAPACITY_ML: u32 = 200_000;

#[derive(Debug, Clone, Copy)]
pub struct Bathtub {
    faucet_on: bool,
    drain_open: bool,
    water_ml: u32,
}

impl Bathtub {
    pub const CAPACITY_ML: u32 = BATHTUB_CAPACITY_ML;

    #[verifier::type_invariant]
    spec fn water_within_capacity(self) -> bool {
        self.water_ml <= BATHTUB_CAPACITY_ML
    }

    pub closed spec fn water(self) -> nat {
        self.water_ml as nat
    }

    pub closed spec fn faucet(self) -> bool {
        self.faucet_on
    }

    pub closed spec fn drain(self) -> bool {
        self.drain_open
    }

    /// Empty, faucet off, drain open.
    pub fn new() -> (t: Self)
        ensures
            t.water() == 0,
            !t.faucet(),
            t.drain(),
    {
        Self { faucet_on: false, drain_open: true, water_ml: 0 }
    }

    pub fn water_ml(&self) -> (w: u32)
        ensures
            w == self.water(),
            w <= BATHTUB_CAPACITY_ML,
    {
        proof {
            use_type_invariant(self);
        }
        self.water_ml
    }

    pub fn drain_open(&self) -> (b: bool)
        ensures
            b == self.drain(),
    {
        self.drain_open
    }

    /// Time in whole seconds to fill an empty tub at the given flow rate.
    pub fn fill_time_seconds(flow_ml_per_sec: u32) -> (r: u32)
        ensures
            r == (if flow_ml_per_sec == 0 { 0 } else { BATHTUB_CAPACITY_ML / flow_ml_per_sec }),
    {
        if flow_ml_per_sec == 0 {
            return 0;
        }
        BATHTUB_CAPACITY_ML / flow_ml_per_sec
    }

    /// One step of running water: with the faucet on and the drain closed
    /// `add_ml` flows in (clamped at capacity); then, with the drain open
    /// and water in the tub, `remove_ml` flows out (down to empty).
    pub fn flow(&mut self, add_ml: u32, remove_ml: u32)
        requires
            old(self).water() + add_ml <= u32::MAX,
        ensures
            final(self).faucet() == old(self).faucet(),
            final(self).drain() == old(self).drain(),
            ({
                let filled = if old(self).faucet() && !old(self).drain() {
                    if old(self).water() + add_ml < BATHTUB_CAPACITY_ML {
                        old(self).water() + add_ml
                    } else {
                        BATHTUB_CAPACITY_ML as int
                    }
                } else {
                    old(self).water() as int
                };
                final(self).water() == (if old(self).drain() && filled > 0 {
                    if filled > remove_ml {
                        filled - remove_ml
                    } else {
                        0
                    }
                } else {
                    filled
                })
            }),
    {
        proof {
            use_type_invariant(&*self);
        }
        if self.faucet_on && !self.drain_open {
            let sum = self.water_ml + add_ml;
            self.water_ml = if sum < BATHTUB_CAPACITY_ML {
                sum
            } else {
                BATHTUB_CAPACITY_ML
            };
        }
        if self.drain_open && self.water_ml > 0 {
            self.water_ml = self.water_ml.saturating_sub(remove_ml);
        }
    }
}

impl Switchable for Bathtub {
    closed spec fn on_state(&self) -> bool {
        self.faucet_on
    }

    fn is_on(&self) -> (b: bool) {
        self.faucet_on
    }

    fn toggle(&mut self)
        ensures
            final(self).water() == old(self).water(),
            final(self).drain() == old(self).drain(),
    {
        proof {
            use_type_invariant(&*self);
        }
        self.faucet_on = !self.faucet_on;
    }
}

impl Openable for Bathtub {
    closed spec fn open_state(&self) -> bool {
        self.drain_open
    }

    fn is_open(&self) -> (b: bool) {
        self.drain_open
    }

    fn toggle_open(&mut self)
        ensures
            final(self).water() == old(self).water(),
            final(self).faucet() == old(self).faucet(),
    {
        proof {
            use_type_invariant(&*self);
        }
        self.drain_open = !self.drain_open;
    }
}

impl LiquidContainer for Bathtub {
    closed spec fn intake_ml(&self) -> nat {
        self.water_ml as nat
    }

    closed spec fn outlet_ml(&self) -> nat {
        self.water_ml as nat
    }

    fn liquid(&self) -> (l: Option<(Liquid, u32)>)
        ensures
            self.water() > 0 ==> l == Some((Liquid::Water, self.water() as u32)),
            self.water() == 0 ==> l is None,
    {
        if self.water_ml > 0 {
            Some((Liquid::Water, self.water_ml))
        } else {
            None
        }
    }

    fn capacity_ml(&self) -> (c: u32)
        ensures
            c == BATHTUB_CAPACITY_ML,
    {
        BATHTUB_CAPACITY_ML
    }

    /// Only water is accepted, up to capacity.
    fn add_liquid(&mut self, kind: Liquid, ml: u32) -> (overflow: u32)
        ensures
            kind != Liquid::Water ==> overflow == ml && *final(self) == *old(self),
            kind == Liquid::Water ==> {
                let taken = if ml < BATHTUB_CAPACITY_ML - old(self).water() {
                    ml as int
                } else {
                    BATHTUB_CAPACITY_ML - old(self).water()
                };
                &&& overflow == ml - taken
                &&& final(self).water() == old(self).water() + taken
                &&& final(self).faucet() == old(self).faucet()
                &&& final(self).drain() == old(self).drain()
            },
    {
        proof {
            use_type_invariant(&*self);
        }
        if kind != Liquid::Water {
            return ml;
        }
        let room = BATHTUB_CAPACITY_ML - self.water_ml;
        let taken = if ml < room {
            ml
        } else {
            room
        };
        self.water_ml = self.water_ml + taken;
        ml - taken
    }

    fn drain_liquid(&mut self, ml: u32) -> (r: (Liquid, u32))
        ensures
            r.0 == Liquid::Water,
            r.1 == (if ml < old(self).water() { ml as nat } else { old(self).water() }),
            final(self).faucet() == old(self).faucet(),
            final(self).drain() == old(self).drain(),
    {
        proof {
            use_type_invariant(&*self);
        }
        let taken = if ml < self.water_ml {
            ml
        } else {
            self.water_ml
        };
        self.water_ml = self.water_ml - taken;
        (Liquid::Water, taken)
    }
}

/// Whole seconds to drain `water_ml`; zero at a zero drain rate.
pub fn drain_time_seconds(water_ml: u32, drain_rate_ml_per_sec: u32) -> (r: u32)
    ensures
        r == (if drain_rate_ml_per_sec == 0 { 0 } else { water_ml / drain_rate_ml_per_sec }),
{
    if drain_rate_ml_per_sec == 0 {
        return 0;
    }
    water_ml / drain_rate_ml_per_sec
}

} // verus!
