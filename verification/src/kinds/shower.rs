//! Shower: Switchable + a hot-water source, with a higher flow than the kitchen sink.

use vstd::prelude::*;

use crate::arith::{sat_mul, spec_sat_mul};
use crate::traits::{Liquid, Switchable};

verus! {

#[derive(Debug, Clone, Copy)]
pub struct Shower {
    on: bool,
}

impl Shower {
    /// Millilitres per real second while the tap is on.
    pub const FLOW_ML_PER_SEC: u32 = 150;

    pub fn new() -> (s: Self)
        ensures
            !s.on_state(),
    {
        Self { on: false }
    }

    /// Water delivered over `seconds` whole seconds of running tap (saturating).
    pub fn water_delivered_ml(seconds: u32) -> (r: u32)
        ensures
            r == spec_sat_mul(150, seconds as int),
    {
        sat_mul(Self::FLOW_ML_PER_SEC, seconds)
    }

    /// The tap always gives water.
    pub fn produced_liquid(&self) -> (l: Liquid)
        ensures
            l == Liquid::Water,
    {
        Liquid::Water
    }

    /// Water flows exactly while the tap is on.
    pub fn is_producing(&self) -> (b: bool)
        ensures
            b == self.on_state(),
    {
        self.on
    }
}

impl Switchable for Shower {
    closed spec fn on_state(&self) -> bool {
        self.on
    }

    fn is_on(&self) -> (b: bool) {
        self.on
    }

    fn toggle(&mut self) {
        self.on = !self.on;
    }
}

/// Hot water left in the tank after `used_ml`, down to zero.
pub fn hot_water_remaining_ml(tank_ml: u32, used_ml: u32) -> (r: u32)
    ensures
        r == crate::arith::spec_sat_sub(tank_ml as int, used_ml as int),
{
    tank_ml.saturating_sub(used_ml)
}

} // verus!
