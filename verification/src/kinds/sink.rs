//! Sink: Switchable (on/off) + a water source.

use vstd::prelude::*;

use crate::arith::{sat_mul, spec_sat_mul};
use crate::traits::{Liquid, Switchable};

verus! {

#[derive(Debug, Clone, Copy)]
pub struct Sink {
    on: bool,
}

impl Sink {
    /// Millilitres per real second while the tap is on.
    pub const FLOW_ML_PER_SEC: u32 = 100;

    pub fn new() -> (s: Self)
        ensures
            !s.on_state(),
    {
        Self { on: false }
    }

    /// Water delivered over `seconds` whole seconds of running tap (saturating).
    pub fn water_delivered_ml(seconds: u32) -> (r: u32)
        ensures
            r == spec_sat_mul(100, seconds as int),
    {
        sat_mul(Self::FLOW_ML_PER_SEC, seconds)
    }

    /// The tap always gives water.
    pub fn produced_liquid(&self) -> (l: Liquid)
        ensures
            l == Liquid::Water,
    {
        Liquid::Water
    }

    /// Water flows exactly while the tap is on.
    pub fn is_producing(&self) -> (b: bool)
        ensures
            b == self.on_state(),
    {
        self.on
    }
}

impl Switchable for Sink {
    closed spec fn on_state(&self) -> bool {
        self.on
    }

    fn is_on(&self) -> (b: bool) {
        self.on
    }

    fn toggle(&mut self) {
        self.on = !self.on;
    }
}

/// Whole dishes washable with the water available; zero per-dish need gives 0.
pub fn dishes_washable_count(water_available_ml: u32, ml_per_dish: u32) -> (r: u32)
    ensures
        r == (if ml_per_dish == 0 { 0 } else { water_available_ml / ml_per_dish }),
{
    if ml_per_dish == 0 {
        return 0;
    }
    water_available_ml / ml_per_dish
}

} // verus!
