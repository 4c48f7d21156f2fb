//! BathSink: the kitchen Sink's shape with a smaller flow.

use vstd::prelude::*;

use crate::arith::{sat_mul, spec_sat_mul};
use crate::traits::{Liquid, Switchable};

verus! {

#[derive(Debug, Clone, Copy)]
pub struct BathSink {
    on: bool,
}

impl BathSink {
    /// Millilitres per real second while the tap is on.
    pub const FLOW_ML_PER_SEC: u32 = 80;

    pub fn new() -> (s: Self)
        ensures
            !s.on_state(),
    {
        Self { on: false }
    }

    /// Water delivered over `seconds` whole seconds of running tap (saturating).
    pub fn water_delivered_ml(seconds: u32) -> (r: u32)
        ensures
            r == spec_sat_mul(80, seconds as int),
    {
        sat_mul(Self::FLOW_ML_PER_SEC, seconds)
    }

    /// The tap always gives water.
    pub fn produced_liquid(&self) -> (l: Liquid)
        ensures
            l == Liquid::Water,
    {
        Liquid::Water
    }

    /// Water flows exactly while the tap is on.
    pub fn is_producing(&self) -> (b: bool)
        ensures
            b == self.on_state(),
    {
        self.on
    }
}

impl Switchable for BathSink {
    closed spec fn on_state(&self) -> bool {
        self.on
    }

    fn is_on(&self) -> (b: bool) {
        self.on
    }

    fn toggle(&mut self) {
        self.on = !self.on;
    }
}

/// Water used while brushing teeth, saturating.
pub fn teeth_brush_water_ml(seconds_brushing: u32, flow_ml_per_sec: u32) -> (r: u32)
    ensures
        r == spec_sat_mul(seconds_brushing as int, flow_ml_per_sec as int),
{
    sat_mul(seconds_brushing, flow_ml_per_sec)
}

} // verus!
