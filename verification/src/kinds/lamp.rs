//! Lamp: Switchable + Powered + LightEmitter.
//!
//! When on: draws 40W and emits warm yellow light (the light itself is
//! computed by the renderer, which works in floating point).

use vstd::prelude::*;

use crate::arith::{sat_mul, spec_sat_mul};
use crate::traits::{Powered, Switchable};

verus! {

/// Red channel value for a warm incandescent light color.
pub const WARM_INCANDESCENT_R: u8 = 255;

/// Green channel value for a warm incandescent light color.
pub const WARM_INCANDESCENT_G: u8 = 220;

/// Blue channel value for a warm incandescent light color.
pub const WARM_INCANDESCENT_B: u8 = 150;

/// Rated lifetime in hours for a standard lamp bulb.
pub const LAMP_BULB_LIFETIME_HOURS: u64 = 10000;

/// Colour temperature in Kelvin for soft-white lamp bulbs.
pub const SOFT_WHITE_TEMP_KELVIN: u16 = 2700;

/// Idle power draw of a lamp in milliwatts.
pub const LAMP_IDLE_DRAW_MW: u16 = 500;

pub const LAMP_POWER_W: u32 = 40;

#[derive(Debug, Clone, Copy)]
pub struct Lamp {
    on: bool,
}

impl Lamp {
    pub const POWER_W: u32 = LAMP_POWER_W;

    pub fn new() -> (l: Self)
        ensures
            !l.on_state(),
    {
        Self { on: false }
    }

    /// Whether the lamp currently emits light (it does exactly when on).
    pub fn emits_light(&self) -> (b: bool)
        ensures
            b == self.on_state(),
    {
        self.on
    }
}

impl Switchable for Lamp {
    closed spec fn on_state(&self) -> bool {
        self.on
    }

    fn is_on(&self) -> (b: bool) {
        self.on
    }

    fn toggle(&mut self) {
        self.on = !self.on;
    }
}

impl Powered for Lamp {
    closed spec fn draw_watts(&self) -> nat {
        if self.on {
            LAMP_POWER_W as nat
        } else {
            0
        }
    }

    fn power_draw_watts(&self) -> (w: u32) {
        if self.on {
            LAMP_POWER_W
        } else {
            0
        }
    }

    closed spec fn powered_on(&self) -> bool {
        self.on
    }

    fn is_on(&self) -> (b: bool) {
        self.on
    }
}

/// Watts a lamp draws in the given state.
pub fn watts_consumed_when(on: bool) -> (r: u32)
    ensures
        r == (if on { 40u32 } else { 0u32 }),
{
    if on {
        40
    } else {
        0
    }
}

/// A colour is warm when red >= green >= blue.
pub fn is_warm_tone(r: u8, g: u8, b: u8) -> (w: bool)
    ensures
        w == (r >= g && g >= b),
{
    r >= g && g >= b
}

/// Light output at 80 lumens per watt.
pub fn lumens_from_watts(watts: u32) -> (r: u32)
    requires
        watts * 80 <= u32::MAX,
    ensures
        r == watts * 80,
{
    watts * 80
}

/// Light output at 80 lumens per watt, refusing more than 1000 W.
pub fn safe_lumens(watts: u32) -> (r: Result<u32, String>)
    ensures
        watts <= 1000 ==> r == Ok::<u32, String>((watts * 80) as u32),
        watts > 1000 ==> (r matches Err(e) && e@ == "too many watts"@),
{
    if watts > 1000 {
        return Err(String::from_str("too many watts"));
    }
    Ok(watts * 80)
}

/// Does nothing.
pub fn log_noop() {
}

/// The word for a lamp's state.
pub fn describe_lamp_state(on: bool) -> (s: &'static str)
    ensures
        on ==> s@ == "on"@,
        !on ==> s@ == "off"@,
{
    if on {
        "on"
    } else {
        "off"
    }
}

/// Watts drawn by a bank of lamps of which `lamps_on` are on.
pub fn lamp_bank_watts(lamps_on: u32) -> (r: u32)
    requires
        lamps_on * 40 <= u32::MAX,
    ensures
        r == lamps_on * 40,
{
    lamps_on * 40
}

/// No lamp of the bank is on.
pub fn all_lamps_off(on: u32) -> (b: bool)
    ensures
        b == (on == 0),
{
    on == 0
}

/// Lumens of a bank of lamps, saturating.
pub fn bank_lumens(n_on: u32, lumens_per_lamp: u32) -> (r: u32)
    ensures
        r == spec_sat_mul(n_on as int, lumens_per_lamp as int),
{
    sat_mul(n_on, lumens_per_lamp)
}

/// Watts needed for `lumens` at the given efficiency; zero at zero efficiency.
pub fn watts_for_lumens(lumens: u32, lumens_per_watt: u32) -> (r: u32)
    ensures
        r == (if lumens_per_watt == 0 { 0 } else { lumens / lumens_per_watt }),
{
    if lumens_per_watt == 0 {
        return 0;
    }
    lumens / lumens_per_watt
}

/// Under 200 lumens is dim.
pub fn is_dim(lumens: u32) -> (b: bool)
    ensures
        b == (lumens < 200),
{
    lumens < 200
}

} // verus!
