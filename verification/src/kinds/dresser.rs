//! Dresser: larger bedroom furniture with four drawer slots for clothes.

use vstd::prelude::*;

use crate::traits::Container;

verus! {

/// Maximum number of drawers a dresser unit can have.
pub const MAX_DRESSER_DRAWERS: u32 = 4;

/// Standard dresser drawer interior height in centimetres.
pub const DRESSER_DRAWER_HEIGHT_CM: u32 = 25;

/// Total storage capacity of the dresser in cubic centimetres.
pub const DRESSER_TOTAL_CAPACITY_CM3: u32 = 180000;

#[derive(Debug, Clone, Copy)]
pub struct Dresser {}

impl Dresser {
    pub fn new() -> Self {
        Self {  }
    }
}

impl Container for Dresser {
    open spec fn slots(&self) -> nat {
        4
    }

    fn slot_count(&self) -> (n: usize) {
        4
    }

    /// Every drawer is empty.
    fn slot_is_empty(&self, idx: usize) -> (b: bool)
        ensures
            b,
    {
        true
    }

    /// Drawers carry no label.
    fn slot_label(&self, idx: usize) -> (l: Option<&'static str>)
        ensures
            l is None,
    {
        None
    }
}

/// Storage slots of a bedroom: four per dresser, one per nightstand.
pub fn total_bedroom_slots(dressers: u32, nightstands: u32) -> (r: u32)
    requires
        dressers * 4 + nightstands <= u32::MAX,
    ensures
        r == dressers * 4 + nightstands,
{
    dressers * 4 + nightstands
}

/// A drawer index names one of the four drawers.
pub fn is_valid_drawer(idx: u32) -> (b: bool)
    ensures
        b == (idx < 4),
{
    idx < 4
}

/// The next drawer index, stopping at 4 (one past the last drawer).
pub fn next_drawer(current: u32) -> (r: u32)
    ensures
        r == (if current < 4 { current + 1 } else { 4 }),
{
    let n = current.saturating_add(1);
    if n < 4 {
        n
    } else {
        4
    }
}

/// Signed difference of two drawer indices, each taken as an `i32`.
pub fn drawer_delta(a: u32, b: u32) -> (r: i32)
    requires
        i32::MIN <= (a as i32) - (b as i32) <= i32::MAX,
    ensures
        r == (a as i32) - (b as i32),
{
    a as i32 - b as i32
}

/// A drawer index clamped to the last drawer.
pub fn clamp_drawer_idx(idx: u32) -> (r: u32)
    ensures
        r == (if idx < 3 { idx } else { 3 }),
{
    if idx < 3 {
        idx
    } else {
        3
    }
}

} // verus!
