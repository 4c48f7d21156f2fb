//! Nightstand: small bedside furniture with one storage slot.

use vstd::prelude::*;

use crate::traits::Container;

verus! {

/// Number of slots available on a nightstand.
pub const NIGHTSTAND_SLOT_COUNT: u32 = 1;

/// Maximum weight in kilograms that a nightstand can support.
pub const NIGHTSTAND_MAX_WEIGHT_KG: u8 = 15;

/// Standard width of the nightstand in centimetres.
pub const NIGHTSTAND_WIDTH_CM: u32 = 45;

#[derive(Debug, Clone, Copy)]
pub struct Nightstand {}

impl Nightstand {
    pub fn new() -> Self {
        Self {  }
    }
}

impl Container for Nightstand {
    open spec fn slots(&self) -> nat {
        1
    }

    fn slot_count(&self) -> (n: usize) {
        1
    }

    fn slot_is_empty(&self, idx: usize) -> (b: bool)
        ensures
            b,
    {
        true
    }

    fn slot_label(&self, idx: usize) -> (l: Option<&'static str>)
        ensures
            l is None,
    {
        None
    }
}

/// Only slot 0 exists on a nightstand.
pub fn nightstand_can_hold(idx: u32) -> (b: bool)
    ensures
        b == (idx < 1),
{
    idx < 1
}

/// Byte offset of a slot record (64 bytes per slot).
pub fn slot_offset(idx: usize) -> (r: usize)
    requires
        idx * 64 <= usize::MAX,
    ensures
        r == idx * 64,
{
    idx * 64
}

/// Interior volume of a nightstand box.
pub fn nightstand_volume_cm3(depth: u32, width: u32, height: u32) -> (r: u32)
    requires
        depth * width <= u32::MAX,
        depth * width * height <= u32::MAX,
    ensures
        r == depth * width * height,
{
    depth * width * height
}

} // verus!
