//! Frame constants and pixel packing shared by the renderer.

use vstd::prelude::*;

verus! {

/// Frame width in pixels.
pub const WIDTH: usize = 800;

/// Frame height in pixels.
pub const HEIGHT: usize = 500;

/// A pixel as 0x00RRGGBB.
pub fn rgb(r: u8, g: u8, b: u8) -> (p: u32)
    ensures
        p == r as int * 65536 + g as int * 256 + b as int,
{
    let p = ((r as u32) << 16) | ((g as u32) << 8) | (b as u32);
    assert(((r as u32) << 16) | ((g as u32) << 8) | (b as u32) == (r as u32) * 65536 + (g as u32)
        * 256 + (b as u32)) by (bit_vector);
    p
}

} // verus!
