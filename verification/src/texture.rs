//! Surface materials: a material is a surface kind, a seed and a tint. The
//! colour of a surface point is computed from these by the renderer.

use vstd::prelude::*;

verus! {

/// The kinds of procedural surface.
#[derive(Debug, Clone, Copy, PartialEq, Eq, Structural)]
pub enum Surface {
    Wood,
    Marble,
    Tile,
    Plaster,
    Brick,
}

/// A surface recipe: kind, noise seed and base colour.
#[derive(Debug, Clone, Copy)]
pub struct Material {
    pub surface: Surface,
    pub seed: u32,
    pub tint: (u8, u8, u8),
}

} // verus!
