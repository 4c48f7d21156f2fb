//! Painting: a framed piece of art on the wall.

use vstd::prelude::*;

verus! {

/// A decorative object: it has no state beyond where it stands.
#[derive(Debug, Clone, Copy)]
pub struct Painting {}

impl Painting {
    pub fn new() -> Self {
        Self {  }
    }
}

} // verus!
