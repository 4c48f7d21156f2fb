//! Plant: a decorative potted houseplant.

use vstd::prelude::*;

verus! {

/// A decorative object: it has no state beyond where it stands.
#[derive(Debug, Clone, Copy)]
pub struct Plant {}

impl Plant {
    pub fn new() -> Self {
        Self {  }
    }
}

} // verus!
