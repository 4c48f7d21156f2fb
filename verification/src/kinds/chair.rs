//! Chair: a wooden chair (back, seat, four legs).

use vstd::prelude::*;

verus! {

/// A decorative object: it has no state beyond where it stands.
#[derive(Debug, Clone, Copy)]
pub struct Chair {}

impl Chair {
    pub fn new() -> Self {
        Self {  }
    }
}

} // verus!
