//! The player's posture. (The body's position, heading and head bob are
//! continuous quantities kept by the program around the library.)

use vstd::prelude::*;

verus! {

/// How the player is holding themselves.
#[derive(Debug, Clone, Copy, PartialEq, Eq, Structural)]
pub enum Posture {
    Standing,
    Sitting,
    Lying,
}

} // verus!
