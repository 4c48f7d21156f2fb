//! substrate — the simulation core of a first-person life-sim: player and
//! NPC needs, the object kinds of the apartment and their state machines,
//! the kind factory, facet addressing, schedules, the clock and the scene
//! description format.

pub mod addressing;
pub mod ai;
pub mod body;
pub mod arith;
pub mod kindgen;
pub mod interact;
pub mod kinds;
pub mod mind;
pub mod needs;
pub mod objects;
pub mod order;
pub mod render;
pub mod routine;
pub mod scene;
pub mod space;
pub mod text;
pub mod texture;
pub mod time;
pub mod traits;
