//! Composable traits for object behaviors.
//!
//! A trait captures ONE axis of behavior; every kind declares which axes
//! it carries. Each trait names the abstract state it reads (a spec
//! function) so that callers can reason about any implementer.

use vstd::prelude::*;

verus! {

/// Closed/open where "open" means the space beyond is accessible.
pub trait Openable {
    spec fn open_state(&self) -> bool;

    fn is_open(&self) -> (b: bool)
        ensures
            b == self.open_state(),
    ;

    fn toggle_open(&mut self)
        ensures
            final(self).open_state() == !old(self).open_state(),
    ;
}

/// Binary state where "on" means the world reacts.
pub trait Switchable {
    spec fn on_state(&self) -> bool;

    fn is_on(&self) -> (b: bool)
        ensures
            b == self.on_state(),
    ;

    fn toggle(&mut self)
        ensures
            final(self).on_state() == !old(self).on_state(),
    ;
}

/// N ordered states; Use advances through them.
pub trait Cyclable {
    spec fn index_state(&self) -> nat;

    spec fn count_state(&self) -> nat;

    fn state_index(&self) -> (i: usize)
        ensures
            i == self.index_state(),
            i < self.count_state(),
    ;

    fn state_count(&self) -> (n: usize)
        ensures
            n == self.count_state(),
    ;

    fn cycle(&mut self)
        ensures
            final(self).count_state() == old(self).count_state(),
    ;
}

/// Holds up to N items; the cross-kind read surface only.
pub trait Container {
    spec fn slots(&self) -> nat;

    fn slot_count(&self) -> (n: usize)
        ensures
            n == self.slots(),
    ;

    fn slot_is_empty(&self, idx: usize) -> (b: bool)
        ensures
            idx >= self.slots() ==> b,
    ;

    fn slot_label(&self, idx: usize) -> (l: Option<&'static str>)
        ensures
            idx >= self.slots() ==> l is None,
    ;
}

#[derive(Debug, Clone, Copy, PartialEq, Eq, Structural)]
pub enum Liquid {
    Water,
    Coffee,
    Tea,
    Juice,
    Milk,
    Beer,
}

/// Holds a liquid. Kettles, bottles, reservoirs, bathtubs.
pub trait LiquidContainer {
    /// Millilitres that `add_liquid` fills (the intake chamber).
    spec fn intake_ml(&self) -> nat;

    /// Millilitres that `drain_liquid` empties (the outlet chamber).
    spec fn outlet_ml(&self) -> nat;

    fn liquid(&self) -> (l: Option<(Liquid, u32)>)
        ensures
            l matches Some((_, ml)) ==> ml > 0,
    ;

    fn capacity_ml(&self) -> u32;

    /// Returns overflow_ml that didn't fit.
    fn add_liquid(&mut self, kind: Liquid, ml: u32) -> (overflow: u32)
        ensures
            overflow <= ml,
            final(self).intake_ml() == old(self).intake_ml() + (ml - overflow),
    ;

    /// Returns (liquid_kind, actually_removed_ml).
    fn drain_liquid(&mut self, ml: u32) -> (r: (Liquid, u32))
        ensures
            r.1 <= ml,
            r.1 <= old(self).outlet_ml(),
            final(self).outlet_ml() == old(self).outlet_ml() - r.1,
    ;
}

/// State advances per in-game minute.
pub trait TimeDecayMinutes {
    fn tick_minutes(&mut self, dm: u32);
}

/// Consumes electricity. `is_on()` true means "actively drawing now".
pub trait Powered {
    spec fn draw_watts(&self) -> nat;

    fn power_draw_watts(&self) -> (w: u32)
        ensures
            w == self.draw_watts(),
    ;

    spec fn powered_on(&self) -> bool;

    fn is_on(&self) -> (b: bool)
        ensures
            b == self.powered_on(),
    ;
}

/// Toggling twice restores the open state (the Openable contract).
pub proof fn lemma_open_toggle_twice<T: Openable>(start: T, once: T, twice: T)
    requires
        once.open_state() == !start.open_state(),
        twice.open_state() == !once.open_state(),
    ensures
        twice.open_state() == start.open_state(),
{
}

/// Toggling twice restores the on state (the Switchable contract).
pub proof fn lemma_switch_toggle_twice<T: Switchable>(start: T, once: T, twice: T)
    requires
        once.on_state() == !start.on_state(),
        twice.on_state() == !once.on_state(),
    ensures
        twice.on_state() == start.on_state(),
{
}

} // verus!
