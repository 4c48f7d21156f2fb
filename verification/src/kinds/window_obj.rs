//! Window: Switchable (curtain open/closed). Its daylight contribution is
//! computed by the renderer from the clock.

use vstd::prelude::*;

use crate::traits::Switchable;

verus! {

#[derive(Debug, Clone, Copy)]
pub struct WindowObj {
    curtain_open: bool,
}

impl WindowObj {
    /// Curtain starts open.
    pub fn new() -> (w: Self)
        ensures
            w.on_state(),
    {
        Self { curtain_open: true }
    }
}

impl Switchable for WindowObj {
    closed spec fn on_state(&self) -> bool {
        self.curtain_open
    }

    fn is_on(&self) -> (b: bool) {
        self.curtain_open
    }

    fn toggle(&mut self) {
        self.curtain_open = !self.curtain_open;
    }
}

/// Daylight hours are 6:00 to 19:59.
pub fn is_daylight_hour(hour_of_day: u32) -> (b: bool)
    ensures
        b == (6 <= hour_of_day && hour_of_day < 20),
{
    hour_of_day >= 6 && hour_of_day < 20
}

} // verus!
