//! Diary: a private journal with a pressed-leather cover.

use vstd::prelude::*;

use crate::traits::Openable;

verus! {

#[derive(Debug, Clone, Copy)]
pub struct Diary {
    open: bool,
}

impl Diary {
    pub fn new() -> (d: Self)
        ensures
            !d.open_state(),
    {
        Self { open: false }
    }
}

impl Openable for Diary {
    closed spec fn open_state(&self) -> bool {
        self.open
    }

    fn is_open(&self) -> (b: bool) {
        self.open
    }

    fn toggle_open(&mut self) {
        self.open = !self.open;
    }
}

} // verus!
