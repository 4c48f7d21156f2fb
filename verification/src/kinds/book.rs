//! Book: Openable only. Closed <-> Open.

use vstd::prelude::*;

use crate::arith::{sat_mul, spec_sat_mul};
use crate::traits::Openable;

verus! {

#[derive(Debug, Clone, Copy)]
pub struct Book {
    open: bool,
}

impl Book {
    pub fn new() -> (b: Self)
        ensures
            !b.open_state(),
    {
        Self { open: false }
    }
}

impl Openable for Book {
    closed spec fn open_state(&self) -> bool {
        self.open
    }

    fn is_open(&self) -> (b: bool) {
        self.open
    }

    fn toggle_open(&mut self) {
        self.open = !self.open;
    }
}

/// Pages read in `minutes` at `pages_per_minute`, saturating.
pub fn pages_read_in_minutes(minutes: u32, pages_per_minute: u32) -> (r: u32)
    ensures
        r == spec_sat_mul(minutes as int, pages_per_minute as int),
{
    sat_mul(minutes, pages_per_minute)
}

/// Whole chapters in `total_pages`; zero when chapters have no pages.
pub fn chapters_covered(total_pages: u32, pages_per_chapter: u32) -> (r: u32)
    ensures
        r == (if pages_per_chapter == 0 { 0 } else { total_pages / pages_per_chapter }),
{
    if pages_per_chapter == 0 {
        return 0;
    }
    total_pages / pages_per_chapter
}

/// Whole minutes to read `word_count` words; zero at zero speed.
pub fn estimate_reading_time_minutes(word_count: u32, words_per_minute: u32) -> (r: u32)
    ensures
        r == (if words_per_minute == 0 { 0 } else { word_count / words_per_minute }),
{
    if words_per_minute == 0 {
        return 0;
    }
    word_count / words_per_minute
}

} // verus!
