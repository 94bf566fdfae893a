//! The selector: round robin over the healthy backends of a pool.

use crate::backend::Backend;
use crate::pool::Pool;
use crate::rotation::{choose_position, chosen_position, next_cursor};
use vstd::prelude::*;

verus! {

/// What a selection yields.
#[derive(Debug, PartialEq, Eq)]
pub enum Selection {
    /// The backend that the next connection goes to.
    Backend(Backend),
    /// No backend is healthy now.
    Exhausted,
}

/// Whether `selection` is what a selection yields from the backends at
/// `addresses` with health flags `health`, at `cursor`.
pub open spec fn is_choice(
    addresses: Seq<Seq<char>>,
    health: Seq<bool>,
    cursor: nat,
    selection: Selection,
) -> bool {
    match chosen_position(health, cursor) {
        Some(p) => selection matches Selection::Backend(b) && b@ == addresses[p],
        None => selection is Exhausted,
    }
}

/// The selector. It owns the rotation cursor, which counts the selections
/// that yielded a backend. Its view is the cursor.
pub struct Selector {
    cursor: usize,
}

impl View for Selector {
    type V = usize;

    closed spec fn view(&self) -> usize {
        self.cursor
    }
}

impl Selector {
    /// A selector whose cursor is zero.
    pub fn new() -> (selector: Selector)
        ensures
            selector@ == 0,
    {
        Selector { cursor: 0 }
    }

    /// A selector whose cursor is `cursor`.
    pub fn starting_at(cursor: usize) -> (selector: Selector)
        ensures
            selector@ == cursor,
    {
        Selector { cursor }
    }

    /// The cursor.
    pub fn cursor(&self) -> (cursor: usize)
        ensures
            cursor == self@,
    {
        self.cursor
    }

    /// Selects the backend for the next connection.
    ///
    /// With `n` healthy backends in `pool`, the result is the healthy backend
    /// whose rank in rotation order is the cursor modulo `n`, and the cursor
    /// moves on by one. With none, the result is `Exhausted` and the cursor
    /// stays.
    pub fn select(&mut self, pool: &Pool) -> (selection: Selection)
        ensures
            pool@.well_formed(),
            is_choice(pool@.addresses, pool@.health, old(self)@ as nat, selection),
            final(self)@ == if selection is Exhausted {
                old(self)@
            } else {
                next_cursor(old(self)@)
            },
    {
        match choose_position(pool.health(), self.cursor) {
            Some(position) => {
                self.cursor = if self.cursor == usize::MAX {
                    0
                } else {
                    self.cursor + 1
                };
                match pool.backend(position) {
                    Some(backend) => Selection::Backend(backend.clone()),
                    None => Selection::Exhausted,
                }
            },
            None => Selection::Exhausted,
        }
    }
}

} // verus!
