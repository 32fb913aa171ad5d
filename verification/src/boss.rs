//! The boss that crosses the top of the playfield.

use vstd::prelude::*;
use crate::logic::{CHAR_BOSS, COLOR_BOSS};

verus! {

/// The boss: two cells wide, anchored at its left cell.
#[derive(Clone, Copy, PartialEq, Eq, Debug)]
pub struct Boss {
    pub pos: (i32, i32),
    pub char: u32,
    pub color: i16,
}

impl Boss {
    /// The boss after one step to the right.
    pub open spec fn advanced(self) -> Boss {
        Boss { pos: (self.pos.0, (self.pos.1 + 1) as i32), ..self }
    }

    /// Whether the boss covers the cell `pos`: its anchor or the cell to the
    /// right of it.
    pub open spec fn spec_covers(&self, pos: (i32, i32)) -> bool {
        pos.0 == self.pos.0 && (pos.1 == self.pos.1 || pos.1 == self.pos.1 + 1)
    }

    /// Creates a boss anchored at `pos`.
    pub fn new(pos: (i32, i32)) -> (r: Boss)
        ensures
            r == (Boss { pos, char: CHAR_BOSS, color: COLOR_BOSS }),
    {
        Boss { pos, char: CHAR_BOSS, color: COLOR_BOSS }
    }

    /// The anchor cell of the boss.
    pub fn pos(&self) -> (r: (i32, i32))
        ensures
            r == self.pos,
    {
        self.pos
    }

    /// The glyph the boss is drawn with.
    pub fn char(&self) -> (r: u32)
        ensures
            r == self.char,
    {
        self.char
    }

    /// The colour tag the boss is drawn with.
    pub fn color(&self) -> (r: i16)
        ensures
            r == self.color,
    {
        self.color
    }

    /// The column of the left cell of the boss.
    pub fn left_pos(&self) -> (r: i32)
        ensures
            r == self.pos.1,
    {
        self.pos.1
    }

    /// Moves the boss one column to the right.
    pub fn shift(&mut self)
        requires
            old(self).pos.1 < i32::MAX,
        ensures
            *final(self) == old(self).advanced(),
    {
        self.pos.1 += 1;
    }

    /// Tells whether the boss covers the cell `pos`.
    #[verifier::when_used_as_spec(spec_covers)]
    pub fn covers(&self, pos: (i32, i32)) -> (r: bool)
        ensures
            r == self.spec_covers(pos),
    {
        pos.0 == self.pos.0 && (pos.1 == self.pos.1 || (self.pos.1 < i32::MAX && pos.1 == self.pos.1
            + 1))
    }
}

} // verus!
