//! Projectiles.

use vstd::prelude::*;
use crate::direction::Direction;
use crate::util;
use crate::util::{can_shift, spec_shift};

verus! {

/// A projectile in flight: where it is, where it is heading, how it is drawn
/// and whether it bursts on impact.
#[derive(Clone, Copy, PartialEq, Eq, Debug)]
pub struct Bullet {
    pub pos: (i32, i32),
    pub char: u32,
    pub color: i16,
    pub dir: Direction,
    pub is_explosive: bool,
}

impl Bullet {
    /// The projectile after one step along its heading.
    pub open spec fn advanced(self) -> Bullet {
        Bullet { pos: spec_shift(self.pos, self.dir), ..self }
    }

    /// The projectile after it bounced off the border: heading mirrored and one
    /// step taken along the new heading.
    pub open spec fn bounced(self) -> Bullet {
        Bullet { dir: self.dir.spec_mirrored(), ..self }.advanced()
    }

    /// Creates a projectile that does not burst.
    pub fn new(pos: (i32, i32), dir: Direction, char: u32, color: i16) -> (r: Bullet)
        ensures
            r == (Bullet { pos, dir, char, color, is_explosive: false }),
    {
        Bullet { pos, dir, char, color, is_explosive: false }
    }

    /// The cell the projectile occupies.
    pub fn pos(&self) -> (r: (i32, i32))
        ensures
            r == self.pos,
    {
        self.pos
    }

    /// The glyph the projectile is drawn with.
    pub fn char(&self) -> (r: u32)
        ensures
            r == self.char,
    {
        self.char
    }

    /// The colour tag the projectile is drawn with.
    pub fn color(&self) -> (r: i16)
        ensures
            r == self.color,
    {
        self.color
    }

    /// Moves the projectile one cell along its heading.
    pub fn shift(&mut self)
        requires
            can_shift(old(self).pos),
        ensures
            *final(self) == old(self).advanced(),
    {
        self.pos = util::shift(&self.pos, &self.dir);
    }

    /// The heading of the projectile.
    pub fn dir(&self) -> (r: &Direction)
        ensures
            *r == self.dir,
    {
        &self.dir
    }

    /// Gives the projectile a new heading.
    pub fn set_dir(&mut self, dir: Direction)
        ensures
            *final(self) == (Bullet { dir, ..*old(self) }),
    {
        self.dir = dir;
    }

    /// Whether the projectile bursts on impact.
    pub fn is_explosive(&self) -> (r: bool)
        ensures
            r == self.is_explosive,
    {
        self.is_explosive
    }

    /// Arms or disarms the projectile.
    pub fn set_is_explosive(&mut self, is_explosive: bool)
        ensures
            *final(self) == (Bullet { is_explosive, ..*old(self) }),
    {
        self.is_explosive = is_explosive;
    }
}

} // verus!
