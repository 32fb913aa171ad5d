//! Defensive structures: shields, obstacles and the escort.

use vstd::prelude::*;
use std::collections::VecDeque;
use crate::bullet::Bullet;
use crate::seqs::{lemma_filter_step, lemma_take_all};
use crate::shooter::{
    cells_of, lasers_at, located, same_as, tally, views, Shooter, ShooterView,
};
use crate::util;

verus! {

/// A structure that absorbs hits until its lives are used up.
#[derive(Clone, Copy, PartialEq, Eq, Debug)]
pub struct Shield {
    pub pos: (i32, i32),
    pub lives: i8,
    pub color: i16,
    pub char: u32,
}

/// The lives a structure has left after `hits` hits, as far as its counter
/// can tell: the counter stops at its lowest value.
pub open spec fn lives_left(lives: i8, hits: nat) -> int {
    if lives - hits >= i8::MIN {
        lives - hits
    } else {
        i8::MIN as int
    }
}

/// The predicate that holds of the structures that have lives left after the
/// hits that `hits` counts in their cell.
pub open spec fn outlasts(hits: spec_fn((i32, i32)) -> nat) -> spec_fn(Shield) -> bool {
    |shield: Shield| shield.lives - hits(shield.pos) > 0
}

/// The function that takes from a structure the hits that `hits` counts in its
/// cell.
pub open spec fn worn(hits: spec_fn((i32, i32)) -> nat) -> spec_fn(Shield) -> Shield {
    |shield: Shield| shield.damaged(hits(shield.pos) as int)
}

/// The structures that outlast the hits, each with the lives it has left.
pub open spec fn survivors(shields: Seq<Shield>, hits: spec_fn((i32, i32)) -> nat) -> Seq<Shield> {
    shields.filter(outlasts(hits)).map_values(worn(hits))
}

/// The count, cell by cell, of what the ships burden a structure with: their
/// projectiles in the cell and the ships themselves in the cell.
pub open spec fn strain(ships: Seq<ShooterView>) -> spec_fn((i32, i32)) -> nat {
    |pos: (i32, i32)| lasers_at(ships, pos) + tally(cells_of(ships), pos)
}

/// Whether one of the structures occupies the cell `pos`.
pub open spec fn covered(shields: Seq<Shield>, pos: (i32, i32)) -> bool {
    exists|i: int| 0 <= i < shields.len() && (#[trigger] shields[i]).pos == pos
}

/// The predicate that holds of the projectiles in whose cell no structure is.
pub open spec fn uncovered(shields: Seq<Shield>) -> spec_fn(Bullet) -> bool {
    |bullet: Bullet| !covered(shields, bullet.pos)
}

/// The predicate that holds of the ships in whose cell no structure is.
pub open spec fn outside(shields: Seq<Shield>) -> spec_fn(ShooterView) -> bool {
    |ship: ShooterView| !covered(shields, ship.pos)
}

/// Tells whether one of the structures occupies the cell `pos`.
pub fn shield_at(shields: &Vec<Shield>, pos: (i32, i32)) -> (r: bool)
    ensures
        r == covered(shields@, pos),
{
    let mut i: usize = 0;
    while i < shields.len()
        invariant
            i <= shields@.len(),
            forall|j: int| 0 <= j < i ==> (#[trigger] shields@[j]).pos != pos,
        decreases shields@.len() - i,
    {
        if util::same_cell(shields[i].pos, pos) {
            return true;
        }
        i += 1;
    }
    false
}

/// Counts down `lives` by the projectiles in the cell `pos`.
pub fn wear_by(bullets: &VecDeque<Bullet>, pos: (i32, i32), lives: i8) -> (left: i8)
    ensures
        left == lives_left(lives, bullets@.filter(located(pos)).len()),
{
    let mut left = lives;
    let mut i: usize = 0;
    while i < bullets.len()
        invariant
            i <= bullets@.len(),
            left == lives_left(lives, bullets@.take(i as int).filter(located(pos)).len()),
        decreases bullets@.len() - i,
    {
        proof {
            lemma_filter_step(bullets@, i as int, located(pos));
        }
        if util::same_cell(bullets[i].pos, pos) && left > i8::MIN {
            left -= 1;
        }
        i += 1;
    }
    proof {
        lemma_take_all(bullets@);
    }
    left
}

/// Counts down `lives` by the projectiles of the ships in the cell `pos`.
pub fn wear_down(ships: &Vec<Shooter>, pos: (i32, i32), lives: i8) -> (left: i8)
    ensures
        left == lives_left(lives, lasers_at(views(ships@), pos)),
{
    let mut left = lives;
    let mut i: usize = 0;
    while i < ships.len()
        invariant
            i <= ships@.len(),
            left == lives_left(lives, lasers_at(views(ships@).take(i as int), pos)),
        decreases ships@.len() - i,
    {
        proof {
            assert(views(ships@).take(i + 1).drop_last() == views(ships@).take(i as int));
            assert(views(ships@).take(i + 1).last() == ships@[i as int]@);
        }
        left = wear_by(&ships[i].bullets, pos, left);
        i += 1;
    }
    proof {
        lemma_take_all(views(ships@));
    }
    left
}

/// Counts down `lives` by the ships in the cell `pos`.
pub fn wear_bodies(ships: &Vec<Shooter>, pos: (i32, i32), lives: i8) -> (left: i8)
    ensures
        left == lives_left(lives, tally(cells_of(views(ships@)), pos)),
{
    let ghost cells = cells_of(views(ships@));
    let ghost here = same_as(pos);
    let mut left = lives;
    let mut i: usize = 0;
    while i < ships.len()
        invariant
            i <= ships@.len(),
            cells == cells_of(views(ships@)),
            here == same_as(pos),
            left == lives_left(lives, cells.take(i as int).filter(here).len()),
        decreases ships@.len() - i,
    {
        proof {
            lemma_filter_step(cells, i as int, here);
            assert(cells[i as int] == ships@[i as int].pos);
        }
        if util::same_cell(ships[i].pos, pos) && left > i8::MIN {
            left -= 1;
        }
        i += 1;
    }
    proof {
        lemma_take_all(cells);
    }
    left
}

/// Counts down `lives` by the projectiles of the ships in the cell `pos` and
/// by the ships in that cell.
pub fn wear(ships: &Vec<Shooter>, pos: (i32, i32), lives: i8) -> (left: i8)
    ensures
        left == lives_left(lives, strain(views(ships@))(pos)),
{
    wear_bodies(ships, pos, wear_down(ships, pos, lives))
}

/// Drops the structures without lives left and gives the others the lives
/// they have left, where `left` holds, structure by structure, the lives left
/// after the hits that `hits` counts.
pub(crate) fn settle(
    shields: &mut Vec<Shield>,
    left: &Vec<i8>,
    Ghost(hits): Ghost<spec_fn((i32, i32)) -> nat>,
)
    requires
        left@.len() == old(shields)@.len(),
        forall|i: int|
            0 <= i < left@.len() ==> left@[i] == lives_left(
                (#[trigger] old(shields)@[i]).lives,
                hits(old(shields)@[i].pos),
            ),
    ensures
        final(shields)@ == survivors(old(shields)@, hits),
{
    let mut kept: Vec<Shield> = Vec::new();
    let mut i: usize = 0;
    while i < shields.len()
        invariant
            i <= shields@.len(),
            shields@ == old(shields)@,
            left@.len() == shields@.len(),
            forall|j: int|
                0 <= j < left@.len() ==> left@[j] == lives_left(
                    (#[trigger] shields@[j]).lives,
                    hits(shields@[j].pos),
                ),
            kept@ == survivors(shields@.take(i as int), hits),
        decreases shields@.len() - i,
    {
        proof {
            lemma_filter_step(shields@, i as int, outlasts(hits));
        }
        let ghost front = shields@.take(i as int).filter(outlasts(hits));
        let shield = shields[i];
        if left[i] > 0 {
            kept.push(Shield::new(shield.pos, left[i], shield.color, shield.char));
            assert(kept@ =~= front.push(shields@[i as int]).map_values(worn(hits)));
        }
        i += 1;
    }
    proof {
        lemma_take_all(shields@);
    }
    *shields = kept;
}

impl Shield {
    /// A structure is alive while it has lives left.
    pub open spec fn spec_is_alive(&self) -> bool {
        self.lives > 0
    }

    /// The structure after `hits` hits, provided the lives left are still a
    /// number the counter can hold.
    pub open spec fn damaged(self, hits: int) -> Shield {
        Shield { lives: (self.lives - hits) as i8, ..self }
    }

    /// The structure moved to the column `x` of its row.
    pub open spec fn at_column(self, x: i32) -> Shield {
        Shield { pos: (self.pos.0, x), ..self }
    }

    /// Creates a structure.
    pub fn new(pos: (i32, i32), lives: i8, color: i16, char: u32) -> (r: Shield)
        ensures
            r == (Shield { pos, lives, color, char }),
    {
        Shield { pos, lives, color, char }
    }

    /// The cell the structure occupies.
    pub fn pos(&self) -> (r: (i32, i32))
        ensures
            r == self.pos,
    {
        self.pos
    }

    /// The glyph the structure is drawn with.
    pub fn char(&self) -> (r: u32)
        ensures
            r == self.char,
    {
        self.char
    }

    /// The colour tag the structure is drawn with.
    pub fn color(&self) -> (r: i16)
        ensures
            r == self.color,
    {
        self.color
    }

    /// Takes one life from the structure.
    pub fn damage(&mut self)
        requires
            old(self).lives > i8::MIN,
        ensures
            *final(self) == old(self).damaged(1),
            final(self).lives == old(self).lives - 1,
    {
        self.lives -= 1;
    }

    /// Moves the structure to the column `x` of its row.
    pub fn set_x(&mut self, x: i32)
        ensures
            *final(self) == old(self).at_column(x),
    {
        self.pos.1 = x;
    }

    /// Tells whether the structure has lives left.
    #[verifier::when_used_as_spec(spec_is_alive)]
    pub fn is_alive(&self) -> (r: bool)
        ensures
            r == self.spec_is_alive(),
    {
        self.lives > 0
    }
}

} // verus!
