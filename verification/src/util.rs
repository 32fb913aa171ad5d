//! Grid geometry and the source of chance.

use vstd::prelude::*;
use rand::Rng;
use crate::direction::Direction;
use crate::{COLS, LINES};

verus! {

/// A position lies out of bounds when it is on or beyond the border of the
/// playfield: the outermost row and the outermost column on each side are
/// walls.
pub open spec fn spec_out_of_bounds(pos: (i32, i32)) -> bool {
    pos.0 <= 0 || pos.1 <= 0 || pos.0 >= LINES - 1 || pos.1 >= COLS - 1
}

/// Reports whether `pos` is on or beyond the border of the playfield.
#[verifier::when_used_as_spec(spec_out_of_bounds)]
pub fn out_of_bounds(pos: (i32, i32)) -> (r: bool)
    ensures
        r == spec_out_of_bounds(pos),
{
    pos.0 <= 0 || pos.1 <= 0 || pos.0 >= LINES - 1 || pos.1 >= COLS - 1
}

/// A position can be advanced in any direction without leaving the range of
/// the coordinate type.
pub open spec fn can_shift(pos: (i32, i32)) -> bool {
    i32::MIN < pos.0 < i32::MAX && i32::MIN < pos.1 < i32::MAX
}

/// The position one cell away from `pos` along `dir`.
pub open spec fn spec_shift(pos: (i32, i32), dir: Direction) -> (i32, i32) {
    ((pos.0 + dir.row_step()) as i32, (pos.1 + dir.col_step()) as i32)
}

/// Advances `pos` by one cell along `dir`.
pub fn shift(pos: &(i32, i32), dir: &Direction) -> (r: (i32, i32))
    requires
        can_shift(*pos),
    ensures
        r == spec_shift(*pos, *dir),
        r.0 == pos.0 + dir.row_step(),
        r.1 == pos.1 + dir.col_step(),
{
    match dir {
        Direction::Left => (pos.0, pos.1 - 1),
        Direction::Right => (pos.0, pos.1 + 1),
        Direction::Up => (pos.0 - 1, pos.1),
        Direction::Down => (pos.0 + 1, pos.1),
        Direction::LeftUp => (pos.0 - 1, pos.1 - 1),
        Direction::RightUp => (pos.0 - 1, pos.1 + 1),
        Direction::LeftDown => (pos.0 + 1, pos.1 - 1),
        Direction::RightDown => (pos.0 + 1, pos.1 + 1),
    }
}

/// Tells whether two positions name the same cell.
pub fn same_cell(a: (i32, i32), b: (i32, i32)) -> (r: bool)
    ensures
        r == (a == b),
{
    a.0 == b.0 && a.1 == b.1
}

/// A step changes the row and the column by at most one cell each, by at least
/// one of them, exactly as the heading says, and a step along the opposite
/// heading leads back to where the first one started. This holds of every
/// position that is not on the very edge of the coordinate range, hence of
/// every position within bounds.
pub proof fn lemma_shift_round_trip(pos: (i32, i32), dir: Direction)
    requires
        can_shift(pos),
    ensures
        spec_shift(pos, dir).0 - pos.0 == dir.row_step(),
        spec_shift(pos, dir).1 - pos.1 == dir.col_step(),
        -1 <= dir.row_step() <= 1,
        -1 <= dir.col_step() <= 1,
        dir.row_step() != 0 || dir.col_step() != 0,
        dir.spec_opposite().row_step() == -dir.row_step(),
        dir.spec_opposite().col_step() == -dir.col_step(),
        spec_shift(spec_shift(pos, dir), dir.spec_opposite()) == pos,
{
}

/// The largest size of a coordinate that the engine reckons with. The bound
/// keeps every coordinate the engine computes far from the ends of the
/// coordinate type.
pub const MAX_SIDE: i32 = 0x2000_0000;

/// A position lies on the field when neither coordinate exceeds the largest
/// size.
pub open spec fn on_field(pos: (i32, i32)) -> bool {
    -MAX_SIDE <= pos.0 <= MAX_SIDE && -MAX_SIDE <= pos.1 <= MAX_SIDE
}

/// A position lies near the field when it is at most one cell away from a
/// position on the field.
pub open spec fn near_field(pos: (i32, i32)) -> bool {
    -MAX_SIDE - 1 <= pos.0 <= MAX_SIDE + 1 && -MAX_SIDE - 1 <= pos.1 <= MAX_SIDE + 1
}

/// Draws a number from `low` up to, but not including, `high` through
/// `rand::Rng::gen_range` on the thread's generator. The generator promises a
/// value inside the range it is given and panics on an empty range, which the
/// precondition rules out. Nothing else is known of the number.
#[verifier::external_body]
pub(crate) fn random_between(low: i32, high: i32) -> (r: i32)
    requires
        low < high,
    ensures
        low <= r < high,
{
    rand::thread_rng().gen_range(low..high)
}

/// Number of equally likely outcomes of one roll of `random_event`.
pub const ODDS_SCALE: i32 = 1000;

/// Whether a roll counts as a hit for the given odds, in thousandths.
pub open spec fn spec_event_hits(roll: i32, odds: i32) -> bool {
    roll < odds
}

/// Decides for a roll in `0..ODDS_SCALE` whether an event with the given odds,
/// in thousandths, takes place.
#[verifier::when_used_as_spec(spec_event_hits)]
pub fn event_hits(roll: i32, odds: i32) -> (r: bool)
    ensures
        r == spec_event_hits(roll, odds),
{
    roll < odds
}

/// Rolls for an event that takes place with the given odds, in thousandths.
/// Odds of zero or less never hit, odds of `ODDS_SCALE` or more always do.
pub fn random_event(odds: i32) -> (r: bool)
    ensures
        exists|roll: i32| 0 <= roll < ODDS_SCALE && r == spec_event_hits(roll, odds),
        odds <= 0 ==> !r,
        odds >= ODDS_SCALE ==> r,
{
    let roll = random_between(0, ODDS_SCALE);
    event_hits(roll, odds)
}

} // verus!
