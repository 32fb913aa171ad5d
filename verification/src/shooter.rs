//! Ships that move and fire: the player, the enemies and the player's double.

use vstd::prelude::*;
use std::collections::VecDeque;
use crate::bullet::Bullet;
use crate::direction::Direction;
use crate::logic::COLOR_LASER;
use crate::seqs::{
    lemma_filter_members, lemma_filter_step, lemma_select_is_filter, lemma_select_map,
    lemma_select_step, lemma_take_all, select,
};
use crate::util;
use crate::util::{can_shift, near_field, on_field, spec_out_of_bounds, spec_shift};

verus! {

/// The predicate that holds of the projectiles within bounds.
pub open spec fn within_bounds() -> spec_fn(Bullet) -> bool {
    |bullet: Bullet| !spec_out_of_bounds(bullet.pos)
}

/// The function that moves a projectile for one tick: one step along its
/// heading and, if `reflect` is set and the step led out of bounds, a bounce
/// off the border.
pub open spec fn flight(reflect: bool) -> spec_fn(Bullet) -> Bullet {
    |bullet: Bullet|
        if reflect && spec_out_of_bounds(bullet.advanced().pos) {
            bullet.advanced().bounced()
        } else {
            bullet.advanced()
        }
}

/// The predicate that holds of the projectiles outside the cell `pos`.
pub open spec fn away_from(pos: (i32, i32)) -> spec_fn(Bullet) -> bool {
    |bullet: Bullet| bullet.pos != pos
}

/// The predicate that holds of the projectiles in the cell `pos`.
pub open spec fn located(pos: (i32, i32)) -> spec_fn(Bullet) -> bool {
    |bullet: Bullet| bullet.pos == pos
}

/// The predicate that holds of the projectiles that share their cell with none
/// of `others`.
pub open spec fn unmet(others: Seq<Bullet>) -> spec_fn(Bullet) -> bool {
    |bullet: Bullet| !any_at(others, bullet.pos)
}

/// Whether one of the projectiles occupies the cell `pos`.
pub open spec fn any_at(bullets: Seq<Bullet>, pos: (i32, i32)) -> bool {
    exists|i: int| 0 <= i < bullets.len() && (#[trigger] bullets[i]).pos == pos
}

/// The mathematical content of a ship: its fields, with the projectiles as a
/// sequence in the order in which they were fired.
pub struct ShooterView {
    pub pos: (i32, i32),
    pub char: u32,
    pub color: i16,
    pub bullets: Seq<Bullet>,
    pub is_mind_controlled: bool,
    pub is_numb: bool,
    pub revert: bool,
}

impl ShooterView {
    /// A fresh ship: no projectile in flight, no flag set.
    pub open spec fn fresh(pos: (i32, i32), char: u32, color: i16) -> ShooterView {
        ShooterView {
            pos,
            char,
            color,
            bullets: Seq::empty(),
            is_mind_controlled: false,
            is_numb: false,
            revert: false,
        }
    }

    /// The heading a projectile of this ship takes when it is fired along
    /// `dir`: a ship that fires in reverse turns every heading round.
    pub open spec fn aim(self, dir: Direction) -> Direction {
        if self.revert {
            dir.spec_opposite()
        } else {
            dir
        }
    }

    /// The ship after it fired a projectile from the cell `pos` along `dir`.
    pub open spec fn fired_from(
        self,
        pos: (i32, i32),
        dir: Direction,
        is_explosive: bool,
        char: u32,
        color: i16,
    ) -> ShooterView {
        ShooterView {
            bullets: self.bullets.push(
                Bullet { pos, dir: self.aim(dir), char, color, is_explosive },
            ),
            ..self
        }
    }

    /// The ship after it fired a projectile from its own cell along `dir`.
    pub open spec fn fired(
        self,
        dir: Direction,
        is_explosive: bool,
        char: u32,
        color: i16,
    ) -> ShooterView {
        self.fired_from(self.pos, dir, is_explosive, char, color)
    }

    /// The ship after a move along `dir`: it takes the step unless the step
    /// leads out of bounds.
    pub open spec fn moved(self, dir: Direction) -> ShooterView {
        if spec_out_of_bounds(spec_shift(self.pos, dir)) {
            self
        } else {
            ShooterView { pos: spec_shift(self.pos, dir), ..self }
        }
    }

    /// The ship with the projectiles `bullets`.
    pub open spec fn with_bullets(self, bullets: Seq<Bullet>) -> ShooterView {
        ShooterView { bullets, ..self }
    }

    /// The ship without the projectiles that are out of bounds.
    pub open spec fn pruned(self) -> ShooterView {
        self.with_bullets(self.bullets.filter(within_bounds()))
    }

    /// The ship after each of its projectiles moved for one tick and those
    /// that ended out of bounds were dropped.
    pub open spec fn flown(self, reflect: bool) -> ShooterView {
        self.with_bullets(self.bullets.map_values(flight(reflect))).pruned()
    }

    /// The ship under the player's control.
    pub open spec fn controlled(self) -> ShooterView {
        ShooterView { is_mind_controlled: true, ..self }
    }

    /// The ship frozen in place, drawn in the colour of a laser.
    pub open spec fn numbed(self) -> ShooterView {
        ShooterView { is_numb: true, color: COLOR_LASER, ..self }
    }

    /// The ship in the row `x` of its column.
    pub open spec fn at_row(self, x: i32) -> ShooterView {
        ShooterView { pos: (x, self.pos.1), ..self }
    }

    /// The ship in the column `y` of its row.
    pub open spec fn at_column(self, y: i32) -> ShooterView {
        ShooterView { pos: (self.pos.0, y), ..self }
    }

    /// A ship is settled when it is on the field and each of its projectiles
    /// is near the field.
    pub open spec fn settled(self) -> bool {
        &&& on_field(self.pos)
        &&& forall|i: int| 0 <= i < self.bullets.len() ==> near_field((#[trigger] self.bullets[i]).pos)
    }
}

/// A ship with the projectiles it has in flight.
#[derive(Debug)]
pub struct Shooter {
    pub pos: (i32, i32),
    pub char: u32,
    pub color: i16,
    pub bullets: VecDeque<Bullet>,
    pub is_mind_controlled: bool,
    pub is_numb: bool,
    pub revert: bool,
}

impl View for Shooter {
    type V = ShooterView;

    open spec fn view(&self) -> ShooterView {
        ShooterView {
            pos: self.pos,
            char: self.char,
            color: self.color,
            bullets: self.bullets@,
            is_mind_controlled: self.is_mind_controlled,
            is_numb: self.is_numb,
            revert: self.revert,
        }
    }
}

impl Clone for Shooter {
    /// Copies the ship with all its projectiles.
    fn clone(&self) -> (r: Shooter)
        ensures
            r@ == self@,
    {
        let mut bullets: VecDeque<Bullet> = VecDeque::new();
        let mut i: usize = 0;
        while i < self.bullets.len()
            invariant
                i <= self.bullets@.len(),
                bullets@ == self.bullets@.take(i as int),
            decreases self.bullets@.len() - i,
        {
            bullets.push_back(self.bullets[i]);
            proof {
                assert(self.bullets@.take(i + 1) == self.bullets@.take(i as int).push(
                    self.bullets@[i as int],
                ));
            }
            i += 1;
        }
        proof {
            lemma_take_all(self.bullets@);
        }
        Shooter {
            pos: self.pos,
            char: self.char,
            color: self.color,
            bullets,
            is_mind_controlled: self.is_mind_controlled,
            is_numb: self.is_numb,
            revert: self.revert,
        }
    }
}

/// The function that takes a ship to its view.
pub open spec fn view_of() -> spec_fn(Shooter) -> ShooterView {
    |ship: Shooter| ship@
}

/// The views of a sequence of ships, in order.
pub open spec fn views(ships: Seq<Shooter>) -> Seq<ShooterView> {
    ships.map_values(view_of())
}

/// Whether one of the ships occupies the cell `pos`.
pub open spec fn occupied(ships: Seq<ShooterView>, pos: (i32, i32)) -> bool {
    exists|i: int| 0 <= i < ships.len() && (#[trigger] ships[i]).pos == pos
}

/// Whether a projectile of one of the ships occupies the cell `pos`.
pub open spec fn under_fire(ships: Seq<ShooterView>, pos: (i32, i32)) -> bool {
    exists|i: int| 0 <= i < ships.len() && any_at((#[trigger] ships[i]).bullets, pos)
}

/// The number of projectiles of the ships in the cell `pos`.
pub open spec fn lasers_at(ships: Seq<ShooterView>, pos: (i32, i32)) -> nat
    decreases ships.len(),
{
    if ships.len() == 0 {
        0
    } else {
        lasers_at(ships.drop_last(), pos) + ships.last().bullets.filter(located(pos)).len()
    }
}

/// The cells of the ships, in order.
pub open spec fn cells_of(ships: Seq<ShooterView>) -> Seq<(i32, i32)> {
    ships.map_values(|ship: ShooterView| ship.pos)
}

/// The predicate that holds of the cell `pos` alone.
pub open spec fn same_as(pos: (i32, i32)) -> spec_fn((i32, i32)) -> bool {
    |cell: (i32, i32)| cell == pos
}

/// The number of entries of `cells` that name the cell `pos`.
pub open spec fn tally(cells: Seq<(i32, i32)>, pos: (i32, i32)) -> nat {
    cells.filter(same_as(pos)).len()
}

/// The ships with each ship's projectiles filtered by `keep`.
pub open spec fn sifted(ships: Seq<ShooterView>, keep: spec_fn(Bullet) -> bool) -> Seq<
    ShooterView,
> {
    ships.map_values(|ship: ShooterView| ship.with_bullets(ship.bullets.filter(keep)))
}

/// Whether every ship of the sequence is settled.
pub open spec fn all_settled(ships: Seq<ShooterView>) -> bool {
    forall|i: int| 0 <= i < ships.len() ==> (#[trigger] ships[i]).settled()
}

/// A ship within bounds is still within bounds after a move, whatever the
/// heading: a step that leads out of bounds is not taken.
pub proof fn lemma_moved_within_bounds(ship: ShooterView, dir: Direction)
    requires
        !spec_out_of_bounds(ship.pos),
    ensures
        !spec_out_of_bounds(ship.moved(dir).pos),
{
}

/// Ships kept by their marks are, seen as views, the ships that a predicate on
/// views keeps, if the marks tell where the predicate holds.
pub proof fn lemma_retained(
    ships: Seq<Shooter>,
    marks: Seq<bool>,
    pred: spec_fn(ShooterView) -> bool,
)
    requires
        marks.len() == ships.len(),
        forall|i: int| 0 <= i < ships.len() ==> marks[i] == pred((#[trigger] ships[i])@),
    ensures
        views(select(ships, marks)) == views(ships).filter(pred),
{
    lemma_select_map(ships, marks, view_of());
    assert forall|i: int| 0 <= i < views(ships).len() implies marks[i] == pred(
        #[trigger] views(ships)[i],
    ) by {
        assert(views(ships)[i] == ships[i]@);
    }
    lemma_select_is_filter(views(ships), marks, pred);
}

/// Filtering settled ships leaves settled ships.
pub proof fn lemma_filter_settled(ships: Seq<ShooterView>, pred: spec_fn(ShooterView) -> bool)
    requires
        all_settled(ships),
    ensures
        all_settled(ships.filter(pred)),
{
    lemma_filter_members(ships, pred);
    assert forall|i: int| 0 <= i < ships.filter(pred).len() implies (
    #[trigger] ships.filter(pred)[i]).settled() by {
        let ship = ships.filter(pred)[i];
        assert(ships.contains(ship));
        let k = choose|k: int| 0 <= k < ships.len() && ships[k] == ship;
        assert(ships[k].settled());
    }
}

/// Tells whether one of the ships occupies the cell `pos`.
pub fn ship_at(ships: &Vec<Shooter>, pos: (i32, i32)) -> (r: bool)
    ensures
        r == occupied(views(ships@), pos),
{
    let mut i: usize = 0;
    while i < ships.len()
        invariant
            i <= ships@.len(),
            forall|j: int| 0 <= j < i ==> (#[trigger] views(ships@)[j]).pos != pos,
        decreases ships@.len() - i,
    {
        if util::same_cell(ships[i].pos, pos) {
            assert(views(ships@)[i as int].pos == pos);
            return true;
        }
        i += 1;
    }
    false
}

/// Filtering the projectiles of settled ships leaves settled ships.
pub proof fn lemma_sifted_settled(ships: Seq<ShooterView>, keep: spec_fn(Bullet) -> bool)
    requires
        all_settled(ships),
    ensures
        all_settled(sifted(ships, keep)),
{
    assert forall|i: int| 0 <= i < ships.len() implies (#[trigger] sifted(
        ships,
        keep,
    )[i]).settled() by {
        let ship = ships[i];
        assert(ship.settled());
        lemma_filter_members(ship.bullets, keep);
        let left = ship.bullets.filter(keep);
        assert forall|k: int| 0 <= k < left.len() implies near_field((#[trigger] left[k]).pos) by {
            assert(ship.bullets.contains(left[k]));
            let m = choose|m: int| 0 <= m < ship.bullets.len() && ship.bullets[m] == left[k];
            assert(near_field(ship.bullets[m].pos));
        }
    }
}

/// Tells whether a projectile of one of the ships occupies the cell `pos`.
pub fn fired_at(ships: &Vec<Shooter>, pos: (i32, i32)) -> (r: bool)
    ensures
        r == under_fire(views(ships@), pos),
{
    let mut i: usize = 0;
    while i < ships.len()
        invariant
            i <= ships@.len(),
            forall|j: int| 0 <= j < i ==> !any_at((#[trigger] views(ships@)[j]).bullets, pos),
        decreases ships@.len() - i,
    {
        if bullet_at(&ships[i].bullets, pos) {
            assert(any_at(views(ships@)[i as int].bullets, pos));
            return true;
        }
        i += 1;
    }
    false
}

/// Keeps the projectiles of the ship whose mark is set.
pub fn keep_marked(ship: &mut Shooter, marks: &Vec<bool>)
    requires
        marks@.len() == old(ship)@.bullets.len(),
    ensures
        final(ship)@ == old(ship)@.with_bullets(select(old(ship)@.bullets, marks@)),
{
    let mut kept: VecDeque<Bullet> = VecDeque::new();
    let mut k: usize = 0;
    while k < ship.bullets.len()
        invariant
            *ship == *old(ship),
            marks@.len() == ship.bullets@.len(),
            k <= ship.bullets@.len(),
            kept@ == select(ship.bullets@.take(k as int), marks@.take(k as int)),
        decreases ship.bullets@.len() - k,
    {
        proof {
            lemma_select_step(ship.bullets@, marks@, k as int);
        }
        if marks[k] {
            kept.push_back(ship.bullets[k]);
        }
        k += 1;
    }
    proof {
        lemma_take_all(ship.bullets@);
        lemma_take_all(marks@);
    }
    ship.bullets = kept;
}

/// Keeps the projectiles of every ship that share their cell with none of
/// `others`.
pub fn sift_unmet(ships: &mut Vec<Shooter>, others: &VecDeque<Bullet>)
    ensures
        views(final(ships)@) == sifted(views(old(ships)@), unmet(others@)),
{
    let n = ships.len();
    let mut i: usize = 0;
    while i < n
        invariant
            i <= n,
            ships@.len() == n,
            old(ships)@.len() == n,
            forall|j: int|
                0 <= j < i ==> (#[trigger] ships@[j])@ == old(ships)@[j]@.with_bullets(
                    old(ships)@[j]@.bullets.filter(unmet(others@)),
                ),
            forall|j: int| i <= j < n ==> ships@[j] == old(ships)@[j],
        decreases n - i,
    {
        let mut kept: VecDeque<Bullet> = VecDeque::new();
        let mut k: usize = 0;
        let ghost lasers = ships@[i as int].bullets@;
        while k < ships[i].bullets.len()
            invariant
                i < n,
                ships@.len() == n,
                ships@[i as int].bullets@ == lasers,
                k <= lasers.len(),
                kept@ == lasers.take(k as int).filter(unmet(others@)),
            decreases lasers.len() - k,
        {
            proof {
                lemma_filter_step(lasers, k as int, unmet(others@));
            }
            let laser = ships[i].bullets[k];
            if !bullet_at(others, laser.pos) {
                kept.push_back(laser);
            }
            k += 1;
        }
        proof {
            lemma_take_all(lasers);
        }
        ships[i].bullets = kept;
        i += 1;
    }
    assert(views(ships@) =~= sifted(views(old(ships)@), unmet(others@)));
}

/// Tells whether one of the projectiles occupies the cell `pos`.
pub fn bullet_at(bullets: &VecDeque<Bullet>, pos: (i32, i32)) -> (r: bool)
    ensures
        r == any_at(bullets@, pos),
{
    let mut i: usize = 0;
    while i < bullets.len()
        invariant
            i <= bullets@.len(),
            forall|j: int| 0 <= j < i ==> (#[trigger] bullets@[j]).pos != pos,
        decreases bullets@.len() - i,
    {
        if util::same_cell(bullets[i].pos, pos) {
            return true;
        }
        i += 1;
    }
    false
}

/// Takes the projectiles that occupy the cell `pos` out of `bullets` and
/// returns them. Both those taken and those left keep their order.
pub fn take_bullets_at(bullets: &mut VecDeque<Bullet>, pos: (i32, i32)) -> (taken: Vec<Bullet>)
    ensures
        final(bullets)@ == old(bullets)@.filter(away_from(pos)),
        taken@ == old(bullets)@.filter(located(pos)),
{
    let mut kept: VecDeque<Bullet> = VecDeque::new();
    let mut taken: Vec<Bullet> = Vec::new();
    let mut i: usize = 0;
    while i < bullets.len()
        invariant
            i <= bullets@.len(),
            bullets@ == old(bullets)@,
            kept@ == bullets@.take(i as int).filter(away_from(pos)),
            taken@ == bullets@.take(i as int).filter(located(pos)),
        decreases bullets@.len() - i,
    {
        proof {
            lemma_filter_step(bullets@, i as int, away_from(pos));
            lemma_filter_step(bullets@, i as int, located(pos));
        }
        let bullet = bullets[i];
        if util::same_cell(bullet.pos, pos) {
            taken.push(bullet);
        } else {
            kept.push_back(bullet);
        }
        i += 1;
    }
    proof {
        lemma_take_all(bullets@);
    }
    *bullets = kept;
    taken
}

impl Shooter {
    /// Creates a ship with no projectile in flight.
    pub fn new(pos: (i32, i32), char: u32, color: i16) -> (r: Shooter)
        ensures
            r@ == ShooterView::fresh(pos, char, color),
    {
        Shooter {
            pos,
            char,
            color,
            bullets: VecDeque::new(),
            is_mind_controlled: false,
            is_numb: false,
            revert: false,
        }
    }

    /// The cell the ship occupies.
    pub fn pos(&self) -> (r: (i32, i32))
        ensures
            r == self@.pos,
    {
        self.pos
    }

    /// The glyph the ship is drawn with.
    pub fn char(&self) -> (r: u32)
        ensures
            r == self@.char,
    {
        self.char
    }

    /// The colour tag the ship is drawn with.
    pub fn color(&self) -> (r: i16)
        ensures
            r == self@.color,
    {
        self.color
    }

    /// The cell the ship would reach by a step along `dir`.
    pub fn new_pos(&self, dir: &Direction) -> (r: (i32, i32))
        requires
            can_shift(self.pos),
        ensures
            r == spec_shift(self@.pos, *dir),
    {
        util::shift(&self.pos, dir)
    }

    /// Moves the ship one cell along `dir`, unless that cell is out of bounds.
    pub fn shift(&mut self, dir: &Direction)
        requires
            can_shift(old(self).pos),
        ensures
            final(self)@ == old(self)@.moved(*dir),
            final(self).bullets == old(self).bullets,
    {
        let new_pos = util::shift(&self.pos, dir);
        if !util::out_of_bounds(new_pos) {
            self.pos = new_pos;
        }
    }

    /// The projectiles of the ship, for the caller to change.
    pub fn bullets_mut(&mut self) -> (r: &mut VecDeque<Bullet>)
        ensures
            *r == old(self).bullets,
            final(self)@ == old(self)@.with_bullets(final(r)@),
    {
        &mut self.bullets
    }

    /// The projectiles of the ship, in the order in which they were fired.
    pub fn bullets(&self) -> (r: &VecDeque<Bullet>)
        ensures
            r@ == self@.bullets,
            *r == self.bullets,
    {
        &self.bullets
    }

    /// Drops the projectiles that are out of bounds. None of those that stay is
    /// out of bounds, and they stay in order.
    pub fn clear_bullets(&mut self)
        ensures
            final(self)@ == old(self)@.pruned(),
            forall|i: int|
                0 <= i < final(self)@.bullets.len() ==> !spec_out_of_bounds(
                    (#[trigger] final(self)@.bullets[i]).pos,
                ),
    {
        let mut kept: VecDeque<Bullet> = VecDeque::new();
        let mut i: usize = 0;
        while i < self.bullets.len()
            invariant
                i <= self.bullets@.len(),
                *self == *old(self),
                kept@ == self.bullets@.take(i as int).filter(within_bounds()),
            decreases self.bullets@.len() - i,
        {
            proof {
                lemma_filter_step(self.bullets@, i as int, within_bounds());
            }
            let bullet = self.bullets[i];
            if !util::out_of_bounds(bullet.pos) {
                kept.push_back(bullet);
            }
            i += 1;
        }
        proof {
            lemma_take_all(self.bullets@);
            lemma_filter_members(self.bullets@, within_bounds());
        }
        self.bullets = kept;
    }

    /// Moves each projectile of the ship for one tick: one step along its
    /// heading and, if `reflect` is set and the step led out of bounds, a
    /// bounce off the border.
    pub fn advance_bullets(&mut self, reflect: bool)
        requires
            forall|i: int|
                0 <= i < old(self)@.bullets.len() ==> near_field(
                    (#[trigger] old(self)@.bullets[i]).pos,
                ),
        ensures
            final(self)@ == old(self)@.with_bullets(
                old(self)@.bullets.map_values(flight(reflect)),
            ),
    {
        let mut moved: VecDeque<Bullet> = VecDeque::new();
        let mut i: usize = 0;
        while i < self.bullets.len()
            invariant
                i <= self.bullets@.len(),
                *self == *old(self),
                forall|j: int|
                    0 <= j < self@.bullets.len() ==> near_field((#[trigger] self@.bullets[j]).pos),
                moved@ == self.bullets@.take(i as int).map_values(flight(reflect)),
            decreases self.bullets@.len() - i,
        {
            let mut bullet = self.bullets[i];
            assert(near_field(self@.bullets[i as int].pos));
            bullet.shift();
            if util::out_of_bounds(bullet.pos()) && reflect {
                let new_dir = bullet.dir().mirrored();
                bullet.set_dir(new_dir);
                bullet.shift();
            }
            moved.push_back(bullet);
            assert(moved@ =~= self.bullets@.take(i + 1).map_values(flight(reflect)));
            i += 1;
        }
        proof {
            lemma_take_all(self.bullets@);
        }
        self.bullets = moved;
    }

    /// Fires a projectile from the ship's own cell along `dir`, or along the
    /// opposite heading if the ship fires in reverse.
    pub fn shoot(&mut self, dir: Direction, is_explosive: bool, char: u32, color: i16)
        ensures
            final(self)@ == old(self)@.fired(dir, is_explosive, char, color),
    {
        let pos = self.pos;
        let mut aim = dir;
        if self.revert {
            aim = self.revert(&dir);
        }
        self.bullets.push_back(Bullet::new(pos, aim, char, color));
        self.handle_explosive(&is_explosive);
        assert(self@.bullets =~= old(self)@.fired(dir, is_explosive, char, color).bullets);
    }

    /// Fires a projectile from the cell `pos` along `dir`, or along the
    /// opposite heading if the ship fires in reverse.
    pub fn shoot_pos(
        &mut self,
        pos: &(i32, i32),
        dir: Direction,
        is_explosive: bool,
        char: u32,
        color: i16,
    )
        ensures
            final(self)@ == old(self)@.fired_from(*pos, dir, is_explosive, char, color),
    {
        let mut aim = dir;
        if self.revert {
            aim = self.revert(&dir);
        }
        self.bullets.push_back(Bullet::new(*pos, aim, char, color));
        self.handle_explosive(&is_explosive);
        assert(self@.bullets =~= old(self)@.fired_from(
            *pos,
            dir,
            is_explosive,
            char,
            color,
        ).bullets);
    }

    /// Arms the projectile fired last, if asked to.
    fn handle_explosive(&mut self, is_explosive: &bool)
        requires
            old(self)@.bullets.len() > 0,
            !old(self)@.bullets.last().is_explosive,
        ensures
            final(self)@ == old(self)@.with_bullets(
                old(self)@.bullets.drop_last().push(
                    Bullet { is_explosive: *is_explosive, ..old(self)@.bullets.last() },
                ),
            ),
    {
        if *is_explosive {
            let last = self.bullets.pop_back();
            match last {
                Some(mut bullet) => {
                    bullet.set_is_explosive(true);
                    self.bullets.push_back(bullet);
                },
                None => {},
            }
        } else {
            assert(self@.bullets =~= self@.bullets.drop_last().push(self@.bullets.last()));
        }
    }

    /// Whether the ship is under the player's control.
    pub fn is_mind_controlled(&self) -> (r: bool)
        ensures
            r == self@.is_mind_controlled,
    {
        self.is_mind_controlled
    }

    /// Puts the ship under the player's control.
    pub fn mind_control(&mut self)
        ensures
            final(self)@ == old(self)@.controlled(),
            final(self).bullets == old(self).bullets,
    {
        self.is_mind_controlled = true;
    }

    /// Puts the ship in the row `x` of its column.
    pub fn set_x(&mut self, x: i32)
        ensures
            final(self)@ == old(self)@.at_row(x),
            final(self).bullets == old(self).bullets,
    {
        self.pos.0 = x;
    }

    /// Puts the ship in the column `y` of its row.
    pub fn set_y(&mut self, y: i32)
        ensures
            final(self)@ == old(self)@.at_column(y),
            final(self).bullets == old(self).bullets,
    {
        self.pos.1 = y;
    }

    /// The heading opposite to `dir`. The ship is left as it was.
    pub fn revert(&mut self, dir: &Direction) -> (r: Direction)
        ensures
            r == dir.spec_opposite(),
            *final(self) == *old(self),
    {
        dir.opposite()
    }

    /// Makes the ship fire in reverse, or forward again.
    pub fn set_revert(&mut self, revert: bool)
        ensures
            final(self)@ == (ShooterView { revert, ..old(self)@ }),
            final(self).bullets == old(self).bullets,
    {
        self.revert = revert;
    }

    /// Whether the ship is frozen in place.
    pub fn is_numb(&self) -> (r: bool)
        ensures
            r == self@.is_numb,
    {
        self.is_numb
    }

    /// Freezes the ship in place and gives it the colour of a laser.
    pub fn set_numb(&mut self)
        ensures
            final(self)@ == old(self)@.numbed(),
            final(self).bullets == old(self).bullets,
    {
        self.is_numb = true;
        self.color = COLOR_LASER;
    }
}

} // verus!
