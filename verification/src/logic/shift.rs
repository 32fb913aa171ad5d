//! How everything moves: projectiles, the formation, the player, the boss and
//! the player's companions.

use vstd::prelude::*;
use crate::direction::Direction;
use crate::logic::handle::Handle;
use crate::logic::{field_fits, Logic, LogicView};
use crate::power::Effect;
use crate::seqs::lemma_filter_members;
use crate::shooter::{views, within_bounds, Shooter, ShooterView};
use crate::util;
use crate::util::{spec_out_of_bounds, spec_shift};

verus! {

/// The columns of the ships, in order.
pub open spec fn columns_of(ships: Seq<ShooterView>) -> Seq<i32> {
    ships.map_values(|ship: ShooterView| ship.pos.1)
}

/// The indexes that a scan from the front finds for the outermost columns: at
/// each column the scan first asks whether it is as far left as the leftmost
/// so far, and only if it is not, whether it is as far right as the rightmost
/// so far. For no column and for one column both indexes are zero.
pub open spec fn outermost(cols: Seq<i32>) -> (int, int)
    decreases cols.len(),
{
    if cols.len() <= 1 {
        (0, 0)
    } else {
        let found = outermost(cols.drop_last());
        if cols.last() <= cols[found.0] {
            (cols.len() - 1, found.1)
        } else if cols.last() >= cols[found.1] {
            (found.0, cols.len() - 1)
        } else {
            found
        }
    }
}

/// The scan finds a column that none lies left of and a column that none lies
/// right of.
pub proof fn lemma_outermost(cols: Seq<i32>)
    requires
        cols.len() > 0,
    ensures
        0 <= outermost(cols).0 < cols.len(),
        0 <= outermost(cols).1 < cols.len(),
        forall|i: int|
            0 <= i < cols.len() ==> cols[outermost(cols).0] <= #[trigger] cols[i]
                <= cols[outermost(cols).1],
    decreases cols.len(),
{
    if cols.len() > 1 {
        let front = cols.drop_last();
        lemma_outermost(front);
        let found = outermost(front);
        assert forall|i: int| 0 <= i < cols.len() implies cols[outermost(cols).0]
            <= #[trigger] cols[i] <= cols[outermost(cols).1] by {
            if i < cols.len() - 1 {
                assert(front[i] == cols[i]);
            }
            assert(front[found.0] == cols[found.0]);
            assert(front[found.1] == cols[found.1]);
        }
    }
}

/// The heading of the formation for the next step. A formation that heads
/// sideways turns downward when its outermost enemy on that side stands next
/// to the wall. A formation that heads downward has made its one step down
/// and takes the sideways heading opposite to `descent_from`, the one that
/// led to the descent, wherever its enemies stand. In every other case the
/// heading stays.
pub open spec fn turn(
    dir: Direction,
    descent_from: Direction,
    left: i32,
    right: i32,
    width: i32,
) -> Direction {
    if (dir == Direction::Right && right == width - 2) || (left == 1 && dir == Direction::Left) {
        Direction::Down
    } else if dir == Direction::Down {
        descent_from.spec_opposite()
    } else {
        dir
    }
}

/// The sideways heading that led to the last descent, after the formation
/// chose its heading for the next step: a formation that turns downward
/// remembers the heading it turns from.
pub open spec fn led_down(
    dir: Direction,
    descent_from: Direction,
    left: i32,
    right: i32,
    width: i32,
) -> Direction {
    if (dir == Direction::Right && right == width - 2) || (left == 1 && dir == Direction::Left) {
        dir
    } else {
        descent_from
    }
}

/// The function that moves a ship one step along `dir` unless it is frozen.
pub open spec fn stepped(dir: Direction) -> spec_fn(ShooterView) -> ShooterView {
    |ship: ShooterView|
        if ship.is_numb {
            ship
        } else {
            ship.moved(dir)
        }
}

/// The function that moves the projectiles of a ship for one tick.
pub open spec fn volleyed() -> spec_fn(ShooterView) -> ShooterView {
    |ship: ShooterView| ship.flown(false)
}

/// Whether the lowest of the ships stands in the row `row`.
pub open spec fn lowest_in(ships: Seq<ShooterView>, row: int) -> bool {
    &&& exists|i: int| 0 <= i < ships.len() && (#[trigger] ships[i]).pos.0 == row
    &&& forall|i: int| 0 <= i < ships.len() ==> (#[trigger] ships[i]).pos.0 <= row
}

impl LogicView {
    /// The column of the leftmost enemy.
    pub open spec fn left_flank(self) -> i32 {
        columns_of(self.enemies)[outermost(columns_of(self.enemies)).0]
    }

    /// The column of the rightmost enemy.
    pub open spec fn right_flank(self) -> i32 {
        columns_of(self.enemies)[outermost(columns_of(self.enemies)).1]
    }

    /// The game after the formation chose its heading. Without enemies the
    /// heading is reset to the left. While a retreat is under way, it goes on
    /// for a tick. Otherwise the formation turns by the rule of `turn` and
    /// remembers, when it turns downward, the heading it came from.
    pub open spec fn steered(self) -> LogicView {
        if self.enemies.len() == 0 {
            LogicView { dir: Direction::Left, ..self }
        } else if self.yield_counter > 0 {
            self.after_yield()
        } else {
            LogicView {
                dir: turn(
                    self.dir,
                    self.descent_from,
                    self.left_flank(),
                    self.right_flank(),
                    self.width,
                ),
                descent_from: led_down(
                    self.dir,
                    self.descent_from,
                    self.left_flank(),
                    self.right_flank(),
                    self.width,
                ),
                ..self
            }
        }
    }

    /// The game after the formation took a step along its heading. Frozen
    /// enemies stay, and so does the whole formation if it heads downward
    /// while the antigravity is active.
    pub open spec fn marched(self) -> LogicView {
        if self.dir == Direction::Down && self.active(Effect::Antigravity) {
            self
        } else {
            LogicView { enemies: self.enemies.map_values(stepped(self.dir)), ..self }
        }
    }

    /// The game after the formation moved. While the lock is active it stands
    /// still and keeps its heading.
    pub open spec fn after_move_enemies(self) -> LogicView {
        if self.active(Effect::Lock) {
            self
        } else {
            self.steered().marched()
        }
    }

    /// Whether the formation has overrun the player: its lowest enemy stands
    /// in the row above the player's home row.
    pub open spec fn overrun(self) -> bool {
        lowest_in(self.enemies, self.height - 3)
    }

    /// The game after the boss moved one column to the right. At the far wall
    /// it leaves the field.
    pub open spec fn after_move_boss(self) -> LogicView {
        match self.boss {
            Some(boss) => if boss.advanced().pos.1 >= self.width - 2 {
                LogicView { boss: None, ..self }
            } else {
                LogicView { boss: Some(boss.advanced()), ..self }
            },
            None => self,
        }
    }

    /// The game after the player moved along `dir`. A step out of bounds is
    /// not taken. While the warp is active, a step out of bounds to the left
    /// or to the right carries the player to the other side of the field.
    pub open spec fn after_move_player(self, dir: Direction) -> LogicView {
        let warp = self.active(Effect::Warp) && spec_out_of_bounds(
            spec_shift(self.player.pos, dir),
        );
        if dir == Direction::Left && warp {
            LogicView { player: self.player.at_column((self.width - 2) as i32), ..self }
        } else if dir == Direction::Right && warp {
            LogicView { player: self.player.at_column(1), ..self }
        } else {
            LogicView { player: self.player.moved(dir), ..self }
        }
    }

    /// The game after the double took the column that mirrors the player's.
    pub open spec fn after_move_xerox(self) -> LogicView {
        match self.xerox {
            Some(double) => LogicView {
                xerox: Some(double.at_column((self.width - self.player.pos.1) as i32)),
                ..self
            },
            None => self,
        }
    }

    /// The game after the escort took the player's column.
    pub open spec fn after_move_follower(self) -> LogicView {
        match self.follower {
            Some(escort) => LogicView {
                follower: Some(escort.at_column(self.player.pos.1)),
                ..self
            },
            None => self,
        }
    }

    /// The game after the projectiles of the enemies moved one step and those
    /// that left the bounds were dropped.
    pub open spec fn after_move_lasers(self) -> LogicView {
        LogicView { enemies: self.enemies.map_values(volleyed()), ..self }
    }

    /// The game after the projectiles of the player moved one step and those
    /// that left the bounds were dropped. While the reflection is active, a
    /// projectile that leaves the bounds bounces off the border first.
    pub open spec fn after_move_bullets(self) -> LogicView {
        LogicView { player: self.player.flown(self.active(Effect::Reflect)), ..self }
    }

    /// Whether the foes rest in this tick: while the zombification is active,
    /// they move in every other tick only.
    pub open spec fn foes_rest(self) -> bool {
        self.active(Effect::Zombify) && !self.slow_down
    }

    /// The game after the foes moved: the projectiles of the enemies, the boss
    /// and the formation, unless they rest in this tick.
    pub open spec fn after_foes(self) -> LogicView {
        let paced = LogicView { slow_down: self.foes_rest(), ..self };
        if self.foes_rest() {
            paced
        } else {
            paced.after_move_lasers().after_move_boss().after_move_enemies()
        }
    }

    /// Whether the formation has overrun the player after the foes moved.
    /// While the foes rest, it has not.
    pub open spec fn foes_overrun(self) -> bool {
        !self.foes_rest() && self.after_foes().overrun()
    }
}

/// A formation that heads sideways changes its heading only while its
/// outermost enemy on that side stands next to the wall, and only to head
/// downward. A formation that heads downward takes, with the next step, the
/// sideways heading opposite to the one that led to the descent, wherever
/// its enemies stand. So a formation takes a new sideways heading only after
/// a step downward.
pub proof fn lemma_turns_at_the_wall(
    dir: Direction,
    descent_from: Direction,
    left: i32,
    right: i32,
    width: i32,
)
    requires
        descent_from.is_sideways(),
    ensures
        dir.is_sideways() && turn(dir, descent_from, left, right, width) != dir ==> turn(
            dir,
            descent_from,
            left,
            right,
            width,
        ) == Direction::Down && (right == width - 2 || left == 1),
        dir == Direction::Right && right == width - 2 ==> turn(
            dir,
            descent_from,
            left,
            right,
            width,
        ) == Direction::Down && led_down(dir, descent_from, left, right, width) == dir,
        dir == Direction::Left && left == 1 ==> turn(dir, descent_from, left, right, width)
            == Direction::Down && led_down(dir, descent_from, left, right, width) == dir,
        dir == Direction::Down ==> turn(dir, descent_from, left, right, width)
            == descent_from.spec_opposite() && turn(
            dir,
            descent_from,
            left,
            right,
            width,
        ).is_sideways(),
        turn(dir, descent_from, left, right, width).is_sideways() && turn(
            dir,
            descent_from,
            left,
            right,
            width,
        ) != dir ==> dir == Direction::Down,
        led_down(dir, descent_from, left, right, width).is_sideways(),
{
}

/// Of two changes of heading in consecutive ticks, one starts from or leads to
/// the heading downward, wherever the outermost enemies stand in the two
/// ticks. And a descent lasts one tick: the tick after a turn downward turns
/// to the sideways heading opposite to the one the formation came from.
pub proof fn lemma_no_turn_without_descent(
    dir: Direction,
    descent_from: Direction,
    left: i32,
    right: i32,
    next_left: i32,
    next_right: i32,
    width: i32,
)
    ensures
        ({
            let first = turn(dir, descent_from, left, right, width);
            let memory = led_down(dir, descent_from, left, right, width);
            let second = turn(first, memory, next_left, next_right, width);
            &&& first != dir && second != first ==> dir == Direction::Down || first
                == Direction::Down
            &&& dir.is_sideways() && first == Direction::Down ==> second == dir.spec_opposite()
        }),
{
}

/// What the rule of `turn` means for a game: while no retreat is under way and
/// there are enemies, a tick changes a sideways heading only if the leftmost
/// enemy stands in the column 1 or the rightmost in the column next to the
/// right wall, and then to the heading downward; and unless the lock holds
/// the formation, a tick leaves the heading downward for the sideways heading
/// opposite to the one that led to the descent.
pub proof fn lemma_formation_turns(game: LogicView)
    requires
        game.enemies.len() > 0,
        game.yield_counter <= 0,
        game.descent_from.is_sideways(),
    ensures
        game.dir.is_sideways() && game.after_move_enemies().dir != game.dir ==> (game.left_flank()
            == 1 || game.right_flank() == game.width - 2) && game.after_move_enemies().dir
            == Direction::Down && game.after_move_enemies().descent_from == game.dir,
        game.dir == Direction::Down && !game.active(Effect::Lock)
            ==> game.after_move_enemies().dir == game.descent_from.spec_opposite(),
        game.dir.is_formation_heading() ==> game.after_move_enemies().dir.is_formation_heading(),
        game.after_move_enemies().descent_from.is_sideways(),
        forall|i: int|
            0 <= i < game.enemies.len() ==> game.left_flank() <= (#[trigger] game.enemies[i]).pos.1
                <= game.right_flank(),
{
    lemma_outermost(columns_of(game.enemies));
    assert forall|i: int| 0 <= i < game.enemies.len() implies game.left_flank() <= (
    #[trigger] game.enemies[i]).pos.1 <= game.right_flank() by {
        assert(columns_of(game.enemies)[i] == game.enemies[i].pos.1);
    }
}

/// The descent at a wall: a formation that heads right with its rightmost
/// enemy next to the right wall, or left with its leftmost enemy in the
/// column 1, heads downward after the tick, and every enemy that is not frozen
/// and has a free cell below it stands one row lower, in its column. This
/// holds while neither the lock nor the antigravity is active and no retreat
/// is under way.
pub proof fn lemma_descent_at_the_wall(game: LogicView)
    requires
        game.enemies.len() > 0,
        game.yield_counter <= 0,
        !game.active(Effect::Lock),
        !game.active(Effect::Antigravity),
        (game.dir == Direction::Right && game.right_flank() == game.width - 2) || (game.dir
            == Direction::Left && game.left_flank() == 1),
    ensures
        game.after_move_enemies().dir == Direction::Down,
        game.after_move_enemies().descent_from == game.dir,
        game.after_move_enemies().enemies.len() == game.enemies.len(),
        forall|i: int|
            0 <= i < game.enemies.len() && !game.enemies[i].is_numb && !spec_out_of_bounds(
                spec_shift(game.enemies[i].pos, Direction::Down),
            ) ==> (#[trigger] game.after_move_enemies().enemies[i]) == (ShooterView {
                pos: ((game.enemies[i].pos.0 + 1) as i32, game.enemies[i].pos.1),
                ..game.enemies[i]
            }),
{
}

/// The sweep after a descent: a formation that heads downward heads, after the
/// tick, along the sideways heading opposite to the one that led to the
/// descent, and every enemy that is not frozen and has a free cell on that
/// side stands one column further that way, in its row. This holds while the
/// lock is not active and no retreat is under way.
pub proof fn lemma_sweep_after_descent(game: LogicView)
    requires
        game.enemies.len() > 0,
        game.yield_counter <= 0,
        !game.active(Effect::Lock),
        game.dir == Direction::Down,
        game.descent_from.is_sideways(),
    ensures
        game.after_move_enemies().dir == game.descent_from.spec_opposite(),
        game.after_move_enemies().enemies.len() == game.enemies.len(),
        forall|i: int|
            0 <= i < game.enemies.len() && !game.enemies[i].is_numb && !spec_out_of_bounds(
                spec_shift(game.enemies[i].pos, game.descent_from.spec_opposite()),
            ) ==> (#[trigger] game.after_move_enemies().enemies[i]) == (ShooterView {
                pos: (
                    game.enemies[i].pos.0,
                    (game.enemies[i].pos.1 + game.descent_from.spec_opposite().col_step()) as i32,
                ),
                ..game.enemies[i]
            }),
{
}

/// A player within bounds is still within bounds after a move, with or without
/// the warp: the warp carries it to the column next to the other side wall.
pub proof fn lemma_player_stays_within_bounds(game: LogicView, dir: Direction)
    requires
        field_fits(game.height, game.width),
        !spec_out_of_bounds(game.player.pos),
    ensures
        !spec_out_of_bounds(game.after_move_player(dir).player.pos),
{
}

/// A boss that is still on the field after it moved stands left of the column
/// next to the far wall.
pub proof fn lemma_boss_leaves_at_the_wall(game: LogicView)
    ensures
        game.after_move_boss().boss matches Some(boss) ==> boss.pos.1 < game.width - 2,
{
}

/// Scans the ships from the front for the outermost columns and returns the
/// index of a leftmost ship and the index of a rightmost ship.
pub fn get_outermost_lateral_indexes(shooters: &[Shooter]) -> (r: (usize, usize))
    ensures
        (r.0 as int, r.1 as int) == outermost(columns_of(views(shooters@))),
        shooters@.len() > 0 ==> r.0 < shooters@.len() && r.1 < shooters@.len(),
        forall|i: int|
            0 <= i < shooters@.len() ==> shooters@[r.0 as int].pos.1 <= (
            #[trigger] shooters@[i]).pos.1 <= shooters@[r.1 as int].pos.1,
{
    let ghost cols = columns_of(views(shooters@));
    let mut left_index: usize = 0;
    let mut right_index: usize = 0;
    let mut i: usize = 1;
    if shooters.len() == 0 {
        return (0, 0);
    }
    assert(cols.take(1).len() == 1);
    while i < shooters.len()
        invariant
            1 <= i <= shooters@.len(),
            cols == columns_of(views(shooters@)),
            left_index < i,
            right_index < i,
            (left_index as int, right_index as int) == outermost(cols.take(i as int)),
        decreases shooters@.len() - i,
    {
        proof {
            assert(cols.take(i + 1).drop_last() == cols.take(i as int));
            assert(cols.take(i + 1).last() == shooters@[i as int].pos.1);
            assert(cols.take(i as int)[left_index as int] == shooters@[left_index as int].pos.1);
            assert(cols.take(i as int)[right_index as int] == shooters@[right_index as int].pos.1);
        }
        if shooters[i].pos().1 <= shooters[left_index].pos().1 {
            left_index = i;
        } else if shooters[i].pos().1 >= shooters[right_index].pos().1 {
            right_index = i;
        }
        i += 1;
    }
    proof {
        assert(cols.take(shooters@.len() as int) == cols);
        lemma_outermost(cols);
        assert forall|k: int| 0 <= k < shooters@.len() implies shooters@[left_index as int].pos.1
            <= (#[trigger] shooters@[k]).pos.1 <= shooters@[right_index as int].pos.1 by {
            assert(cols[k] == shooters@[k].pos.1);
            assert(cols[left_index as int] == shooters@[left_index as int].pos.1);
            assert(cols[right_index as int] == shooters@[right_index as int].pos.1);
        }
    }
    (left_index, right_index)
}

/// Tells whether the lowest of the ships stands in the row `row`.
pub fn lowest_at(ships: &Vec<Shooter>, row: i32) -> (r: bool)
    ensures
        r == lowest_in(views(ships@), row as int),
{
    if ships.len() == 0 {
        return false;
    }
    let mut bottom: i32 = ships[0].pos().0;
    let mut i: usize = 1;
    assert(views(ships@)[0].pos.0 == bottom);
    while i < ships.len()
        invariant
            1 <= i <= ships@.len(),
            exists|j: int| 0 <= j < i && (#[trigger] views(ships@)[j]).pos.0 == bottom,
            forall|j: int| 0 <= j < i ==> (#[trigger] views(ships@)[j]).pos.0 <= bottom,
        decreases ships@.len() - i,
    {
        if ships[i].pos().0 >= bottom {
            bottom = ships[i].pos().0;
            assert(views(ships@)[i as int].pos.0 == bottom);
        }
        i += 1;
    }
    bottom == row
}

/// The movements.
pub struct Move;

impl Move {
    /// Moves the boss one column to the right. At the far wall it leaves the
    /// field.
    pub fn boss(logic: &mut Logic)
        requires
            old(logic).wf(),
        ensures
            final(logic).wf(),
            final(logic)@ == old(logic)@.after_move_boss(),
    {
        if let Some(mut boss) = logic.boss {
            boss.shift();
            if boss.left_pos() >= logic.width - 2 {
                logic.boss = None;
            } else {
                logic.boss = Some(boss);
            }
        }
    }

    /// Moves the player along `direction`.
    pub fn player(logic: &mut Logic, direction: &Direction)
        requires
            old(logic).wf(),
        ensures
            final(logic).wf(),
            final(logic)@ == old(logic)@.after_move_player(*direction),
    {
        let new_pos = logic.player.new_pos(direction);
        let warp = Handle::power(&logic.effects, &Effect::Warp) && util::out_of_bounds(new_pos);
        if *direction == Direction::Left && warp {
            logic.player.set_y(logic.width - 2);
        } else if *direction == Direction::Right && warp {
            logic.player.set_y(1);
        } else {
            logic.player.shift(direction);
        }
    }

    /// Puts the double in the column that mirrors the player's.
    pub fn xerox(logic: &mut Logic)
        requires
            old(logic).wf(),
        ensures
            final(logic).wf(),
            final(logic)@ == old(logic)@.after_move_xerox(),
    {
        let player_pos = logic.player.pos();
        let y = logic.width - player_pos.1;
        if let Some(xerox) = &mut logic.xerox {
            xerox.set_y(y);
        }
    }

    /// Puts the escort in the player's column.
    pub fn follower(logic: &mut Logic)
        requires
            old(logic).wf(),
        ensures
            final(logic).wf(),
            final(logic)@ == old(logic)@.after_move_follower(),
    {
        let player_x = logic.player.pos().1;
        if let Some(follower) = logic.follower.as_mut() {
            follower.set_x(player_x);
        }
    }

    /// Moves the foes, unless they rest in this tick, and tells whether the
    /// formation has overrun the player.
    pub fn foes(logic: &mut Logic) -> (r: bool)
        requires
            old(logic).wf(),
        ensures
            final(logic).wf(),
            final(logic)@ == old(logic)@.after_foes(),
            r == old(logic)@.foes_overrun(),
    {
        if Handle::power(&logic.effects, &Effect::Zombify) {
            logic.slow_down = !logic.slow_down;
        } else {
            logic.slow_down = false;
        }
        if !logic.slow_down {
            Move::lasers(logic);
            Move::boss(logic);
            return Move::enemies(logic);
        }
        false
    }

    /// Moves the projectiles of the enemies one step and drops those that left
    /// the bounds.
    pub fn lasers(logic: &mut Logic)
        requires
            old(logic).wf(),
        ensures
            final(logic).wf(),
            final(logic)@ == old(logic)@.after_move_lasers(),
            forall|i: int, k: int|
                0 <= i < final(logic)@.enemies.len()
                    && 0 <= k < final(logic)@.enemies[i].bullets.len() ==> !spec_out_of_bounds(
                    (#[trigger] final(logic)@.enemies[i].bullets[k]).pos,
                ),
    {
        let n = logic.enemies.len();
        let ghost foes = logic@.enemies;
        let mut i: usize = 0;
        while i < n
            invariant
                i <= n,
                logic.enemies@.len() == n,
                foes == old(logic)@.enemies,
                foes.len() == n,
                old(logic).wf(),
                logic@ == (LogicView { enemies: logic@.enemies, ..old(logic)@ }),
                logic.effects == old(logic).effects,
                forall|j: int| 0 <= j < i ==> (#[trigger] logic.enemies@[j])@ == foes[j].flown(false),
                forall|j: int| i <= j < n ==> (#[trigger] logic.enemies@[j])@ == foes[j],
            decreases n - i,
        {
            assert(foes[i as int].settled());
            assert(logic.enemies@[i as int]@ == foes[i as int]);
            logic.enemies[i].advance_bullets(false);
            logic.enemies[i].clear_bullets();
            i += 1;
        }
        proof {
            assert(logic@.enemies =~= foes.map_values(volleyed()));
            assert forall|j: int| 0 <= j < n implies (#[trigger] logic@.enemies[j]).settled() by {
                assert(foes[j].settled());
                let flying = foes[j].bullets.map_values(crate::shooter::flight(false));
                lemma_filter_members(flying, within_bounds());
            }
            assert forall|j: int, k: int|
                0 <= j < logic@.enemies.len() && 0 <= k < logic@.enemies[j].bullets.len()
                implies !spec_out_of_bounds((#[trigger] logic@.enemies[j].bullets[k]).pos) by {
                let flying = foes[j].bullets.map_values(crate::shooter::flight(false));
                lemma_filter_members(flying, within_bounds());
            }
        }
    }

    /// Moves the projectiles of the player one step and drops those that left
    /// the bounds. While the reflection is active, a projectile that leaves
    /// the bounds bounces off the border first.
    pub fn bullets(logic: &mut Logic)
        requires
            old(logic).wf(),
        ensures
            final(logic).wf(),
            final(logic)@ == old(logic)@.after_move_bullets(),
            forall|k: int|
                0 <= k < final(logic)@.player.bullets.len() ==> !spec_out_of_bounds(
                    (#[trigger] final(logic)@.player.bullets[k]).pos,
                ),
    {
        let reflect = Handle::power(&logic.effects, &Effect::Reflect);
        logic.player.advance_bullets(reflect);
        logic.player.clear_bullets();
    }

    /// Moves the formation and tells whether it has overrun the player. While
    /// the lock is active the formation stands still.
    pub fn enemies(logic: &mut Logic) -> (r: bool)
        requires
            old(logic).wf(),
        ensures
            final(logic).wf(),
            final(logic)@ == old(logic)@.after_move_enemies(),
            r == final(logic)@.overrun(),
    {
        if !Handle::power(&logic.effects, &Effect::Lock) {
            let (left, right) = get_outermost_lateral_indexes(logic.enemies.as_slice());
            proof {
                let cols = columns_of(logic@.enemies);
                if logic.enemies@.len() > 0 {
                    assert(cols[left as int] == logic.enemies@[left as int].pos.1);
                    assert(cols[right as int] == logic.enemies@[right as int].pos.1);
                }
            }
            if logic.enemies.len() == 0 {
                logic.dir = Direction::Left;
            } else if logic.yield_counter > 0 {
                Handle::yields(logic);
            } else if logic.dir == Direction::Right && logic.enemies[right].pos().1 == logic.width
                - 2 || logic.enemies[left].pos().1 == 1 && logic.dir == Direction::Left {
                logic.descent_from = logic.dir;
                logic.dir = Direction::Down;
            } else if logic.dir == Direction::Down {
                logic.dir = logic.descent_from.opposite();
            }
            assert(logic@ == old(logic)@.steered());
            assert(logic.wf());
            if !(logic.dir == Direction::Down) || !Handle::power(
                &logic.effects,
                &Effect::Antigravity,
            ) {
                let n = logic.enemies.len();
                let dir = logic.dir;
                let ghost foes = logic@.enemies;
                let ghost turned = logic@;
                let mut i: usize = 0;
                while i < n
                    invariant
                        i <= n,
                        logic.enemies@.len() == n,
                        foes.len() == n,
                        turned.wf(),
                        foes == turned.enemies,
                        dir == turned.dir,
                        logic@ == (LogicView { enemies: logic@.enemies, ..turned }),
                        logic.effects.wf(),
                        forall|j: int|
                            0 <= j < i ==> (#[trigger] logic.enemies@[j])@ == stepped(dir)(foes[j]),
                        forall|j: int| i <= j < n ==> (#[trigger] logic.enemies@[j])@ == foes[j],
                    decreases n - i,
                {
                    assert(foes[i as int].settled());
                    assert(logic.enemies@[i as int]@ == foes[i as int]);
                    if !logic.enemies[i].is_numb() {
                        logic.enemies[i].shift(&dir);
                    }
                    i += 1;
                }
                proof {
                    assert(logic@.enemies =~= foes.map_values(stepped(dir)));
                    assert forall|j: int| 0 <= j < n implies (
                    #[trigger] logic@.enemies[j]).settled() by {
                        assert(foes[j].settled());
                    }
                }
            }
        }
        lowest_at(&logic.enemies, logic.height - 3)
    }
}

} // verus!
