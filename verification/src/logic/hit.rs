//! What happens where projectiles, ships, structures and power-ups meet.

use vstd::prelude::*;
use std::collections::VecDeque;
use crate::bullet::Bullet;
use crate::direction::Direction;
use crate::effects::RegistryView;
use crate::logic::generate::{drawn_dir, Generate};
use crate::logic::handle::{after_ultra, disarmed, spared, Handle};
use crate::logic::{
    Logic, LogicView, BOSS_SCORE, CHAR_LASER, COLOR_LASER, ENEMY_SCORE, YIELDS,
};
use crate::power::{Effect, PowerUp};
use crate::seqs::{
    lemma_filter_all, lemma_filter_keeps, lemma_filter_members, lemma_filter_step,
    lemma_filter_twice, lemma_select_is_filter, lemma_take_all, retain_marked,
};
use crate::shield::{
    lives_left, outside, settle, shield_at, strain, survivors, uncovered, wear, Shield,
};
use crate::shooter::{
    all_settled, any_at, away_from, bullet_at, cells_of, fired_at, keep_marked,
    lemma_filter_settled, lemma_retained, lemma_sifted_settled, located, same_as, sift_unmet,
    sifted, take_bullets_at, tally, under_fire, unmet, views, Shooter, ShooterView,
};
use crate::util;
use crate::util::near_field;

verus! {

/// The predicate that holds of the ships none of whose projectiles occupies
/// the cell `pos`.
pub open spec fn harmless(pos: (i32, i32)) -> spec_fn(ShooterView) -> bool {
    |ship: ShooterView| !any_at(ship.bullets, pos)
}

/// The predicate that holds of the projectiles in whose cell no projectile of
/// the ships is.
pub open spec fn unopposed(ships: Seq<ShooterView>) -> spec_fn(Bullet) -> bool {
    |bullet: Bullet| !under_fire(ships, bullet.pos)
}

/// The predicate that holds of the ships in whose cell none of the projectiles
/// `shots` is.
pub open spec fn unstruck(shots: Seq<Bullet>) -> spec_fn(ShooterView) -> bool {
    |ship: ShooterView| !any_at(shots, ship.pos)
}

/// The function that subdues the ships struck by one of the projectiles
/// `shots`: a struck ship comes under the player's control if `control` is
/// set and is frozen if `numb` is set. The other ships stay as they are.
pub open spec fn subdued(shots: Seq<Bullet>, control: bool, numb: bool) -> spec_fn(
    ShooterView,
) -> ShooterView {
    |ship: ShooterView|
        if any_at(shots, ship.pos) {
            let held = if control {
                ship.controlled()
            } else {
                ship
            };
            if numb {
                held.numbed()
            } else {
                held
            }
        } else {
            ship
        }
}

/// The predicate that holds of the ships whose cell is named once in `cells`.
pub open spec fn alone(cells: Seq<(i32, i32)>) -> spec_fn(ShooterView) -> bool {
    |ship: ShooterView| tally(cells, ship.pos) == 1
}

/// The predicate that holds of the projectiles whose cell is not among
/// `cells`.
pub open spec fn missed(cells: Seq<(i32, i32)>) -> spec_fn(Bullet) -> bool {
    |bullet: Bullet| !cells.contains(bullet.pos)
}

/// The projectiles that are used up on the ships in the cells `cells`, in the
/// order in which they are used up: ship by ship, and for each ship the
/// projectiles in its cell that no ship before it used up, in the order in
/// which they were fired.
pub open spec fn used_up(bullets: Seq<Bullet>, cells: Seq<(i32, i32)>) -> Seq<Bullet>
    decreases cells.len(),
{
    if cells.len() == 0 {
        Seq::empty()
    } else {
        used_up(bullets, cells.drop_last()) + bullets.filter(missed(cells.drop_last())).filter(
            located(cells.last()),
        )
    }
}

/// The predicate that holds of the power-ups in the cell `pos`.
pub open spec fn lying_at(pos: (i32, i32)) -> spec_fn(PowerUp) -> bool {
    |power: PowerUp| power.pos == pos
}

/// The predicate that holds of the power-ups outside the cell `pos`.
pub open spec fn lying_off(pos: (i32, i32)) -> spec_fn(PowerUp) -> bool {
    |power: PowerUp| power.pos != pos
}

/// The power-ups that the projectiles `shots` pick up, in the order in which
/// they are picked up: projectile by projectile, and for each projectile the
/// power-ups in its cell that no projectile before it picked up, in the order
/// in which they appeared.
pub open spec fn picked_up(powers: Seq<PowerUp>, shots: Seq<Bullet>) -> Seq<PowerUp>
    decreases shots.len(),
{
    if shots.len() == 0 {
        Seq::empty()
    } else {
        picked_up(powers, shots.drop_last()) + powers.filter(passed_by(shots.drop_last())).filter(
            lying_at(shots.last().pos),
        )
    }
}

/// The predicate that holds of the power-ups in whose cell none of the
/// projectiles `shots` is.
pub open spec fn passed_by(shots: Seq<Bullet>) -> spec_fn(PowerUp) -> bool {
    |power: PowerUp| !any_at(shots, power.pos)
}

/// The score nearest to `points` that the counter can hold.
pub open spec fn clamp_score(points: int) -> i32 {
    if points > i32::MAX {
        i32::MAX
    } else if points < i32::MIN {
        i32::MIN
    } else {
        points as i32
    }
}

/// Whether one of the power-ups `taken` carries `effect` into the registry:
/// `effect` does not act at once and is the effect of one of them.
pub open spec fn carried(taken: Seq<PowerUp>, effect: Effect) -> bool {
    !effect.acts_at_once() && exists|i: int|
        0 <= i < taken.len() && (#[trigger] taken[i]).effect == effect
}

/// What a pick-up does to the registry: an effect that acts at once leaves it
/// as it is, every other effect is activated at the current time.
pub proof fn lemma_pickup_registry(game: LogicView, power: PowerUp)
    ensures
        game.pickup(power).effects == if power.effect.acts_at_once() {
            game.effects
        } else {
            game.effects.activated(power.effect)
        },
{
}

/// The registry after the effects that the power-ups `taken` carry were
/// activated at the current time. The clock stays. An effect that one of the
/// power-ups carries has one entry, and it holds the current time, whether
/// the effect had an entry before or not: its window is refreshed and nothing
/// stacks. Every other entry is as it was, and no other entry appears.
pub open spec fn refreshed(registry: RegistryView, taken: Seq<PowerUp>) -> RegistryView {
    RegistryView {
        stamps: Map::new(
            |effect: Effect| registry.stamps.contains_key(effect) || carried(taken, effect),
            |effect: Effect|
                if carried(taken, effect) {
                    registry.now
                } else {
                    registry.stamps[effect]
                },
        ),
        now: registry.now,
    }
}

/// What a row of pick-ups does to the registry: what `refreshed` says.
pub proof fn lemma_pickups_registry(game: LogicView, taken: Seq<PowerUp>)
    ensures
        game.pickups(taken).effects == refreshed(game.effects, taken),
    decreases taken.len(),
{
    if taken.len() == 0 {
        assert(refreshed(game.effects, taken).stamps =~= game.effects.stamps);
    } else {
        let front = taken.drop_last();
        let before = game.pickups(front);
        lemma_pickups_registry(game, front);
        lemma_pickup_registry(before, taken.last());
        assert forall|effect: Effect| carried(taken, effect) == (carried(front, effect) || (
        !effect.acts_at_once() && taken.last().effect == effect)) by {
            if carried(front, effect) {
                let i = choose|i: int| 0 <= i < front.len() && front[i].effect == effect;
                assert(taken[i].effect == effect);
            }
            if !effect.acts_at_once() && taken.last().effect == effect {
                assert(taken[taken.len() - 1].effect == effect);
            }
            if carried(taken, effect) {
                let i = choose|i: int| 0 <= i < taken.len() && taken[i].effect == effect;
                if i < front.len() {
                    assert(front[i].effect == effect);
                }
            }
        }
        assert(game.pickups(taken).effects.stamps =~= refreshed(game.effects, taken).stamps);
    }
}

/// Every power-up in the cell of one of the projectiles `shots` is picked up.
pub proof fn lemma_picked_up_members(powers: Seq<PowerUp>, shots: Seq<Bullet>, i: int)
    requires
        0 <= i < powers.len(),
        any_at(shots, powers[i].pos),
    ensures
        picked_up(powers, shots).contains(powers[i]),
    decreases shots.len(),
{
    let power = powers[i];
    let front = shots.drop_last();
    let before = picked_up(powers, front);
    let rest = powers.filter(passed_by(front));
    let here = rest.filter(lying_at(shots.last().pos));
    if any_at(front, power.pos) {
        lemma_picked_up_members(powers, front, i);
        let k = choose|k: int| 0 <= k < before.len() && before[k] == power;
        assert((before + here)[k] == power);
    } else {
        let w = choose|w: int| 0 <= w < shots.len() && shots[w].pos == power.pos;
        if w < front.len() {
            assert(front[w].pos == power.pos);
        }
        lemma_filter_keeps(powers, passed_by(front), i);
        let m = choose|m: int| 0 <= m < rest.len() && rest[m] == power;
        lemma_filter_keeps(rest, lying_at(shots.last().pos), m);
        let k = choose|k: int| 0 <= k < here.len() && here[k] == power;
        assert((before + here)[before.len() + k] == power);
    }
}

/// A pick-up refreshes the window of an effect. The registry after the
/// pick-ups is the registry before, refreshed by the power-ups picked up. So
/// if a power-up lies in the cell of a projectile of the player and its
/// effect does not act at once, the registry has one entry for that effect
/// afterwards, and it holds the current time, whatever entry the effect had
/// before. The clock stays, and the entry of every effect that no power-up
/// carried is as it was.
pub proof fn lemma_pick_up_refreshes(game: LogicView, i: int)
    requires
        0 <= i < game.powers.len(),
        any_at(game.player.bullets, game.powers[i].pos),
        !game.powers[i].effect.acts_at_once(),
    ensures
        game.after_hit_powers().effects == refreshed(
            game.effects,
            picked_up(game.powers, game.player.bullets),
        ),
        carried(picked_up(game.powers, game.player.bullets), game.powers[i].effect),
        game.after_hit_powers().effects.now == game.effects.now,
        game.after_hit_powers().effects.stamps.contains_key(game.powers[i].effect),
        game.after_hit_powers().effects.stamps[game.powers[i].effect] == game.effects.now,
        game.after_hit_powers().effects.is_active(game.powers[i].effect),
{
    let shots = game.player.bullets;
    let taken = picked_up(game.powers, shots);
    let start = LogicView { powers: game.powers.filter(passed_by(shots)), ..game };
    lemma_picked_up_members(game.powers, shots, i);
    let k = choose|k: int| 0 <= k < taken.len() && taken[k] == game.powers[i];
    assert(taken[k].effect == game.powers[i].effect);
    assert(carried(taken, game.powers[i].effect));
    lemma_pickups_registry(start, taken);
}

/// Every projectile that is used up is one of the projectiles.
pub proof fn lemma_used_up_members(bullets: Seq<Bullet>, cells: Seq<(i32, i32)>)
    ensures
        forall|i: int|
            0 <= i < used_up(bullets, cells).len() ==> bullets.contains(
                #[trigger] used_up(bullets, cells)[i],
            ),
    decreases cells.len(),
{
    if cells.len() > 0 {
        let front = cells.drop_last();
        lemma_used_up_members(bullets, front);
        let before = used_up(bullets, front);
        let rest = bullets.filter(missed(front));
        let here = rest.filter(located(cells.last()));
        lemma_filter_members(bullets, missed(front));
        lemma_filter_members(rest, located(cells.last()));
        assert forall|i: int| 0 <= i < used_up(bullets, cells).len() implies bullets.contains(
            #[trigger] used_up(bullets, cells)[i],
        ) by {
            if i >= before.len() {
                let bullet = here[i - before.len()];
                assert(rest.contains(bullet));
                let k = choose|k: int| 0 <= k < rest.len() && rest[k] == bullet;
                assert(bullets.contains(rest[k]));
            }
        }
    }
}

/// Tells how often `cells` names the cell `pos`, as far as two: the result is
/// the count if it is below two, and two otherwise.
pub fn count_cells(cells: &Vec<(i32, i32)>, pos: (i32, i32)) -> (r: u8)
    ensures
        r == if tally(cells@, pos) < 2 { tally(cells@, pos) } else { 2 },
{
    let mut count: u8 = 0;
    let mut i: usize = 0;
    while i < cells.len()
        invariant
            i <= cells@.len(),
            count == if tally(cells@.take(i as int), pos) < 2 {
                tally(cells@.take(i as int), pos)
            } else {
                2
            },
        decreases cells@.len() - i,
    {
        proof {
            lemma_filter_step(cells@, i as int, same_as(pos));
        }
        if util::same_cell(cells[i], pos) && count < 2 {
            count += 1;
        }
        i += 1;
    }
    proof {
        lemma_take_all(cells@);
    }
    count
}

/// Tells whether `cells` names the cell `pos`.
pub fn cell_in(cells: &Vec<(i32, i32)>, pos: (i32, i32)) -> (r: bool)
    ensures
        r == cells@.contains(pos),
{
    let mut i: usize = 0;
    while i < cells.len()
        invariant
            i <= cells@.len(),
            forall|j: int| 0 <= j < i ==> cells@[j] != pos,
        decreases cells@.len() - i,
    {
        if util::same_cell(cells[i], pos) {
            return true;
        }
        i += 1;
    }
    false
}

/// Lists the cells of the ships, in order.
pub fn cells(ships: &Vec<Shooter>) -> (r: Vec<(i32, i32)>)
    ensures
        r@ == cells_of(views(ships@)),
{
    let mut cells: Vec<(i32, i32)> = Vec::new();
    let mut i: usize = 0;
    while i < ships.len()
        invariant
            i <= ships@.len(),
            cells@ == cells_of(views(ships@)).take(i as int),
        decreases ships@.len() - i,
    {
        cells.push(ships[i].pos());
        assert(cells@ =~= cells_of(views(ships@)).take(i + 1));
        i += 1;
    }
    proof {
        lemma_take_all(cells_of(views(ships@)));
    }
    cells
}

/// The ships after they met the structures: a ship in the cell of a structure
/// is gone, and so is every projectile in the cell of a structure. Each of
/// them has taken one life from the structure, as `strain` counts.
pub open spec fn repelled(ships: Seq<ShooterView>, structures: Seq<Shield>) -> Seq<ShooterView> {
    sifted(ships.filter(outside(structures)), uncovered(structures))
}

/// Keeps the projectiles of every ship in whose cell no structure is.
pub fn screen(ships: &mut Vec<Shooter>, shields: &Vec<Shield>)
    ensures
        views(final(ships)@) == sifted(views(old(ships)@), uncovered(shields@)),
{
    let n = ships.len();
    let mut i: usize = 0;
    while i < n
        invariant
            i <= n,
            ships@.len() == n,
            old(ships)@.len() == n,
            forall|j: int|
                0 <= j < i ==> (#[trigger] ships@[j])@ == old(ships)@[j]@.with_bullets(
                    old(ships)@[j]@.bullets.filter(uncovered(shields@)),
                ),
            forall|j: int| i <= j < n ==> ships@[j] == old(ships)@[j],
        decreases n - i,
    {
        let mut marks: Vec<bool> = Vec::new();
        let mut k: usize = 0;
        let ghost lasers = ships@[i as int].bullets@;
        while k < ships[i].bullets.len()
            invariant
                i < n,
                ships@.len() == n,
                ships@[i as int].bullets@ == lasers,
                k <= lasers.len(),
                marks@.len() == k,
                forall|m: int| 0 <= m < k ==> marks@[m] == uncovered(shields@)(#[trigger] lasers[m]),
            decreases lasers.len() - k,
        {
            marks.push(!shield_at(shields, ships[i].bullets[k].pos));
            k += 1;
        }
        proof {
            lemma_select_is_filter(lasers, marks@, uncovered(shields@));
        }
        keep_marked(&mut ships[i], &marks);
        i += 1;
    }
    assert(views(ships@) =~= sifted(views(old(ships)@), uncovered(shields@)));
}

impl LogicView {
    /// The game after the shields stood against the enemies. Nothing happens
    /// before the shield effect was ever activated. Once the effect has
    /// lapsed, the shields are gone. Otherwise the shields absorb what touches
    /// them, as `repelled` and `survivors` say.
    pub open spec fn after_hit_shields(self) -> LogicView {
        if !self.effects.stamps.contains_key(Effect::Shield) {
            self
        } else if self.effects.has_lapsed(Effect::Shield) {
            LogicView { shields: Seq::empty(), ..self }
        } else {
            LogicView {
                shields: survivors(self.shields, strain(self.enemies)),
                enemies: repelled(self.enemies, self.shields),
                ..self
            }
        }
    }

    /// The game after the obstacles stood against the enemies. Nothing
    /// happens before the obstacle effect was ever activated. Once the effect
    /// has lapsed, the obstacles are gone. Otherwise the obstacles absorb what
    /// touches them, as `repelled` and `survivors` say.
    pub open spec fn after_hit_obstacles(self) -> LogicView {
        if !self.effects.stamps.contains_key(Effect::Obstacle) {
            self
        } else if self.effects.has_lapsed(Effect::Obstacle) {
            LogicView { obstacles: Seq::empty(), ..self }
        } else {
            LogicView {
                obstacles: survivors(self.obstacles, strain(self.enemies)),
                enemies: repelled(self.enemies, self.obstacles),
                ..self
            }
        }
    }

    /// The game after the escort stood against the enemies: every projectile
    /// of an enemy and every enemy in its cell takes one life from it and is
    /// gone. An escort without lives left is gone, and its effect ends at
    /// once.
    pub open spec fn after_hit_follower(self) -> LogicView {
        match self.follower {
            None => self,
            Some(escort) => {
                let hits = strain(self.enemies)(escort.pos);
                let enemies = repelled(self.enemies, seq![escort]);
                if escort.lives - hits > 0 {
                    LogicView { follower: Some(escort.damaged(hits as int)), enemies, ..self }
                } else {
                    LogicView {
                        follower: None,
                        enemies,
                        effects: self.effects.expired(Effect::Follower),
                        ..self
                    }
                }
            },
        }
    }

    /// The enemies after the projectiles of the player struck. While neither
    /// the mind control nor the numbness is active, a struck enemy is
    /// destroyed. Otherwise it stays: under the player's control if the mind
    /// control is active, frozen if the numbness is. After that, every enemy
    /// that shared its cell with another enemy before the strike is
    /// destroyed, and so is the other.
    pub open spec fn thinned(self) -> Seq<ShooterView> {
        let shots = self.player.bullets;
        let control = self.active(Effect::Mindcontrol);
        let numb = self.active(Effect::Numb);
        let first = if !control && !numb {
            self.enemies.filter(unstruck(shots))
        } else {
            self.enemies.map_values(subdued(shots, control, numb))
        };
        first.filter(alone(cells_of(self.enemies)))
    }

    /// The projectiles of the player that a strike uses up: those in the cell
    /// of an enemy, unless the player's projectiles pierce. They are listed
    /// enemy by enemy, as the enemies stood before the strike.
    pub open spec fn spent(self) -> Seq<Bullet> {
        if self.active(Effect::Pierce) {
            Seq::empty()
        } else {
            used_up(self.player.bullets, cells_of(self.enemies))
        }
    }

    /// The number of enemies a strike destroys.
    pub open spec fn killed(self) -> int {
        self.enemies.len() - self.thinned().len()
    }

    /// The game after the projectiles of the player struck the enemies, before
    /// any projectile that was used up bursts.
    pub open spec fn after_strike(self) -> LogicView {
        LogicView {
            enemies: self.thinned(),
            player: if self.active(Effect::Pierce) {
                self.player
            } else {
                self.player.with_bullets(
                    self.player.bullets.filter(missed(cells_of(self.enemies))),
                )
            },
            ..self
        }
    }

    /// The game after the first `n` of the projectiles `spent` had their turn
    /// to burst: an explosive one leaves a laser of the player in its cell,
    /// heading where the draw for it says.
    pub open spec fn chained(self, spent: Seq<Bullet>, dirs: Seq<Direction>, n: nat) -> LogicView
        decreases n,
    {
        if n == 0 {
            self
        } else {
            let before = self.chained(spent, dirs, (n - 1) as nat);
            if spent[n - 1].is_explosive {
                LogicView {
                    player: before.player.fired_from(
                        spent[n - 1].pos,
                        drawn_dir(dirs, n - 1),
                        false,
                        CHAR_LASER,
                        COLOR_LASER,
                    ),
                    ..before
                }
            } else {
                before
            }
        }
    }

    /// The game after all the projectiles `spent` had their turn to burst.
    pub open spec fn after_chain(self, spent: Seq<Bullet>, dirs: Seq<Direction>) -> LogicView {
        self.chained(spent, dirs, spent.len())
    }

    /// The game after the projectiles of the player struck the enemies and
    /// those that were used up burst, along the headings drawn for them.
    pub open spec fn after_hit_enemies(self, dirs: Seq<Direction>) -> LogicView {
        self.after_strike().after_chain(self.spent(), dirs)
    }

    /// The game with `effect` activated at the current time.
    pub open spec fn with_effect(self, effect: Effect) -> LogicView {
        LogicView { effects: self.effects.activated(effect), ..self }
    }

    /// The game after the player picked up `power`. Four effects act at once
    /// and leave no trace in the registry: the clearing takes every projectile
    /// of the enemies off the field, the ultra shot fires a column of
    /// projectiles, the yield makes the formation retreat for some ticks, and
    /// the explosion destroys the enemies around the power-up. Every other
    /// effect is activated in the registry, which refreshes its window if it
    /// was active. The shield and the escort also raise their structure where
    /// none stands, so that nothing stacks.
    pub open spec fn pickup(self, power: PowerUp) -> LogicView {
        match power.effect {
            Effect::Clear => LogicView { enemies: disarmed(self.enemies), ..self },
            Effect::Ultra => LogicView {
                player: after_ultra(self.player, self.active(Effect::Jump), self.height),
                ..self
            },
            Effect::Yield => LogicView { yield_counter: YIELDS, ..self },
            Effect::Explode => LogicView {
                enemies: self.enemies.filter(spared(power.pos)),
                ..self
            },
            Effect::Shield => {
                let on = self.with_effect(Effect::Shield);
                if on.shields.len() == 0 {
                    on.after_shields()
                } else {
                    on
                }
            },
            Effect::Follower => {
                let on = self.with_effect(Effect::Follower);
                if on.follower.is_none() {
                    on.after_follower()
                } else {
                    on
                }
            },
            effect => self.with_effect(effect),
        }
    }

    /// The game after the player picked up the power-ups `taken`, in order.
    pub open spec fn pickups(self, taken: Seq<PowerUp>) -> LogicView
        decreases taken.len(),
    {
        if taken.len() == 0 {
            self
        } else {
            self.pickups(taken.drop_last()).pickup(taken.last())
        }
    }

    /// The game after the player picked up every power-up in whose cell one of
    /// its projectiles was, projectile by projectile. The projectiles fly on.
    pub open spec fn after_hit_powers(self) -> LogicView {
        let shots = self.player.bullets;
        LogicView { powers: self.powers.filter(passed_by(shots)), ..self }.pickups(
            picked_up(self.powers, shots),
        )
    }

    /// The game with `points` added to the score gained. The score stops at
    /// the ends of its range.
    pub open spec fn scored(self, points: int) -> LogicView {
        LogicView { score_increment: clamp_score(self.score_increment + points), ..self }
    }

    /// The game after the first steps of the strike on the targets: while the
    /// block is active the projectiles of both sides block each other, and a
    /// boss that was struck is gone and scores.
    pub open spec fn quarry(self, level: i32) -> LogicView {
        let blocked = if self.active(Effect::Block) {
            self.after_lasers()
        } else {
            self
        };
        if blocked.boss_struck() {
            blocked.after_hit_boss().scored(BOSS_SCORE * level)
        } else {
            blocked
        }
    }

    /// The game after the strike on the targets: blocking, the boss, then the
    /// enemies, each of which scores when it is destroyed.
    pub open spec fn after_targets(self, level: i32, dirs: Seq<Direction>) -> LogicView {
        let hunted = self.quarry(level);
        hunted.after_hit_enemies(dirs).scored(hunted.killed() * ENEMY_SCORE * level)
    }

    /// Whether a projectile of the player is in one of the two cells of the
    /// boss.
    pub open spec fn boss_struck(self) -> bool {
        self.boss matches Some(boss) && exists|i: int|
            0 <= i < self.player.bullets.len() && boss.spec_covers(
                (#[trigger] self.player.bullets[i]).pos,
            )
    }

    /// The game after the check for a hit on the boss: a boss that was struck
    /// is gone.
    pub open spec fn after_hit_boss(self) -> LogicView {
        if self.boss_struck() {
            LogicView { boss: None, ..self }
        } else {
            self
        }
    }

    /// Whether the player is hit: a projectile of an enemy is in the player's
    /// cell and the player is not invincible.
    pub open spec fn player_struck(self) -> bool {
        !self.active(Effect::Invincible) && under_fire(self.enemies, self.player.pos)
    }

    /// The game after the check for a hit on the player: while the vendetta is
    /// active, every enemy with a projectile in the player's cell is
    /// destroyed.
    pub open spec fn after_hit_player(self) -> LogicView {
        if self.active(Effect::Vendetta) {
            LogicView { enemies: self.enemies.filter(harmless(self.player.pos)), ..self }
        } else {
            self
        }
    }

    /// The game after projectiles blocked each other: every projectile of an
    /// enemy that shared its cell with one of the player is gone, and so is
    /// every projectile of the player that shared its cell with one of an
    /// enemy.
    pub open spec fn after_lasers(self) -> LogicView {
        LogicView {
            enemies: sifted(self.enemies, unmet(self.player.bullets)),
            player: self.player.with_bullets(self.player.bullets.filter(unopposed(self.enemies))),
            ..self
        }
    }
}

/// The collisions.
pub struct Hit;

impl Hit {
    /// Checks for a hit on the player and tells whether the player is hit.
    /// While the vendetta is active, every enemy with a projectile in the
    /// player's cell is destroyed, hit or not.
    pub fn player(logic: &mut Logic) -> (r: bool)
        requires
            old(logic).wf(),
        ensures
            final(logic).wf(),
            final(logic)@ == old(logic)@.after_hit_player(),
            r == old(logic)@.player_struck(),
    {
        let pos = logic.player.pos();
        let struck = !Handle::power(&logic.effects, &Effect::Invincible) && fired_at(
            &logic.enemies,
            pos,
        );
        if Handle::power(&logic.effects, &Effect::Vendetta) {
            let mut marks: Vec<bool> = Vec::new();
            let mut i: usize = 0;
            while i < logic.enemies.len()
                invariant
                    i <= logic.enemies@.len(),
                    marks@.len() == i,
                    forall|j: int|
                        0 <= j < i ==> marks@[j] == harmless(pos)((#[trigger] logic.enemies@[j])@),
                decreases logic.enemies@.len() - i,
            {
                marks.push(!bullet_at(&logic.enemies[i].bullets, pos));
                i += 1;
            }
            proof {
                lemma_retained(logic.enemies@, marks@, harmless(pos));
                lemma_filter_settled(old(logic)@.enemies, harmless(pos));
            }
            retain_marked(&mut logic.enemies, &marks);
        }
        struck
    }

    /// Lets the projectiles of the player strike the enemies. Returns the
    /// number of enemies destroyed and the projectiles that were used up, in
    /// the order in which they were fired.
    pub fn strike(logic: &mut Logic) -> (r: (usize, Vec<Bullet>))
        requires
            old(logic).wf(),
        ensures
            final(logic).wf(),
            final(logic)@ == old(logic)@.after_strike(),
            r.0 == old(logic)@.killed(),
            r.1@ == old(logic)@.spent(),
            forall|i: int| 0 <= i < r.1@.len() ==> near_field((#[trigger] r.1@[i]).pos),
    {
        let previous_size = logic.enemies.len();
        let cells = cells(&logic.enemies);
        let control = Handle::power(&logic.effects, &Effect::Mindcontrol);
        let numb = Handle::power(&logic.effects, &Effect::Numb);
        let ghost shots = logic.player.bullets@;
        let ghost foes = logic@.enemies;
        if !control && !numb {
            let mut marks: Vec<bool> = Vec::new();
            let mut i: usize = 0;
            while i < logic.enemies.len()
                invariant
                    i <= logic.enemies@.len(),
                    *logic == *old(logic),
                    shots == logic.player.bullets@,
                    marks@.len() == i,
                    forall|j: int|
                        0 <= j < i ==> marks@[j] == unstruck(shots)((#[trigger] logic.enemies@[j])@),
                decreases logic.enemies@.len() - i,
            {
                marks.push(!bullet_at(&logic.player.bullets, logic.enemies[i].pos()));
                i += 1;
            }
            proof {
                lemma_retained(logic.enemies@, marks@, unstruck(shots));
                lemma_filter_settled(foes, unstruck(shots));
                lemma_filter_members(foes, unstruck(shots));
            }
            retain_marked(&mut logic.enemies, &marks);
        } else {
            let n = logic.enemies.len();
            let mut i: usize = 0;
            while i < n
                invariant
                    i <= n,
                    logic.enemies@.len() == n,
                    old(logic).enemies@.len() == n,
                    foes == old(logic)@.enemies,
                    shots == logic.player.bullets@,
                    logic@ == (LogicView { enemies: logic@.enemies, ..old(logic)@ }),
                    logic.effects == old(logic).effects,
                    forall|j: int|
                        0 <= j < i ==> (#[trigger] logic.enemies@[j])@ == subdued(
                            shots,
                            control,
                            numb,
                        )(foes[j]),
                    forall|j: int| i <= j < n ==> logic.enemies@[j] == old(logic).enemies@[j],
                decreases n - i,
            {
                assert(foes[i as int] == old(logic).enemies@[i as int]@);
                if bullet_at(&logic.player.bullets, logic.enemies[i].pos()) {
                    if control {
                        logic.enemies[i].mind_control();
                    }
                    if numb {
                        logic.enemies[i].set_numb();
                    }
                }
                i += 1;
            }
            proof {
                assert(logic@.enemies =~= foes.map_values(subdued(shots, control, numb)));
                assert forall|j: int| 0 <= j < n implies (#[trigger] logic@.enemies[j]).settled() by {
                    assert(foes[j].settled());
                }
            }
        }
        let ghost first = logic@.enemies;
        let mut marks: Vec<bool> = Vec::new();
        let mut i: usize = 0;
        while i < logic.enemies.len()
            invariant
                i <= logic.enemies@.len(),
                first == logic@.enemies,
                marks@.len() == i,
                forall|j: int|
                    0 <= j < i ==> marks@[j] == alone(cells@)((#[trigger] logic.enemies@[j])@),
            decreases logic.enemies@.len() - i,
        {
            marks.push(count_cells(&cells, logic.enemies[i].pos()) == 1);
            i += 1;
        }
        proof {
            lemma_retained(logic.enemies@, marks@, alone(cells@));
            lemma_filter_settled(first, alone(cells@));
            lemma_filter_members(first, alone(cells@));
        }
        retain_marked(&mut logic.enemies, &marks);
        let mut spent: Vec<Bullet> = Vec::new();
        let ghost thinned = logic@;
        if !Handle::power(&logic.effects, &Effect::Pierce) {
            proof {
                assert(cells@.take(0) =~= Seq::<(i32, i32)>::empty());
                lemma_filter_all(shots, missed(cells@.take(0)));
            }
            let mut c: usize = 0;
            while c < cells.len()
                invariant
                    c <= cells@.len(),
                    logic@ == (LogicView {
                        player: thinned.player.with_bullets(logic.player.bullets@),
                        ..thinned
                    }),
                    logic.effects == old(logic).effects,
                    logic.enemies@.len() <= previous_size,
                    logic.player.bullets@ == shots.filter(missed(cells@.take(c as int))),
                    spent@ == used_up(shots, cells@.take(c as int)),
                decreases cells@.len() - c,
            {
                let ghost seen = cells@.take(c as int);
                let ghost next = cells@.take(c + 1);
                let mut taken = take_bullets_at(&mut logic.player.bullets, cells[c]);
                proof {
                    assert(next.drop_last() == seen);
                    assert(next.last() == cells@[c as int]);
                    assert forall|bullet: Bullet| #[trigger]
                        missed(next)(bullet) == (missed(seen)(bullet) && away_from(cells@[c as int])(
                            bullet,
                        )) by {
                        if seen.contains(bullet.pos) {
                            let k = choose|k: int| 0 <= k < seen.len() && seen[k] == bullet.pos;
                            assert(next[k] == bullet.pos);
                        }
                        if bullet.pos == cells@[c as int] {
                            assert(next[c as int] == bullet.pos);
                        }
                        if next.contains(bullet.pos) {
                            let k = choose|k: int| 0 <= k < next.len() && next[k] == bullet.pos;
                            if k < c {
                                assert(seen[k] == bullet.pos);
                            }
                        }
                    }
                    lemma_filter_twice(
                        shots,
                        missed(seen),
                        away_from(cells@[c as int]),
                        missed(next),
                    );
                }
                spent.append(&mut taken);
                c += 1;
            }
            proof {
                lemma_take_all(cells@);
                lemma_filter_members(shots, missed(cells@));
                let kept = logic.player.bullets@;
                assert forall|m: int| 0 <= m < kept.len() implies near_field(
                    (#[trigger] kept[m]).pos,
                ) by {
                    assert(shots.contains(kept[m]));
                    let w = choose|w: int| 0 <= w < shots.len() && shots[w] == kept[m];
                    assert(near_field(shots[w].pos));
                }
                lemma_used_up_members(shots, cells@);
                assert forall|m: int| 0 <= m < spent@.len() implies near_field(
                    (#[trigger] spent@[m]).pos,
                ) by {
                    assert(shots.contains(spent@[m]));
                    let w = choose|w: int| 0 <= w < shots.len() && shots[w] == spent@[m];
                    assert(near_field(shots[w].pos));
                }
            }
        } else {
            assert(spent@ =~= Seq::empty());
        }
        let new_size = logic.enemies.len();
        (previous_size - new_size, spent)
    }

    /// Lets the projectiles `spent` burst: each explosive one leaves a laser
    /// of the player in its cell. The laser left by the projectile at the
    /// index `i` heads along `dirs[i]`, or along the left upward diagonal if
    /// `dirs` is too short.
    pub fn chain(logic: &mut Logic, spent: &Vec<Bullet>, dirs: &Vec<Direction>)
        requires
            old(logic).wf(),
            forall|i: int| 0 <= i < spent@.len() ==> near_field((#[trigger] spent@[i]).pos),
        ensures
            final(logic).wf(),
            final(logic)@ == old(logic)@.after_chain(spent@, dirs@),
    {
        let mut i: usize = 0;
        while i < spent.len()
            invariant
                i <= spent@.len(),
                logic.wf(),
                forall|j: int| 0 <= j < spent@.len() ==> near_field((#[trigger] spent@[j]).pos),
                logic@ == old(logic)@.chained(spent@, dirs@, i as nat),
            decreases spent@.len() - i,
        {
            let bullet = spent[i];
            if bullet.is_explosive() {
                let dir = if i < dirs.len() {
                    dirs[i]
                } else {
                    Direction::LeftUp
                };
                assert(near_field(spent@[i as int].pos));
                logic.player.shoot_pos(&bullet.pos(), dir, false, CHAR_LASER, COLOR_LASER);
            }
            i += 1;
        }
    }

    /// Lets the projectiles of the player strike the enemies and returns the
    /// number of enemies destroyed. The projectiles that were used up burst if
    /// they are explosive, each along an upward diagonal drawn at random.
    pub fn enemies(logic: &mut Logic) -> (r: usize)
        requires
            old(logic).wf(),
        ensures
            final(logic).wf(),
            r == old(logic)@.killed(),
            exists|dirs: Seq<Direction>|
                dirs.len() == old(logic)@.spent().len() && (forall|i: int|
                    0 <= i < dirs.len() ==> (#[trigger] dirs[i]).is_upward_diagonal())
                    && final(logic)@ == old(logic)@.after_hit_enemies(dirs),
    {
        let (killed, spent) = Hit::strike(logic);
        let mut dirs: Vec<Direction> = Vec::new();
        let mut i: usize = 0;
        while i < spent.len()
            invariant
                i <= spent@.len(),
                dirs@.len() == i,
                forall|j: int| 0 <= j < i ==> (#[trigger] dirs@[j]).is_upward_diagonal(),
            decreases spent@.len() - i,
        {
            dirs.push(Direction::sample());
            i += 1;
        }
        Hit::chain(logic, &spent, &dirs);
        proof {
            let drawn = dirs@;
            assert(drawn.len() == old(logic)@.spent().len() && (forall|i: int|
                0 <= i < drawn.len() ==> (#[trigger] drawn[i]).is_upward_diagonal()) && logic@
                == old(logic)@.after_hit_enemies(drawn));
        }
        killed
    }

    /// Lets the player pick up `power`. An effect that acts at once leaves the
    /// registry as it is; every other effect has, after the call, the one
    /// entry that an activation at the current time gives it.
    pub fn pickup(logic: &mut Logic, power: &PowerUp)
        requires
            old(logic).wf(),
        ensures
            final(logic).wf(),
            final(logic)@ == old(logic)@.pickup(*power),
            final(logic)@.effects == if power.effect.acts_at_once() {
                old(logic)@.effects
            } else {
                old(logic)@.effects.activated(power.effect)
            },
    {
        let effect = *power.effect();
        match effect {
            Effect::Clear => {
                Handle::clear(logic.enemies.as_mut_slice());
                proof {
                    assert forall|j: int| 0 <= j < logic@.enemies.len() implies (
                    #[trigger] logic@.enemies[j]).settled() by {
                        assert(old(logic)@.enemies[j].settled());
                    }
                }
            },
            Effect::Ultra => {
                Handle::ultra(&mut logic.player, &logic.effects, &logic.height);
            },
            Effect::Yield => {
                logic.yield_counter = YIELDS;
            },
            Effect::Explode => {
                Handle::explode(&power.pos(), &mut logic.enemies);
            },
            Effect::Shield => {
                logic.effects.activate(effect);
                if logic.shields.len() == 0 {
                    Generate::shields(logic);
                }
            },
            Effect::Follower => {
                logic.effects.activate(effect);
                if logic.follower.is_none() {
                    Generate::follower(logic);
                }
            },
            _ => {
                logic.effects.activate(effect);
            },
        }
    }

    /// Lets the player pick up every power-up in whose cell one of its
    /// projectiles is. In the registry, every effect that a power-up carried
    /// has the one entry that an activation at the current time gives it, and
    /// every other entry is as it was.
    pub fn powers(logic: &mut Logic)
        requires
            old(logic).wf(),
        ensures
            final(logic).wf(),
            final(logic)@ == old(logic)@.after_hit_powers(),
            final(logic)@.effects == refreshed(
                old(logic)@.effects,
                picked_up(old(logic)@.powers, old(logic)@.player.bullets),
            ),
    {
        let ghost shots = logic.player.bullets@;
        let ghost all = logic.powers@;
        let mut taken: Vec<PowerUp> = Vec::new();
        let mut left: Vec<PowerUp> = Vec::new();
        std::mem::swap(&mut left, &mut logic.powers);
        proof {
            assert(shots.take(0) =~= Seq::<Bullet>::empty());
            lemma_filter_all(all, passed_by(shots.take(0)));
        }
        let mut b: usize = 0;
        while b < logic.player.bullets.len()
            invariant
                b <= shots.len(),
                shots == logic.player.bullets@,
                logic@ == (LogicView { powers: Seq::empty(), ..old(logic)@ }),
                logic.effects == old(logic).effects,
                left@ == all.filter(passed_by(shots.take(b as int))),
                taken@ == picked_up(all, shots.take(b as int)),
            decreases shots.len() - b,
        {
            let pos = logic.player.bullets[b].pos;
            let ghost seen = shots.take(b as int);
            let ghost next = shots.take(b + 1);
            let ghost rest = left@;
            let mut stay: Vec<PowerUp> = Vec::new();
            let mut i: usize = 0;
            while i < left.len()
                invariant
                    i <= rest.len(),
                    rest == left@,
                    stay@ == rest.take(i as int).filter(lying_off(pos)),
                    taken@ == picked_up(all, seen) + rest.take(i as int).filter(lying_at(pos)),
                decreases rest.len() - i,
            {
                proof {
                    lemma_filter_step(rest, i as int, lying_off(pos));
                    lemma_filter_step(rest, i as int, lying_at(pos));
                }
                let ghost so_far = rest.take(i as int).filter(lying_at(pos));
                let power = left[i];
                if util::same_cell(power.pos, pos) {
                    taken.push(power);
                    assert(taken@ =~= picked_up(all, seen) + so_far.push(power));
                } else {
                    stay.push(power);
                }
                i += 1;
            }
            proof {
                lemma_take_all(rest);
                assert(next.drop_last() == seen);
                assert(next.last() == shots[b as int]);
                assert forall|power: PowerUp| #[trigger]
                    passed_by(next)(power) == (passed_by(seen)(power) && lying_off(pos)(power)) by {
                    if any_at(seen, power.pos) {
                        let k = choose|k: int| 0 <= k < seen.len() && seen[k].pos == power.pos;
                        assert(next[k].pos == power.pos);
                    }
                    if power.pos == pos {
                        assert(next[b as int].pos == power.pos);
                    }
                    if any_at(next, power.pos) {
                        let k = choose|k: int| 0 <= k < next.len() && next[k].pos == power.pos;
                        if k < b {
                            assert(seen[k].pos == power.pos);
                        }
                    }
                }
                lemma_filter_twice(all, passed_by(seen), lying_off(pos), passed_by(next));
            }
            left = stay;
            b += 1;
        }
        proof {
            lemma_take_all(shots);
        }
        logic.powers = left;
        let ghost start = logic@;
        proof {
            lemma_pickups_registry(start, taken@);
        }
        let mut k: usize = 0;
        while k < taken.len()
            invariant
                k <= taken@.len(),
                logic.wf(),
                logic@ == start.pickups(taken@.take(k as int)),
            decreases taken@.len() - k,
        {
            proof {
                assert(taken@.take(k + 1).drop_last() == taken@.take(k as int));
                assert(taken@.take(k + 1).last() == taken@[k as int]);
            }
            Hit::pickup(logic, &taken[k]);
            k += 1;
        }
        proof {
            lemma_take_all(taken@);
        }
    }

    /// Adds the score for `count` targets worth `unit` each, times `level`.
    pub fn award(logic: &mut Logic, count: usize, unit: i32, level: i32)
        requires
            old(logic).wf(),
        ensures
            final(logic).wf(),
            final(logic)@ == old(logic)@.scored(count * unit * level),
    {
        assert(-0x4000_0000_0000_0000 <= (unit as int) * (level as int) <= 0x4000_0000_0000_0000)
            by (nonlinear_arith)
            requires
                -0x8000_0000 <= unit <= 0x7fff_ffff,
                -0x8000_0000 <= level <= 0x7fff_ffff,
        ;
        let each: i128 = (unit as i128) * (level as i128);
        let many: i128 = count as i128;
        assert(-0x4000_0000_0000_0000_0000_0000_0000_0000 <= many * each
            <= 0x4000_0000_0000_0000_0000_0000_0000_0000) by (nonlinear_arith)
            requires
                0 <= many <= 0xffff_ffff_ffff_ffff,
                -0x4000_0000_0000_0000 <= each <= 0x4000_0000_0000_0000,
        ;
        assert(many * each == count * unit * level) by (nonlinear_arith)
            requires
                many == count,
                each == unit * level,
        ;
        let total: i128 = (logic.score_increment as i128) + many * each;
        logic.score_increment = if total > i32::MAX as i128 {
            i32::MAX
        } else if total < i32::MIN as i128 {
            i32::MIN
        } else {
            total as i32
        };
    }

    /// Lets the projectiles of the player strike the targets: while the block
    /// is active the projectiles of both sides block each other first, then
    /// the boss is checked, then the enemies. Everything destroyed scores,
    /// times `level`.
    pub fn targets(logic: &mut Logic, level: &i32)
        requires
            old(logic).wf(),
        ensures
            final(logic).wf(),
            exists|dirs: Seq<Direction>|
                (forall|i: int| 0 <= i < dirs.len() ==> (#[trigger] dirs[i]).is_upward_diagonal())
                    && final(logic)@ == old(logic)@.after_targets(*level, dirs),
    {
        if Handle::power(&logic.effects, &Effect::Block) {
            Hit::lasers(logic);
        }
        if Hit::boss(logic) {
            Hit::award(logic, 1, BOSS_SCORE, *level);
        }
        let ghost hunted = logic@;
        assert(hunted == old(logic)@.quarry(*level));
        let killed = Hit::enemies(logic);
        let ghost struck = logic@;
        Hit::award(logic, killed, ENEMY_SCORE, *level);
        proof {
            let dirs = choose|dirs: Seq<Direction>|
                dirs.len() == hunted.spent().len() && (forall|i: int|
                    0 <= i < dirs.len() ==> (#[trigger] dirs[i]).is_upward_diagonal()) && struck
                    == hunted.after_hit_enemies(dirs);
            assert(logic@ == old(logic)@.after_targets(*level, dirs));
        }
    }

    /// Tells for each structure the lives it has left after what the ships
    /// burden it with.
    pub fn toll(structures: &Vec<Shield>, ships: &Vec<Shooter>) -> (left: Vec<i8>)
        ensures
            left@.len() == structures@.len(),
            forall|i: int|
                0 <= i < left@.len() ==> left@[i] == lives_left(
                    (#[trigger] structures@[i]).lives,
                    strain(views(ships@))(structures@[i].pos),
                ),
    {
        let mut left: Vec<i8> = Vec::new();
        let mut i: usize = 0;
        while i < structures.len()
            invariant
                i <= structures@.len(),
                left@.len() == i,
                forall|j: int|
                    0 <= j < i ==> left@[j] == lives_left(
                        (#[trigger] structures@[j]).lives,
                        strain(views(ships@))(structures@[j].pos),
                    ),
            decreases structures@.len() - i,
        {
            let structure = structures[i];
            left.push(wear(ships, structure.pos, structure.lives));
            i += 1;
        }
        left
    }

    /// Removes the ships and the projectiles that are in the cell of a
    /// structure.
    pub fn repel(ships: &mut Vec<Shooter>, structures: &Vec<Shield>)
        ensures
            views(final(ships)@) == repelled(views(old(ships)@), structures@),
            all_settled(views(old(ships)@)) ==> all_settled(views(final(ships)@)),
    {
        let mut marks: Vec<bool> = Vec::new();
        let mut k: usize = 0;
        while k < ships.len()
            invariant
                k <= ships@.len(),
                *ships == *old(ships),
                marks@.len() == k,
                forall|j: int|
                    0 <= j < k ==> marks@[j] == outside(structures@)((#[trigger] ships@[j])@),
            decreases ships@.len() - k,
        {
            marks.push(!shield_at(structures, ships[k].pos()));
            k += 1;
        }
        proof {
            lemma_retained(ships@, marks@, outside(structures@));
            if all_settled(views(ships@)) {
                lemma_filter_settled(views(ships@), outside(structures@));
                lemma_sifted_settled(
                    views(ships@).filter(outside(structures@)),
                    uncovered(structures@),
                );
            }
        }
        retain_marked(ships, &marks);
        screen(ships, structures);
    }

    /// Lets the obstacles stand against the enemies.
    pub fn obstacles(logic: &mut Logic)
        requires
            old(logic).wf(),
        ensures
            final(logic).wf(),
            final(logic)@ == old(logic)@.after_hit_obstacles(),
    {
        if logic.effects.stamp(Effect::Obstacle).is_some() {
            if logic.effects.has_lapsed(Effect::Obstacle) {
                logic.obstacles.clear();
            } else {
                let left = Hit::toll(&logic.obstacles, &logic.enemies);
                Hit::repel(&mut logic.enemies, &logic.obstacles);
                settle(&mut logic.obstacles, &left, Ghost(strain(old(logic)@.enemies)));
            }
        }
    }

    /// Lets the shields stand against the enemies.
    pub fn shields(logic: &mut Logic)
        requires
            old(logic).wf(),
        ensures
            final(logic).wf(),
            final(logic)@ == old(logic)@.after_hit_shields(),
    {
        if logic.effects.stamp(Effect::Shield).is_some() {
            if logic.effects.has_lapsed(Effect::Shield) {
                logic.shields.clear();
            } else {
                let left = Hit::toll(&logic.shields, &logic.enemies);
                Hit::repel(&mut logic.enemies, &logic.shields);
                settle(&mut logic.shields, &left, Ghost(strain(old(logic)@.enemies)));
            }
        }
    }

    /// Lets the escort stand against the enemies.
    pub fn follower(logic: &mut Logic)
        requires
            old(logic).wf(),
        ensures
            final(logic).wf(),
            final(logic)@ == old(logic)@.after_hit_follower(),
    {
        if let Some(escort) = logic.follower {
            let left = wear(&logic.enemies, escort.pos, escort.lives);
            let mut cover: Vec<Shield> = Vec::new();
            cover.push(escort);
            assert(cover@ =~= seq![escort]);
            Hit::repel(&mut logic.enemies, &cover);
            if left > 0 {
                logic.follower = Some(Shield::new(escort.pos, left, escort.color, escort.char));
            } else {
                logic.follower = None;
                logic.effects.force_expire(Effect::Follower);
            }
        }
    }

    /// Checks for a hit on the boss and tells whether it was struck. A boss
    /// that was struck is gone.
    pub fn boss(logic: &mut Logic) -> (r: bool)
        requires
            old(logic).wf(),
        ensures
            final(logic).wf(),
            final(logic)@ == old(logic)@.after_hit_boss(),
            r == old(logic)@.boss_struck(),
    {
        if let Some(boss) = logic.boss {
            let mut i: usize = 0;
            while i < logic.player.bullets.len()
                invariant
                    i <= logic.player.bullets@.len(),
                    *logic == *old(logic),
                    logic.wf(),
                    logic.boss == Some(boss),
                    forall|j: int|
                        0 <= j < i ==> !boss.spec_covers((#[trigger] logic@.player.bullets[j]).pos),
                decreases logic.player.bullets@.len() - i,
            {
                if boss.covers(logic.player.bullets[i].pos) {
                    assert(boss.spec_covers(logic@.player.bullets[i as int].pos));
                    logic.boss = None;
                    return true;
                }
                i += 1;
            }
        }
        false
    }

    /// Lets the projectiles of both sides block each other: those that share a
    /// cell with one of the other side are gone.
    pub fn lasers(logic: &mut Logic)
        requires
            old(logic).wf(),
        ensures
            final(logic).wf(),
            final(logic)@ == old(logic)@.after_lasers(),
    {
        let mut kept: VecDeque<Bullet> = VecDeque::new();
        let mut i: usize = 0;
        let ghost shots = logic.player.bullets@;
        let ghost foes = logic@.enemies;
        while i < logic.player.bullets.len()
            invariant
                i <= shots.len(),
                *logic == *old(logic),
                shots == logic.player.bullets@,
                foes == logic@.enemies,
                kept@ == shots.take(i as int).filter(unopposed(foes)),
            decreases shots.len() - i,
        {
            proof {
                lemma_filter_step(shots, i as int, unopposed(foes));
            }
            let bullet = logic.player.bullets[i];
            if !fired_at(&logic.enemies, bullet.pos) {
                kept.push_back(bullet);
            }
            i += 1;
        }
        proof {
            lemma_take_all(shots);
            lemma_sifted_settled(foes, unmet(shots));
            lemma_filter_members(shots, unopposed(foes));
            assert forall|k: int| 0 <= k < kept@.len() implies near_field(
                (#[trigger] kept@[k]).pos,
            ) by {
                assert(shots.contains(kept@[k]));
                let m = choose|m: int| 0 <= m < shots.len() && shots[m] == kept@[k];
                assert(near_field(shots[m].pos));
            }
        }
        sift_unmet(&mut logic.enemies, &logic.player.bullets);
        logic.player.bullets = kept;
    }
}

} // verus!
