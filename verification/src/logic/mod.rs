//! The simulation engine: the state of one game and the commands that drive
//! it, one tick at a time.

use vstd::prelude::*;

pub mod generate;
pub mod handle;
pub mod hit;
pub mod shift;

use crate::boss::Boss;
use crate::direction::Direction;
use crate::effects::{EffectRegistry, RegistryView};
use crate::power::{Effect, PowerUp};
use crate::shield::Shield;
use crate::logic::generate::Generate;
use crate::logic::handle::Handle;
use crate::logic::hit::Hit;
use crate::logic::shift::Move;
use crate::shooter::{all_settled, views, Shooter, ShooterView};
use crate::util::{on_field, spec_out_of_bounds};
use crate::{COLS, LINES};

verus! {

/// Score for destroying the boss, per level.
pub const BOSS_SCORE: i32 = 4000;

/// Score for destroying one enemy, per level.
pub const ENEMY_SCORE: i32 = 20;

/// Rows of an enemy formation.
pub const ENEMY_ROWS: i32 = 4;

/// Enemies in each row of a formation.
pub const ENEMIES_PER_ROW: i32 = 10;

/// How long an effect lasts after its activation, in milliseconds.
pub const POWER_COOLDOWN: i64 = 10_000;

/// Pause between two shots of the player, in milliseconds.
pub const ATTACK_COOLDOWN: i64 = 600;

/// Pause between two shots while the quick shot is active.
pub const QUICKSHOT_ATTACK_COOLDOWN: i64 = 300;

/// Pause between two shots while the double shot is active.
pub const DOUBLE_ATTACK_COOLDOWN: i64 = 1000;

/// Pause between two shots while the triple shot is active.
pub const TRIPLE_ATTACK_COOLDOWN: i64 = 1600;

/// Pause between two shots while double and triple shot are both active.
pub const COMBINED_ATTACK_COOLDOWN: i64 = 2000;

/// Odds, in thousandths, that a power-up appears in a tick.
pub const POWER_PROBABILITY: i32 = 80;

/// Odds, in thousandths, that an enemy fires in a tick.
pub const FIRE_PROBABILITY: i32 = 50;

/// Odds, in thousandths, that the boss appears in a tick.
pub const BOSS_PROBABILITY: i32 = 1;

/// One more than the number of shields in a barrier.
pub const SHIELDS: i32 = 14;

/// Number of obstacles in a column of obstacles.
pub const OBSTACLES: i32 = 4;

/// Number of ticks the formation retreats after a yield.
pub const YIELDS: i32 = 3;

/// Glyph of the player's ship and of its double: `*`.
pub const CHAR_PLAYER: u32 = 42;

/// Glyph of an enemy: `v`.
pub const CHAR_ENEMY: u32 = 118;

/// Glyph of a laser: `:`.
pub const CHAR_LASER: u32 = 58;

/// Glyph of a projectile of the player: `.`.
pub const CHAR_BULLET: u32 = 46;

/// Glyph of a projectile of the ultra shot: `|`.
pub const CHAR_ULTRA: u32 = 124;

/// Glyph of an obstacle: a blank, drawn as a block of colour.
pub const CHAR_OBSTACLE: u32 = 32;

/// Glyph of a shield: `_`.
pub const CHAR_SHIELD: u32 = 95;

/// Glyph of the escort.
pub const CHAR_FOLLOWER: u32 = CHAR_SHIELD;

/// Glyph of the boss: `V`.
pub const CHAR_BOSS: u32 = 86;

/// Colour tag of a laser and of a frozen enemy.
pub const COLOR_LASER: i16 = 1;

/// Colour tag of an enemy.
pub const COLOR_ENEMY: i16 = 2;

/// Colour tag of the player's ship.
pub const COLOR_PLAYER: i16 = 3;

/// Colour tag of the escort.
pub const COLOR_FOLLOWER: i16 = COLOR_PLAYER;

/// Colour tag of a projectile of the player.
pub const COLOR_BULLET: i16 = 4;

/// Colour tag of a projectile of the ultra shot.
pub const COLOR_ULTRA: i16 = COLOR_BULLET;

/// Colour tag of the player's double.
pub const COLOR_ALLY: i16 = COLOR_BULLET;

/// Colour tag of a power-up.
pub const COLOR_POWERS: i16 = 5;

/// Colour tag of a shield.
pub const COLOR_SHIELDS: i16 = 6;

/// Colour tag of an obstacle.
pub const COLOR_OBSTACLES: i16 = 7;

/// Colour tag of the boss.
pub const COLOR_BOSS: i16 = 8;

/// The mathematical content of a game: every field of the engine, with ships
/// and the registry replaced by their views and collections by sequences.
pub struct LogicView {
    pub enemies: Seq<ShooterView>,
    pub player: ShooterView,
    pub powers: Seq<PowerUp>,
    pub shields: Seq<Shield>,
    pub obstacles: Seq<Shield>,
    pub follower: Option<Shield>,
    pub effects: RegistryView,
    pub boss: Option<Boss>,
    pub height: i32,
    pub width: i32,
    pub dir: Direction,
    pub last_attack: i64,
    pub cooldown_attack: i64,
    pub score_increment: i32,
    pub xerox: Option<ShooterView>,
    pub slow_down: bool,
    pub yield_counter: i32,
    pub last_dir: Option<Direction>,
    pub descent_from: Direction,
}

/// A playfield of the given height and width is one the engine can run on:
/// the grid of `LINES` by `COLS` cells, whose walls stop ships and
/// projectiles. The height and the width place the player, the structures
/// and the turning points of the formation on that grid.
pub open spec fn field_fits(height: i32, width: i32) -> bool {
    height == LINES && width == COLS
}

/// What chance contributes to one round of generation: for every enemy whether
/// it fires and the heading drawn for it, the power-up that appears, if any,
/// and whether the roll for the boss hit.
pub struct Draws {
    pub fires: Seq<bool>,
    pub dirs: Seq<Direction>,
    pub power: Option<PowerUp>,
    pub boss: bool,
}

/// Whether every heading of the sequence is one that a draw can produce.
pub open spec fn all_drawn(dirs: Seq<Direction>) -> bool {
    forall|i: int| 0 <= i < dirs.len() ==> (#[trigger] dirs[i]).is_upward_diagonal()
}

impl LogicView {
    /// Whether the pause since the player's last shot is over.
    pub open spec fn can_attack(self) -> bool {
        self.effects.now - self.last_attack >= self.cooldown_attack
    }

    /// The game after the player pulled the trigger. Nothing happens before
    /// the pause since the last shot is over. Then the player fires upward, an
    /// explosive projectile while the grenade is active; the shot is
    /// accompanied as `after_attack` says, and the time of the shot is noted.
    pub open spec fn after_player_shoot(self) -> LogicView {
        if self.can_attack() {
            LogicView {
                last_attack: self.effects.now as i64,
                ..LogicView {
                    player: self.player.fired(
                        Direction::Up,
                        self.active(Effect::Grenade),
                        CHAR_BULLET,
                        COLOR_BULLET,
                    ),
                    ..self
                }.after_attack()
            }
        } else {
            self
        }
    }

    /// The game after the player moved along `dir` and its companions, the
    /// escort and the double, followed.
    pub open spec fn after_player_move(self, dir: Direction) -> LogicView {
        self.after_move_player(dir).after_move_follower().after_move_xerox()
    }

    /// Whether the draws are such as chance can make them: the headings are
    /// upward diagonals and the power-up, if any, lies inside the walls.
    pub open spec fn admits(self, draws: Draws) -> bool {
        &&& all_drawn(draws.dirs)
        &&& draws.power matches Some(power) ==> self.power_spot(power.pos) && power
            == PowerUp::spec_new(power.pos, power.effect)
    }

    /// The game after one round of generation with the given draws: the
    /// enemies fire, a power-up and the boss may appear, the double and the
    /// obstacles are looked after.
    pub open spec fn after_generate(self, draws: Draws) -> LogicView {
        let fired = self.after_enemy_attack(draws.fires, draws.dirs);
        let supplied = match draws.power {
            Some(power) => fired.with_power(power),
            None => fired,
        };
        supplied.after_boss(draws.boss).after_xerox().after_obstacles()
    }

    /// The game before the foes move in a shift: the projectiles of the player
    /// moved and struck their targets.
    pub open spec fn before_foes(self, level: i32, dirs: Seq<Direction>) -> LogicView {
        self.after_move_bullets().after_targets(level, dirs)
    }

    /// The game after a shift: the projectiles of the player move and strike
    /// their targets, then the foes move, and the player's companions take
    /// their place beside the player.
    pub open spec fn after_shift(self, level: i32, dirs: Seq<Direction>) -> LogicView {
        self.before_foes(level, dirs).after_foes().after_move_follower().after_move_xerox()
    }

    /// The game before the projectiles of the player strike their targets in
    /// a round of collisions: power-ups are picked up, then the shields, the
    /// escort and the obstacles stand against the enemies.
    pub open spec fn before_targets(self) -> LogicView {
        self.after_hit_powers().after_hit_shields().after_hit_follower().after_hit_obstacles()
    }

    /// The game before the check for a hit on the player in a round of
    /// collisions: power-ups are picked up, the structures stand against the
    /// enemies, the projectiles of the player strike their targets, and the
    /// enemies that were under a mind control that is over are removed.
    pub open spec fn before_verdict(self, level: i32, dirs: Seq<Direction>) -> LogicView {
        self.before_targets().after_targets(level, dirs).after_mind_control()
    }

    /// The game after a round of collisions.
    pub open spec fn after_hit(self, level: i32, dirs: Seq<Direction>) -> LogicView {
        self.before_verdict(level, dirs).after_hit_player()
    }

    /// Whether `effect` is active.
    pub open spec fn active(self, effect: Effect) -> bool {
        self.effects.is_active(effect)
    }

    /// The invariant of a game. The playfield fits; the player is settled and
    /// has no negative coordinate; every enemy and the double are settled; the
    /// boss is on the field; no time is negative; the formation heads left,
    /// right or down, or up in a retreat; while it retreats, the heading it
    /// came from is remembered; and the heading that led to the last descent
    /// is a sideways one.
    pub open spec fn wf(self) -> bool {
        &&& field_fits(self.height, self.width)
        &&& self.player.settled()
        &&& 0 <= self.player.pos.0
        &&& 0 <= self.player.pos.1
        &&& all_settled(self.enemies)
        &&& self.xerox matches Some(double) ==> double.settled()
        &&& self.boss matches Some(boss) ==> on_field(boss.pos)
        &&& self.effects.now >= 0
        &&& self.last_attack >= 0
        &&& self.dir.is_formation_heading()
        &&& self.last_dir matches Some(dir) ==> dir.is_formation_heading()
        &&& self.dir == Direction::Up ==> self.last_dir.is_some()
        &&& self.descent_from.is_sideways()
    }

    /// The state of a new game on a playfield of the given height and width:
    /// the player in the middle of the row above the bottom wall, the
    /// formation heading right, as if a sweep to the right had led to its last
    /// descent, nothing else on the field.
    pub open spec fn fresh(height: i32, width: i32) -> LogicView {
        LogicView {
            enemies: Seq::empty(),
            player: ShooterView::fresh(
                ((height - 2) as i32, (width / 2) as i32),
                CHAR_PLAYER,
                COLOR_PLAYER,
            ),
            powers: Seq::empty(),
            shields: Seq::empty(),
            obstacles: Seq::empty(),
            follower: None,
            effects: RegistryView { stamps: Map::empty(), now: 0 },
            boss: None,
            height,
            width,
            dir: Direction::Right,
            last_attack: 0,
            cooldown_attack: ATTACK_COOLDOWN,
            score_increment: 0,
            xerox: None,
            slow_down: false,
            yield_counter: 0,
            last_dir: None,
            descent_from: Direction::Right,
        }
    }
}

/// The engine: every entity on the playfield, the registry of effects and the
/// state of the formation.
#[derive(Debug)]
pub struct Logic {
    pub enemies: Vec<Shooter>,
    pub player: Shooter,
    pub powers: Vec<PowerUp>,
    pub shields: Vec<Shield>,
    pub obstacles: Vec<Shield>,
    pub follower: Option<Shield>,
    pub effects: EffectRegistry,
    pub boss: Option<Boss>,
    pub height: i32,
    pub width: i32,
    pub dir: Direction,
    pub last_attack: i64,
    pub cooldown_attack: i64,
    pub score_increment: i32,
    pub xerox: Option<Shooter>,
    pub slow_down: bool,
    pub yield_counter: i32,
    pub last_dir: Option<Direction>,
    pub descent_from: Direction,
}

impl View for Logic {
    type V = LogicView;

    open spec fn view(&self) -> LogicView {
        LogicView {
            enemies: views(self.enemies@),
            player: self.player@,
            powers: self.powers@,
            shields: self.shields@,
            obstacles: self.obstacles@,
            follower: self.follower,
            effects: self.effects@,
            boss: self.boss,
            height: self.height,
            width: self.width,
            dir: self.dir,
            last_attack: self.last_attack,
            cooldown_attack: self.cooldown_attack,
            score_increment: self.score_increment,
            xerox: match self.xerox {
                Some(double) => Some(double@),
                None => None,
            },
            slow_down: self.slow_down,
            yield_counter: self.yield_counter,
            last_dir: self.last_dir,
            descent_from: self.descent_from,
        }
    }
}

impl Logic {
    /// The invariant of the engine: the registry is well formed and the game
    /// it stands for satisfies the invariant of a game.
    pub open spec fn wf(&self) -> bool {
        self.effects.wf() && self@.wf()
    }

    /// Starts a game on a playfield of the given height and width.
    pub fn new(height: i32, width: i32) -> (r: Logic)
        requires
            field_fits(height, width),
        ensures
            r.wf(),
            r@ == LogicView::fresh(height, width),
            r.enemies@.len() == 0,
    {
        let r = Logic {
            enemies: Vec::new(),
            powers: Vec::new(),
            effects: EffectRegistry::new(),
            shields: Vec::new(),
            obstacles: Vec::new(),
            player: Shooter::new((height - 2, width / 2), CHAR_PLAYER, COLOR_PLAYER),
            follower: None,
            boss: None,
            xerox: None,
            height,
            width,
            dir: Direction::Right,
            last_attack: 0,
            cooldown_attack: ATTACK_COOLDOWN,
            score_increment: 0,
            slow_down: false,
            yield_counter: 0,
            last_dir: None,
            descent_from: Direction::Right,
        };
        assert(r@.enemies =~= Seq::empty());
        r
    }

    /// Feeds the engine's clock with a reading, in milliseconds. A reading that
    /// lies before the current time is ignored.
    pub fn sync_clock(&mut self, reading: i64)
        requires
            old(self).wf(),
        ensures
            final(self).wf(),
            final(self)@ == (LogicView {
                effects: old(self)@.effects.advanced_to(reading as int),
                ..old(self)@
            }),
    {
        self.effects.advance_to(reading);
    }

    /// Starts the next level: a full formation appears and the level counter
    /// goes up by one.
    pub fn level_up(&mut self, level: &mut i32)
        requires
            old(self).wf(),
            *old(level) < i32::MAX,
        ensures
            final(self).wf(),
            final(self)@ == old(self)@.after_enemies(),
            *final(level) == *old(level) + 1,
    {
        Generate::enemies(self);
        *level += 1;
    }

    /// Pulls the trigger of the player's ship.
    pub fn player_shoot(&mut self)
        requires
            old(self).wf(),
        ensures
            final(self).wf(),
            final(self)@ == old(self)@.after_player_shoot(),
    {
        let now = self.effects.now();
        if now - self.last_attack >= self.cooldown_attack {
            let grenade = Handle::power(&self.effects, &Effect::Grenade);
            self.player.shoot(Direction::Up, grenade, CHAR_BULLET, COLOR_BULLET);
            Handle::attack(self);
            self.last_attack = now;
        }
    }

    /// Moves the player along `direction`; its companions follow.
    pub fn player_move(&mut self, direction: &Direction)
        requires
            old(self).wf(),
        ensures
            final(self).wf(),
            final(self)@ == old(self)@.after_player_move(*direction),
    {
        Move::player(self, direction);
        Move::follower(self);
        Move::xerox(self);
    }

    /// Runs one round of generation: the enemies roll for their turn to fire,
    /// a power-up and the boss may appear, the double and the obstacles are
    /// looked after.
    pub fn generate(&mut self)
        requires
            old(self).wf(),
        ensures
            final(self).wf(),
            exists|draws: Draws|
                old(self)@.admits(draws) && final(self)@ == old(self)@.after_generate(draws),
    {
        Generate::enemy_attack(self);
        let ghost fired = self@;
        Generate::power(self);
        let ghost supplied = self@;
        Generate::boss(self);
        let ghost crowned = self@;
        Generate::xerox(self);
        Generate::obstacles(self);
        proof {
            let (fires, dirs) = choose|fires: Seq<bool>, dirs: Seq<Direction>|
                fires.len() == old(self)@.enemies.len() && dirs.len() == fires.len() && (forall|
                    i: int,
                | 0 <= i < dirs.len() ==> (#[trigger] dirs[i]).is_upward_diagonal()) && fired
                    == old(self)@.after_enemy_attack(fires, dirs);
            let boss = choose|event: bool| crowned == supplied.after_boss(event);
            let (event, pos, effect) = choose|event: bool, pos: (i32, i32), effect: Effect|
                fired.power_spot(pos) && supplied == #[trigger] fired.after_power(
                    event,
                    PowerUp::spec_new(pos, effect),
                );
            let power = if event {
                Some(PowerUp::spec_new(pos, effect))
            } else {
                None
            };
            let draws = Draws { fires, dirs, power, boss };
            assert(fired.height == old(self)@.height && fired.width == old(self)@.width) by {
                crate::logic::generate::lemma_enemy_attack_frame(old(self)@, fires, dirs);
            }
            assert(old(self)@.admits(draws));
            assert(self@ == old(self)@.after_generate(draws));
        }
    }

    /// Runs the movement of one tick: the projectiles of the player move and
    /// strike their targets, scoring for `level`, then the foes move, and the
    /// player's companions take their place. Tells whether the formation has
    /// overrun the player.
    pub fn shift(&mut self, level: &i32) -> (r: bool)
        requires
            old(self).wf(),
        ensures
            final(self).wf(),
            exists|dirs: Seq<Direction>|
                all_drawn(dirs) && final(self)@ == old(self)@.after_shift(*level, dirs) && r
                    == old(self)@.before_foes(*level, dirs).foes_overrun(),
    {
        Move::bullets(self);
        let ghost flown = self@;
        Hit::targets(self, level);
        let ghost struck = self@;
        let r = Move::foes(self);
        Move::follower(self);
        Move::xerox(self);
        proof {
            let dirs = choose|dirs: Seq<Direction>|
                (forall|i: int| 0 <= i < dirs.len() ==> (#[trigger] dirs[i]).is_upward_diagonal())
                    && struck == flown.after_targets(*level, dirs);
            assert(all_drawn(dirs) && self@ == old(self)@.after_shift(*level, dirs) && r == old(
                self,
            )@.before_foes(*level, dirs).foes_overrun());
        }
        r
    }

    /// Runs the collisions of one tick, scoring for `level`, and tells whether
    /// the player is hit.
    pub fn hit(&mut self, level: &i32) -> (r: bool)
        requires
            old(self).wf(),
        ensures
            final(self).wf(),
            exists|dirs: Seq<Direction>|
                all_drawn(dirs) && final(self)@ == old(self)@.after_hit(*level, dirs) && r == old(
                    self,
                )@.before_verdict(*level, dirs).player_struck(),
    {
        Hit::powers(self);
        Hit::shields(self);
        Hit::follower(self);
        Hit::obstacles(self);
        let ghost guarded = self@;
        Hit::targets(self, level);
        let ghost struck = self@;
        Handle::mind_control(self);
        let r = Hit::player(self);
        proof {
            let dirs = choose|dirs: Seq<Direction>|
                (forall|i: int| 0 <= i < dirs.len() ==> (#[trigger] dirs[i]).is_upward_diagonal())
                    && struck == guarded.after_targets(*level, dirs);
            assert(all_drawn(dirs) && self@ == old(self)@.after_hit(*level, dirs) && r == old(
                self,
            )@.before_verdict(*level, dirs).player_struck());
        }
        r
    }

    /// Adds a formation that starts high up: its topmost row is the row 2.
    pub fn create_enemies(&mut self)
        requires
            old(self).wf(),
        ensures
            final(self).wf(),
            final(self)@ == old(self)@.reinforced(ENEMY_ROWS as int, 1),
    {
        Generate::formation(self, ENEMY_ROWS, 1);
    }

    /// Adds a barrier to the shields.
    pub fn create_shield(&mut self)
        requires
            old(self).wf(),
        ensures
            final(self).wf(),
            final(self)@ == old(self)@.after_shields(),
    {
        Generate::shields(self);
    }

    /// Rolls for the boss.
    pub fn create_boss(&mut self)
        requires
            old(self).wf(),
        ensures
            final(self).wf(),
            exists|event: bool| final(self)@ == old(self)@.after_boss(event),
    {
        Generate::boss(self);
    }

    /// Rolls for a power-up.
    pub fn create_power(&mut self)
        requires
            old(self).wf(),
        ensures
            final(self).wf(),
            exists|event: bool, pos: (i32, i32), effect: Effect|
                old(self)@.power_spot(pos) && final(self)@ == #[trigger] old(self)@.after_power(
                    event,
                    PowerUp::spec_new(pos, effect),
                ),
    {
        Generate::power(self);
    }

    /// Pulls the trigger of the player's ship.
    pub fn player_fire(&mut self)
        requires
            old(self).wf(),
        ensures
            final(self).wf(),
            final(self)@ == old(self)@.after_player_shoot(),
    {
        self.player_shoot();
    }

    /// Lets every enemy roll for its turn to fire.
    pub fn enemy_fire(&mut self)
        requires
            old(self).wf(),
        ensures
            final(self).wf(),
            exists|fires: Seq<bool>, dirs: Seq<Direction>|
                fires.len() == old(self)@.enemies.len() && dirs.len() == fires.len() && all_drawn(
                    dirs,
                ) && final(self)@ == old(self)@.after_enemy_attack(fires, dirs),
    {
        Generate::enemy_attack(self);
        proof {
            let (fires, dirs) = choose|fires: Seq<bool>, dirs: Seq<Direction>|
                fires.len() == old(self)@.enemies.len() && dirs.len() == fires.len() && (forall|
                    i: int,
                | 0 <= i < dirs.len() ==> (#[trigger] dirs[i]).is_upward_diagonal()) && self@
                    == old(self)@.after_enemy_attack(fires, dirs);
            assert(fires.len() == old(self)@.enemies.len() && dirs.len() == fires.len()
                && all_drawn(dirs) && self@ == old(self)@.after_enemy_attack(fires, dirs));
        }
    }

    /// Tells whether the player is hit, and leaves the game as it is.
    pub fn hit_player(&self) -> (r: bool)
        requires
            self.wf(),
        ensures
            r == self@.player_struck(),
    {
        !Handle::power(&self.effects, &Effect::Invincible) && crate::shooter::fired_at(
            &self.enemies,
            self.player.pos(),
        )
    }

    /// Lets the player pick up every power-up in whose cell one of its
    /// projectiles is. In the registry, every effect that a power-up carried
    /// has the one entry that an activation at the current time gives it, and
    /// every other entry is as it was.
    pub fn hit_powers(&mut self)
        requires
            old(self).wf(),
        ensures
            final(self).wf(),
            final(self)@ == old(self)@.after_hit_powers(),
            final(self)@.effects == crate::logic::hit::refreshed(
                old(self)@.effects,
                crate::logic::hit::picked_up(old(self)@.powers, old(self)@.player.bullets),
            ),
    {
        Hit::powers(self);
    }

    /// Lets the projectiles of the player strike the enemies and returns the
    /// number of enemies destroyed.
    pub fn hit_enemies(&mut self) -> (r: usize)
        requires
            old(self).wf(),
        ensures
            final(self).wf(),
            r == old(self)@.killed(),
            exists|dirs: Seq<Direction>|
                dirs.len() == old(self)@.spent().len() && all_drawn(dirs) && final(self)@ == old(
                    self,
                )@.after_hit_enemies(dirs),
    {
        let r = Hit::enemies(self);
        proof {
            let dirs = choose|dirs: Seq<Direction>|
                dirs.len() == old(self)@.spent().len() && (forall|i: int|
                    0 <= i < dirs.len() ==> (#[trigger] dirs[i]).is_upward_diagonal()) && self@
                    == old(self)@.after_hit_enemies(dirs);
            assert(dirs.len() == old(self)@.spent().len() && all_drawn(dirs) && self@ == old(
                self,
            )@.after_hit_enemies(dirs));
        }
        r
    }

    /// Checks for a hit on the boss and tells whether it was struck.
    pub fn hit_boss(&mut self) -> (r: bool)
        requires
            old(self).wf(),
        ensures
            final(self).wf(),
            final(self)@ == old(self)@.after_hit_boss(),
            r == old(self)@.boss_struck(),
    {
        Hit::boss(self)
    }

    /// Lets the shields stand against the enemies.
    pub fn hit_shields(&mut self)
        requires
            old(self).wf(),
        ensures
            final(self).wf(),
            final(self)@ == old(self)@.after_hit_shields(),
    {
        Hit::shields(self);
    }

    /// Moves the boss one column to the right.
    pub fn move_boss(&mut self)
        requires
            old(self).wf(),
        ensures
            final(self).wf(),
            final(self)@ == old(self)@.after_move_boss(),
    {
        Move::boss(self);
    }

    /// Moves the player along `direction`, without its companions.
    pub fn move_player(&mut self, direction: &Direction)
        requires
            old(self).wf(),
        ensures
            final(self).wf(),
            final(self)@ == old(self)@.after_move_player(*direction),
    {
        Move::player(self, direction);
    }

    /// Moves the projectiles of both sides one step and drops those that left
    /// the bounds, so that no projectile on the field is out of bounds.
    pub fn move_bullets(&mut self)
        requires
            old(self).wf(),
        ensures
            final(self).wf(),
            final(self)@ == old(self)@.after_move_bullets().after_move_lasers(),
            forall|k: int|
                0 <= k < final(self)@.player.bullets.len() ==> !spec_out_of_bounds(
                    (#[trigger] final(self)@.player.bullets[k]).pos,
                ),
            forall|i: int, k: int|
                0 <= i < final(self)@.enemies.len()
                    && 0 <= k < final(self)@.enemies[i].bullets.len() ==> !spec_out_of_bounds(
                    (#[trigger] final(self)@.enemies[i].bullets[k]).pos,
                ),
    {
        Move::bullets(self);
        Move::lasers(self);
    }

    /// Moves the formation and tells whether it has overrun the player.
    pub fn move_enemies(&mut self) -> (r: bool)
        requires
            old(self).wf(),
        ensures
            final(self).wf(),
            final(self)@ == old(self)@.after_move_enemies(),
            r == final(self)@.overrun(),
    {
        Move::enemies(self)
    }

    /// The enemies, in formation order.
    pub fn enemies(&self) -> (r: &[Shooter])
        ensures
            r@ == self.enemies@,
            views(r@) == self@.enemies,
    {
        self.enemies.as_slice()
    }

    /// The player's ship.
    pub fn player(&self) -> (r: &Shooter)
        ensures
            r@ == self@.player,
    {
        &self.player
    }

    /// The power-ups on the field.
    pub fn powers(&self) -> (r: &[PowerUp])
        ensures
            r@ == self@.powers,
    {
        self.powers.as_slice()
    }

    /// The shields of the barrier.
    pub fn shields(&self) -> (r: &[Shield])
        ensures
            r@ == self@.shields,
    {
        self.shields.as_slice()
    }

    /// The obstacles.
    pub fn obstacles(&self) -> (r: &[Shield])
        ensures
            r@ == self@.obstacles,
    {
        self.obstacles.as_slice()
    }

    /// The boss, if there is one.
    pub fn boss(&self) -> (r: Option<&Boss>)
        ensures
            r.is_some() == self@.boss.is_some(),
            r.is_some() ==> *r.unwrap() == self@.boss.unwrap(),
    {
        self.boss.as_ref()
    }

    /// The escort, if there is one.
    pub fn follower(&self) -> (r: Option<&Shield>)
        ensures
            r.is_some() == self@.follower.is_some(),
            r.is_some() ==> *r.unwrap() == self@.follower.unwrap(),
    {
        self.follower.as_ref()
    }

    /// The player's double, if there is one.
    pub fn xerox(&self) -> (r: Option<&Shooter>)
        ensures
            r.is_some() == self@.xerox.is_some(),
            r.is_some() ==> r.unwrap()@ == self@.xerox.unwrap(),
    {
        self.xerox.as_ref()
    }

    /// The effects that are active, each once, in the order of the list of
    /// effects.
    pub fn active_effects(&self) -> (r: Vec<Effect>)
        requires
            self.wf(),
        ensures
            r@.to_set() == self@.effects.active_set(),
            r@.no_duplicates(),
            forall|i: int, j: int|
                0 <= i < j < r@.len() ==> r@[i].spec_index() < r@[j].spec_index(),
    {
        self.effects.snapshot_active()
    }

    /// The score gained since the last reset.
    pub fn score_increment(&self) -> (r: i32)
        ensures
            r == self@.score_increment,
    {
        self.score_increment
    }

    /// Sets the score gained back to zero.
    pub fn score_reset(&mut self)
        ensures
            final(self)@ == (LogicView { score_increment: 0, ..old(self)@ }),
            final(self).effects == old(self).effects,
    {
        self.score_increment = 0;
    }

    /// The enemies, for the caller to change.
    pub fn enemies_mut(&mut self) -> (r: &mut Vec<Shooter>)
        ensures
            *r == old(self).enemies,
            final(self)@ == (LogicView { enemies: views(final(r)@), ..old(self)@ }),
            final(self).effects == old(self).effects,
    {
        &mut self.enemies
    }
}

} // verus!
