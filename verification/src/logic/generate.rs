//! What appears on the playfield: formations, structures, the boss, the
//! double, power-ups and the fire of the enemies.

use vstd::prelude::*;
use crate::boss::Boss;
use crate::direction::Direction;
use crate::logic::handle::Handle;
use crate::logic::{
    Logic, LogicView, BOSS_PROBABILITY, CHAR_BOSS, CHAR_BULLET, CHAR_ENEMY, CHAR_FOLLOWER,
    CHAR_LASER, CHAR_OBSTACLE, CHAR_PLAYER, CHAR_SHIELD, COLOR_ALLY, COLOR_BOSS, COLOR_BULLET,
    COLOR_ENEMY, COLOR_FOLLOWER, COLOR_LASER, COLOR_OBSTACLES, COLOR_SHIELDS, ENEMIES_PER_ROW,
    ENEMY_ROWS, FIRE_PROBABILITY, OBSTACLES, POWER_PROBABILITY, SHIELDS,
};
use crate::power::{Effect, PowerUp};
use crate::shield::Shield;
use crate::shooter::{views, Shooter, ShooterView};
use crate::util;
use crate::util::{random_between, MAX_SIDE};

verus! {

/// A formation of `rows` rows of enemies, listed row by row from the top. The
/// rows lie two cells apart, the topmost in the row `2 * top`; the enemies of
/// a row stand in the odd columns from 1 on.
pub open spec fn formation(rows: int, top: int) -> Seq<ShooterView> {
    Seq::new(
        (rows * ENEMIES_PER_ROW) as nat,
        |k: int|
            ShooterView::fresh(
                ((2 * (k / ENEMIES_PER_ROW as int + top)) as i32, (2 * (k % ENEMIES_PER_ROW as int)
                    + 1) as i32),
                CHAR_ENEMY,
                COLOR_ENEMY,
            ),
    )
}

/// The barrier of a playfield of the given height: thirteen shields of three
/// lives in the row above the player, three columns apart.
pub open spec fn barrier(height: i32) -> Seq<Shield> {
    Seq::new(
        (SHIELDS - 1) as nat,
        |k: int|
            Shield {
                pos: ((height - 3) as i32, (3 * (k + 1) - 1) as i32),
                lives: 3,
                color: COLOR_SHIELDS,
                char: CHAR_SHIELD,
            },
    )
}

/// The obstacles of a playfield: four blocks of three lives in the middle
/// column, two rows apart, the lowest two rows above the player.
pub open spec fn pillar(height: i32, width: i32) -> Seq<Shield> {
    Seq::new(
        OBSTACLES as nat,
        |k: int|
            Shield {
                pos: ((height - (4 + 2 * k)) as i32, (width / 2) as i32),
                lives: 3,
                color: COLOR_OBSTACLES,
                char: CHAR_OBSTACLE,
            },
    )
}

/// Whether the enemy at the index `i` fires, according to the draws `fires`.
/// An enemy without a draw does not fire.
pub open spec fn drawn_fire(fires: Seq<bool>, i: int) -> bool {
    0 <= i < fires.len() && fires[i]
}

/// The heading drawn for the enemy at the index `i`. An enemy without a draw
/// gets the left upward diagonal.
pub open spec fn drawn_dir(dirs: Seq<Direction>, i: int) -> Direction {
    if 0 <= i < dirs.len() {
        dirs[i]
    } else {
        Direction::LeftUp
    }
}

impl LogicView {
    /// The game with a formation of `rows` rows added behind the enemies that
    /// are there.
    pub open spec fn reinforced(self, rows: int, top: int) -> LogicView {
        LogicView { enemies: self.enemies + formation(rows, top), ..self }
    }

    /// The game with a full formation added.
    pub open spec fn after_enemies(self) -> LogicView {
        self.reinforced(ENEMY_ROWS as int, 2)
    }

    /// The game with a barrier added to the shields.
    pub open spec fn after_shields(self) -> LogicView {
        LogicView { shields: self.shields + barrier(self.height), ..self }
    }

    /// The game after the obstacles were raised, which happens while their
    /// effect is active and none is standing.
    pub open spec fn after_obstacles(self) -> LogicView {
        if self.active(Effect::Obstacle) && self.obstacles.len() == 0 {
            LogicView { obstacles: pillar(self.height, self.width), ..self }
        } else {
            self
        }
    }

    /// The double as it appears: in the player's row, in the column that
    /// mirrors the player's, under the player's control.
    pub open spec fn new_double(self) -> ShooterView {
        ShooterView::fresh(
            (self.player.pos.0, (self.width - self.player.pos.1) as i32),
            CHAR_PLAYER,
            COLOR_ALLY,
        ).controlled()
    }

    /// The game after the double was looked after: it appears while its effect
    /// is active and leaves when the effect is over.
    pub open spec fn after_xerox(self) -> LogicView {
        if !self.active(Effect::Xerox) {
            LogicView { xerox: None, ..self }
        } else if self.xerox.is_none() {
            LogicView { xerox: Some(self.new_double()), ..self }
        } else {
            self
        }
    }

    /// The game with a new escort of one life in the row above the player, in
    /// the player's column.
    pub open spec fn after_follower(self) -> LogicView {
        LogicView {
            follower: Some(
                Shield {
                    pos: ((self.height - 3) as i32, self.player.pos.1),
                    lives: 1,
                    color: COLOR_FOLLOWER,
                    char: CHAR_FOLLOWER,
                },
            ),
            ..self
        }
    }

    /// The game after the roll for the boss: if the roll hit and there is no
    /// boss, one appears in the top left corner of the field.
    pub open spec fn after_boss(self, event: bool) -> LogicView {
        if event && self.boss.is_none() {
            LogicView {
                boss: Some(Boss { pos: (2, 1), char: CHAR_BOSS, color: COLOR_BOSS }),
                ..self
            }
        } else {
            self
        }
    }

    /// The game with one more power-up.
    pub open spec fn with_power(self, power: PowerUp) -> LogicView {
        LogicView { powers: self.powers.push(power), ..self }
    }

    /// The game after the roll for a power-up: if the roll hit, `power`
    /// appears.
    pub open spec fn after_power(self, event: bool, power: PowerUp) -> LogicView {
        if event {
            self.with_power(power)
        } else {
            self
        }
    }

    /// Whether a power-up may appear in the cell `pos`: inside the walls, not
    /// in the rows next to them.
    pub open spec fn power_spot(self, pos: (i32, i32)) -> bool {
        2 <= pos.0 < self.height - 2 && 1 <= pos.1 < self.width - 1
    }

    /// The game after the enemy at the index `i` had its turn to fire. If it
    /// fires and is its own master, it sends a laser downward from its cell.
    /// If it fires under the player's control, the projectile is the player's
    /// and leaves the enemy's cell along `dir`.
    pub open spec fn with_shot(self, i: int, fire: bool, dir: Direction) -> LogicView {
        if !fire {
            self
        } else if self.enemies[i].is_mind_controlled {
            LogicView {
                player: self.player.fired_from(
                    self.enemies[i].pos,
                    dir,
                    false,
                    CHAR_BULLET,
                    COLOR_BULLET,
                ),
                ..self
            }
        } else {
            LogicView {
                enemies: self.enemies.update(
                    i,
                    self.enemies[i].fired(Direction::Down, false, CHAR_LASER, COLOR_LASER),
                ),
                ..self
            }
        }
    }

    /// The game after the first `n` enemies had their turn to fire, in order.
    pub open spec fn volley(self, fires: Seq<bool>, dirs: Seq<Direction>, n: nat) -> LogicView
        decreases n,
    {
        if n == 0 {
            self
        } else {
            self.volley(fires, dirs, (n - 1) as nat).with_shot(
                n - 1,
                drawn_fire(fires, n - 1),
                drawn_dir(dirs, n - 1),
            )
        }
    }

    /// The game after the enemies fired according to the draws. While the
    /// hijack is active, none fires.
    pub open spec fn after_enemy_attack(self, fires: Seq<bool>, dirs: Seq<Direction>) -> LogicView {
        if self.active(Effect::Hijack) {
            self
        } else {
            self.volley(fires, dirs, self.enemies.len())
        }
    }
}

/// Firing leaves the number of enemies as it was.
pub proof fn lemma_volley_len(game: LogicView, fires: Seq<bool>, dirs: Seq<Direction>, n: nat)
    requires
        n <= game.enemies.len(),
    ensures
        game.volley(fires, dirs, n).enemies.len() == game.enemies.len(),
    decreases n,
{
    if n > 0 {
        lemma_volley_len(game, fires, dirs, (n - 1) as nat);
    }
}

/// Firing changes neither the size of the playfield nor anything but ships
/// and their projectiles.
pub proof fn lemma_enemy_attack_frame(game: LogicView, fires: Seq<bool>, dirs: Seq<Direction>)
    ensures
        game.after_enemy_attack(fires, dirs).height == game.height,
        game.after_enemy_attack(fires, dirs).width == game.width,
{
    lemma_volley_frame(game, fires, dirs, game.enemies.len());
}

/// Firing by the first `n` enemies changes neither the size of the playfield
/// nor anything but ships and their projectiles.
pub proof fn lemma_volley_frame(game: LogicView, fires: Seq<bool>, dirs: Seq<Direction>, n: nat)
    ensures
        game.volley(fires, dirs, n).height == game.height,
        game.volley(fires, dirs, n).width == game.width,
    decreases n,
{
    if n > 0 {
        lemma_volley_frame(game, fires, dirs, (n - 1) as nat);
    }
}

/// The generators.
pub struct Generate;

impl Generate {
    /// Adds a formation of `rows` rows whose top row is the row `2 * top`. The
    /// lowest row has to lie on the field.
    pub fn formation(logic: &mut Logic, rows: i32, top: i32)
        requires
            old(logic).wf(),
            0 <= rows,
            0 <= top,
            2 * (rows + top) <= MAX_SIDE,
        ensures
            final(logic).wf(),
            final(logic)@ == old(logic)@.reinforced(rows as int, top as int),
    {
        let ghost before = logic@.enemies;
        let mut j: i32 = 0;
        while j < rows
            invariant
                0 <= j <= rows,
                0 <= top,
                2 * (rows + top) <= MAX_SIDE,
                logic.wf(),
                logic@ == (LogicView {
                    enemies: before + formation(rows as int, top as int).take(
                        j * ENEMIES_PER_ROW,
                    ),
                    ..old(logic)@
                }),
            decreases rows - j,
        {
            let mut i: i32 = 0;
            while i < ENEMIES_PER_ROW
                invariant
                    0 <= i <= ENEMIES_PER_ROW,
                    0 <= j < rows,
                    0 <= top,
                    2 * (rows + top) <= MAX_SIDE,
                    logic.wf(),
                    logic@ == (LogicView {
                        enemies: before + formation(rows as int, top as int).take(
                            j * ENEMIES_PER_ROW + i,
                        ),
                        ..old(logic)@
                    }),
                decreases ENEMIES_PER_ROW - i,
            {
                let ghost k = j * ENEMIES_PER_ROW + i;
                let ghost whole = formation(rows as int, top as int);
                let enemy = Shooter::new((2 * (j + top), 2 * i + 1), CHAR_ENEMY, COLOR_ENEMY);
                proof {
                    assert(k / (ENEMIES_PER_ROW as int) == j && k % (ENEMIES_PER_ROW as int) == i);
                    assert(enemy@ == whole[k]);
                    assert(whole.take(k + 1) =~= whole.take(k).push(whole[k]));
                }
                let ghost ships = logic.enemies@;
                logic.enemies.push(enemy);
                proof {
                    assert(views(logic.enemies@) =~= views(ships).push(whole[k]));
                    assert(logic@.enemies =~= before + whole.take(k + 1));
                    assert forall|m: int| 0 <= m < logic@.enemies.len() implies (
                    #[trigger] logic@.enemies[m]).settled() by {
                        if m < ships.len() {
                            assert(views(ships)[m].settled());
                        }
                    }
                }
                i += 1;
            }
            j += 1;
        }
        proof {
            let whole = formation(rows as int, top as int);
            assert(whole.take(rows * ENEMIES_PER_ROW) =~= whole);
        }
    }

    /// Adds a full formation behind the enemies that are there.
    pub fn enemies(logic: &mut Logic)
        requires
            old(logic).wf(),
        ensures
            final(logic).wf(),
            final(logic)@ == old(logic)@.after_enemies(),
    {
        Generate::formation(logic, ENEMY_ROWS, 2);
    }

    /// Adds a barrier to the shields.
    pub fn shields(logic: &mut Logic)
        requires
            old(logic).wf(),
        ensures
            final(logic).wf(),
            final(logic)@ == old(logic)@.after_shields(),
    {
        let ghost before = logic@.shields;
        let ghost whole = barrier(logic.height);
        let mut i: i32 = 1;
        while i < SHIELDS
            invariant
                1 <= i <= SHIELDS,
                logic.wf(),
                whole == barrier(logic.height),
                logic@ == (LogicView { shields: before + whole.take(i - 1), ..old(logic)@ }),
            decreases SHIELDS - i,
        {
            let shield = Shield::new((logic.height - 3, 3 * i - 1), 3, COLOR_SHIELDS, CHAR_SHIELD);
            proof {
                assert(shield == whole[i - 1]);
                assert(whole.take(i as int) =~= whole.take(i - 1).push(whole[i - 1]));
            }
            logic.shields.push(shield);
            assert(logic@.shields =~= before + whole.take(i as int));
            i += 1;
        }
        assert(whole.take(SHIELDS - 1) =~= whole);
    }

    /// Raises the obstacles while their effect is active and none is standing.
    pub fn obstacles(logic: &mut Logic)
        requires
            old(logic).wf(),
        ensures
            final(logic).wf(),
            final(logic)@ == old(logic)@.after_obstacles(),
    {
        let obstacle = Handle::power(&logic.effects, &Effect::Obstacle);
        if obstacle && logic.obstacles.len() == 0 {
            let ghost whole = pillar(logic.height, logic.width);
            let mut i: i32 = 0;
            assert(logic@.obstacles =~= whole.take(0));
            while i < OBSTACLES
                invariant
                    0 <= i <= OBSTACLES,
                    logic.wf(),
                    whole == pillar(logic.height, logic.width),
                    logic@ == (LogicView { obstacles: whole.take(i as int), ..old(logic)@ }),
                decreases OBSTACLES - i,
            {
                let block = Shield::new(
                    (logic.height - (4 + 2 * i), logic.width / 2),
                    3,
                    COLOR_OBSTACLES,
                    CHAR_OBSTACLE,
                );
                proof {
                    assert(block == whole[i as int]);
                    assert(whole.take(i + 1) =~= whole.take(i as int).push(whole[i as int]));
                }
                logic.obstacles.push(block);
                i += 1;
            }
            assert(whole.take(OBSTACLES as int) =~= whole);
        }
    }

    /// Looks after the double: it appears while its effect is active and
    /// leaves when the effect is over.
    pub fn xerox(logic: &mut Logic)
        requires
            old(logic).wf(),
        ensures
            final(logic).wf(),
            final(logic)@ == old(logic)@.after_xerox(),
    {
        let xerox = Handle::power(&logic.effects, &Effect::Xerox);
        if logic.xerox.is_none() && xerox {
            let player_pos = logic.player.pos();
            let y = logic.width - player_pos.1;
            let mut double = Shooter::new((player_pos.0, y), CHAR_PLAYER, COLOR_ALLY);
            double.mind_control();
            logic.xerox = Some(double);
        }
        if !xerox {
            logic.xerox = None
        }
    }

    /// Puts a new escort in the row above the player, in the player's column.
    pub fn follower(logic: &mut Logic)
        requires
            old(logic).wf(),
        ensures
            final(logic).wf(),
            final(logic)@ == old(logic)@.after_follower(),
    {
        let player_x = logic.player.pos().1;
        logic.follower = Some(
            Shield::new((logic.height - 3, player_x), 1, COLOR_FOLLOWER, CHAR_FOLLOWER),
        );
    }

    /// Lets the boss appear if `event` is set and there is no boss.
    pub fn boss_on(logic: &mut Logic, event: bool)
        requires
            old(logic).wf(),
        ensures
            final(logic).wf(),
            final(logic)@ == old(logic)@.after_boss(event),
    {
        if event && logic.boss.is_none() {
            logic.boss = Some(Boss::new((2, 1)));
        }
    }

    /// Rolls for the boss and lets it appear if the roll hit and there is no
    /// boss.
    pub fn boss(logic: &mut Logic)
        requires
            old(logic).wf(),
        ensures
            final(logic).wf(),
            exists|event: bool| final(logic)@ == old(logic)@.after_boss(event),
    {
        let event = util::random_event(BOSS_PROBABILITY);
        Generate::boss_on(logic, event);
    }

    /// Puts the power-up that carries `effect` in the cell `pos`.
    pub fn power_at(logic: &mut Logic, pos: (i32, i32), effect: Effect)
        requires
            old(logic).wf(),
        ensures
            final(logic).wf(),
            final(logic)@ == old(logic)@.with_power(PowerUp::spec_new(pos, effect)),
    {
        logic.powers.push(PowerUp::new(pos, effect));
    }

    /// Rolls for a power-up. If the roll hits, a power-up with an effect drawn
    /// at random appears in a cell drawn at random inside the walls.
    pub fn power(logic: &mut Logic)
        requires
            old(logic).wf(),
        ensures
            final(logic).wf(),
            exists|event: bool, pos: (i32, i32), effect: Effect|
                old(logic)@.power_spot(pos) && final(logic)@ == #[trigger] old(logic)@.after_power(
                    event,
                    PowerUp::spec_new(pos, effect),
                ),
    {
        let event = util::random_event(POWER_PROBABILITY);
        let y = random_between(2, logic.height - 2);
        let x = random_between(1, logic.width - 1);
        let effect = Effect::sample();
        Generate::power_on(logic, event, (y, x), effect);
        assert(old(logic)@.power_spot((y, x)) && logic@ == old(logic)@.after_power(
            event,
            PowerUp::spec_new((y, x), effect),
        ));
    }

    /// Lets the power-up that carries `effect` appear in the cell `pos` if
    /// `event` is set, and leaves the game as it is otherwise.
    pub fn power_on(logic: &mut Logic, event: bool, pos: (i32, i32), effect: Effect)
        requires
            old(logic).wf(),
        ensures
            final(logic).wf(),
            final(logic)@ == old(logic)@.after_power(event, PowerUp::spec_new(pos, effect)),
    {
        if event {
            Generate::power_at(logic, pos, effect);
        }
    }

    /// Gives the enemy at the index `i` its turn to fire.
    pub fn enemy_shot(logic: &mut Logic, i: usize, fire: bool, dir: Direction)
        requires
            old(logic).wf(),
            i < old(logic)@.enemies.len(),
        ensures
            final(logic).wf(),
            final(logic)@ == old(logic)@.with_shot(i as int, fire, dir),
    {
        if fire {
            if logic.enemies[i].is_mind_controlled() {
                let pos = logic.enemies[i].pos();
                assert(logic@.enemies[i as int].settled());
                logic.player.shoot_pos(&pos, dir, false, CHAR_BULLET, COLOR_BULLET);
            } else {
                assert(logic@.enemies[i as int].settled());
                logic.enemies[i].shoot(Direction::Down, false, CHAR_LASER, COLOR_LASER);
                proof {
                    let expected = old(logic)@.with_shot(i as int, fire, dir);
                    assert(logic@.enemies =~= expected.enemies);
                    assert forall|j: int| 0 <= j < logic@.enemies.len() implies (
                    #[trigger] logic@.enemies[j]).settled() by {
                        assert(old(logic)@.enemies[j].settled());
                    }
                }
            }
        }
    }

    /// Lets the enemies fire according to the draws: the enemy at the index
    /// `i` fires if `fires` says so, and along `dirs[i]` if it is under the
    /// player's control. While the hijack is active, none fires.
    pub fn enemy_attack_with(logic: &mut Logic, fires: &Vec<bool>, dirs: &Vec<Direction>)
        requires
            old(logic).wf(),
        ensures
            final(logic).wf(),
            final(logic)@ == old(logic)@.after_enemy_attack(fires@, dirs@),
    {
        if !Handle::power(&logic.effects, &Effect::Hijack) {
            let n = logic.enemies.len();
            let mut i: usize = 0;
            while i < n
                invariant
                    i <= n,
                    n == old(logic)@.enemies.len(),
                    logic@.enemies.len() == n,
                    logic.wf(),
                    logic@ == old(logic)@.volley(fires@, dirs@, i as nat),
                decreases n - i,
            {
                let fire = i < fires.len() && fires[i];
                let dir = if i < dirs.len() {
                    dirs[i]
                } else {
                    Direction::LeftUp
                };
                Generate::enemy_shot(logic, i, fire, dir);
                i += 1;
                proof {
                    lemma_volley_len(old(logic)@, fires@, dirs@, i as nat);
                }
            }
        }
    }

    /// Lets every enemy roll for its turn to fire. An enemy that is its own
    /// master sends a laser downward. One under the player's control fires
    /// for the player, along an upward diagonal drawn at random. While the
    /// hijack is active, none fires.
    pub fn enemy_attack(logic: &mut Logic)
        requires
            old(logic).wf(),
        ensures
            final(logic).wf(),
            exists|fires: Seq<bool>, dirs: Seq<Direction>|
                fires.len() == old(logic)@.enemies.len() && dirs.len() == fires.len() && (forall|
                    i: int,
                | 0 <= i < dirs.len() ==> (#[trigger] dirs[i]).is_upward_diagonal())
                    && final(logic)@ == old(logic)@.after_enemy_attack(fires, dirs),
    {
        let n = logic.enemies.len();
        let mut fires: Vec<bool> = Vec::new();
        let mut dirs: Vec<Direction> = Vec::new();
        let mut i: usize = 0;
        while i < n
            invariant
                i <= n,
                fires@.len() == i,
                dirs@.len() == i,
                forall|j: int| 0 <= j < i ==> (#[trigger] dirs@[j]).is_upward_diagonal(),
            decreases n - i,
        {
            fires.push(util::random_event(FIRE_PROBABILITY));
            dirs.push(Direction::sample());
            i += 1;
        }
        Generate::enemy_attack_with(logic, &fires, &dirs);
    }
}

} // verus!
