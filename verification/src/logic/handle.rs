//! What the effects do when the player attacks, moves or picks one up.

use vstd::prelude::*;
use crate::direction::Direction;
use crate::effects::EffectRegistry;
use crate::bullet::Bullet;
use crate::logic::{
    Logic, LogicView, ATTACK_COOLDOWN, CHAR_BULLET, CHAR_ULTRA, COLOR_BULLET, COLOR_ULTRA,
    COMBINED_ATTACK_COOLDOWN, DOUBLE_ATTACK_COOLDOWN, QUICKSHOT_ATTACK_COOLDOWN,
    TRIPLE_ATTACK_COOLDOWN,
};
use crate::power::Effect;
use crate::seqs::retain_marked;
use crate::shooter::{
    all_settled, lemma_filter_settled, lemma_retained, occupied, ship_at, views, Shooter,
    ShooterView,
};
use crate::util;
use crate::util::{spec_out_of_bounds, spec_shift};

verus! {

/// The predicate that holds of the ships outside the square of five by five
/// cells around `bomb`.
pub open spec fn spared(bomb: (i32, i32)) -> spec_fn(ShooterView) -> bool {
    |ship: ShooterView|
        !(bomb.0 - 2 <= ship.pos.0 <= bomb.0 + 2 && bomb.1 - 2 <= ship.pos.1 <= bomb.1 + 2)
}

/// The predicate that holds of the ships that are not under the player's
/// control.
pub open spec fn free() -> spec_fn(ShooterView) -> bool {
    |ship: ShooterView| !ship.is_mind_controlled
}

/// The ships without any projectile in flight.
pub open spec fn disarmed(ships: Seq<ShooterView>) -> Seq<ShooterView> {
    ships.map_values(|ship: ShooterView| ship.with_bullets(Seq::empty()))
}

/// The ship after it fired one upward projectile from each cell of its column
/// in the rows from `from` up to, but not including, `to`, top row first.
pub open spec fn salvo(ship: ShooterView, from: int, to: int) -> ShooterView {
    ship.with_bullets(
        ship.bullets + Seq::new(
            if to > from { (to - from) as nat } else { 0 },
            |k: int|
                Bullet {
                    pos: ((from + k) as i32, ship.pos.1),
                    dir: ship.aim(Direction::Up),
                    char: CHAR_ULTRA,
                    color: COLOR_ULTRA,
                    is_explosive: false,
                },
        ),
    )
}

/// The player after the ultra shot: a column of projectiles between the player
/// and the far wall, which lies below the player while the jump is active and
/// above otherwise.
pub open spec fn after_ultra(player: ShooterView, jump: bool, height: i32) -> ShooterView {
    if jump {
        salvo(player, player.pos.0 + 1, height - 1)
    } else {
        salvo(player, 3, player.pos.0 as int)
    }
}

impl LogicView {
    /// The row the player stands in while jumping or not.
    pub open spec fn home_row(self, jump: bool) -> i32 {
        if jump {
            3
        } else {
            (self.height - 2) as i32
        }
    }

    /// The game after the extra shot of the double shot: while the effect is
    /// active, one more upward projectile from the cell to the left of the
    /// player.
    pub open spec fn doubled(self) -> LogicView {
        if self.active(Effect::Double) {
            LogicView {
                cooldown_attack: DOUBLE_ATTACK_COOLDOWN,
                player: self.player.fired_from(
                    (self.player.pos.0, (self.player.pos.1 - 1) as i32),
                    Direction::Up,
                    self.active(Effect::Grenade),
                    CHAR_BULLET,
                    COLOR_BULLET,
                ),
                ..self
            }
        } else {
            self
        }
    }

    /// The game after the extra shots of the triple shot: while the effect is
    /// active, two diagonal projectiles that cross ahead of the player.
    pub open spec fn tripled(self) -> LogicView {
        if self.active(Effect::Triple) {
            let row = (self.player.pos.0 - 1) as i32;
            let grenade = self.active(Effect::Grenade);
            LogicView {
                cooldown_attack: TRIPLE_ATTACK_COOLDOWN,
                player: self.player.fired_from(
                    (row, (self.player.pos.1 + 1) as i32),
                    Direction::LeftUp,
                    grenade,
                    CHAR_BULLET,
                    COLOR_BULLET,
                ).fired_from(
                    (row, (self.player.pos.1 - 1) as i32),
                    Direction::RightUp,
                    grenade,
                    CHAR_BULLET,
                    COLOR_BULLET,
                ),
                ..self
            }
        } else {
            self
        }
    }

    /// The game after the double fired along with the player.
    pub open spec fn echoed(self) -> LogicView {
        match self.xerox {
            Some(double) => LogicView {
                player: self.player.fired_from(
                    double.pos,
                    if self.active(Effect::Jump) {
                        Direction::Down
                    } else {
                        Direction::Up
                    },
                    false,
                    CHAR_BULLET,
                    COLOR_BULLET,
                ),
                ..self
            },
            None => self,
        }
    }

    /// The pause between shots that the active shot effects call for. The
    /// double and the triple shot lengthen it, both together most. Without
    /// them the quick shot shortens it.
    pub open spec fn attack_pause(self) -> i64 {
        let double = self.active(Effect::Double);
        let triple = self.active(Effect::Triple);
        if double && triple {
            COMBINED_ATTACK_COOLDOWN
        } else if triple {
            TRIPLE_ATTACK_COOLDOWN
        } else if double {
            DOUBLE_ATTACK_COOLDOWN
        } else if self.active(Effect::Quickshot) {
            QUICKSHOT_ATTACK_COOLDOWN
        } else {
            ATTACK_COOLDOWN
        }
    }

    /// The game after everything that accompanies a shot of the player: the
    /// shot of the double, the extra shots of the double and triple shot, and
    /// the pause until the next shot.
    pub open spec fn after_attack(self) -> LogicView {
        LogicView { cooldown_attack: self.attack_pause(), ..self.echoed().doubled().tripled() }
    }

    /// The game after the player was put in the row the jump calls for. While
    /// the dive is active without the jump, the player stays where it is.
    pub open spec fn after_jump(self) -> LogicView {
        if self.active(Effect::Jump) {
            LogicView { player: self.player.at_row(3), ..self }
        } else if !self.active(Effect::Kamizake) {
            LogicView { player: self.player.at_row((self.height - 2) as i32), ..self }
        } else {
            self
        }
    }

    /// The game after one tick of retreat: the formation heads upward and
    /// remembers where it was heading; with the last tick it takes that
    /// heading up again.
    pub open spec fn after_yield(self) -> LogicView {
        let last = if self.dir != Direction::Up {
            Some(self.dir)
        } else {
            self.last_dir
        };
        let counter = (self.yield_counter - 1) as i32;
        LogicView {
            yield_counter: counter,
            last_dir: last,
            dir: if counter == 0 {
                last.unwrap()
            } else {
                Direction::Up
            },
            ..self
        }
    }

    /// The game after one step of the dive, and whether the dive ended. While
    /// the effect is active the player advances toward the far wall. At the
    /// wall it returns to its home row. If it rams an enemy on the way, the
    /// whole formation is destroyed and it returns as well.
    pub open spec fn after_kamizake(self) -> (LogicView, bool) {
        if !self.active(Effect::Kamizake) {
            (self, false)
        } else {
            let jump = self.active(Effect::Jump);
            let dir = if jump {
                Direction::Down
            } else {
                Direction::Up
            };
            let target = spec_shift(self.player.pos, dir);
            if spec_out_of_bounds(target) {
                (LogicView { player: self.player.at_row(self.home_row(jump)), ..self }, true)
            } else if occupied(self.enemies, target) {
                (
                    LogicView {
                        enemies: Seq::empty(),
                        player: self.player.moved(dir).at_row(self.home_row(jump)),
                        ..self
                    },
                    true,
                )
            } else {
                (LogicView { player: self.player.moved(dir), ..self }, false)
            }
        }
    }

    /// The game after the enemies under the player's control were removed,
    /// which happens once the mind control is over.
    pub open spec fn after_mind_control(self) -> LogicView {
        if self.active(Effect::Mindcontrol) {
            self
        } else {
            LogicView { enemies: self.enemies.filter(free()), ..self }
        }
    }
}

/// The handlers of the effects.
pub struct Handle;

impl Handle {
    /// Tells whether `effect` is active.
    pub fn power(effects: &EffectRegistry, effect: &Effect) -> (r: bool)
        requires
            effects.wf(),
        ensures
            r == effects@.is_active(*effect),
    {
        effects.is_active(*effect)
    }

    /// Makes one step of the dive and tells whether the dive ended.
    pub fn kamizake(logic: &mut Logic) -> (r: bool)
        requires
            old(logic).wf(),
        ensures
            final(logic).wf(),
            final(logic)@ == old(logic)@.after_kamizake().0,
            r == old(logic)@.after_kamizake().1,
    {
        if Handle::power(&logic.effects, &Effect::Kamizake) {
            let jump = Handle::power(&logic.effects, &Effect::Jump);
            let height = if jump {
                3
            } else {
                logic.height - 2
            };
            let dir = if jump {
                Direction::Down
            } else {
                Direction::Up
            };
            let new_pos = logic.player.new_pos(&dir);
            if util::out_of_bounds(new_pos) {
                logic.player.set_x(height);
                return true;
            } else {
                logic.player.shift(&dir);
                let exterminate = ship_at(&logic.enemies, logic.player.pos());
                if exterminate {
                    logic.enemies.clear();
                    logic.player.set_x(height);
                    assert(logic@.enemies =~= Seq::empty());
                }
                return exterminate;
            }
        }
        false
    }

    /// Removes the enemies under the player's control once the mind control is
    /// over.
    pub fn mind_control(logic: &mut Logic)
        requires
            old(logic).wf(),
        ensures
            final(logic).wf(),
            final(logic)@ == old(logic)@.after_mind_control(),
    {
        if !Handle::power(&logic.effects, &Effect::Mindcontrol) {
            let mut marks: Vec<bool> = Vec::new();
            let mut i: usize = 0;
            while i < logic.enemies.len()
                invariant
                    i <= logic.enemies@.len(),
                    marks@.len() == i,
                    forall|j: int|
                        0 <= j < i ==> marks@[j] == free()((#[trigger] logic.enemies@[j])@),
                decreases logic.enemies@.len() - i,
            {
                marks.push(!logic.enemies[i].is_mind_controlled());
                i += 1;
            }
            proof {
                lemma_retained(logic.enemies@, marks@, free());
                lemma_filter_settled(old(logic)@.enemies, free());
            }
            retain_marked(&mut logic.enemies, &marks);
        }
    }

    /// Fires the extra shot of the double shot.
    fn double(logic: &mut Logic)
        requires
            old(logic).wf(),
        ensures
            final(logic).wf(),
            final(logic)@ == old(logic)@.doubled(),
    {
        if Handle::power(&logic.effects, &Effect::Double) {
            logic.cooldown_attack = DOUBLE_ATTACK_COOLDOWN;
            let player_pos = logic.player.pos();
            let pos = (player_pos.0, player_pos.1 - 1);
            let grenade = Handle::power(&logic.effects, &Effect::Grenade);
            logic.player.shoot_pos(&pos, Direction::Up, grenade, CHAR_BULLET, COLOR_BULLET);
        }
    }

    /// Fires the extra shots of the triple shot.
    fn triple(logic: &mut Logic)
        requires
            old(logic).wf(),
        ensures
            final(logic).wf(),
            final(logic)@ == old(logic)@.tripled(),
    {
        if Handle::power(&logic.effects, &Effect::Triple) {
            logic.cooldown_attack = TRIPLE_ATTACK_COOLDOWN;
            let player_pos = logic.player.pos();
            let pos_left = (player_pos.0 - 1, player_pos.1 + 1);
            let grenade = Handle::power(&logic.effects, &Effect::Grenade);
            logic.player.shoot_pos(
                &pos_left,
                Direction::LeftUp,
                grenade,
                CHAR_BULLET,
                COLOR_BULLET,
            );
            let pos_right = (player_pos.0 - 1, player_pos.1 - 1);
            logic.player.shoot_pos(
                &pos_right,
                Direction::RightUp,
                grenade,
                CHAR_BULLET,
                COLOR_BULLET,
            );
        }
    }

    /// Puts the player in the row the jump calls for.
    pub fn jump(logic: &mut Logic)
        requires
            old(logic).wf(),
        ensures
            final(logic).wf(),
            final(logic)@ == old(logic)@.after_jump(),
    {
        if Handle::power(&logic.effects, &Effect::Jump) {
            logic.player.set_x(3);
        } else if !Handle::power(&logic.effects, &Effect::Kamizake) {
            logic.player.set_x(logic.height - 2);
        }
    }

    /// Makes one tick of a retreat and counts it off the ticks that are left
    /// of the retreat.
    pub fn yields(logic: &mut Logic)
        requires
            old(logic).wf(),
            old(logic)@.yield_counter > i32::MIN,
        ensures
            final(logic).wf(),
            final(logic)@ == old(logic)@.after_yield(),
    {
        logic.yield_counter -= 1;
        if logic.dir != Direction::Up {
            logic.last_dir = Some(logic.dir);
        }
        logic.dir = Direction::Up;
        if logic.yield_counter == 0 {
            match logic.last_dir {
                Some(dir) => {
                    logic.dir = dir;
                },
                None => {},
            }
        }
    }

    /// Destroys the enemies in the square of five by five cells around `bomb`.
    pub fn explode(bomb: &(i32, i32), enemies: &mut Vec<Shooter>)
        ensures
            views(final(enemies)@) == views(old(enemies)@).filter(spared(*bomb)),
            all_settled(views(old(enemies)@)) ==> all_settled(views(final(enemies)@)),
    {
        let mut marks: Vec<bool> = Vec::new();
        let mut i: usize = 0;
        while i < enemies.len()
            invariant
                i <= enemies@.len(),
                marks@.len() == i,
                forall|j: int| 0 <= j < i ==> marks@[j] == spared(*bomb)((#[trigger] enemies@[j])@),
            decreases enemies@.len() - i,
        {
            let pos = enemies[i].pos();
            let row = pos.0 as i64;
            let col = pos.1 as i64;
            let near = row >= bomb.0 as i64 - 2 && row <= bomb.0 as i64 + 2 && col >= bomb.1 as i64
                - 2 && col <= bomb.1 as i64 + 2;
            marks.push(!near);
            i += 1;
        }
        proof {
            lemma_retained(enemies@, marks@, spared(*bomb));
            if all_settled(views(old(enemies)@)) {
                lemma_filter_settled(views(old(enemies)@), spared(*bomb));
            }
        }
        retain_marked(enemies, &marks);
    }

    /// Takes every projectile of the enemies off the field.
    pub fn clear(enemies: &mut [Shooter])
        ensures
            views(final(enemies)@) == disarmed(views(old(enemies)@)),
    {
        let n = enemies.len();
        let mut i: usize = 0;
        while i < n
            invariant
                i <= n,
                enemies@.len() == n,
                old(enemies)@.len() == n,
                forall|j: int|
                    0 <= j < i ==> (#[trigger] enemies@[j])@ == old(enemies)@[j]@.with_bullets(
                        Seq::empty(),
                    ),
                forall|j: int| i <= j < n ==> enemies@[j] == old(enemies)@[j],
            decreases n - i,
        {
            enemies[i].bullets.clear();
            i += 1;
        }
        assert(views(enemies@) =~= disarmed(views(old(enemies)@)));
    }

    /// Fires the ultra shot: a column of projectiles between the player and the
    /// far wall.
    pub fn ultra(player: &mut Shooter, effects: &EffectRegistry, height: &i32)
        requires
            effects.wf(),
            old(player).pos.0 < i32::MAX,
            *height > i32::MIN,
        ensures
            final(player)@ == after_ultra(
                old(player)@,
                effects@.is_active(Effect::Jump),
                *height,
            ),
    {
        let player_pos = player.pos();
        let (from, to) = if Handle::power(effects, &Effect::Jump) {
            (player_pos.0 + 1, *height - 1)
        } else {
            (3, player_pos.0)
        };
        let mut i: i32 = from;
        assert(player@.bullets =~= salvo(old(player)@, from as int, from as int).bullets);
        while i < to
            invariant
                from <= i,
                i <= to || i == from,
                player@ == salvo(old(player)@, from as int, i as int),
                player_pos == old(player)@.pos,
            decreases to - i,
        {
            player.shoot_pos(&(i, player_pos.1), Direction::Up, false, CHAR_ULTRA, COLOR_ULTRA);
            i += 1;
            assert(player@.bullets =~= salvo(old(player)@, from as int, i as int).bullets);
        }
        assert(player@.bullets =~= salvo(old(player)@, from as int, to as int).bullets);
    }

    /// Does what accompanies a shot of the player: the double fires along, the
    /// double and the triple shot add their projectiles, and the pause until
    /// the next shot is set.
    pub fn attack(logic: &mut Logic)
        requires
            old(logic).wf(),
        ensures
            final(logic).wf(),
            final(logic)@ == old(logic)@.after_attack(),
    {
        let jump = Handle::power(&logic.effects, &Effect::Jump);
        let mut echo: Option<(i32, i32)> = None;
        if let Some(xerox) = &logic.xerox {
            echo = Some(xerox.pos());
        }
        if let Some(pos) = echo {
            let dir = if jump {
                Direction::Down
            } else {
                Direction::Up
            };
            logic.player.shoot_pos(&pos, dir, false, CHAR_BULLET, COLOR_BULLET);
        }
        Handle::double(logic);
        Handle::triple(logic);
        let double = Handle::power(&logic.effects, &Effect::Double);
        let triple = Handle::power(&logic.effects, &Effect::Triple);
        if double && triple {
            logic.cooldown_attack = COMBINED_ATTACK_COOLDOWN;
        }
        if !double && !triple {
            logic.cooldown_attack = if Handle::power(&logic.effects, &Effect::Quickshot) {
                QUICKSHOT_ATTACK_COOLDOWN
            } else {
                ATTACK_COOLDOWN
            };
        }
    }
}

} // verus!
