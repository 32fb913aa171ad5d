//! One session of the game: lives, level and score around the engine, and the
//! decisions of the control loop between two frames.

use vstd::prelude::*;
use crate::direction::Direction;
use crate::logic::hit::clamp_score;
use crate::logic::{all_drawn, field_fits, Draws, Logic, LogicView};

verus! {

/// The lives a session starts with, and the most it can hold.
pub const MAX_PLAYER_LIVES: i8 = 3;

/// The time between two ticks of the simulation, in milliseconds.
pub const REFRESH_RATE: i64 = 50;

/// What the player did since the last frame.
#[derive(Clone, Copy, PartialEq, Eq, Structural, Debug)]
pub enum Input {
    /// Move one cell to the left.
    Left,
    /// Move one cell to the right.
    Right,
    /// Pull the trigger.
    Fire,
    /// Leave the game.
    Quit,
    /// Nothing.
    Idle,
}

/// What chance contributes to one frame: the draws of the generation and the
/// headings for the projectiles that burst while the player's projectiles
/// move and while the collisions are settled.
pub struct FrameDraws {
    pub generation: Draws,
    pub on_shift: Seq<Direction>,
    pub on_hit: Seq<Direction>,
}

/// The mathematical content of a session.
pub struct InvadersView {
    pub lives: i8,
    pub level: i32,
    pub score: i32,
    pub gate: LogicView,
    pub last_update: i64,
}

impl InvadersView {
    /// A session is over when the lives have fallen below zero.
    pub open spec fn is_game_over(self) -> bool {
        self.lives <= -1
    }

    /// The session after a reading of the clock.
    pub open spec fn synced(self, reading: i64) -> InvadersView {
        InvadersView {
            gate: LogicView { effects: self.gate.effects.advanced_to(reading as int), ..self.gate },
            ..self
        }
    }

    /// The session after the next wave was called in, which happens when no
    /// enemy is left: a full formation appears, the level goes up, and a life
    /// that was lost comes back.
    pub open spec fn reinforced(self) -> InvadersView {
        if self.gate.enemies.len() == 0 {
            InvadersView {
                gate: self.gate.after_enemies(),
                level: (self.level + 1) as i32,
                lives: if self.lives < MAX_PLAYER_LIVES {
                    (self.lives + 1) as i8
                } else {
                    self.lives
                },
                ..self
            }
        } else {
            self
        }
    }

    /// The session after the player's input was obeyed.
    pub open spec fn obeyed(self, input: Input) -> InvadersView {
        match input {
            Input::Fire => InvadersView { gate: self.gate.after_player_shoot(), ..self },
            Input::Right => InvadersView {
                gate: self.gate.after_player_move(Direction::Right),
                ..self
            },
            Input::Left => InvadersView {
                gate: self.gate.after_player_move(Direction::Left),
                ..self
            },
            Input::Quit => InvadersView { lives: -1i8, ..self },
            Input::Idle => self,
        }
    }

    /// Whether a tick of the simulation is due.
    pub open spec fn tick_due(self) -> bool {
        self.gate.effects.now - self.last_update >= REFRESH_RATE
    }

    /// The session after a tick of the simulation with the given draws:
    /// generation, movement and collisions. A formation that overruns the
    /// player ends the session, a hit on the player costs a life, and the
    /// score gained is added to the score, which stops at the end of its
    /// range.
    pub open spec fn ticked(self, draws: FrameDraws) -> InvadersView {
        let generated = self.gate.after_generate(draws.generation);
        let overrun = generated.before_foes(self.level, draws.on_shift).foes_overrun();
        let shifted = generated.after_shift(self.level, draws.on_shift);
        let struck = shifted.before_verdict(self.level, draws.on_hit).player_struck();
        let settled = shifted.after_hit(self.level, draws.on_hit);
        let lives = if overrun {
            -1i8
        } else {
            self.lives
        };
        InvadersView {
            lives: if struck {
                (lives - 1) as i8
            } else {
                lives
            },
            score: clamp_score(self.score + settled.score_increment),
            gate: LogicView { score_increment: 0, ..settled },
            last_update: settled.effects.now as i64,
            ..self
        }
    }

    /// Whether the draws are such as chance can make them in a tick of this
    /// session.
    pub open spec fn admits(self, draws: FrameDraws) -> bool {
        &&& self.gate.admits(draws.generation)
        &&& all_drawn(draws.on_shift)
        &&& all_drawn(draws.on_hit)
    }

    /// The session after one frame: the clock is read, the next wave is called
    /// in if no enemy is left, the input is obeyed, and a tick of the
    /// simulation runs if one is due.
    pub open spec fn after_update(self, input: Input, reading: i64, draws: FrameDraws) -> InvadersView {
        let ready = self.synced(reading).reinforced().obeyed(input);
        if ready.tick_due() {
            ready.ticked(draws)
        } else {
            ready
        }
    }
}

/// A session of the game.
#[derive(Debug)]
pub struct Invaders {
    pub lives: i8,
    pub level: i32,
    pub score: i32,
    pub gate: Logic,
    pub last_update: i64,
}

impl View for Invaders {
    type V = InvadersView;

    open spec fn view(&self) -> InvadersView {
        InvadersView {
            lives: self.lives,
            level: self.level,
            score: self.score,
            gate: self.gate@,
            last_update: self.last_update,
        }
    }
}

impl Invaders {
    /// The invariant of a session: the engine is well formed and the time of
    /// the last tick is not negative.
    pub open spec fn wf(&self) -> bool {
        &&& self.gate.wf()
        &&& self.last_update >= 0
    }

    /// Starts a session on a playfield of the given height and width: full
    /// lives, no score, before the first level.
    pub fn new(height: i32, width: i32) -> (r: Invaders)
        requires
            field_fits(height, width),
        ensures
            r.wf(),
            r@ == (InvadersView {
                lives: MAX_PLAYER_LIVES,
                level: 0,
                score: 0,
                gate: LogicView::fresh(height, width),
                last_update: 0,
            }),
    {
        Invaders {
            lives: MAX_PLAYER_LIVES,
            level: 0,
            score: 0,
            last_update: 0,
            gate: Logic::new(height, width),
        }
    }

    /// Tells whether the session is over.
    pub fn is_game_over(&self) -> (r: bool)
        ensures
            r == self@.is_game_over(),
    {
        self.lives <= -1
    }

    /// Calls in the next wave if no enemy is left.
    pub fn reinforce(&mut self)
        requires
            old(self).wf(),
            old(self).level < i32::MAX,
        ensures
            final(self).wf(),
            final(self)@ == old(self)@.reinforced(),
    {
        if self.gate.enemies().len() == 0 {
            self.gate.level_up(&mut self.level);
            if self.lives < MAX_PLAYER_LIVES {
                self.lives += 1;
            }
        }
    }

    /// Obeys the player's input.
    pub fn obey(&mut self, input: Input)
        requires
            old(self).wf(),
        ensures
            final(self).wf(),
            final(self)@ == old(self)@.obeyed(input),
    {
        match input {
            Input::Fire => {
                self.gate.player_shoot();
            },
            Input::Right => {
                self.gate.player_move(&Direction::Right);
            },
            Input::Left => {
                self.gate.player_move(&Direction::Left);
            },
            Input::Quit => {
                self.lives = -1;
            },
            Input::Idle => {},
        }
    }

    /// Runs a tick of the simulation: generation, movement, collisions, and
    /// what they mean for lives and score.
    pub fn tick(&mut self)
        requires
            old(self).wf(),
            old(self).lives > i8::MIN,
        ensures
            final(self).wf(),
            exists|draws: FrameDraws|
                old(self)@.admits(draws) && final(self)@ == old(self)@.ticked(draws),
    {
        self.gate.generate();
        let ghost generated = self.gate@;
        let overrun = self.gate.shift(&self.level);
        if overrun {
            self.lives = -1;
        }
        let ghost shifted = self.gate@;
        let struck = self.gate.hit(&self.level);
        if struck {
            self.lives -= 1;
        }
        let ghost settled = self.gate@;
        let total: i64 = self.score as i64 + self.gate.score_increment() as i64;
        self.score = if total > i32::MAX as i64 {
            i32::MAX
        } else if total < i32::MIN as i64 {
            i32::MIN
        } else {
            total as i32
        };
        self.gate.score_reset();
        self.last_update = self.gate.effects.now();
        proof {
            let level = old(self).level;
            let generation = choose|draws: Draws|
                old(self)@.gate.admits(draws) && generated == old(self)@.gate.after_generate(draws);
            let on_shift = choose|dirs: Seq<Direction>|
                all_drawn(dirs) && shifted == generated.after_shift(level, dirs) && overrun
                    == generated.before_foes(level, dirs).foes_overrun();
            let on_hit = choose|dirs: Seq<Direction>|
                all_drawn(dirs) && settled == shifted.after_hit(level, dirs) && struck
                    == shifted.before_verdict(level, dirs).player_struck();
            let draws = FrameDraws { generation, on_shift, on_hit };
            assert(old(self)@.admits(draws));
            assert(self@ == old(self)@.ticked(draws));
        }
    }

    /// Runs one frame: reads the clock, calls in the next wave if no enemy is
    /// left, obeys the input, and runs a tick of the simulation if one is due.
    pub fn update(&mut self, input: Input, reading: i64)
        requires
            old(self).wf(),
            old(self).lives > i8::MIN,
            old(self).level < i32::MAX,
        ensures
            final(self).wf(),
            exists|draws: FrameDraws|
                old(self)@.synced(reading).reinforced().obeyed(input).admits(draws) && final(self)@
                    == old(self)@.after_update(input, reading, draws),
    {
        self.gate.sync_clock(reading);
        self.reinforce();
        self.obey(input);
        let ghost ready = self@;
        assert(ready == old(self)@.synced(reading).reinforced().obeyed(input));
        if self.gate.effects.now() - self.last_update >= REFRESH_RATE {
            self.tick();
            proof {
                let draws = choose|draws: FrameDraws|
                    ready.admits(draws) && self@ == ready.ticked(draws);
                assert(ready.admits(draws) && self@ == old(self)@.after_update(
                    input,
                    reading,
                    draws,
                ));
            }
        } else {
            proof {
                let draws = FrameDraws {
                    generation: Draws {
                        fires: Seq::empty(),
                        dirs: Seq::empty(),
                        power: None,
                        boss: false,
                    },
                    on_shift: Seq::empty(),
                    on_hit: Seq::empty(),
                };
                assert(ready.admits(draws));
                assert(self@ == old(self)@.after_update(input, reading, draws));
            }
        }
    }
}

} // verus!
