//! Effects and the power-ups that carry them.

use vstd::prelude::*;
use crate::logic::COLOR_POWERS;
use crate::util::random_between;

verus! {

/// Number of effects.
pub const EFFECTS: usize = 26;

/// A temporary change of the rules, started by picking up a power-up.
#[derive(Clone, Copy, Eq, Hash, PartialEq, Structural, Debug)]
pub enum Effect {
    Antigravity,
    Block,
    Clear,
    Double,
    Explode,
    Follower,
    Grenade,
    Hijack,
    Invincible,
    Jump,
    Kamizake,
    Lock,
    Mindcontrol,
    Numb,
    Obstacle,
    Pierce,
    Quickshot,
    Reflect,
    Shield,
    Triple,
    Ultra,
    Vendetta,
    Warp,
    Xerox,
    Yield,
    Zombify,
}

impl Effect {
    /// Position of the effect in the list of effects, from 0.
    pub open spec fn spec_index(self) -> usize {
        match self {
            Effect::Antigravity => 0,
            Effect::Block => 1,
            Effect::Clear => 2,
            Effect::Double => 3,
            Effect::Explode => 4,
            Effect::Follower => 5,
            Effect::Grenade => 6,
            Effect::Hijack => 7,
            Effect::Invincible => 8,
            Effect::Jump => 9,
            Effect::Kamizake => 10,
            Effect::Lock => 11,
            Effect::Mindcontrol => 12,
            Effect::Numb => 13,
            Effect::Obstacle => 14,
            Effect::Pierce => 15,
            Effect::Quickshot => 16,
            Effect::Reflect => 17,
            Effect::Shield => 18,
            Effect::Triple => 19,
            Effect::Ultra => 20,
            Effect::Vendetta => 21,
            Effect::Warp => 22,
            Effect::Xerox => 23,
            Effect::Yield => 24,
            Effect::Zombify => 25,
        }
    }

    /// Returns the position of the effect in the list of effects, from 0.
    #[verifier::when_used_as_spec(spec_index)]
    pub fn index(self) -> (r: usize)
        ensures
            r == self.spec_index(),
            r < EFFECTS,
    {
        match self {
            Effect::Antigravity => 0,
            Effect::Block => 1,
            Effect::Clear => 2,
            Effect::Double => 3,
            Effect::Explode => 4,
            Effect::Follower => 5,
            Effect::Grenade => 6,
            Effect::Hijack => 7,
            Effect::Invincible => 8,
            Effect::Jump => 9,
            Effect::Kamizake => 10,
            Effect::Lock => 11,
            Effect::Mindcontrol => 12,
            Effect::Numb => 13,
            Effect::Obstacle => 14,
            Effect::Pierce => 15,
            Effect::Quickshot => 16,
            Effect::Reflect => 17,
            Effect::Shield => 18,
            Effect::Triple => 19,
            Effect::Ultra => 20,
            Effect::Vendetta => 21,
            Effect::Warp => 22,
            Effect::Xerox => 23,
            Effect::Yield => 24,
            Effect::Zombify => 25,
        }
    }

    /// The effect a drawn number stands for: the one at that position in the
    /// list, and the last one for every number beyond the list.
    pub open spec fn spec_from_index(n: i32) -> Effect {
        match n {
            0 => Effect::Antigravity,
            1 => Effect::Block,
            2 => Effect::Clear,
            3 => Effect::Double,
            4 => Effect::Explode,
            5 => Effect::Follower,
            6 => Effect::Grenade,
            7 => Effect::Hijack,
            8 => Effect::Invincible,
            9 => Effect::Jump,
            10 => Effect::Kamizake,
            11 => Effect::Lock,
            12 => Effect::Mindcontrol,
            13 => Effect::Numb,
            14 => Effect::Obstacle,
            15 => Effect::Pierce,
            16 => Effect::Quickshot,
            17 => Effect::Reflect,
            18 => Effect::Shield,
            19 => Effect::Triple,
            20 => Effect::Ultra,
            21 => Effect::Vendetta,
            22 => Effect::Warp,
            23 => Effect::Xerox,
            24 => Effect::Yield,
            _ => Effect::Zombify,
        }
    }

    /// Turns a drawn number into an effect.
    #[verifier::when_used_as_spec(spec_from_index)]
    pub fn from_index(n: i32) -> (r: Effect)
        ensures
            r == Effect::spec_from_index(n),
            0 <= n < EFFECTS ==> r.spec_index() == n,
    {
        match n {
            0 => Effect::Antigravity,
            1 => Effect::Block,
            2 => Effect::Clear,
            3 => Effect::Double,
            4 => Effect::Explode,
            5 => Effect::Follower,
            6 => Effect::Grenade,
            7 => Effect::Hijack,
            8 => Effect::Invincible,
            9 => Effect::Jump,
            10 => Effect::Kamizake,
            11 => Effect::Lock,
            12 => Effect::Mindcontrol,
            13 => Effect::Numb,
            14 => Effect::Obstacle,
            15 => Effect::Pierce,
            16 => Effect::Quickshot,
            17 => Effect::Reflect,
            18 => Effect::Shield,
            19 => Effect::Triple,
            20 => Effect::Ultra,
            21 => Effect::Vendetta,
            22 => Effect::Warp,
            23 => Effect::Xerox,
            24 => Effect::Yield,
            _ => Effect::Zombify,
        }
    }

    /// Whether the effect acts at once when it is picked up and leaves no
    /// entry in the registry: the clearing, the ultra shot, the yield and the
    /// explosion.
    pub open spec fn acts_at_once(self) -> bool {
        self == Effect::Clear || self == Effect::Ultra || self == Effect::Yield || self
            == Effect::Explode
    }

    /// The glyph of a power-up that carries this effect: the capital letter
    /// the effect's name starts with. The names start with the letters of the
    /// alphabet in order.
    pub open spec fn spec_glyph(self) -> u32 {
        (65 + self.spec_index()) as u32
    }

    /// Returns the glyph of a power-up that carries this effect.
    #[verifier::when_used_as_spec(spec_glyph)]
    pub fn glyph(self) -> (r: u32)
        ensures
            r == self.spec_glyph(),
            65 <= r <= 90,
    {
        65 + self.index() as u32
    }

    /// Draws an effect at random: the effect that a number drawn from the
    /// positions of the list stands for.
    pub fn sample() -> (r: Effect)
        ensures
            exists|n: i32| 0 <= n < EFFECTS && r == Effect::spec_from_index(n),
    {
        Effect::from_index(random_between(0, 26))
    }

    /// Every effect is found again from its position, so no two effects share
    /// one.
    pub proof fn lemma_index_round_trip(self)
        ensures
            self.spec_index() < EFFECTS,
            Effect::spec_from_index(self.spec_index() as i32) == self,
    {
    }
}

/// A power-up waiting on the playfield for a projectile of the player.
#[derive(Clone, Copy, PartialEq, Eq, Debug)]
pub struct PowerUp {
    pub pos: (i32, i32),
    pub effect: Effect,
    pub char: u32,
    pub color: i16,
}

impl PowerUp {
    /// The power-up at `pos` that carries `effect`.
    pub open spec fn spec_new(pos: (i32, i32), effect: Effect) -> PowerUp {
        PowerUp { pos, effect, char: effect.spec_glyph(), color: COLOR_POWERS }
    }

    /// Creates the power-up at `pos` that carries `effect`.
    #[verifier::when_used_as_spec(spec_new)]
    pub fn new(pos: (i32, i32), effect: Effect) -> (r: PowerUp)
        ensures
            r == PowerUp::spec_new(pos, effect),
    {
        PowerUp { pos, effect, char: effect.glyph(), color: COLOR_POWERS }
    }

    /// The cell the power-up occupies.
    pub fn pos(&self) -> (r: (i32, i32))
        ensures
            r == self.pos,
    {
        self.pos
    }

    /// The glyph the power-up is drawn with.
    pub fn char(&self) -> (r: u32)
        ensures
            r == self.char,
    {
        self.char
    }

    /// The colour tag the power-up is drawn with.
    pub fn color(&self) -> (r: i16)
        ensures
            r == self.color,
    {
        self.color
    }

    /// The effect the power-up carries.
    pub fn effect(&self) -> (r: &Effect)
        ensures
            *r == self.effect,
    {
        &self.effect
    }
}

} // verus!
