//! The registry of effects: when each effect was last activated, and the clock
//! against which activations expire.

use vstd::prelude::*;
use crate::logic::POWER_COOLDOWN;
use crate::power::{Effect, EFFECTS};

verus! {

/// The mathematical content of a registry: the activation time of every effect
/// that was ever activated, and the current time, both in milliseconds.
pub struct RegistryView {
    pub stamps: Map<Effect, int>,
    pub now: int,
}

impl RegistryView {
    /// An effect is active while less than the cooldown has passed since its
    /// activation.
    pub open spec fn is_active(self, effect: Effect) -> bool {
        self.stamps.contains_key(effect) && self.now - self.stamps[effect] < POWER_COOLDOWN
    }

    /// An effect has lapsed when more than the cooldown has passed since its
    /// activation.
    pub open spec fn has_lapsed(self, effect: Effect) -> bool {
        self.stamps.contains_key(effect) && self.now - self.stamps[effect] > POWER_COOLDOWN
    }

    /// The registry after `effect` was activated at the current time.
    pub open spec fn activated(self, effect: Effect) -> RegistryView {
        RegistryView { stamps: self.stamps.insert(effect, self.now), ..self }
    }

    /// The registry after `effect` was given an activation time that lies a
    /// full cooldown in the past.
    pub open spec fn expired(self, effect: Effect) -> RegistryView {
        RegistryView { stamps: self.stamps.insert(effect, self.now - POWER_COOLDOWN), ..self }
    }

    /// The registry after a clock reading: the clock never runs backwards.
    pub open spec fn advanced_to(self, reading: int) -> RegistryView {
        RegistryView { now: if reading > self.now { reading } else { self.now }, ..self }
    }

    /// The effects that are active.
    pub open spec fn active_set(self) -> Set<Effect> {
        Set::new(|effect: Effect| self.is_active(effect))
    }

    /// The registry in which exactly the effects of `active` were activated,
    /// all of them at the time `now`.
    pub open spec fn restored(active: Set<Effect>, now: int) -> RegistryView {
        RegistryView {
            stamps: Map::new(|effect: Effect| active.contains(effect), |effect: Effect| now),
            now,
        }
    }
}

/// The registry of effects. It holds one slot per effect, so an effect has at
/// most one activation time, and a clock that the caller feeds with readings.
/// Nothing is removed when an effect expires: expiry is the outcome of
/// comparing the activation time with the clock.
#[derive(Debug)]
pub struct EffectRegistry {
    pub stamps: Vec<Option<i64>>,
    pub now: i64,
}

impl View for EffectRegistry {
    type V = RegistryView;

    open spec fn view(&self) -> RegistryView {
        RegistryView {
            stamps: Map::new(
                |effect: Effect| self.stamps@[effect.spec_index() as int].is_some(),
                |effect: Effect| self.stamps@[effect.spec_index() as int].unwrap() as int,
            ),
            now: self.now as int,
        }
    }
}

impl EffectRegistry {
    /// A registry is well formed when it has a slot for every effect and its
    /// clock is not negative.
    pub open spec fn wf(&self) -> bool {
        self.stamps@.len() == EFFECTS && self.now >= 0
    }

    /// Creates a registry with no activation, its clock at zero.
    pub fn new() -> (r: EffectRegistry)
        ensures
            r.wf(),
            r@.stamps == Map::<Effect, int>::empty(),
            r@.now == 0,
            forall|effect: Effect| !r@.is_active(effect),
    {
        let mut stamps: Vec<Option<i64>> = Vec::new();
        let mut i: usize = 0;
        while i < EFFECTS
            invariant
                i <= EFFECTS,
                stamps@.len() == i,
                forall|j: int| 0 <= j < i ==> stamps@[j].is_none(),
            decreases EFFECTS - i,
        {
            stamps.push(None);
            i += 1;
        }
        let r = EffectRegistry { stamps, now: 0 };
        assert(r@.stamps =~= Map::<Effect, int>::empty());
        r
    }

    /// The current time of the registry's clock.
    pub fn now(&self) -> (r: i64)
        ensures
            r == self@.now,
    {
        self.now
    }

    /// Feeds the clock with a reading. A reading that lies before the current
    /// time is ignored.
    pub fn advance_to(&mut self, reading: i64)
        requires
            old(self).wf(),
        ensures
            final(self).wf(),
            final(self)@ == old(self)@.advanced_to(reading as int),
    {
        if reading > self.now {
            self.now = reading;
        }
    }

    /// The activation time of `effect`, if it was ever activated.
    pub fn stamp(&self, effect: Effect) -> (r: Option<i64>)
        requires
            self.wf(),
        ensures
            r.is_some() == self@.stamps.contains_key(effect),
            r.is_some() ==> r.unwrap() == self@.stamps[effect],
    {
        self.stamps[effect.index()]
    }

    /// Tells whether `effect` is active.
    pub fn is_active(&self, effect: Effect) -> (r: bool)
        requires
            self.wf(),
        ensures
            r == self@.is_active(effect),
    {
        match self.stamps[effect.index()] {
            Some(stamp) => (self.now as i128) - (stamp as i128) < (POWER_COOLDOWN as i128),
            None => false,
        }
    }

    /// Tells whether `effect` was activated and has been over for some time:
    /// more than the cooldown has passed since.
    pub fn has_lapsed(&self, effect: Effect) -> (r: bool)
        requires
            self.wf(),
        ensures
            r == self@.has_lapsed(effect),
    {
        match self.stamps[effect.index()] {
            Some(stamp) => (self.now as i128) - (stamp as i128) > (POWER_COOLDOWN as i128),
            None => false,
        }
    }

    /// Activates `effect` at the current time. An earlier activation of it is
    /// overwritten, so that the effect lasts a full cooldown from now.
    pub fn activate(&mut self, effect: Effect)
        requires
            old(self).wf(),
        ensures
            final(self).wf(),
            final(self)@ == old(self)@.activated(effect),
            final(self)@.is_active(effect),
    {
        let now = self.now;
        self.stamps.set(effect.index(), Some(now));
        proof {
            assert forall|other: Effect|
                other.spec_index() == effect.spec_index() implies other == effect by {
                other.lemma_index_round_trip();
                effect.lemma_index_round_trip();
            }
            assert(self@.stamps =~= old(self)@.stamps.insert(effect, old(self)@.now));
        }
    }

    /// Ends `effect` at once by giving it an activation time that lies a full
    /// cooldown in the past.
    pub fn force_expire(&mut self, effect: Effect)
        requires
            old(self).wf(),
        ensures
            final(self).wf(),
            final(self)@ == old(self)@.expired(effect),
            !final(self)@.is_active(effect),
    {
        let stamp = self.now - POWER_COOLDOWN;
        self.stamps.set(effect.index(), Some(stamp));
        proof {
            assert forall|other: Effect|
                other.spec_index() == effect.spec_index() implies other == effect by {
                other.lemma_index_round_trip();
                effect.lemma_index_round_trip();
            }
            assert(self@.stamps =~= old(self)@.stamps.insert(
                effect,
                old(self)@.now - POWER_COOLDOWN,
            ));
        }
    }

    /// Lists the effects that are active, each once, in the order of the list
    /// of effects. The registry is left as it was.
    pub fn snapshot_active(&self) -> (r: Vec<Effect>)
        requires
            self.wf(),
        ensures
            r@.to_set() == self@.active_set(),
            r@.no_duplicates(),
            forall|i: int, j: int|
                0 <= i < j < r@.len() ==> r@[i].spec_index() < r@[j].spec_index(),
    {
        let mut active: Vec<Effect> = Vec::new();
        let mut i: usize = 0;
        while i < EFFECTS
            invariant
                i <= EFFECTS,
                self.wf(),
                forall|k: int| 0 <= k < active@.len() ==> (#[trigger] active@[k]).spec_index() < i,
                forall|k: int| 0 <= k < active@.len() ==> self@.is_active(#[trigger] active@[k]),
                forall|k: int, l: int|
                    0 <= k < l < active@.len() ==> active@[k].spec_index() < active@[l].spec_index(),
                forall|effect: Effect|
                    effect.spec_index() < i && self@.is_active(effect) ==> active@.contains(effect),
            decreases EFFECTS - i,
        {
            let effect = Effect::from_index(i as i32);
            let ghost before = active@;
            if self.is_active(effect) {
                active.push(effect);
                proof {
                    assert(active@[before.len() as int] == effect);
                    assert forall|e: Effect|
                        e.spec_index() < i + 1 && self@.is_active(e) implies active@.contains(
                        e,
                    ) by {
                        if e.spec_index() < i {
                            let k = choose|k: int| 0 <= k < before.len() && before[k] == e;
                            assert(active@[k] == e);
                        } else {
                            e.lemma_index_round_trip();
                            assert(e == effect);
                        }
                    }
                }
            } else {
                proof {
                    assert forall|e: Effect|
                        e.spec_index() < i + 1 && self@.is_active(e) implies active@.contains(
                        e,
                    ) by {
                        if e.spec_index() >= i {
                            e.lemma_index_round_trip();
                            assert(e == effect);
                        }
                    }
                }
            }
            i += 1;
        }
        proof {
            assert forall|e: Effect| active@.to_set().contains(e) == self@.active_set().contains(
                e,
            ) by {
                e.lemma_index_round_trip();
                if active@.contains(e) {
                    let k = choose|k: int| 0 <= k < active@.len() && active@[k] == e;
                }
            }
            assert(active@.to_set() =~= self@.active_set());
        }
        active
    }

    /// Builds the registry in which exactly the listed effects are active, all
    /// of them activated at the time `now`. A negative time counts as zero.
    pub fn restore(active: &Vec<Effect>, now: i64) -> (r: EffectRegistry)
        ensures
            r.wf(),
            r@ == RegistryView::restored(active@.to_set(), if now > 0 { now as int } else { 0 }),
    {
        let mut registry = EffectRegistry::new();
        registry.advance_to(now);
        let ghost start = registry@;
        let mut i: usize = 0;
        while i < active.len()
            invariant
                i <= active@.len(),
                registry.wf(),
                registry@.now == start.now,
                registry@.stamps == Map::new(
                    |effect: Effect| active@.take(i as int).contains(effect),
                    |effect: Effect| start.now,
                ),
            decreases active@.len() - i,
        {
            let ghost before = registry@;
            registry.activate(active[i]);
            proof {
                let seen = active@.take(i as int);
                let seen_next = active@.take(i + 1);
                assert(seen_next == seen.push(active@[i as int]));
                assert forall|e: Effect| seen_next.contains(e) == (seen.contains(e) || e
                    == active@[i as int]) by {
                    if seen.contains(e) {
                        let k = choose|k: int| 0 <= k < seen.len() && seen[k] == e;
                        assert(seen_next[k] == e);
                    }
                    if e == active@[i as int] {
                        assert(seen_next[i as int] == e);
                    }
                }
                assert(registry@.stamps =~= Map::new(
                    |effect: Effect| seen_next.contains(effect),
                    |effect: Effect| start.now,
                ));
            }
            i += 1;
        }
        proof {
            assert(active@.take(active@.len() as int) == active@);
            assert(registry@.stamps =~= RegistryView::restored(active@.to_set(), start.now).stamps);
        }
        registry
    }
}

/// Activating an effect twice in a row leaves the registry as the second
/// activation alone would: there is one entry for the effect, and it holds the
/// later time.
pub proof fn lemma_activation_refreshes(registry: RegistryView, effect: Effect, later: int)
    requires
        registry.now <= later,
    ensures
        registry.activated(effect).advanced_to(later).activated(effect) == registry.advanced_to(
            later,
        ).activated(effect),
        registry.activated(effect).advanced_to(later).activated(effect).stamps[effect] == later,
        registry.activated(effect).advanced_to(later).activated(effect).stamps.dom()
            == registry.stamps.dom().insert(effect),
        registry.activated(effect).advanced_to(later).activated(effect).is_active(effect),
{
    let twice = registry.activated(effect).advanced_to(later).activated(effect);
    let once = registry.advanced_to(later).activated(effect);
    assert(twice.stamps =~= once.stamps);
    assert(twice.stamps.dom() =~= registry.stamps.dom().insert(effect));
}

/// Asking which effects are active changes nothing, and a registry rebuilt
/// from the answer, at the time of the question, gives the same answer.
pub proof fn lemma_snapshot_round_trip(registry: RegistryView)
    ensures
        RegistryView::restored(registry.active_set(), registry.now).active_set()
            == registry.active_set(),
{
    let rebuilt = RegistryView::restored(registry.active_set(), registry.now);
    assert forall|effect: Effect|
        rebuilt.active_set().contains(effect) == registry.active_set().contains(effect) by {
        assert(rebuilt.is_active(effect) == registry.is_active(effect));
    }
    assert(rebuilt.active_set() =~= registry.active_set());
}

} // verus!
