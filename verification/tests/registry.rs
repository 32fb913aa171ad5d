use invaders::effects::EffectRegistry;
use invaders::logic::handle::Handle;
use invaders::logic::POWER_COOLDOWN;
use invaders::power::{Effect, PowerUp};

#[test]
fn a_new_registry_has_nothing_active() {
    let registry = EffectRegistry::new();
    assert_eq!(registry.now(), 0);
    assert_eq!(registry.stamps.len(), 26);
    assert!(registry.snapshot_active().is_empty());
    assert!(!registry.is_active(Effect::Double));
    assert_eq!(registry.stamp(Effect::Double), None);
}

#[test]
fn an_effect_is_active_for_less_than_the_cooldown() {
    let mut registry = EffectRegistry::new();
    registry.advance_to(500);
    registry.activate(Effect::Pierce);
    assert_eq!(registry.stamp(Effect::Pierce), Some(500));
    assert!(registry.is_active(Effect::Pierce));
    assert!(Handle::power(&registry, &Effect::Pierce));
    registry.advance_to(500 + POWER_COOLDOWN - 1);
    assert!(registry.is_active(Effect::Pierce));
    assert!(!registry.has_lapsed(Effect::Pierce));
    registry.advance_to(500 + POWER_COOLDOWN);
    assert!(!registry.is_active(Effect::Pierce));
    assert!(!registry.has_lapsed(Effect::Pierce));
    registry.advance_to(500 + POWER_COOLDOWN + 1);
    assert!(!registry.is_active(Effect::Pierce));
    assert!(registry.has_lapsed(Effect::Pierce));
    assert_eq!(registry.stamp(Effect::Pierce), Some(500));
}

#[test]
fn activating_twice_keeps_one_entry_with_the_later_time() {
    let mut registry = EffectRegistry::new();
    registry.advance_to(100);
    registry.activate(Effect::Double);
    registry.advance_to(150);
    registry.activate(Effect::Double);
    assert_eq!(registry.stamp(Effect::Double), Some(150));
    assert_eq!(registry.stamps.iter().filter(|s| s.is_some()).count(), 1);
    assert_eq!(registry.snapshot_active(), vec![Effect::Double]);
    registry.advance_to(100 + POWER_COOLDOWN);
    assert!(registry.is_active(Effect::Double));
    registry.advance_to(150 + POWER_COOLDOWN);
    assert!(!registry.is_active(Effect::Double));
}

#[test]
fn force_expire_ends_an_effect_at_once() {
    let mut registry = EffectRegistry::new();
    registry.advance_to(20);
    registry.activate(Effect::Follower);
    assert!(registry.is_active(Effect::Follower));
    registry.force_expire(Effect::Follower);
    assert!(!registry.is_active(Effect::Follower));
    assert_eq!(registry.stamp(Effect::Follower), Some(20 - POWER_COOLDOWN));
    assert!(!registry.has_lapsed(Effect::Follower));
    registry.advance_to(21);
    assert!(registry.has_lapsed(Effect::Follower));
}

#[test]
fn the_clock_never_runs_backwards() {
    let mut registry = EffectRegistry::new();
    registry.advance_to(70);
    registry.advance_to(30);
    assert_eq!(registry.now(), 70);
    registry.advance_to(-5);
    assert_eq!(registry.now(), 70);
    registry.advance_to(71);
    assert_eq!(registry.now(), 71);
}

#[test]
fn snapshot_lists_the_active_effects_in_order() {
    let mut registry = EffectRegistry::new();
    registry.activate(Effect::Warp);
    registry.activate(Effect::Block);
    registry.advance_to(6000);
    registry.activate(Effect::Numb);
    assert_eq!(
        registry.snapshot_active(),
        vec![Effect::Block, Effect::Numb, Effect::Warp]
    );
    registry.advance_to(10_000);
    assert_eq!(registry.snapshot_active(), vec![Effect::Numb]);
    assert_eq!(registry.snapshot_active(), vec![Effect::Numb]);
}

#[test]
fn a_registry_restored_from_a_snapshot_gives_the_same_snapshot() {
    let mut registry = EffectRegistry::new();
    registry.activate(Effect::Shield);
    registry.advance_to(4000);
    registry.activate(Effect::Xerox);
    registry.activate(Effect::Antigravity);
    registry.advance_to(11_000);
    let snapshot = registry.snapshot_active();
    assert_eq!(snapshot, vec![Effect::Antigravity, Effect::Xerox]);
    let restored = EffectRegistry::restore(&snapshot, registry.now());
    assert_eq!(restored.now(), 11_000);
    assert_eq!(restored.snapshot_active(), snapshot);
    assert_eq!(restored.snapshot_active(), snapshot);
    assert_eq!(registry.snapshot_active(), snapshot);
    assert_eq!(restored.stamp(Effect::Xerox), Some(11_000));
    assert_eq!(restored.stamp(Effect::Shield), None);
}

#[test]
fn restore_counts_a_negative_time_as_zero() {
    let restored = EffectRegistry::restore(&vec![Effect::Lock, Effect::Lock], -40);
    assert_eq!(restored.now(), 0);
    assert_eq!(restored.snapshot_active(), vec![Effect::Lock]);
}

#[test]
fn effects_are_numbered_in_the_order_of_the_alphabet() {
    assert_eq!(Effect::Antigravity.index(), 0);
    assert_eq!(Effect::Kamizake.index(), 10);
    assert_eq!(Effect::Zombify.index(), 25);
    for n in 0..26 {
        assert_eq!(Effect::from_index(n).index(), n as usize);
        assert_eq!(Effect::from_index(n).glyph(), 65 + n as u32);
    }
    assert_eq!(Effect::from_index(26), Effect::Zombify);
    assert_eq!(Effect::from_index(-1), Effect::Zombify);
    assert_eq!(Effect::from_index(3), Effect::Double);
    assert_eq!(Effect::from_index(15), Effect::Pierce);
}

#[test]
fn sample_draws_more_than_one_effect() {
    let first = Effect::sample();
    let mut other = false;
    for _ in 0..500 {
        let drawn = Effect::sample();
        assert!(drawn.index() < 26);
        if drawn != first {
            other = true;
        }
    }
    assert!(other);
}

#[test]
fn a_power_up_shows_the_first_letter_of_its_effect() {
    let power = PowerUp::new((3, 4), Effect::Pierce);
    assert_eq!(power.pos(), (3, 4));
    assert_eq!(*power.effect(), Effect::Pierce);
    assert_eq!(power.char(), 'P' as u32);
    assert_eq!(power.color(), 5);
    assert_eq!(PowerUp::new((2, 2), Effect::Antigravity).char(), 'A' as u32);
    assert_eq!(PowerUp::new((2, 2), Effect::Zombify).char(), 'Z' as u32);
}
