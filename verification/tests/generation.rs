use invaders::direction::Direction;
use invaders::logic::generate::Generate;
use invaders::logic::Logic;
use invaders::power::{Effect, PowerUp};
use invaders::shooter::Shooter;

fn positions(logic: &Logic) -> Vec<(i32, i32)> {
    logic.enemies().iter().map(|e| e.pos()).collect()
}

#[test]
fn a_new_game_has_the_player_in_the_middle_of_the_bottom_row() {
    let logic = Logic::new(24, 40);
    assert_eq!(logic.player().pos(), (22, 20));
    assert_eq!(logic.player().char(), 42);
    assert_eq!(logic.player().color(), 3);
    assert!(logic.enemies().is_empty());
    assert!(logic.powers().is_empty());
    assert!(logic.shields().is_empty());
    assert!(logic.obstacles().is_empty());
    assert!(logic.boss().is_none());
    assert!(logic.follower().is_none());
    assert!(logic.xerox().is_none());
    assert!(logic.active_effects().is_empty());
    assert_eq!(logic.score_increment(), 0);
    assert_eq!(logic.dir, Direction::Right);
    assert_eq!(logic.cooldown_attack, 600);
    assert_eq!(logic.descent_from, Direction::Right);
    assert_eq!((logic.height, logic.width), (invaders::LINES, invaders::COLS));
}

#[test]
fn a_formation_has_four_rows_of_ten() {
    let mut logic = Logic::new(24, 40);
    let mut level = 0;
    logic.level_up(&mut level);
    assert_eq!(level, 1);
    let cells = positions(&logic);
    assert_eq!(cells.len(), 40);
    assert_eq!(cells[0], (4, 1));
    assert_eq!(cells[9], (4, 19));
    assert_eq!(cells[10], (6, 1));
    assert_eq!(cells[39], (10, 19));
    for (k, cell) in cells.iter().enumerate() {
        assert!(!invaders::util::out_of_bounds(*cell));
        assert!(!cells[..k].contains(cell));
    }
    for enemy in logic.enemies() {
        assert!(enemy.bullets().is_empty());
        assert!(!enemy.is_numb() && !enemy.is_mind_controlled());
    }
    assert_eq!(logic.player().pos(), (22, 20));
    assert_eq!(logic.dir, Direction::Right);
    for (k, cell) in cells.iter().enumerate() {
        assert_eq!(*cell, (2 * (k as i32 / 10 + 2), 2 * (k as i32 % 10) + 1));
    }
    assert_eq!(logic.enemies()[7].char(), 118);
    assert_eq!(logic.enemies()[7].color(), 2);
    Generate::enemies(&mut logic);
    assert_eq!(logic.enemies().len(), 80);
    assert_eq!(logic.enemies()[40].pos(), (4, 1));
}

#[test]
fn a_formation_that_starts_high_up_has_four_rows_of_ten() {
    let mut logic = Logic::new(24, 40);
    logic.create_enemies();
    let cells = positions(&logic);
    assert_eq!(cells.len(), 40);
    assert_eq!(cells[0], (2, 1));
    assert_eq!(cells[39], (8, 19));
    Generate::formation(&mut logic, 0, 7);
    assert_eq!(logic.enemies().len(), 40);
    Generate::formation(&mut logic, 1, 3);
    assert_eq!(logic.enemies()[40].pos(), (6, 1));
    assert_eq!(logic.enemies().len(), 50);
}

#[test]
fn the_double_appears_with_its_effect_and_leaves_with_it() {
    let mut logic = Logic::new(24, 40);
    Generate::xerox(&mut logic);
    assert!(logic.xerox().is_none());
    logic.effects.activate(Effect::Xerox);
    logic.player.set_y(7);
    Generate::xerox(&mut logic);
    let double = logic.xerox().unwrap();
    assert_eq!(double.pos(), (22, 33));
    assert_eq!(double.char(), 42);
    assert_eq!(double.color(), 4);
    assert!(double.is_mind_controlled());
    logic.player.set_y(9);
    Generate::xerox(&mut logic);
    assert_eq!(logic.xerox().unwrap().pos(), (22, 33));
    logic.sync_clock(10_000);
    Generate::xerox(&mut logic);
    assert!(logic.xerox().is_none());
}

#[test]
fn the_boss_appears_only_on_a_hit_and_only_once() {
    let mut logic = Logic::new(24, 40);
    Generate::boss_on(&mut logic, false);
    assert!(logic.boss().is_none());
    Generate::boss_on(&mut logic, true);
    assert_eq!(logic.boss().unwrap().pos(), (2, 1));
    invaders::logic::shift::Move::boss(&mut logic);
    Generate::boss_on(&mut logic, true);
    assert_eq!(logic.boss().unwrap().pos(), (2, 2));
    for _ in 0..50 {
        Generate::boss(&mut logic);
        logic.create_boss();
    }
    assert_eq!(logic.boss().unwrap().pos(), (2, 2));
}

#[test]
fn power_ups_appear_inside_the_walls() {
    let mut logic = Logic::new(24, 40);
    for _ in 0..3000 {
        Generate::power(&mut logic);
    }
    logic.create_power();
    let count = logic.powers().len();
    assert!(count > 0);
    assert!(count < 3001);
    let mut rows = std::collections::BTreeSet::new();
    let mut cols = std::collections::BTreeSet::new();
    let mut effects_seen = std::collections::BTreeSet::new();
    for power in logic.powers() {
        let (row, col) = power.pos();
        assert!(2 <= row && row < 22);
        assert!(1 <= col && col < 39);
        assert_eq!(*power, PowerUp::new(power.pos(), *power.effect()));
        rows.insert(row);
        cols.insert(col);
        effects_seen.insert(power.effect().index());
    }
    assert!(rows.len() > 1);
    assert!(cols.len() > 1);
    assert!(effects_seen.len() > 1);
}

#[test]
fn a_power_up_appears_when_the_roll_hit() {
    let mut logic = Logic::new(24, 40);
    Generate::power_on(&mut logic, false, (9, 9), Effect::Warp);
    assert!(logic.powers().is_empty());
    Generate::power_on(&mut logic, true, (9, 9), Effect::Warp);
    Generate::power_on(&mut logic, false, (3, 3), Effect::Lock);
    Generate::power_on(&mut logic, true, (9, 9), Effect::Numb);
    assert_eq!(
        logic.powers().to_vec(),
        vec![PowerUp::new((9, 9), Effect::Warp), PowerUp::new((9, 9), Effect::Numb)]
    );
}

#[test]
fn enemies_fire_by_the_draws() {
    let mut logic = Logic::new(24, 40);
    for col in [1, 3, 5, 7] {
        logic.enemies_mut().push(Shooter::new((4, col), 118, 2));
    }
    logic.enemies_mut()[2].mind_control();
    logic.enemies_mut()[3].mind_control();
    let fires = vec![true, false, true];
    let dirs = vec![Direction::LeftUp, Direction::LeftUp, Direction::RightUp];
    Generate::enemy_attack_with(&mut logic, &fires, &dirs);
    assert_eq!(logic.enemies()[0].bullets().len(), 1);
    let laser = logic.enemies()[0].bullets()[0];
    assert_eq!(laser.pos(), (4, 1));
    assert_eq!(*laser.dir(), Direction::Down);
    assert_eq!(laser.char(), 58);
    assert_eq!(laser.color(), 1);
    assert!(logic.enemies()[1].bullets().is_empty());
    assert!(logic.enemies()[2].bullets().is_empty());
    assert!(logic.enemies()[3].bullets().is_empty());
    assert_eq!(logic.player().bullets().len(), 1);
    let shot = logic.player().bullets()[0];
    assert_eq!(shot.pos(), (4, 5));
    assert_eq!(*shot.dir(), Direction::RightUp);
    assert_eq!(shot.char(), 46);
    Generate::enemy_shot(&mut logic, 3, true, Direction::LeftUp);
    assert_eq!(logic.player().bullets()[1].pos(), (4, 7));
    Generate::enemy_shot(&mut logic, 1, false, Direction::LeftUp);
    assert!(logic.enemies()[1].bullets().is_empty());
}

#[test]
fn the_hijack_silences_the_enemies() {
    let mut logic = Logic::new(24, 40);
    logic.create_enemies();
    logic.effects.activate(Effect::Hijack);
    Generate::enemy_attack_with(&mut logic, &vec![true; 40], &vec![Direction::LeftUp; 40]);
    for _ in 0..50 {
        Generate::enemy_attack(&mut logic);
        logic.enemy_fire();
    }
    assert!(logic.enemies().iter().all(|e| e.bullets().is_empty()));
    assert!(logic.player().bullets().is_empty());
}

#[test]
fn enemies_fire_now_and_then() {
    let mut logic = Logic::new(24, 40);
    logic.create_enemies();
    logic.enemies_mut()[0].mind_control();
    for _ in 0..200 {
        Generate::enemy_attack(&mut logic);
    }
    let lasers: usize = logic.enemies().iter().map(|e| e.bullets().len()).sum();
    assert!(lasers > 0);
    assert!(lasers < 40 * 200);
    assert!(logic.enemies()[0].bullets().is_empty());
    for enemy in logic.enemies() {
        for laser in enemy.bullets() {
            assert_eq!(laser.pos(), enemy.pos());
            assert_eq!(*laser.dir(), Direction::Down);
        }
    }
    for shot in logic.player().bullets() {
        assert_eq!(shot.pos(), (2, 1));
        assert!(*shot.dir() == Direction::LeftUp || *shot.dir() == Direction::RightUp);
    }
}

#[test]
fn a_round_of_generation_keeps_the_game_in_shape() {
    let mut logic = Logic::new(24, 40);
    logic.create_enemies();
    logic.effects.activate(Effect::Obstacle);
    logic.effects.activate(Effect::Xerox);
    for _ in 0..100 {
        logic.generate();
    }
    assert_eq!(logic.enemies().len(), 40);
    assert_eq!(logic.obstacles().len(), 4);
    assert_eq!(logic.xerox().unwrap().pos(), (22, 20));
    assert!(logic.powers().len() <= 100);
}
