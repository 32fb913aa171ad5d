use invaders::direction::Direction;
use invaders::logic::handle::Handle;
use invaders::logic::shift::{get_outermost_lateral_indexes, lowest_at, Move};
use invaders::logic::{Logic, YIELDS};
use invaders::power::Effect;
use invaders::shooter::Shooter;

fn columns(logic: &Logic) -> Vec<i32> {
    logic.enemies().iter().map(|e| e.pos().1).collect()
}

fn rows(logic: &Logic) -> Vec<i32> {
    logic.enemies().iter().map(|e| e.pos().0).collect()
}

fn enemy(row: i32, col: i32) -> Shooter {
    Shooter::new((row, col), 118, 2)
}

#[test]
fn formation_turns_down_at_the_right_wall_and_then_left() {
    let mut logic = Logic::new(24, 40);
    logic.create_enemies();
    assert_eq!(logic.enemies().len(), 40);
    assert_eq!(logic.dir, Direction::Right);
    assert_eq!(*columns(&logic).iter().max().unwrap(), 19);
    for tick in 1..=19 {
        assert!(!logic.shift(&1));
        assert_eq!(logic.dir, Direction::Right);
        assert_eq!(*columns(&logic).iter().max().unwrap(), 19 + tick);
    }
    assert_eq!(*columns(&logic).iter().max().unwrap(), logic.width - 2);
    let before = rows(&logic);
    assert!(!logic.shift(&1));
    assert_eq!(logic.dir, Direction::Down);
    assert_eq!(*columns(&logic).iter().max().unwrap(), 38);
    let after = rows(&logic);
    for i in 0..40 {
        assert_eq!(after[i], before[i] + 1);
    }
    assert!(!logic.shift(&1));
    assert_eq!(logic.dir, Direction::Left);
    assert_eq!(*columns(&logic).iter().max().unwrap(), 37);
    assert_eq!(rows(&logic), after);
    assert_eq!(logic.enemies().len(), 40);
}

#[test]
fn formation_turns_down_at_the_left_wall_and_then_right() {
    let mut logic = Logic::new(24, 40);
    logic.enemies_mut().push(enemy(5, 3));
    logic.enemies_mut().push(enemy(5, 9));
    logic.dir = Direction::Left;
    assert!(!Move::enemies(&mut logic));
    assert_eq!(logic.dir, Direction::Left);
    assert!(!Move::enemies(&mut logic));
    assert_eq!(logic.dir, Direction::Left);
    assert_eq!(columns(&logic), vec![1, 7]);
    assert!(!Move::enemies(&mut logic));
    assert_eq!(logic.dir, Direction::Down);
    assert_eq!(rows(&logic), vec![6, 6]);
    assert!(!Move::enemies(&mut logic));
    assert_eq!(logic.dir, Direction::Right);
    assert_eq!(columns(&logic), vec![2, 8]);
    assert!(!logic.move_enemies());
    assert_eq!(logic.dir, Direction::Right);
}

#[test]
fn heading_changes_only_at_a_wall() {
    let mut logic = Logic::new(24, 40);
    logic.create_enemies();
    let mut changes = Vec::new();
    let mut previous = logic.dir;
    for tick in 0..120 {
        let left = *columns(&logic).iter().min().unwrap();
        let right = *columns(&logic).iter().max().unwrap();
        if Move::enemies(&mut logic) {
            break;
        }
        if logic.dir != previous {
            assert!(left == 1 || right == 38);
            if previous != Direction::Down {
                assert_eq!(logic.dir, Direction::Down);
            }
            changes.push((tick, logic.dir));
            previous = logic.dir;
        }
    }
    assert_eq!(
        &changes[..4],
        &[
            (19, Direction::Down),
            (20, Direction::Left),
            (39, Direction::Down),
            (40, Direction::Right),
        ]
    );
}

#[test]
fn an_empty_field_resets_the_heading() {
    let mut logic = Logic::new(24, 40);
    assert!(!Move::enemies(&mut logic));
    assert_eq!(logic.dir, Direction::Left);
}

#[test]
fn formation_overruns_in_the_row_above_the_players_row() {
    let mut logic = Logic::new(24, 40);
    logic.enemies_mut().push(enemy(19, 38));
    logic.enemies_mut().push(enemy(17, 30));
    assert!(!Move::enemies(&mut logic));
    assert_eq!(logic.dir, Direction::Down);
    assert_eq!(rows(&logic), vec![20, 18]);
    assert!(!Move::enemies(&mut logic));
    assert_eq!(logic.dir, Direction::Left);
    assert_eq!(rows(&logic), vec![20, 18]);
    logic.dir = Direction::Right;
    logic.enemies_mut()[0].set_y(38);
    assert!(Move::enemies(&mut logic));
    assert_eq!(logic.dir, Direction::Down);
    assert_eq!(rows(&logic), vec![21, 19]);
    assert!(lowest_at(&logic.enemies, 21));
    assert!(!lowest_at(&logic.enemies, 19));
    assert!(!lowest_at(&Vec::new(), 0));
}

#[test]
fn a_descent_lasts_one_tick_wherever_the_enemies_stand() {
    let mut logic = Logic::new(24, 40);
    logic.enemies_mut().push(enemy(5, 38));
    logic.enemies_mut().push(enemy(5, 10));
    assert!(!Move::enemies(&mut logic));
    assert_eq!(logic.dir, Direction::Down);
    assert_eq!(logic.descent_from, Direction::Right);
    logic.enemies_mut().remove(0);
    assert_eq!(logic.enemies()[0].pos(), (6, 10));
    assert!(!Move::enemies(&mut logic));
    assert_eq!(logic.dir, Direction::Left);
    assert_eq!(logic.enemies()[0].pos(), (6, 9));
    assert!(!Move::enemies(&mut logic));
    assert_eq!(logic.dir, Direction::Left);
    assert_eq!(logic.enemies()[0].pos(), (6, 8));

    let mut logic = Logic::new(24, 40);
    logic.enemies_mut().push(enemy(5, 1));
    logic.enemies_mut().push(enemy(5, 10));
    logic.dir = Direction::Left;
    assert!(!Move::enemies(&mut logic));
    assert_eq!(logic.dir, Direction::Down);
    assert_eq!(logic.descent_from, Direction::Left);
    logic.enemies_mut().remove(0);
    assert!(!Move::enemies(&mut logic));
    assert_eq!(logic.dir, Direction::Right);
    assert_eq!(logic.enemies()[0].pos(), (6, 11));

    let mut logic = Logic::new(24, 40);
    logic.enemies_mut().push(enemy(5, 10));
    logic.dir = Direction::Down;
    assert!(!Move::enemies(&mut logic));
    assert_eq!(logic.dir, Direction::Left);
    assert_eq!(logic.enemies()[0].pos(), (5, 9));
}

#[test]
fn a_retreat_in_a_descent_ends_in_the_heading_after_the_descent() {
    let mut logic = Logic::new(24, 40);
    logic.enemies_mut().push(enemy(9, 38));
    assert!(!Move::enemies(&mut logic));
    assert_eq!(logic.dir, Direction::Down);
    logic.yield_counter = 2;
    assert!(!Move::enemies(&mut logic));
    assert_eq!(logic.dir, Direction::Up);
    assert!(!Move::enemies(&mut logic));
    assert_eq!(logic.dir, Direction::Down);
    assert_eq!(logic.enemies()[0].pos(), (10, 38));
    assert!(!Move::enemies(&mut logic));
    assert_eq!(logic.dir, Direction::Left);
    assert_eq!(logic.enemies()[0].pos(), (10, 37));
}

#[test]
fn lock_freezes_the_formation_and_antigravity_the_descent() {
    let mut logic = Logic::new(24, 40);
    logic.enemies_mut().push(enemy(5, 38));
    logic.effects.activate(Effect::Lock);
    assert!(!Move::enemies(&mut logic));
    assert_eq!(logic.dir, Direction::Right);
    assert_eq!(logic.enemies()[0].pos(), (5, 38));
    logic.sync_clock(10_000);
    logic.effects.activate(Effect::Antigravity);
    assert!(!Move::enemies(&mut logic));
    assert_eq!(logic.dir, Direction::Down);
    assert_eq!(logic.enemies()[0].pos(), (5, 38));
    assert!(!Move::enemies(&mut logic));
    assert_eq!(logic.dir, Direction::Left);
    assert_eq!(logic.enemies()[0].pos(), (5, 37));
}

#[test]
fn a_numb_enemy_stays_behind() {
    let mut logic = Logic::new(24, 40);
    logic.enemies_mut().push(enemy(5, 5));
    logic.enemies_mut().push(enemy(5, 7));
    logic.enemies_mut()[0].set_numb();
    assert!(!Move::enemies(&mut logic));
    assert_eq!(columns(&logic), vec![5, 8]);
}

#[test]
fn a_yield_sends_the_formation_up_and_back() {
    let mut logic = Logic::new(24, 40);
    logic.enemies_mut().push(enemy(9, 5));
    logic.yield_counter = YIELDS;
    assert_eq!(YIELDS, 3);
    assert!(!Move::enemies(&mut logic));
    assert_eq!(logic.dir, Direction::Up);
    assert_eq!(logic.last_dir, Some(Direction::Right));
    assert_eq!(logic.enemies()[0].pos(), (8, 5));
    assert!(!Move::enemies(&mut logic));
    assert_eq!(logic.dir, Direction::Up);
    assert_eq!(logic.enemies()[0].pos(), (7, 5));
    assert!(!Move::enemies(&mut logic));
    assert_eq!(logic.yield_counter, 0);
    assert_eq!(logic.dir, Direction::Right);
    assert_eq!(logic.enemies()[0].pos(), (7, 6));
    logic.yield_counter = 1;
    Handle::yields(&mut logic);
    assert_eq!(logic.dir, Direction::Right);
    assert_eq!(logic.yield_counter, 0);
}

#[test]
fn the_scan_finds_the_outermost_columns() {
    let fleet = vec![enemy(4, 7), enemy(4, 3), enemy(4, 9), enemy(6, 3), enemy(6, 9), enemy(6, 5)];
    assert_eq!(get_outermost_lateral_indexes(&fleet), (3, 4));
    assert_eq!(get_outermost_lateral_indexes(&fleet[..1]), (0, 0));
    assert_eq!(get_outermost_lateral_indexes(&fleet[..0]), (0, 0));
    let level = vec![enemy(4, 7), enemy(5, 7), enemy(6, 7)];
    assert_eq!(get_outermost_lateral_indexes(&level), (2, 0));
}

#[test]
fn the_player_moves_stops_at_the_wall_and_warps() {
    let mut logic = Logic::new(24, 40);
    assert_eq!(logic.player().pos(), (22, 20));
    logic.player_move(&Direction::Left);
    assert_eq!(logic.player().pos(), (22, 19));
    logic.player.set_y(1);
    logic.player_move(&Direction::Left);
    assert_eq!(logic.player().pos(), (22, 1));
    logic.effects.activate(Effect::Warp);
    logic.player_move(&Direction::Left);
    assert_eq!(logic.player().pos(), (22, 38));
    logic.player_move(&Direction::Right);
    assert_eq!(logic.player().pos(), (22, 1));
    logic.move_player(&Direction::Right);
    assert_eq!(logic.player().pos(), (22, 2));
    logic.move_player(&Direction::Down);
    assert_eq!(logic.player().pos(), (22, 2));
}

#[test]
fn the_companions_track_the_players_column() {
    let mut logic = Logic::new(24, 40);
    logic.effects.activate(Effect::Xerox);
    invaders::logic::generate::Generate::xerox(&mut logic);
    invaders::logic::generate::Generate::follower(&mut logic);
    assert_eq!(logic.xerox().unwrap().pos(), (22, 20));
    assert_eq!(logic.follower().unwrap().pos(), (21, 20));
    logic.player_move(&Direction::Left);
    logic.player_move(&Direction::Left);
    assert_eq!(logic.player().pos(), (22, 18));
    assert_eq!(logic.xerox().unwrap().pos(), (22, 22));
    assert_eq!(logic.follower().unwrap().pos(), (21, 18));
}

#[test]
fn the_companions_take_their_place_in_every_tick() {
    let mut logic = Logic::new(24, 40);
    logic.effects.activate(Effect::Xerox);
    invaders::logic::generate::Generate::xerox(&mut logic);
    invaders::logic::generate::Generate::follower(&mut logic);
    logic.player.set_y(5);
    assert!(!logic.shift(&1));
    assert_eq!(logic.xerox().unwrap().pos(), (22, 35));
    assert_eq!(logic.follower().unwrap().pos(), (21, 5));
}

#[test]
fn the_boss_crosses_the_field_and_leaves_at_the_far_wall() {
    let mut logic = Logic::new(24, 40);
    invaders::logic::generate::Generate::boss_on(&mut logic, true);
    assert_eq!(logic.boss().unwrap().pos(), (2, 1));
    for step in 1..=36 {
        Move::boss(&mut logic);
        assert_eq!(logic.boss().unwrap().pos(), (2, 1 + step));
    }
    logic.move_boss();
    assert!(logic.boss().is_none());
    Move::boss(&mut logic);
    assert!(logic.boss().is_none());
}

#[test]
fn projectiles_move_bounce_and_leave() {
    let mut logic = Logic::new(24, 40);
    logic.player.shoot_pos(&(1, 5), Direction::Up, false, 46, 4);
    logic.player.shoot_pos(&(9, 9), Direction::Up, false, 46, 4);
    logic.enemies_mut().push(enemy(5, 5));
    logic.enemies_mut()[0].shoot(Direction::Down, false, 58, 1);
    logic.enemies_mut()[0].shoot_pos(&(22, 7), Direction::Down, false, 58, 1);
    logic.move_bullets();
    assert_eq!(logic.player().bullets().len(), 1);
    assert_eq!(logic.player().bullets()[0].pos(), (8, 9));
    assert_eq!(logic.enemies()[0].bullets().len(), 1);
    assert_eq!(logic.enemies()[0].bullets()[0].pos(), (6, 5));
    logic.effects.activate(Effect::Reflect);
    logic.player.shoot_pos(&(1, 5), Direction::Up, false, 46, 4);
    Move::bullets(&mut logic);
    assert_eq!(logic.player().bullets().len(), 2);
    assert_eq!(logic.player().bullets()[1].pos(), (1, 5));
    assert_eq!(*logic.player().bullets()[1].dir(), Direction::Down);
    Move::lasers(&mut logic);
    assert_eq!(logic.enemies()[0].bullets()[0].pos(), (7, 5));
}

#[test]
fn zombified_foes_move_every_other_tick() {
    let mut logic = Logic::new(24, 40);
    logic.enemies_mut().push(enemy(5, 5));
    logic.effects.activate(Effect::Zombify);
    assert!(!Move::foes(&mut logic));
    assert!(logic.slow_down);
    assert_eq!(logic.enemies()[0].pos(), (5, 5));
    assert!(!Move::foes(&mut logic));
    assert!(!logic.slow_down);
    assert_eq!(logic.enemies()[0].pos(), (5, 6));
    logic.sync_clock(10_000);
    logic.slow_down = true;
    assert!(!Move::foes(&mut logic));
    assert!(!logic.slow_down);
    assert_eq!(logic.enemies()[0].pos(), (5, 7));
}

#[test]
fn the_dive_rams_the_formation_or_returns_at_the_wall() {
    let mut logic = Logic::new(24, 40);
    assert!(!Handle::kamizake(&mut logic));
    logic.effects.activate(Effect::Kamizake);
    logic.enemies_mut().push(enemy(20, 20));
    logic.enemies_mut().push(enemy(4, 4));
    assert!(!Handle::kamizake(&mut logic));
    assert_eq!(logic.player().pos(), (21, 20));
    assert!(Handle::kamizake(&mut logic));
    assert_eq!(logic.player().pos(), (22, 20));
    assert!(logic.enemies().is_empty());
    logic.player.set_x(1);
    assert!(Handle::kamizake(&mut logic));
    assert_eq!(logic.player().pos(), (22, 20));
    logic.effects.activate(Effect::Jump);
    Handle::jump(&mut logic);
    assert_eq!(logic.player().pos(), (3, 20));
    assert!(!Handle::kamizake(&mut logic));
    assert_eq!(logic.player().pos(), (4, 20));
    logic.player.set_x(22);
    assert!(Handle::kamizake(&mut logic));
    assert_eq!(logic.player().pos(), (3, 20));
}

#[test]
fn the_jump_decides_the_players_row() {
    let mut logic = Logic::new(24, 40);
    logic.player.set_x(9);
    Handle::jump(&mut logic);
    assert_eq!(logic.player().pos(), (22, 20));
    logic.player.set_x(9);
    logic.effects.activate(Effect::Kamizake);
    Handle::jump(&mut logic);
    assert_eq!(logic.player().pos(), (9, 20));
    logic.effects.activate(Effect::Jump);
    Handle::jump(&mut logic);
    assert_eq!(logic.player().pos(), (3, 20));
}
