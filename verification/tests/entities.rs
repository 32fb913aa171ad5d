use invaders::boss::Boss;
use invaders::bullet::Bullet;
use invaders::direction::Direction;
use invaders::shield::{shield_at, wear_bodies, wear_by, wear_down, Shield};
use invaders::shooter::{bullet_at, fired_at, ship_at, take_bullets_at, Shooter};
use invaders::util::out_of_bounds;

#[test]
fn a_bullet_moves_along_its_heading() {
    let mut bullet = Bullet::new((10, 10), Direction::LeftUp, 46, 4);
    assert_eq!(bullet.pos(), (10, 10));
    assert_eq!(bullet.char(), 46);
    assert_eq!(bullet.color(), 4);
    assert!(!bullet.is_explosive());
    bullet.shift();
    assert_eq!(bullet.pos(), (9, 9));
    bullet.set_dir(Direction::Down);
    assert_eq!(*bullet.dir(), Direction::Down);
    bullet.shift();
    assert_eq!(bullet.pos(), (10, 9));
    bullet.set_is_explosive(true);
    assert!(bullet.is_explosive());
    assert_eq!(
        bullet,
        Bullet { pos: (10, 9), char: 46, color: 4, dir: Direction::Down, is_explosive: true }
    );
}

#[test]
fn a_shooter_fires_in_order_and_in_reverse() {
    let mut ship = Shooter::new((22, 20), 42, 3);
    assert_eq!(ship.pos(), (22, 20));
    assert_eq!(ship.char(), 42);
    assert_eq!(ship.color(), 3);
    assert!(ship.bullets().is_empty());
    ship.shoot(Direction::Up, false, 46, 4);
    ship.shoot_pos(&(21, 19), Direction::LeftUp, true, 58, 1);
    assert_eq!(ship.bullets().len(), 2);
    assert_eq!(
        ship.bullets()[0],
        Bullet { pos: (22, 20), char: 46, color: 4, dir: Direction::Up, is_explosive: false }
    );
    assert_eq!(
        ship.bullets()[1],
        Bullet { pos: (21, 19), char: 58, color: 1, dir: Direction::LeftUp, is_explosive: true }
    );
    ship.set_revert(true);
    ship.shoot(Direction::Up, false, 46, 4);
    assert_eq!(*ship.bullets()[2].dir(), Direction::Down);
    assert_eq!(ship.revert(&Direction::LeftDown), Direction::RightUp);
    ship.bullets_mut().clear();
    assert!(ship.bullets().is_empty());
}

#[test]
fn a_shooter_does_not_step_out_of_bounds() {
    let mut ship = Shooter::new((22, 1), 42, 3);
    assert_eq!(ship.new_pos(&Direction::Left), (22, 0));
    ship.shift(&Direction::Left);
    assert_eq!(ship.pos(), (22, 1));
    ship.shift(&Direction::Down);
    assert_eq!(ship.pos(), (22, 1));
    ship.shift(&Direction::Right);
    assert_eq!(ship.pos(), (22, 2));
    ship.shift(&Direction::Up);
    assert_eq!(ship.pos(), (21, 2));
    ship.set_x(5);
    ship.set_y(7);
    assert_eq!(ship.pos(), (5, 7));
}

#[test]
fn clear_bullets_leaves_no_projectile_out_of_bounds() {
    let mut ship = Shooter::new((10, 10), 118, 2);
    let cells = [(0, 5), (1, 5), (22, 38), (23, 38), (5, 0), (5, 39), (12, 12), (0, 0), (-4, 90)];
    for cell in cells {
        ship.shoot_pos(&cell, Direction::Down, false, 58, 1);
    }
    ship.clear_bullets();
    let left: Vec<(i32, i32)> = ship.bullets().iter().map(|b| b.pos()).collect();
    assert_eq!(left, vec![(1, 5), (22, 38), (12, 12)]);
    for bullet in ship.bullets() {
        assert!(!out_of_bounds(bullet.pos()));
    }
    ship.clear_bullets();
    assert_eq!(ship.bullets().len(), 3);
}

#[test]
fn advance_bullets_moves_and_bounces() {
    let mut ship = Shooter::new((22, 20), 42, 3);
    ship.shoot_pos(&(1, 5), Direction::Up, false, 46, 4);
    ship.shoot_pos(&(5, 1), Direction::LeftUp, false, 46, 4);
    ship.shoot_pos(&(1, 7), Direction::LeftUp, false, 46, 4);
    ship.shoot_pos(&(9, 9), Direction::Up, false, 46, 4);
    let mut plain = ship.clone();
    ship.advance_bullets(true);
    let got: Vec<((i32, i32), Direction)> =
        ship.bullets().iter().map(|b| (b.pos(), *b.dir())).collect();
    assert_eq!(
        got,
        vec![
            ((1, 5), Direction::Down),
            ((3, 1), Direction::RightUp),
            ((-1, 7), Direction::RightUp),
            ((8, 9), Direction::Up),
        ]
    );
    plain.advance_bullets(false);
    let got: Vec<(i32, i32)> = plain.bullets().iter().map(|b| b.pos()).collect();
    assert_eq!(got, vec![(0, 5), (4, 0), (0, 6), (8, 9)]);
}

#[test]
fn flags_of_a_shooter() {
    let mut ship = Shooter::new((4, 1), 118, 2);
    assert!(!ship.is_mind_controlled());
    assert!(!ship.is_numb());
    ship.mind_control();
    assert!(ship.is_mind_controlled());
    ship.set_numb();
    assert!(ship.is_numb());
    assert_eq!(ship.color(), 1);
    let copy = ship.clone();
    assert_eq!(copy.pos(), (4, 1));
    assert!(copy.is_numb() && copy.is_mind_controlled());
}

#[test]
fn projectiles_are_found_and_taken_by_cell() {
    let mut ship = Shooter::new((4, 1), 118, 2);
    ship.shoot_pos(&(6, 1), Direction::Down, false, 58, 1);
    ship.shoot_pos(&(7, 1), Direction::Down, false, 58, 1);
    ship.shoot_pos(&(6, 1), Direction::Down, true, 58, 1);
    assert!(bullet_at(ship.bullets(), (6, 1)));
    assert!(!bullet_at(ship.bullets(), (1, 6)));
    let fleet = vec![Shooter::new((9, 9), 118, 2), ship.clone()];
    assert!(fired_at(&fleet, (7, 1)));
    assert!(!fired_at(&fleet, (9, 9)));
    assert!(ship_at(&fleet, (9, 9)));
    assert!(!ship_at(&fleet, (7, 1)));
    let taken = take_bullets_at(ship.bullets_mut(), (6, 1));
    assert_eq!(taken.len(), 2);
    assert!(!taken[0].is_explosive() && taken[1].is_explosive());
    assert_eq!(ship.bullets().len(), 1);
    assert_eq!(ship.bullets()[0].pos(), (7, 1));
}

#[test]
fn a_shield_loses_lives_and_dies_at_zero() {
    let mut shield = Shield::new((21, 5), 2, 6, 95);
    assert_eq!(shield.pos(), (21, 5));
    assert_eq!(shield.char(), 95);
    assert_eq!(shield.color(), 6);
    assert!(shield.is_alive());
    shield.damage();
    assert!(shield.is_alive());
    shield.damage();
    assert!(!shield.is_alive());
    shield.set_x(9);
    assert_eq!(shield.pos(), (21, 9));
    assert_eq!(shield, Shield { pos: (21, 9), lives: 0, color: 6, char: 95 });
}

#[test]
fn wear_counts_hits_and_stops_at_the_lowest_value() {
    let mut ship = Shooter::new((4, 1), 118, 2);
    for _ in 0..5 {
        ship.shoot_pos(&(6, 1), Direction::Down, false, 58, 1);
    }
    ship.shoot_pos(&(6, 2), Direction::Down, false, 58, 1);
    assert_eq!(wear_by(ship.bullets(), (6, 1), 3), -2);
    assert_eq!(wear_by(ship.bullets(), (6, 2), 3), 2);
    assert_eq!(wear_by(ship.bullets(), (6, 3), 3), 3);
    assert_eq!(wear_by(ship.bullets(), (6, 1), -126), -128);
    let fleet = vec![ship.clone(), Shooter::new((6, 1), 118, 2), ship.clone()];
    assert_eq!(wear_down(&fleet, (6, 1), 127), 117);
    assert_eq!(wear_bodies(&fleet, (4, 1), 3), 1);
    assert_eq!(wear_bodies(&fleet, (6, 1), 3), 2);
    let wall = vec![Shield::new((21, 5), 3, 6, 95)];
    assert!(shield_at(&wall, (21, 5)));
    assert!(!shield_at(&wall, (5, 21)));
}

#[test]
fn the_boss_covers_two_cells_and_moves_right() {
    let mut boss = Boss::new((2, 1));
    assert_eq!(boss.pos(), (2, 1));
    assert_eq!(boss.char(), 'V' as u32);
    assert_eq!(boss.color(), 8);
    assert_eq!(boss.left_pos(), 1);
    assert!(boss.covers((2, 1)));
    assert!(boss.covers((2, 2)));
    assert!(!boss.covers((2, 3)));
    assert!(!boss.covers((2, 0)));
    assert!(!boss.covers((3, 1)));
    boss.shift();
    assert_eq!(boss.pos(), (2, 2));
    assert!(boss.covers((2, 3)));
    assert!(!boss.covers((2, 1)));
}
