use invaders::direction::Direction;
use invaders::util::{event_hits, out_of_bounds, random_event, same_cell, shift};
use invaders::{COLS, LINES};

const ALL: [Direction; 8] = [
    Direction::Left,
    Direction::Right,
    Direction::LeftUp,
    Direction::RightUp,
    Direction::LeftDown,
    Direction::RightDown,
    Direction::Up,
    Direction::Down,
];

#[test]
fn shift_moves_one_cell_in_each_of_the_eight_directions() {
    let p = (10, 20);
    assert_eq!(shift(&p, &Direction::Left), (10, 19));
    assert_eq!(shift(&p, &Direction::Right), (10, 21));
    assert_eq!(shift(&p, &Direction::Up), (9, 20));
    assert_eq!(shift(&p, &Direction::Down), (11, 20));
    assert_eq!(shift(&p, &Direction::LeftUp), (9, 19));
    assert_eq!(shift(&p, &Direction::RightUp), (9, 21));
    assert_eq!(shift(&p, &Direction::LeftDown), (11, 19));
    assert_eq!(shift(&p, &Direction::RightDown), (11, 21));
}

#[test]
fn shift_is_undone_by_the_opposite_direction_everywhere_within_bounds() {
    for row in 1..LINES - 1 {
        for col in 1..COLS - 1 {
            let p = (row, col);
            assert!(!out_of_bounds(p));
            for dir in ALL {
                let q = shift(&p, &dir);
                assert!((q.0 - p.0).abs() <= 1 && (q.1 - p.1).abs() <= 1);
                assert_ne!(q, p);
                assert_eq!(shift(&q, &dir.opposite()), p);
            }
        }
    }
}

#[test]
fn opposite_pairs_the_directions() {
    assert_eq!(Direction::Up.opposite(), Direction::Down);
    assert_eq!(Direction::Down.opposite(), Direction::Up);
    assert_eq!(Direction::Left.opposite(), Direction::Right);
    assert_eq!(Direction::Right.opposite(), Direction::Left);
    assert_eq!(Direction::LeftUp.opposite(), Direction::RightDown);
    assert_eq!(Direction::RightDown.opposite(), Direction::LeftUp);
    assert_eq!(Direction::RightUp.opposite(), Direction::LeftDown);
    assert_eq!(Direction::LeftDown.opposite(), Direction::RightUp);
}

#[test]
fn mirrored_flips_vertical_and_swaps_upward_diagonals() {
    assert_eq!(Direction::Up.mirrored(), Direction::Down);
    assert_eq!(Direction::Down.mirrored(), Direction::Up);
    assert_eq!(Direction::LeftUp.mirrored(), Direction::RightUp);
    assert_eq!(Direction::RightUp.mirrored(), Direction::LeftUp);
    assert_eq!(Direction::Left.mirrored(), Direction::Up);
    assert_eq!(Direction::RightDown.mirrored(), Direction::Up);
}

#[test]
fn from_draw_gives_an_upward_diagonal() {
    assert_eq!(Direction::from_draw(0), Direction::LeftUp);
    assert_eq!(Direction::from_draw(1), Direction::RightUp);
    assert_eq!(Direction::from_draw(7), Direction::RightUp);
}

#[test]
fn sample_gives_both_upward_diagonals_and_nothing_else() {
    let mut left = 0;
    let mut right = 0;
    for _ in 0..400 {
        match Direction::sample() {
            Direction::LeftUp => left += 1,
            Direction::RightUp => right += 1,
            other => panic!("drew {:?}", other),
        }
    }
    assert!(left > 0);
    assert!(right > 0);
}

#[test]
fn out_of_bounds_holds_on_the_border_and_beyond() {
    assert!(out_of_bounds((0, 5)));
    assert!(out_of_bounds((-1, 5)));
    assert!(!out_of_bounds((1, 5)));
    assert!(out_of_bounds((5, 0)));
    assert!(!out_of_bounds((5, 1)));
    assert!(out_of_bounds((23, 5)));
    assert!(!out_of_bounds((22, 5)));
    assert!(out_of_bounds((5, 39)));
    assert!(!out_of_bounds((5, 38)));
    assert!(out_of_bounds((-3, -3)));
}

#[test]
fn same_cell_compares_both_coordinates() {
    assert!(same_cell((3, 4), (3, 4)));
    assert!(!same_cell((3, 4), (4, 3)));
    assert!(!same_cell((3, 4), (3, 5)));
}

#[test]
fn event_hits_below_the_odds() {
    assert!(event_hits(0, 1));
    assert!(!event_hits(1, 1));
    assert!(event_hits(79, 80));
    assert!(!event_hits(80, 80));
    assert!(!event_hits(0, 0));
}

#[test]
fn random_event_obeys_certain_odds_and_varies_otherwise() {
    let mut hits = 0;
    for _ in 0..2000 {
        assert!(!random_event(0));
        assert!(random_event(1000));
        if random_event(500) {
            hits += 1;
        }
    }
    assert!(hits > 0);
    assert!(hits < 2000);
}
