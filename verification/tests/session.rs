use invaders::game::{Input, Invaders, MAX_PLAYER_LIVES, REFRESH_RATE};
use invaders::shooter::Shooter;

#[test]
fn a_session_starts_with_full_lives_before_the_first_level() {
    let game = Invaders::new(24, 40);
    assert_eq!(game.lives, MAX_PLAYER_LIVES);
    assert_eq!(game.lives, 3);
    assert_eq!(game.level, 0);
    assert_eq!(game.score, 0);
    assert_eq!(game.last_update, 0);
    assert!(!game.is_game_over());
    assert_eq!(REFRESH_RATE, 50);
}

#[test]
fn the_first_frame_calls_in_the_first_wave() {
    let mut game = Invaders::new(24, 40);
    game.update(Input::Idle, 0);
    assert_eq!(game.level, 1);
    assert_eq!(game.lives, 3);
    assert_eq!(game.gate.enemies().len(), 40);
    assert_eq!(game.gate.enemies()[0].pos(), (4, 1));
    assert_eq!(game.last_update, 0);
    game.update(Input::Idle, 49);
    assert_eq!(game.gate.enemies()[0].pos(), (4, 1));
    assert_eq!(game.last_update, 0);
    game.update(Input::Idle, 50);
    assert_eq!(game.last_update, 50);
    assert_eq!(game.gate.enemies()[0].pos(), (4, 2));
    assert_eq!(game.level, 1);
}

#[test]
fn input_moves_and_fires() {
    let mut game = Invaders::new(24, 40);
    game.obey(Input::Left);
    assert_eq!(game.gate.player().pos(), (22, 19));
    game.obey(Input::Right);
    game.obey(Input::Right);
    assert_eq!(game.gate.player().pos(), (22, 21));
    game.obey(Input::Fire);
    assert!(game.gate.player().bullets().is_empty());
    game.gate.sync_clock(600);
    game.obey(Input::Fire);
    assert_eq!(game.gate.player().bullets().len(), 1);
    game.obey(Input::Idle);
    assert_eq!(game.lives, 3);
    game.obey(Input::Quit);
    assert_eq!(game.lives, -1);
    assert!(game.is_game_over());
}

#[test]
fn a_cleared_wave_brings_a_life_back() {
    let mut game = Invaders::new(24, 40);
    game.lives = 1;
    game.level = 4;
    game.reinforce();
    assert_eq!(game.lives, 2);
    assert_eq!(game.level, 5);
    assert_eq!(game.gate.enemies().len(), 40);
    game.reinforce();
    assert_eq!(game.lives, 2);
    assert_eq!(game.level, 5);
}

#[test]
fn a_hit_costs_a_life_and_the_score_is_collected() {
    let mut game = Invaders::new(24, 40);
    game.level = 2;
    game.gate.enemies_mut().push(Shooter::new((5, 5), 118, 2));
    game.gate.enemies_mut().push(Shooter::new((5, 30), 118, 2));
    game.gate.enemies_mut()[1].shoot_pos(&(21, 20), invaders::direction::Direction::Down, false, 58, 1);
    game.gate.player.shoot_pos(&(6, 6), invaders::direction::Direction::LeftUp, false, 46, 4);
    game.gate.effects.activate(invaders::power::Effect::Hijack);
    game.gate.sync_clock(50);
    game.tick();
    assert_eq!(game.lives, 2);
    assert_eq!(game.score, 40);
    assert_eq!(game.gate.score_increment(), 0);
    assert_eq!(game.gate.enemies().len(), 1);
    assert_eq!(game.last_update, 50);
}

#[test]
fn an_overrun_ends_the_session() {
    let mut game = Invaders::new(24, 40);
    game.level = 1;
    game.gate.enemies_mut().push(Shooter::new((20, 38), 118, 2));
    game.gate.effects.activate(invaders::power::Effect::Hijack);
    game.update(Input::Idle, 50);
    assert_eq!(game.gate.enemies()[0].pos(), (21, 38));
    assert_eq!(game.lives, -1);
    assert!(game.is_game_over());
}
