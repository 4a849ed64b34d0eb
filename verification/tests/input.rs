use snake_cli::game::{Direction, Game, GameConfig, GameMode};
use snake_cli::input::{
    handle_countdown, handle_game_over, handle_name_typing, handle_paused, handle_playing, handle_start_menu,
    steering_pressed, InputAction, KeyPresses,
};

fn no_keys() -> KeyPresses {
    KeyPresses {
        quit: false,
        enter: false,
        mode: false,
        board: false,
        sound: false,
        pause: false,
        restart: false,
        backspace: false,
        up: false,
        down: false,
        left: false,
        right: false,
        typed: None,
    }
}

#[test]
fn start_menu_precedence() {
    let mut name = String::from("Ann");
    let keys = KeyPresses { quit: true, enter: true, mode: true, ..no_keys() };
    assert_eq!(handle_start_menu(&mut name, &keys), InputAction::Quit);
    let keys = KeyPresses { enter: true, mode: true, ..no_keys() };
    assert_eq!(handle_start_menu(&mut name, &keys), InputAction::Start);
    let keys = KeyPresses { mode: true, board: true, typed: Some('m'), ..no_keys() };
    assert_eq!(handle_start_menu(&mut name, &keys), InputAction::ToggleMode);
    assert_eq!(name, "Ann");
    let keys = KeyPresses { board: true, sound: true, ..no_keys() };
    assert_eq!(handle_start_menu(&mut name, &keys), InputAction::TogglePreset);
    let keys = KeyPresses { sound: true, ..no_keys() };
    assert_eq!(handle_start_menu(&mut name, &keys), InputAction::ToggleSound);
}

#[test]
fn start_needs_a_visible_name() {
    let mut name = String::from("   ");
    let keys = KeyPresses { enter: true, typed: Some('x'), ..no_keys() };
    assert_eq!(handle_start_menu(&mut name, &keys), InputAction::Nothing);
    assert_eq!(name, "   x");
}

#[test]
fn typing_edits_the_name() {
    let mut name = String::new();
    handle_name_typing(&mut name, &KeyPresses { typed: Some('A'), ..no_keys() });
    handle_name_typing(&mut name, &KeyPresses { typed: Some('!'), ..no_keys() });
    handle_name_typing(&mut name, &KeyPresses { typed: Some('_'), ..no_keys() });
    assert_eq!(name, "A_");
    handle_name_typing(&mut name, &KeyPresses { backspace: true, typed: Some('z'), ..no_keys() });
    assert_eq!(name, "A");
    let mut empty = String::new();
    handle_name_typing(&mut empty, &KeyPresses { backspace: true, ..no_keys() });
    assert_eq!(empty, "");
    let mut long = String::from("abcdefghijklmnop");
    handle_name_typing(&mut long, &KeyPresses { typed: Some('q'), ..no_keys() });
    assert_eq!(long, "abcdefghijklmnop");
    let mut accented = String::from("é");
    handle_name_typing(&mut accented, &KeyPresses { backspace: true, ..no_keys() });
    assert_eq!(accented, "");
}

#[test]
fn screen_actions() {
    assert_eq!(handle_countdown(&KeyPresses { quit: true, ..no_keys() }), InputAction::Quit);
    assert_eq!(handle_countdown(&no_keys()), InputAction::Nothing);
    assert_eq!(handle_paused(&KeyPresses { pause: true, sound: true, ..no_keys() }), InputAction::Resume);
    assert_eq!(handle_paused(&KeyPresses { sound: true, ..no_keys() }), InputAction::ToggleSound);
    assert_eq!(handle_game_over(&KeyPresses { restart: true, ..no_keys() }), InputAction::PlayAgain);
    assert_eq!(handle_game_over(&KeyPresses { enter: true, ..no_keys() }), InputAction::PlayAgain);
    assert_eq!(handle_game_over(&no_keys()), InputAction::Nothing);
}

#[test]
fn steering_priority() {
    assert_eq!(steering_pressed(&KeyPresses { up: true, down: true, ..no_keys() }), Some(Direction::Up));
    assert_eq!(steering_pressed(&KeyPresses { left: true, right: true, ..no_keys() }), Some(Direction::Left));
    assert_eq!(steering_pressed(&no_keys()), None);
}

#[test]
fn playing_queues_turns_without_reversing() {
    let mut game = Game::new_with_seed(GameMode::Classic, GameConfig::default(), Some(1));
    assert_eq!(handle_playing(&mut game, &KeyPresses { left: true, ..no_keys() }), InputAction::Nothing);
    assert_eq!(game.snake.direction, Direction::Right);
    assert!(game.pending_turns.is_empty());
    assert_eq!(handle_playing(&mut game, &KeyPresses { up: true, ..no_keys() }), InputAction::Nothing);
    assert_eq!(game.snake.direction, Direction::Right);
    assert_eq!(game.pending_turns.iter().copied().collect::<Vec<_>>(), vec![Direction::Up]);
    assert_eq!(handle_playing(&mut game, &KeyPresses { pause: true, left: true, ..no_keys() }), InputAction::Pause);
    assert_eq!(game.pending_turns.len(), 1);
    assert_eq!(handle_playing(&mut game, &KeyPresses { left: true, ..no_keys() }), InputAction::Nothing);
    assert_eq!(handle_playing(&mut game, &KeyPresses { down: true, ..no_keys() }), InputAction::Nothing);
    assert_eq!(game.pending_turns.iter().copied().collect::<Vec<_>>(), vec![Direction::Up, Direction::Left]);
    assert_eq!(handle_playing(&mut game, &KeyPresses { quit: true, ..no_keys() }), InputAction::Quit);
    game.update();
    assert_eq!(game.snake.direction, Direction::Up);
    game.update();
    assert_eq!(game.snake.direction, Direction::Left);
    assert!(game.pending_turns.is_empty());
}
