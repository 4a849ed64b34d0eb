use snake_cli::app::{best_comparison, App, AppState, Effect, COUNTDOWN_US, LEVEL_UP_DISPLAY_US};
use snake_cli::game::{BoardPreset, DeathCause, Direction, FoodKind, GameMode};
use snake_cli::input::KeyPresses;
use snake_cli::persist::Leaderboards;
use snake_cli::session::PlayerProfile;

fn no_keys() -> KeyPresses {
    KeyPresses {
        quit: false,
        enter: false,
        mode: false,
        board: false,
        sound: false,
        pause: false,
        restart: false,
        backspace: false,
        up: false,
        down: false,
        left: false,
        right: false,
        typed: None,
    }
}

fn app_with_name(name: &str, sound: bool) -> App {
    let mut profile = PlayerProfile::new(sound, Leaderboards::default());
    profile.name = name.to_string();
    App::new(profile)
}

fn start_playing(app: &mut App) {
    let (running, fx) = app.update(&KeyPresses { enter: true, ..no_keys() }, 0);
    assert!(running);
    assert_eq!(fx, vec![Effect::NewRun]);
    let (running, fx) = app.update(&no_keys(), COUNTDOWN_US);
    assert!(running);
    assert!(fx.is_empty());
    assert!(matches!(app.state, AppState::Playing { level_up_us: 0, .. }));
}

#[test]
fn menu_toggles_and_quit() {
    let mut app = app_with_name("Ann", true);
    let (running, fx) = app.update(&KeyPresses { mode: true, ..no_keys() }, 0);
    assert!(running && fx.is_empty());
    assert_eq!(app.profile.selected_mode, GameMode::Wrap);
    app.update(&KeyPresses { board: true, ..no_keys() }, 0);
    assert_eq!(app.profile.selected_preset, BoardPreset::Compact);
    let (_, fx) = app.update(&KeyPresses { sound: true, ..no_keys() }, 0);
    assert_eq!(fx, vec![Effect::SaveSound(false)]);
    let (_, fx) = app.update(&KeyPresses { sound: true, ..no_keys() }, 0);
    assert_eq!(fx, vec![Effect::SaveSound(true), Effect::PlayEat]);
    app.update(&KeyPresses { typed: Some('x'), ..no_keys() }, 0);
    assert_eq!(app.profile.name, "Annx");
    let (running, fx) = app.update(&KeyPresses { quit: true, ..no_keys() }, 0);
    assert!(!running && fx.is_empty());
}

#[test]
fn countdown_runs_down_then_play() {
    let mut app = app_with_name("Ann", true);
    app.update(&KeyPresses { enter: true, ..no_keys() }, 0);
    match &app.state {
        AppState::Countdown { remaining_us, session } => {
            assert_eq!(*remaining_us, COUNTDOWN_US);
            assert_eq!(session.game.mode, GameMode::Classic);
        }
        _ => panic!("expected the countdown"),
    }
    app.update(&no_keys(), 1_000_000);
    assert!(matches!(app.state, AppState::Countdown { remaining_us: 2_000_000, .. }));
    app.update(&no_keys(), 2_500_000);
    assert!(matches!(app.state, AppState::Playing { .. }));
}

#[test]
fn pause_and_resume() {
    let mut app = app_with_name("Ann", false);
    start_playing(&mut app);
    app.update(&KeyPresses { pause: true, ..no_keys() }, 0);
    assert!(matches!(app.state, AppState::Paused { .. }));
    let (_, fx) = app.update(&KeyPresses { sound: true, ..no_keys() }, 0);
    assert_eq!(fx, vec![Effect::SaveSound(true), Effect::PlayEat]);
    assert!(app.profile.sound_enabled);
    app.update(&KeyPresses { pause: true, ..no_keys() }, 0);
    assert!(matches!(app.state, AppState::Playing { .. }));
}

#[test]
fn eating_and_leveling_effects() {
    let mut app = app_with_name("Ann", true);
    start_playing(&mut app);
    if let AppState::Playing { session, .. } = &mut app.state {
        session.game.food.position = (6, 5);
        session.game.food.kind = FoodKind::Normal;
        session.game.score = 4;
    }
    let (running, fx) = app.update(&no_keys(), 150_000);
    assert!(running);
    assert_eq!(fx, vec![Effect::FlashEat, Effect::PlayEat, Effect::PlayLevelUp, Effect::FlashLevelUp]);
    assert!(matches!(app.state, AppState::Playing { level_up_us: LEVEL_UP_DISPLAY_US, .. }));
    app.update(&no_keys(), 100_000);
    assert!(matches!(app.state, AppState::Playing { level_up_us: 700_000, .. }));
}

#[test]
fn death_records_the_score() {
    let mut app = app_with_name("  Ann  ", false);
    start_playing(&mut app);
    if let AppState::Playing { session, .. } = &mut app.state {
        session.game.snake.body = vec![(0, 0)];
        session.game.snake.direction = Direction::Left;
        session.game.score = 12;
    }
    let (running, fx) = app.update(&no_keys(), 150_000);
    assert!(running);
    assert_eq!(fx, vec![Effect::ShakeDeath, Effect::SaveLeaderboard(GameMode::Classic)]);
    match &app.state {
        AppState::EndScreen { is_new_record, won, death_cause, .. } => {
            assert!(*is_new_record);
            assert!(!*won);
            assert_eq!(*death_cause, Some(DeathCause::Wall));
        }
        _ => panic!("expected the end screen"),
    }
    assert_eq!(app.profile.leaderboards.top_score_for(GameMode::Classic), 12);
    assert_eq!(app.profile.leaderboards.for_mode(GameMode::Classic).entries()[0].name, "Ann");
    let (running, fx) = app.update(&KeyPresses { restart: true, ..no_keys() }, 0);
    assert!(running);
    assert_eq!(fx, vec![Effect::NewRun]);
    match &app.state {
        AppState::Countdown { session, .. } => assert_eq!(session.previous_best, 12),
        _ => panic!("expected the countdown"),
    }
}

#[test]
fn zero_score_death_is_not_saved() {
    let mut app = app_with_name("Ann", true);
    start_playing(&mut app);
    if let AppState::Playing { session, .. } = &mut app.state {
        session.game.snake.body = vec![(0, 0)];
        session.game.snake.direction = Direction::Left;
    }
    let (_, fx) = app.update(&no_keys(), 150_000);
    assert_eq!(fx, vec![Effect::ShakeDeath, Effect::PlayGameOver]);
    assert!(matches!(app.state, AppState::EndScreen { is_new_record: false, .. }));
}

#[test]
fn winning_plays_the_level_sound() {
    let mut app = app_with_name("Ann", true);
    start_playing(&mut app);
    if let AppState::Playing { session, .. } = &mut app.state {
        session.game.config.board_width = 3;
        session.game.config.board_height = 2;
        session.game.snake.body = vec![(1, 1), (0, 1), (0, 0), (1, 0), (2, 0)];
        session.game.snake.direction = Direction::Right;
        session.game.food.position = (2, 1);
        session.game.food.kind = FoodKind::Normal;
    }
    let (_, fx) = app.update(&no_keys(), 150_000);
    assert_eq!(fx, vec![Effect::ShakeDeath, Effect::PlayLevelUp, Effect::SaveLeaderboard(GameMode::Classic)]);
    assert!(matches!(app.state, AppState::EndScreen { won: true, .. }));
}

#[test]
fn comparison_with_best() {
    assert_eq!(best_comparison(12, 5), " (+7 vs best)");
    assert_eq!(best_comparison(3, 10), " (-7 vs best)");
    assert_eq!(best_comparison(4, 4), " (matched best)");
    assert_eq!(best_comparison(0, 0), "");
}

#[test]
fn a_long_frame_ends_at_the_wall_with_its_cause() {
    let mut app = app_with_name("Ann", false);
    start_playing(&mut app);
    if let AppState::Playing { session, .. } = &mut app.state {
        session.game.food.position = (0, 0);
    }
    let (running, fx) = app.update(&no_keys(), 20_000_000_000);
    assert!(running);
    assert_eq!(fx, vec![Effect::ShakeDeath]);
    match &app.state {
        AppState::EndScreen { won, death_cause, .. } => {
            assert!(!*won);
            assert_eq!(*death_cause, Some(DeathCause::Wall));
        }
        _ => panic!("expected the end screen"),
    }
}

#[test]
fn steering_is_taken_by_the_next_tick() {
    let mut app = app_with_name("Ann", false);
    start_playing(&mut app);
    if let AppState::Playing { session, .. } = &mut app.state {
        session.game.food.position = (0, 0);
    }
    app.update(&KeyPresses { up: true, ..no_keys() }, 0);
    match &app.state {
        AppState::Playing { session, .. } => {
            assert_eq!(session.game.snake.direction, Direction::Right);
            assert_eq!(session.game.pending_turns.len(), 1);
        }
        _ => panic!("expected play"),
    }
    app.update(&no_keys(), 150_000);
    match &app.state {
        AppState::Playing { session, .. } => {
            assert_eq!(session.game.snake.direction, Direction::Up);
            assert_eq!(session.game.snake.body[0], (5, 4));
            assert!(session.game.pending_turns.is_empty());
        }
        _ => panic!("expected play"),
    }
}

#[test]
fn a_tick_that_would_overflow_stops_the_program() {
    let mut app = app_with_name("Ann", false);
    start_playing(&mut app);
    if let AppState::Playing { session, .. } = &mut app.state {
        session.game.food.position = (6, 5);
        session.game.stats.food_eaten = u16::MAX;
    }
    let (running, fx) = app.update(&no_keys(), 150_000);
    assert!(!running);
    assert!(fx.is_empty());
}

#[test]
fn a_tie_with_the_best_is_no_new_record() {
    let mut app = app_with_name("Ann", false);
    app.profile.leaderboards.add_score(GameMode::Classic, 12, "Bo");
    start_playing(&mut app);
    if let AppState::Playing { session, .. } = &mut app.state {
        session.game.snake.body = vec![(0, 0)];
        session.game.snake.direction = Direction::Left;
        session.game.score = 12;
    }
    app.update(&no_keys(), 150_000);
    assert!(matches!(app.state, AppState::EndScreen { is_new_record: false, .. }));
    assert_eq!(app.profile.leaderboards.for_mode(GameMode::Classic).entries()[0].name, "Bo");
}

#[test]
fn each_mode_keeps_its_own_board() {
    let mut app = app_with_name("Ann", false);
    app.profile.leaderboards.add_score(GameMode::Wrap, 100, "Bo");
    start_playing(&mut app);
    match &app.state {
        AppState::Playing { session, .. } => assert_eq!(session.previous_best, 0),
        _ => panic!("expected play"),
    }
    if let AppState::Playing { session, .. } = &mut app.state {
        session.game.snake.body = vec![(0, 0)];
        session.game.snake.direction = Direction::Left;
        session.game.score = 50;
    }
    let (_, fx) = app.update(&no_keys(), 150_000);
    assert_eq!(fx, vec![Effect::ShakeDeath, Effect::SaveLeaderboard(GameMode::Classic)]);
    assert!(matches!(app.state, AppState::EndScreen { is_new_record: true, .. }));
    assert_eq!(app.profile.leaderboards.top_score_for(GameMode::Classic), 50);
    assert_eq!(app.profile.leaderboards.top_score_for(GameMode::Wrap), 100);
    assert_eq!(app.profile.leaderboards.for_mode(GameMode::Wrap).entries().len(), 1);
    assert!(app.profile.leaderboards.for_mode(GameMode::Daily).entries().is_empty());
}
