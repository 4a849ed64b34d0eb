use snake_cli::game::{BoardPreset, DeathCause, Direction, FoodKind, GameMode, Snake, UpdateResult};
use snake_cli::persist::Leaderboards;
use snake_cli::session::{advance_session_ticks, try_advance_session_ticks, GameTickEvent, PlayerProfile, RunSession};

#[test]
fn advance_ticks_detects_death() {
    let mut session = RunSession::new(GameMode::Classic, BoardPreset::Classic);
    session.game.snake.body = vec![(0, 0)];
    session.game.snake.direction = Direction::Left;
    let outcome = advance_session_ticks(&mut session, 1_000_000);
    assert_eq!(outcome.result, Some(GameTickEvent::Died(DeathCause::Wall)));
}

#[test]
fn advance_ticks_detects_eat() {
    let mut session = RunSession::new(GameMode::Classic, BoardPreset::Classic);
    let next = Snake::resolve_head(
        session.game.snake.next_head_coords(),
        GameMode::Classic,
        session.game.config.board_width,
        session.game.config.board_height,
    )
    .unwrap();
    session.game.food.position = next;
    session.game.food.kind = FoodKind::Normal;
    let outcome = advance_session_ticks(&mut session, 1_000_000);
    assert_eq!(outcome.result, Some(GameTickEvent::Ate));
}

#[test]
fn advance_ticks_detects_win_on_full_board() {
    let mut session = RunSession::new(GameMode::Classic, BoardPreset::Classic);
    session.game.config.board_width = 3;
    session.game.config.board_height = 2;
    session.game.snake.body = vec![(1, 1), (0, 1), (0, 0), (1, 0), (2, 0)];
    session.game.snake.direction = Direction::Right;
    session.game.food.position = (2, 1);
    session.game.food.kind = FoodKind::Normal;
    let outcome = advance_session_ticks(&mut session, 1_000_000);
    assert_eq!(outcome.result, Some(GameTickEvent::Won));
}

#[test]
fn death_cause_wall_vs_self() {
    let mut session = RunSession::new(GameMode::Classic, BoardPreset::Classic);
    session.game.snake.body = vec![(0, 0)];
    session.game.snake.direction = Direction::Left;
    assert!(matches!(session.game.update(), UpdateResult::Died(DeathCause::Wall)));
}

// ---------------------------------------------------------------------------
// Further cases
// ---------------------------------------------------------------------------

#[test]
fn short_frames_gather_time() {
    let mut session = RunSession::new(GameMode::Classic, BoardPreset::Classic);
    session.game.food.position = (0, 0);
    let outcome = advance_session_ticks(&mut session, 100_000);
    assert_eq!(outcome.result, None);
    assert!(!outcome.ate);
    assert_eq!(session.tick_elapsed_us, 100_000);
    assert_eq!(session.game.stats.ticks_survived, 0);
    let outcome = advance_session_ticks(&mut session, 60_000);
    assert_eq!(outcome.result, None);
    assert_eq!(session.tick_elapsed_us, 10_000);
    assert_eq!(session.game.stats.ticks_survived, 1);
    assert_eq!(session.prev_body, vec![(5, 5), (4, 5)]);
    assert_eq!(session.game.snake.body, vec![(6, 5), (5, 5)]);
}

#[test]
fn whole_ticks_run_and_remainder_stays() {
    let mut session = RunSession::new(GameMode::Wrap, BoardPreset::Classic);
    session.game.food.position = (0, 9);
    let outcome = advance_session_ticks(&mut session, 1_000_000);
    assert_eq!(outcome.result, None);
    assert_eq!(session.game.stats.ticks_survived, 6);
    assert_eq!(session.tick_elapsed_us, 100_000);
}

#[test]
fn level_up_is_reported() {
    let mut session = RunSession::new(GameMode::Classic, BoardPreset::Classic);
    session.game.score = 4;
    session.game.food.position = (6, 5);
    session.game.food.kind = FoodKind::Normal;
    let outcome = advance_session_ticks(&mut session, 150_000);
    assert_eq!(outcome.result, Some(GameTickEvent::LeveledUp));
    assert!(outcome.ate);
}

#[test]
fn daily_session_uses_daily_config() {
    let session = RunSession::new(GameMode::Daily, BoardPreset::Arena);
    assert_eq!(session.game.config.fixed_tick_rate, Some(120));
    assert_eq!(session.game.config.board_width, 20);
    assert_eq!(session.prev_body, session.game.snake.body);
    let other = RunSession::new(GameMode::Daily, BoardPreset::Classic);
    assert_eq!(session.game.food.position, other.game.food.position);
}

#[test]
fn preset_sets_board() {
    let mut session = RunSession::new(GameMode::Wrap, BoardPreset::Compact);
    assert_eq!(session.game.config.board_width, 15);
    assert_eq!(session.game.config.board_height, 8);
    session.set_previous_best(12);
    assert_eq!(session.previous_best, 12);
}

#[test]
fn new_profile_defaults() {
    let p = PlayerProfile::new(false, Leaderboards::default());
    assert_eq!(p.name, "");
    assert!(p.name_editing);
    assert!(!p.sound_enabled);
    assert_eq!(p.selected_mode, GameMode::Classic);
    assert_eq!(p.selected_preset, BoardPreset::Classic);
    assert_eq!(p.leaderboards.top_score_for(GameMode::Classic), 0);
}

#[test]
fn a_long_frame_plays_every_tick_until_the_wall() {
    let mut session = RunSession::new(GameMode::Classic, BoardPreset::Classic);
    session.game.food.position = (0, 0);
    let outcome = try_advance_session_ticks(&mut session, 20_000_000_000).unwrap();
    assert_eq!(outcome.result, Some(GameTickEvent::Died(DeathCause::Wall)));
    assert_eq!(session.game.snake.body[0], (19, 5));
    assert_eq!(session.game.stats.ticks_survived, 15);
}

#[test]
fn a_tick_that_would_overflow_stops_the_frame() {
    let mut session = RunSession::new(GameMode::Classic, BoardPreset::Classic);
    session.game.snake.body = vec![(5, 5), (4, 5)];
    session.game.snake.direction = Direction::Right;
    session.game.food.position = (7, 5);
    session.game.food.kind = FoodKind::Normal;
    session.game.stats.food_eaten = u16::MAX;
    assert!(try_advance_session_ticks(&mut session, 300_000).is_none());
    assert_eq!(session.game.snake.body[0], (6, 5));
    assert_eq!(session.game.stats.ticks_survived, 1);
}

#[test]
fn an_unusable_tick_rate_runs_nothing() {
    let mut session = RunSession::new(GameMode::Classic, BoardPreset::Classic);
    session.game.config.speed_ramp_interval = 0;
    assert!(try_advance_session_ticks(&mut session, 1_000_000).is_none());
    assert_eq!(session.game.stats.ticks_survived, 0);
    let mut session = RunSession::new(GameMode::Classic, BoardPreset::Classic);
    session.game.config.fixed_tick_rate = Some(0);
    assert!(try_advance_session_ticks(&mut session, 1_000_000).is_none());
    let mut session = RunSession::new(GameMode::Classic, BoardPreset::Classic);
    session.game.config.fixed_tick_rate = Some(u64::MAX);
    let outcome = try_advance_session_ticks(&mut session, u64::MAX).unwrap();
    assert_eq!(outcome.result, None);
    assert_eq!(session.tick_elapsed_us, u64::MAX);
    assert_eq!(session.game.stats.ticks_survived, 0);
}

#[test]
fn daily_runs_of_one_day_draw_the_same_food() {
    let a = RunSession::new(GameMode::Daily, BoardPreset::Classic);
    let b = RunSession::new(GameMode::Daily, BoardPreset::Compact);
    assert_eq!(a.game.food.position, b.game.food.position);
    assert_eq!(a.game.food.kind, b.game.food.kind);
    assert_eq!(a.game.config.fixed_tick_rate, Some(120));
}
