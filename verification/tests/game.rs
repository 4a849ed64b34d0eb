use snake_cli::game::{
    empty_cells, food_kind_for_roll, place_food, BoardPreset, DeathCause, Direction, FoodKind, Game, GameConfig, GameMode,
    Snake, UpdateResult, BASE_TICK_RATE_MS, BOARD_HEIGHT, BOARD_WIDTH, MIN_TICK_RATE_MS,
};

fn test_config() -> GameConfig {
    GameConfig {
        food_weight_normal: 100,
        food_weight_golden: 0,
        food_weight_speed_boost: 0,
        ..GameConfig::default()
    }
}

#[test]
fn prevents_direction_reversal() {
    let mut snake = Snake::new(5, 5);
    snake.direction = Direction::Right;
    snake.change_direction(Direction::Left);
    assert_eq!(snake.direction, Direction::Right);
    snake.change_direction(Direction::Up);
    assert_eq!(snake.direction, Direction::Up);
}

#[test]
fn queue_turn_buffers_and_blocks_reverse() {
    let mut game = Game::new_with_seed(GameMode::Classic, test_config(), Some(42));
    game.queue_turn(Direction::Left);
    assert_eq!(game.pending_turns.len(), 0);
    game.queue_turn(Direction::Up);
    assert_eq!(game.pending_turns.len(), 1);
    game.queue_turn(Direction::Down);
    assert_eq!(game.pending_turns.len(), 1);
    game.queue_turn(Direction::Right);
    assert_eq!(game.pending_turns.len(), 2);
}

#[test]
fn grows_when_eating() {
    let mut game = Game::new_with_seed(GameMode::Classic, test_config(), Some(42));
    let len_before = game.snake.body.len();
    let next = Snake::resolve_head(
        game.snake.next_head_coords(),
        GameMode::Classic,
        game.config.board_width,
        game.config.board_height,
    )
    .unwrap();
    game.food.position = next;
    game.food.kind = FoodKind::Normal;
    game.update();
    assert_eq!(game.snake.body.len(), len_before + 1);
    assert_eq!(game.score, 1);
}

#[test]
fn classic_wall_collision_ends_game() {
    let mut game = Game::new_with_seed(GameMode::Classic, test_config(), Some(42));
    game.snake.body = vec![(0, 0)];
    game.snake.direction = Direction::Left;
    assert!(matches!(game.update(), UpdateResult::Died(DeathCause::Wall)));
}

#[test]
fn wrap_mode_wraps_horizontally() {
    let mut snake = Snake::new(0, 5);
    snake.body = vec![(0, 5)];
    snake.direction = Direction::Left;
    let wrapped =
        Snake::resolve_head(snake.next_head_coords(), GameMode::Wrap, BOARD_WIDTH, BOARD_HEIGHT).unwrap();
    assert_eq!(wrapped, (BOARD_WIDTH - 1, 5));
}

#[test]
fn speed_increases_every_five_food() {
    let mut game = Game::new_with_seed(GameMode::Classic, test_config(), Some(42));
    assert_eq!(game.tick_rate_ms(), BASE_TICK_RATE_MS);
    game.score = 5;
    assert!(game.tick_rate_ms() < BASE_TICK_RATE_MS);
    game.score = 100;
    assert_eq!(game.tick_rate_ms(), MIN_TICK_RATE_MS);
}

#[test]
fn game_new_without_seed() {
    let game = Game::new(GameMode::Classic, GameConfig::default());
    assert_eq!(game.score, 0);
}

#[test]
fn board_full_triggers_win() {
    let config = GameConfig {
        board_width: 3,
        board_height: 2,
        food_weight_normal: 100,
        food_weight_golden: 0,
        food_weight_speed_boost: 0,
        ..GameConfig::default()
    };
    let mut game = Game::new_with_seed(GameMode::Classic, config, Some(99));
    game.snake.body = vec![(1, 1), (0, 1), (0, 0), (1, 0), (2, 0)];
    game.snake.direction = Direction::Right;
    game.food.position = (2, 1);
    game.food.kind = FoodKind::Normal;
    assert!(matches!(game.update(), UpdateResult::Won));
}

#[test]
fn streak_bonus_adds_points() {
    let mut game = Game::new_with_seed(GameMode::Classic, test_config(), Some(42));
    game.stats.current_streak = 3;
    game.stats.ticks_since_last_eat = 1;
    let next = Snake::resolve_head(
        game.snake.next_head_coords(),
        GameMode::Classic,
        game.config.board_width,
        game.config.board_height,
    )
    .unwrap();
    game.food.position = next;
    game.food.kind = FoodKind::Normal;
    game.update();
    assert_eq!(game.stats.current_streak, 4);
    assert!(game.score >= 2);
}

// ---------------------------------------------------------------------------
// Further cases
// ---------------------------------------------------------------------------

#[test]
fn opposite_is_an_involution() {
    for d in [Direction::Up, Direction::Down, Direction::Left, Direction::Right] {
        assert_eq!(d.opposite().opposite(), d);
        assert_ne!(d.opposite(), d);
    }
}

#[test]
fn toggles_cycle_through_three() {
    let m = GameMode::Classic;
    assert_eq!(m.toggle(), GameMode::Wrap);
    assert_eq!(m.toggle().toggle(), GameMode::Daily);
    assert_eq!(m.toggle().toggle().toggle(), m);
    let p = BoardPreset::Classic;
    assert_eq!(p.toggle(), BoardPreset::Compact);
    assert_eq!(p.toggle().toggle(), BoardPreset::Arena);
    assert_eq!(p.toggle().toggle().toggle(), p);
}

#[test]
fn labels_and_keys() {
    assert_eq!(GameMode::Wrap.label(), "Wrap");
    assert_eq!(GameMode::Daily.persist_key(), "daily");
    assert_eq!(BoardPreset::Arena.label(), "Arena");
}

#[test]
fn preset_board_sizes() {
    let c = BoardPreset::Compact.config();
    assert_eq!((c.board_width, c.board_height), (15, 8));
    let a = BoardPreset::Arena.config();
    assert_eq!((a.board_width, a.board_height), (25, 15));
    assert_eq!(a.base_tick_ms, BASE_TICK_RATE_MS);
    let d = GameConfig::daily();
    assert_eq!(d.fixed_tick_rate, Some(120));
    assert_eq!(d.speed_ramp_interval, u16::MAX);
}

#[test]
fn food_points() {
    assert_eq!(FoodKind::Normal.base_points(), 1);
    assert_eq!(FoodKind::Golden.base_points(), 5);
    assert_eq!(FoodKind::SpeedBoost.base_points(), 2);
}

#[test]
fn resolve_head_edges() {
    assert_eq!(Snake::resolve_head((-1, 0), GameMode::Classic, 20, 10), None);
    assert_eq!(Snake::resolve_head((20, 0), GameMode::Daily, 20, 10), None);
    assert_eq!(Snake::resolve_head((19, 9), GameMode::Classic, 20, 10), Some((19, 9)));
    assert_eq!(Snake::resolve_head((20, -1), GameMode::Wrap, 20, 10), Some((0, 9)));
    assert_eq!(Snake::resolve_head((-41, 23), GameMode::Wrap, 20, 10), Some((19, 3)));
}

#[test]
fn new_snake_shape() {
    let s = Snake::new(0, 3);
    assert_eq!(s.body, vec![(0, 3), (0, 3)]);
    assert_eq!(s.direction, Direction::Right);
    assert_eq!(s.head(), (0, 3));
    assert_eq!(s.next_head_coords(), (1, 3));
}

#[test]
fn self_collision_detected() {
    let mut s = Snake::new(5, 5);
    s.body = vec![(5, 5), (5, 6), (4, 6), (4, 5), (5, 5)];
    assert!(s.check_self_collision());
    s.body = vec![(5, 5), (5, 6)];
    assert!(!s.check_self_collision());
}

#[test]
fn advance_to_moves_and_grows() {
    let mut s = Snake::new(5, 5);
    s.advance_to((6, 5), false);
    assert_eq!(s.body, vec![(6, 5), (5, 5)]);
    s.advance_to((7, 5), true);
    assert_eq!(s.body, vec![(7, 5), (6, 5), (5, 5)]);
}

#[test]
fn empty_cells_row_major() {
    let config = GameConfig { board_width: 3, board_height: 2, ..GameConfig::default() };
    let cells = empty_cells(&[(0, 0), (2, 1)], &config);
    assert_eq!(cells, vec![(1, 0), (2, 0), (0, 1), (1, 1)]);
}

#[test]
fn food_kind_by_roll() {
    let c = GameConfig::default();
    assert_eq!(food_kind_for_roll(&c, 0), FoodKind::Normal);
    assert_eq!(food_kind_for_roll(&c, 84), FoodKind::Normal);
    assert_eq!(food_kind_for_roll(&c, 85), FoodKind::Golden);
    assert_eq!(food_kind_for_roll(&c, 94), FoodKind::Golden);
    assert_eq!(food_kind_for_roll(&c, 95), FoodKind::SpeedBoost);
}

#[test]
fn new_game_food_clear_of_snake() {
    for seed in 0..50u64 {
        let game = Game::new_with_seed(GameMode::Classic, GameConfig::default(), Some(seed));
        assert!(!game.snake.body.contains(&game.food.position));
        assert!(game.food.position.0 < BOARD_WIDTH && game.food.position.1 < BOARD_HEIGHT);
        assert_eq!(game.snake.body, vec![(5, 5), (4, 5)]);
    }
}

#[test]
fn same_seed_same_food() {
    let a = Game::new_with_seed(GameMode::Classic, GameConfig::default(), Some(7));
    let b = Game::new_with_seed(GameMode::Classic, GameConfig::default(), Some(7));
    assert_eq!(a.food.position, b.food.position);
    assert_eq!(a.food.kind, b.food.kind);
}

#[test]
fn only_weighted_kinds_spawn() {
    let config = GameConfig {
        food_weight_normal: 0,
        food_weight_golden: 1,
        food_weight_speed_boost: 0,
        ..GameConfig::default()
    };
    for seed in 0..20u64 {
        let game = Game::new_with_seed(GameMode::Classic, config.clone(), Some(seed));
        assert_eq!(game.food.kind, FoodKind::Golden);
    }
}

#[test]
fn two_cell_board_food_on_free_cell() {
    let config = GameConfig { board_width: 2, board_height: 1, ..GameConfig::default() };
    let game = Game::new_with_seed(GameMode::Classic, config, Some(1));
    assert_eq!(game.snake.body, vec![(0, 0), (0, 0)]);
    assert_eq!(game.food.position, (1, 0));
}

#[test]
fn queue_holds_at_most_two_and_update_takes_first() {
    let mut game = Game::new_with_seed(GameMode::Wrap, test_config(), Some(3));
    game.queue_turn(Direction::Up);
    game.queue_turn(Direction::Up);
    assert_eq!(game.pending_turns.len(), 1);
    game.queue_turn(Direction::Left);
    game.queue_turn(Direction::Down);
    assert_eq!(game.pending_turns.len(), 2);
    game.update();
    assert_eq!(game.snake.direction, Direction::Up);
    assert_eq!(game.pending_turns.len(), 1);
    game.update();
    assert_eq!(game.snake.direction, Direction::Left);
    assert_eq!(game.pending_turns.len(), 0);
}

#[test]
fn self_collision_ends_game() {
    let mut game = Game::new_with_seed(GameMode::Classic, test_config(), Some(5));
    game.snake.body = vec![(5, 5), (5, 6), (6, 6), (6, 5), (6, 4)];
    game.snake.direction = Direction::Down;
    game.food.position = (0, 0);
    assert_eq!(game.update(), UpdateResult::Died(DeathCause::SelfCollision));
}

#[test]
fn moving_keeps_length_and_score() {
    let mut game = Game::new_with_seed(GameMode::Classic, test_config(), Some(5));
    game.food.position = (0, 0);
    let len = game.snake.body.len();
    assert_eq!(game.update(), UpdateResult::Moved);
    assert_eq!(game.snake.body.len(), len);
    assert_eq!(game.snake.head(), (6, 5));
    assert_eq!(game.score, 0);
    assert_eq!(game.stats.ticks_survived, 1);
}

#[test]
fn streak_resets_after_window() {
    let mut game = Game::new_with_seed(GameMode::Wrap, test_config(), Some(5));
    game.food.position = (0, 9);
    game.stats.current_streak = 2;
    game.stats.max_streak = 2;
    game.stats.ticks_since_last_eat = 8;
    assert_eq!(game.update(), UpdateResult::Moved);
    assert_eq!(game.stats.current_streak, 0);
    assert_eq!(game.stats.max_streak, 2);
}

#[test]
fn golden_and_boost_food() {
    let mut game = Game::new_with_seed(GameMode::Classic, test_config(), Some(5));
    game.food.position = (6, 5);
    game.food.kind = FoodKind::SpeedBoost;
    assert_eq!(game.update(), UpdateResult::Ate);
    assert_eq!(game.score, 2);
    assert_eq!(game.speed_boost_ticks_remaining, 20);
    assert_eq!(game.tick_rate_ms(), 45);
    let ate = game.last_ate.clone().unwrap();
    assert_eq!(ate.kind, FoodKind::SpeedBoost);
    assert_eq!(ate.points, 2);
    assert_eq!(ate.streak, 1);
    assert!(!ate.leveled_up);
    game.food.position = (7, 5);
    game.food.kind = FoodKind::Golden;
    assert_eq!(game.update(), UpdateResult::Ate);
    assert_eq!(game.score, 7);
    assert_eq!(game.stats.golden_eaten, 1);
    assert_eq!(game.stats.current_streak, 2);
    assert!(!game.last_ate.clone().unwrap().leveled_up);
    assert_eq!(game.speed_boost_ticks_remaining, 19);
    assert!(!game.snake.body.contains(&game.food.position));
    game.score = 8;
    game.food.position = (8, 5);
    game.food.kind = FoodKind::Normal;
    assert_eq!(game.update(), UpdateResult::Ate);
    assert_eq!(game.stats.current_streak, 3);
    assert_eq!(game.score, 10);
    assert!(game.last_ate.clone().unwrap().leveled_up);
    assert_eq!(game.stats.max_streak, 3);
    assert_eq!(game.stats.food_eaten, 3);
}

#[test]
fn score_never_decreases_over_a_run() {
    let mut game = Game::new_with_seed(GameMode::Wrap, test_config(), Some(11));
    let turns = [Direction::Up, Direction::Left, Direction::Down, Direction::Right];
    let mut prev = game.score;
    for i in 0..400usize {
        if i % 7 == 0 {
            game.queue_turn(turns[(i / 7) % 4]);
        }
        let r = game.update();
        assert!(game.score >= prev);
        assert!(game.stats.current_streak <= game.stats.max_streak);
        assert!(game.pending_turns.len() <= 2);
        prev = game.score;
        if matches!(r, UpdateResult::Died(_) | UpdateResult::Won) {
            break;
        }
        assert!(!game.snake.body.contains(&game.food.position));
        assert!(game.snake.body.iter().all(|&(x, y)| x < BOARD_WIDTH && y < BOARD_HEIGHT));
    }
}

#[test]
fn won_board_is_covered() {
    let config = GameConfig { board_width: 3, board_height: 2, ..test_config() };
    let mut game = Game::new_with_seed(GameMode::Classic, config, Some(99));
    game.snake.body = vec![(1, 1), (0, 1), (0, 0), (1, 0), (2, 0)];
    game.snake.direction = Direction::Right;
    game.food.position = (2, 1);
    assert_eq!(game.update(), UpdateResult::Won);
    for y in 0..2u16 {
        for x in 0..3u16 {
            assert!(game.snake.body.contains(&(x, y)));
        }
    }
    assert_eq!(game.food.position, (2, 1));
    assert!(empty_cells(&game.snake.body, &game.config).is_empty());
}

#[test]
fn tick_rate_never_rises_with_score() {
    let mut game = Game::new_with_seed(GameMode::Classic, test_config(), Some(1));
    let mut prev = game.tick_rate_ms();
    for s in 0..200u16 {
        game.score = s;
        let r = game.tick_rate_ms();
        assert!(r <= prev);
        assert!(r >= MIN_TICK_RATE_MS);
        prev = r;
    }
    game.score = 5;
    assert_eq!(game.tick_rate_ms(), 140);
}

#[test]
fn daily_rate_is_fixed() {
    let mut game = Game::new_with_seed(GameMode::Daily, GameConfig::daily(), Some(1));
    assert_eq!(game.tick_rate_ms(), 120);
    game.score = 500;
    game.speed_boost_ticks_remaining = 3;
    assert_eq!(game.tick_rate_ms(), 120);
}

#[test]
fn level_counts_ramp_steps() {
    let mut game = Game::new_with_seed(GameMode::Classic, test_config(), Some(1));
    assert_eq!(game.level(), 1);
    game.score = 14;
    assert_eq!(game.level(), 3);
}

#[test]
fn daily_seed_and_key() {
    assert_eq!(Game::daily_seed_from_secs(86_400 * 3 + 5), 3);
    assert_eq!(Game::date_key_for_day(20000), "day20000");
    assert_eq!(Game::date_key_for_day(0), "day0");
    let today = Game::daily_seed_for_today();
    assert!(today > 19_000);
    assert_eq!(Game::daily_date_key(), format!("day{}", today));
}

#[test]
fn place_food_takes_the_drawn_cell_and_roll() {
    let config = GameConfig::default();
    let empty = vec![(0, 0), (3, 1), (7, 2)];
    let f = place_food(&empty, 1, 0, &config);
    assert_eq!(f.position, (3, 1));
    assert_eq!(f.kind, FoodKind::Normal);
    let f = place_food(&empty, 2, 90, &config);
    assert_eq!(f.position, (7, 2));
    assert_eq!(f.kind, FoodKind::Golden);
    let f = place_food(&empty, 0, 97, &config);
    assert_eq!(f.position, (0, 0));
    assert_eq!(f.kind, FoodKind::SpeedBoost);
}

#[test]
fn full_counters_block_only_the_ticks_that_raise_them() {
    let mut game = Game::new_with_seed(GameMode::Classic, test_config(), Some(3));
    game.snake.body = vec![(5, 5), (4, 5)];
    game.snake.direction = Direction::Right;
    game.food.position = (6, 5);
    game.food.kind = FoodKind::Normal;
    game.stats.golden_eaten = u16::MAX;
    game.stats.current_streak = u16::MAX;
    game.stats.ticks_since_last_eat = 100;
    assert!(game.can_tick());
    assert_eq!(game.update(), UpdateResult::Ate);
    assert_eq!(game.stats.current_streak, 1);
    assert_eq!(game.stats.golden_eaten, u16::MAX);

    let mut game = Game::new_with_seed(GameMode::Classic, test_config(), Some(3));
    game.snake.body = vec![(5, 5), (4, 5)];
    game.snake.direction = Direction::Right;
    game.food.position = (6, 5);
    game.food.kind = FoodKind::Golden;
    game.stats.golden_eaten = u16::MAX;
    assert!(!game.can_tick());
    game.food.kind = FoodKind::Normal;
    game.stats.food_eaten = u16::MAX;
    assert!(!game.can_tick());
    game.food.position = (0, 0);
    assert!(game.can_tick());
    game.stats.ticks_survived = u64::MAX;
    assert!(!game.can_tick());
}

#[test]
fn eating_without_weights_is_blocked_only_while_cells_are_free() {
    let mut game = Game::new_with_seed(GameMode::Classic, GameConfig::default(), Some(5));
    game.config.board_width = 3;
    game.config.board_height = 2;
    game.config.food_weight_normal = 0;
    game.config.food_weight_golden = 0;
    game.config.food_weight_speed_boost = 0;
    game.snake.body = vec![(1, 1), (0, 1), (0, 0), (1, 0), (2, 0)];
    game.snake.direction = Direction::Right;
    game.food.position = (2, 1);
    assert!(game.can_tick());
    assert_eq!(game.update(), UpdateResult::Won);
    let mut game = Game::new_with_seed(GameMode::Classic, GameConfig::default(), Some(5));
    game.config.food_weight_normal = 0;
    game.config.food_weight_golden = 0;
    game.config.food_weight_speed_boost = 0;
    game.snake.body = vec![(5, 5), (4, 5)];
    game.snake.direction = Direction::Right;
    game.food.position = (6, 5);
    assert!(!game.can_tick());
    game.food.position = (0, 0);
    assert!(game.can_tick());
}
