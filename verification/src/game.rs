//! The rules of Snake: the board, the snake, the food, and one tick of play.
use crate::rng::{fresh_seed, random_index, random_roll, seeded_rng};
use crate::text::{decimal, push_char, push_decimal};
use rand::rngs::StdRng;
use std::collections::VecDeque;
use vstd::arithmetic::div_mod::lemma_fundamental_div_mod_converse;
use vstd::prelude::*;

verus! {

pub const BOARD_WIDTH: u16 = 20;

pub const BOARD_HEIGHT: u16 = 10;

pub const BASE_TICK_RATE_MS: u64 = 150;

pub const MIN_TICK_RATE_MS: u64 = 60;

pub const SPEED_RAMP_INTERVAL: u16 = 5;

pub const TICK_MS_DECREASE: u64 = 10;

pub const INPUT_BUFFER_SIZE: usize = 2;

pub const STREAK_WINDOW_TICKS: u16 = 8;

pub const SPEED_BOOST_DURATION_TICKS: u16 = 20;

pub const SPEED_BOOST_TICK_MS: u64 = 45;

/// The tick rate of a daily challenge run.
pub const DAILY_TICK_MS: u64 = 120;

// ---------------------------------------------------------------------------
// Board presets and configuration
// ---------------------------------------------------------------------------

#[derive(Debug, Clone, Copy, PartialEq, Eq, Structural)]
pub enum BoardPreset {
    Classic,
    Compact,
    Arena,
}

pub open spec fn preset_after(p: BoardPreset) -> BoardPreset {
    match p {
        BoardPreset::Classic => BoardPreset::Compact,
        BoardPreset::Compact => BoardPreset::Arena,
        BoardPreset::Arena => BoardPreset::Classic,
    }
}

/// Board size of each preset, as (width, height).
pub open spec fn preset_size(p: BoardPreset) -> (u16, u16) {
    match p {
        BoardPreset::Classic => (BOARD_WIDTH, BOARD_HEIGHT),
        BoardPreset::Compact => (15, 8),
        BoardPreset::Arena => (25, 15),
    }
}

impl BoardPreset {
    pub fn toggle(self) -> (r: Self)
        ensures
            r == preset_after(self),
    {
        match self {
            BoardPreset::Classic => BoardPreset::Compact,
            BoardPreset::Compact => BoardPreset::Arena,
            BoardPreset::Arena => BoardPreset::Classic,
        }
    }

    pub fn label(self) -> (r: &'static str)
        ensures
            self == BoardPreset::Classic ==> r@ == "Classic"@,
            self == BoardPreset::Compact ==> r@ == "Compact"@,
            self == BoardPreset::Arena ==> r@ == "Arena"@,
    {
        match self {
            BoardPreset::Classic => "Classic",
            BoardPreset::Compact => "Compact",
            BoardPreset::Arena => "Arena",
        }
    }

    /// The default configuration with the preset's board size.
    pub fn config(self) -> (r: GameConfig)
        ensures
            r == preset_config(self),
    {
        let base = GameConfig::default();
        match self {
            BoardPreset::Classic => base,
            BoardPreset::Compact => GameConfig { board_width: 15, board_height: 8, ..base },
            BoardPreset::Arena => GameConfig { board_width: 25, board_height: 15, ..base },
        }
    }
}

#[derive(Debug, Clone)]
pub struct GameConfig {
    pub board_width: u16,
    pub board_height: u16,
    pub base_tick_ms: u64,
    pub min_tick_ms: u64,
    pub speed_ramp_interval: u16,
    pub tick_ms_decrease: u64,
    pub food_weight_normal: u8,
    pub food_weight_golden: u8,
    pub food_weight_speed_boost: u8,
    pub streak_window_ticks: u16,
    pub fixed_tick_rate: Option<u64>,
}

/// The default configuration with the preset's board size.
pub open spec fn preset_config(p: BoardPreset) -> GameConfig {
    GameConfig { board_width: preset_size(p).0, board_height: preset_size(p).1, ..default_config() }
}

/// The daily challenge: a fixed tick rate and no speed ramp.
pub open spec fn daily_config() -> GameConfig {
    GameConfig { fixed_tick_rate: Some(DAILY_TICK_MS), speed_ramp_interval: u16::MAX, ..default_config() }
}

pub open spec fn default_config() -> GameConfig {
    GameConfig {
        board_width: BOARD_WIDTH,
        board_height: BOARD_HEIGHT,
        base_tick_ms: BASE_TICK_RATE_MS,
        min_tick_ms: MIN_TICK_RATE_MS,
        speed_ramp_interval: SPEED_RAMP_INTERVAL,
        tick_ms_decrease: TICK_MS_DECREASE,
        food_weight_normal: 85,
        food_weight_golden: 10,
        food_weight_speed_boost: 5,
        streak_window_ticks: STREAK_WINDOW_TICKS,
        fixed_tick_rate: None,
    }
}

impl Default for GameConfig {
    fn default() -> (r: Self)
        ensures
            r == default_config(),
    {
        GameConfig {
            board_width: BOARD_WIDTH,
            board_height: BOARD_HEIGHT,
            base_tick_ms: BASE_TICK_RATE_MS,
            min_tick_ms: MIN_TICK_RATE_MS,
            speed_ramp_interval: SPEED_RAMP_INTERVAL,
            tick_ms_decrease: TICK_MS_DECREASE,
            food_weight_normal: 85,
            food_weight_golden: 10,
            food_weight_speed_boost: 5,
            streak_window_ticks: STREAK_WINDOW_TICKS,
            fixed_tick_rate: None,
        }
    }
}

impl GameConfig {
    /// The daily challenge: a fixed tick rate and no speed ramp.
    pub fn daily() -> (r: Self)
        ensures
            r == daily_config(),
    {
        GameConfig {
            fixed_tick_rate: Some(DAILY_TICK_MS),
            speed_ramp_interval: u16::MAX,
            ..GameConfig::default()
        }
    }

    /// The sum of the three food weights.
    pub open spec fn weight_total(self) -> int {
        self.food_weight_normal + self.food_weight_golden + self.food_weight_speed_boost
    }
}

// ---------------------------------------------------------------------------
// Modes, directions, food kinds
// ---------------------------------------------------------------------------

#[derive(Debug, Clone, Copy, PartialEq, Eq, Structural)]
pub enum GameMode {
    Classic,
    Wrap,
    Daily,
}

pub open spec fn mode_after(m: GameMode) -> GameMode {
    match m {
        GameMode::Classic => GameMode::Wrap,
        GameMode::Wrap => GameMode::Daily,
        GameMode::Daily => GameMode::Classic,
    }
}

impl GameMode {
    pub fn toggle(self) -> (r: Self)
        ensures
            r == mode_after(self),
    {
        match self {
            GameMode::Classic => GameMode::Wrap,
            GameMode::Wrap => GameMode::Daily,
            GameMode::Daily => GameMode::Classic,
        }
    }

    pub fn label(self) -> (r: &'static str)
        ensures
            self == GameMode::Classic ==> r@ == "Classic"@,
            self == GameMode::Wrap ==> r@ == "Wrap"@,
            self == GameMode::Daily ==> r@ == "Daily"@,
    {
        match self {
            GameMode::Classic => "Classic",
            GameMode::Wrap => "Wrap",
            GameMode::Daily => "Daily",
        }
    }

    /// The key under which the mode's records are stored.
    pub fn persist_key(self) -> (r: &'static str)
        ensures
            self == GameMode::Classic ==> r@ == "classic"@,
            self == GameMode::Wrap ==> r@ == "wrap"@,
            self == GameMode::Daily ==> r@ == "daily"@,
    {
        match self {
            GameMode::Classic => "classic",
            GameMode::Wrap => "wrap",
            GameMode::Daily => "daily",
        }
    }
}

#[derive(Debug, Clone, Copy, PartialEq, Eq, Structural)]
pub enum Direction {
    Up,
    Down,
    Left,
    Right,
}

pub open spec fn opposite_of(d: Direction) -> Direction {
    match d {
        Direction::Up => Direction::Down,
        Direction::Down => Direction::Up,
        Direction::Left => Direction::Right,
        Direction::Right => Direction::Left,
    }
}

impl Direction {
    pub fn opposite(self) -> (r: Self)
        ensures
            r == opposite_of(self),
    {
        match self {
            Direction::Up => Direction::Down,
            Direction::Down => Direction::Up,
            Direction::Left => Direction::Right,
            Direction::Right => Direction::Left,
        }
    }
}

#[derive(Debug, Clone, Copy, PartialEq, Eq, Structural)]
pub enum FoodKind {
    Normal,
    Golden,
    SpeedBoost,
}

pub open spec fn points_of(k: FoodKind) -> u16 {
    match k {
        FoodKind::Normal => 1,
        FoodKind::Golden => 5,
        FoodKind::SpeedBoost => 2,
    }
}

impl FoodKind {
    pub fn base_points(self) -> (r: u16)
        ensures
            r == points_of(self),
    {
        match self {
            FoodKind::Normal => 1,
            FoodKind::Golden => 5,
            FoodKind::SpeedBoost => 2,
        }
    }
}

#[derive(Debug, Clone, Copy, PartialEq, Eq, Structural)]
pub enum DeathCause {
    Wall,
    SelfCollision,
}

// ---------------------------------------------------------------------------
// The snake
// ---------------------------------------------------------------------------

/// The cell one step from `head` in direction `d`, which may lie off the board.
pub open spec fn step_coords(head: (u16, u16), d: Direction) -> (i32, i32) {
    let (hx, hy) = head;
    match d {
        Direction::Up => (hx as i32, (hy - 1) as i32),
        Direction::Down => (hx as i32, (hy + 1) as i32),
        Direction::Left => ((hx - 1) as i32, hy as i32),
        Direction::Right => ((hx + 1) as i32, hy as i32),
    }
}

/// Where the head lands: off the board is a wall in Classic and Daily, and
/// wraps to the opposite side in Wrap.
pub open spec fn resolve_spec(coords: (i32, i32), mode: GameMode, w: u16, h: u16) -> Option<(u16, u16)> {
    let (x, y) = coords;
    match mode {
        GameMode::Wrap => Some((((x as int) % (w as int)) as u16, ((y as int) % (h as int)) as u16)),
        _ => if x < 0 || y < 0 || x >= w || y >= h {
            None
        } else {
            Some((x as u16, y as u16))
        },
    }
}

/// The direction after asking to turn to `d`: a reversal is ignored.
pub open spec fn turned(cur: Direction, d: Direction) -> Direction {
    if d != opposite_of(cur) {
        d
    } else {
        cur
    }
}

/// The body after the head moves to `new_head`; the tail stays when it grew.
pub open spec fn advanced(body: Seq<(u16, u16)>, new_head: (u16, u16), grew: bool) -> Seq<(u16, u16)> {
    if grew {
        seq![new_head] + body
    } else {
        (seq![new_head] + body).drop_last()
    }
}

/// Some segment behind the head lies on the head.
pub open spec fn hits_itself(body: Seq<(u16, u16)>) -> bool {
    exists|i: int| 1 <= i < body.len() && #[trigger] body[i] == body[0]
}

#[derive(Debug, Clone)]
pub struct Snake {
    pub body: Vec<(u16, u16)>,
    pub direction: Direction,
}

impl Snake {
    /// A two-segment snake with its head at the start cell, facing right.
    pub fn new(start_x: u16, start_y: u16) -> (s: Self)
        ensures
            s.body@ == seq![(start_x, start_y), (start_x.saturating_sub(1), start_y)],
            s.direction == Direction::Right,
    {
        let mut body: Vec<(u16, u16)> = Vec::new();
        body.push((start_x, start_y));
        body.push((start_x.saturating_sub(1), start_y));
        Snake { body, direction: Direction::Right }
    }

    pub fn head(&self) -> (h: (u16, u16))
        requires
            self.body.len() > 0,
        ensures
            h == self.body@[0],
    {
        self.body[0]
    }

    pub fn next_head_coords(&self) -> (r: (i32, i32))
        requires
            self.body.len() > 0,
        ensures
            r == step_coords(self.body@[0], self.direction),
    {
        step_from(self.head(), self.direction)
    }

    /// Maps a cell that may lie off the board onto it by the mode's rule.
    /// In Wrap mode the board must not be empty: wrapping divides by its size.
    pub fn resolve_head(coords: (i32, i32), mode: GameMode, board_width: u16, board_height: u16) -> (r:
        Option<(u16, u16)>)
        requires
            mode == GameMode::Wrap ==> board_width > 0 && board_height > 0,
        ensures
            r == resolve_spec(coords, mode, board_width, board_height),
    {
        let (x, y) = coords;
        match mode {
            GameMode::Classic | GameMode::Daily => {
                if x < 0 || y < 0 || x >= board_width as i32 || y >= board_height as i32 {
                    None
                } else {
                    Some((x as u16, y as u16))
                }
            },
            GameMode::Wrap => {
                let w = board_width as i32;
                let h = board_height as i32;
                let wx = ((x % w) + w) % w;
                let wy = ((y % h) + h) % h;
                proof {
                    lemma_wrap_is_euclidean(x as int, w as int);
                    lemma_wrap_is_euclidean(y as int, h as int);
                }
                Some((wx as u16, wy as u16))
            },
        }
    }

    pub fn advance_to(&mut self, new_head: (u16, u16), grew: bool)
        ensures
            final(self).body@ == advanced(old(self).body@, new_head, grew),
            final(self).direction == old(self).direction,
    {
        self.body.insert(0, new_head);
        if !grew {
            self.body.pop();
        }
    }

    pub fn change_direction(&mut self, new_dir: Direction)
        ensures
            final(self).direction == turned(old(self).direction, new_dir),
            final(self).body == old(self).body,
    {
        if new_dir != self.direction.opposite() {
            self.direction = new_dir;
        }
    }

    pub fn check_self_collision(&self) -> (r: bool)
        requires
            self.body.len() > 0,
        ensures
            r == hits_itself(self.body@),
    {
        let head = self.head();
        let mut i: usize = 1;
        while i < self.body.len()
            invariant
                1 <= i <= self.body.len(),
                head == self.body@[0],
                forall|j: int| 1 <= j < i ==> self.body@[j] != head,
            decreases self.body.len() - i,
        {
            if same_cell(self.body[i], head) {
                return true;
            }
            i = i + 1;
        }
        false
    }
}

/// The cell one step from `head` in direction `d`.
fn step_from(head: (u16, u16), d: Direction) -> (r: (i32, i32))
    ensures
        r == step_coords(head, d),
{
    let (hx, hy) = head;
    match d {
        Direction::Up => (hx as i32, hy as i32 - 1),
        Direction::Down => (hx as i32, hy as i32 + 1),
        Direction::Left => (hx as i32 - 1, hy as i32),
        Direction::Right => (hx as i32 + 1, hy as i32),
    }
}

/// The direction after asking to turn to `d`.
fn turned_dir(cur: Direction, d: Direction) -> (r: Direction)
    ensures
        r == turned(cur, d),
{
    if d != cur.opposite() {
        d
    } else {
        cur
    }
}

/// Cell equality, field by field.
pub fn same_cell(a: (u16, u16), b: (u16, u16)) -> (r: bool)
    ensures
        r == (a == b),
{
    a.0 == b.0 && a.1 == b.1
}

/// Truncated remainder, shifted and taken again, is the Euclidean remainder.
proof fn lemma_wrap_is_euclidean(x: int, w: int)
    requires
        0 < w <= 65535,
        -0x8000_0000 <= x < 0x8000_0000,
    ensures
        ({
            let t = if x >= 0 { x % w } else { -((-x) % w) };
            let s = t + w;
            let u = s % w;
            u == x % w
        }),
{
    let t = if x >= 0 { x % w } else { -((-x) % w) };
    if x >= 0 {
        assert((t + w) % w == t) by {
            lemma_fundamental_div_mod_converse(t + w, w, 1, t);
        }
    } else {
        let q = (-x) / w;
        let r = (-x) % w;
        assert(-x == q * w + r) by {
            vstd::arithmetic::div_mod::lemma_fundamental_div_mod(-x, w);
        }
        if r == 0 {
            assert(x == (-q) * w + 0) by (nonlinear_arith)
                requires -x == q * w + r, r == 0;
            lemma_fundamental_div_mod_converse(x, w, -q, 0);
            lemma_fundamental_div_mod_converse(t + w, w, 1, 0);
        } else {
            assert(x == (-q - 1) * w + (w - r)) by (nonlinear_arith)
                requires -x == q * w + r;
            lemma_fundamental_div_mod_converse(x, w, -q - 1, w - r);
            lemma_fundamental_div_mod_converse(t + w, w, 0, w - r);
        }
    }
}

// ---------------------------------------------------------------------------
// Food
// ---------------------------------------------------------------------------

/// The `i`-th cell of a board `w` cells wide, counted row by row.
pub open spec fn cell_at(w: u16, i: nat) -> (u16, u16) {
    ((i % (w as nat)) as u16, (i / (w as nat)) as u16)
}

/// The cells among the first `k` of the board that the body does not cover,
/// in row-major order.
pub open spec fn free_cells_upto(body: Seq<(u16, u16)>, w: u16, k: nat) -> Seq<(u16, u16)>
    decreases k,
{
    if k == 0 {
        Seq::empty()
    } else {
        let prev = free_cells_upto(body, w, (k - 1) as nat);
        let c = cell_at(w, (k - 1) as nat);
        if body.contains(c) {
            prev
        } else {
            prev.push(c)
        }
    }
}

/// Every cell of a `w` by `h` board that the body does not cover, row by row.
pub open spec fn free_cells(body: Seq<(u16, u16)>, w: u16, h: u16) -> Seq<(u16, u16)> {
    free_cells_upto(body, w, (w * h) as nat)
}

/// The kind of food that a roll in `0..weight_total` picks.
pub open spec fn kind_for_roll(config: GameConfig, roll: int) -> FoodKind {
    if roll < config.food_weight_normal {
        FoodKind::Normal
    } else if roll < config.food_weight_normal + config.food_weight_golden {
        FoodKind::Golden
    } else {
        FoodKind::SpeedBoost
    }
}

/// What a respawn may leave: nothing changes on a full board; otherwise the
/// food sits on a free cell with a kind that some roll picks.
pub open spec fn respawned(before: Food, after: Food, body: Seq<(u16, u16)>, config: GameConfig) -> bool {
    let free = free_cells(body, config.board_width, config.board_height);
    if free.len() == 0 {
        after == before
    } else {
        &&& free.contains(after.position)
        &&& exists|roll: int| 0 <= roll < config.weight_total() && after.kind == #[trigger] kind_for_roll(config, roll)
    }
}

#[derive(Debug)]
pub struct Food {
    pub position: (u16, u16),
    pub kind: FoodKind,
}

impl Clone for Food {
    fn clone(&self) -> (r: Self)
        ensures
            r == *self,
    {
        Food { position: self.position, kind: self.kind }
    }
}

impl Food {
    /// Food placed on a random free cell; on a full board it stays at (0, 0).
    pub fn new(snake_body: &[(u16, u16)], config: &GameConfig, rng: &mut StdRng) -> (f: Self)
        requires
            config.weight_total() > 0 || free_cells(snake_body@, config.board_width, config.board_height).len() == 0,
        ensures
            respawned(Food { position: (0, 0), kind: FoodKind::Normal }, f, snake_body@, *config),
    {
        let mut food = Food { position: (0, 0), kind: FoodKind::Normal };
        food.respawn(snake_body, config, rng);
        food
    }

    /// Moves the food to a random free cell with a randomly rolled kind: the
    /// generator picks a free cell's index, then a roll of the food weights.
    pub fn respawn(&mut self, snake_body: &[(u16, u16)], config: &GameConfig, rng: &mut StdRng)
        requires
            config.weight_total() > 0 || free_cells(snake_body@, config.board_width, config.board_height).len() == 0,
        ensures
            respawned(*old(self), *final(self), snake_body@, *config),
    {
        let empty = empty_cells(snake_body, config);
        if empty.len() == 0 {
            return;
        }
        let idx = random_index(rng, empty.len());
        let total = config.food_weight_normal as u16 + config.food_weight_golden as u16
            + config.food_weight_speed_boost as u16;
        let roll = random_roll(rng, total);
        *self = place_food(&empty, idx, roll, config);
        assert(free_cells(snake_body@, config.board_width, config.board_height).contains(empty@[idx as int]));
        assert(kind_for_roll(*config, roll as int) == self.kind);
    }
}

/// The food that a drawn index and roll give: the `idx`-th free cell, with
/// the kind that `roll` picks from the configured weights.
pub fn place_food(empty: &Vec<(u16, u16)>, idx: usize, roll: u16, config: &GameConfig) -> (f: Food)
    requires
        idx < empty.len(),
    ensures
        f.position == empty@[idx as int],
        f.kind == kind_for_roll(*config, roll as int),
{
    Food { position: empty[idx], kind: food_kind_for_roll(config, roll) }
}

fn contains_cell(cells: &[(u16, u16)], c: (u16, u16)) -> (r: bool)
    ensures
        r == cells@.contains(c),
{
    let mut i: usize = 0;
    while i < cells.len()
        invariant
            0 <= i <= cells.len(),
            forall|j: int| 0 <= j < i ==> cells@[j] != c,
        decreases cells.len() - i,
    {
        if same_cell(cells[i], c) {
            return true;
        }
        i = i + 1;
    }
    false
}

/// The free cells of the board, row by row.
pub fn empty_cells(snake_body: &[(u16, u16)], config: &GameConfig) -> (cells: Vec<(u16, u16)>)
    ensures
        cells@ == free_cells(snake_body@, config.board_width, config.board_height),
{
    let w = config.board_width;
    let h = config.board_height;
    let mut cells: Vec<(u16, u16)> = Vec::new();
    let mut y: u16 = 0;
    while y < h
        invariant
            w == config.board_width,
            h == config.board_height,
            0 <= y <= h,
            cells@ == free_cells_upto(snake_body@, w, (y * w) as nat),
        decreases h - y,
    {
        let mut x: u16 = 0;
        while x < w
            invariant
                w == config.board_width,
                h == config.board_height,
                0 <= y < h,
                0 <= x <= w,
                cells@ == free_cells_upto(snake_body@, w, (y * w + x) as nat),
            decreases w - x,
        {
            let pos = (x, y);
            proof {
                lemma_fundamental_div_mod_converse((y * w + x) as int, w as int, y as int, x as int);
                assert(cell_at(w, (y * w + x) as nat) == pos);
            }
            if !contains_cell(snake_body, pos) {
                cells.push(pos);
            }
            x = x + 1;
        }
        proof {
            assert((y * w + w) == (y + 1) * w) by (nonlinear_arith);
        }
        y = y + 1;
    }
    proof {
        assert(h * w == w * h) by (nonlinear_arith);
    }
    cells
}

/// The kind of food that `roll` picks from the configured weights.
pub fn food_kind_for_roll(config: &GameConfig, roll: u16) -> (k: FoodKind)
    ensures
        k == kind_for_roll(*config, roll as int),
{
    let normal = config.food_weight_normal as u16;
    let golden_end = normal + config.food_weight_golden as u16;
    if roll < normal {
        FoodKind::Normal
    } else if roll < golden_end {
        FoodKind::Golden
    } else {
        FoodKind::SpeedBoost
    }
}


// ---------------------------------------------------------------------------
// A run of the game
// ---------------------------------------------------------------------------

#[derive(Debug, Clone)]
pub struct RunStats {
    pub food_eaten: u16,
    pub max_streak: u16,
    pub current_streak: u16,
    pub golden_eaten: u16,
    pub ticks_survived: u64,
    pub ticks_since_last_eat: u16,
}

pub open spec fn zero_stats() -> RunStats {
    RunStats {
        food_eaten: 0,
        max_streak: 0,
        current_streak: 0,
        golden_eaten: 0,
        ticks_survived: 0,
        ticks_since_last_eat: 0,
    }
}

impl Default for RunStats {
    fn default() -> (r: Self)
        ensures
            r == zero_stats(),
    {
        RunStats {
            food_eaten: 0,
            max_streak: 0,
            current_streak: 0,
            golden_eaten: 0,
            ticks_survived: 0,
            ticks_since_last_eat: 0,
        }
    }
}

#[derive(Debug, Clone)]
pub struct AteInfo {
    pub kind: FoodKind,
    pub points: u16,
    pub streak: u16,
    pub leveled_up: bool,
}

#[derive(Debug, Clone, Copy, PartialEq, Eq, Structural)]
pub enum UpdateResult {
    Moved,
    Ate,
    Died(DeathCause),
    Won,
}

#[derive(Debug)]
pub struct Game {
    pub config: GameConfig,
    pub snake: Snake,
    pub food: Food,
    pub score: u16,
    pub mode: GameMode,
    pub pending_turns: VecDeque<Direction>,
    pub stats: RunStats,
    pub speed_boost_ticks_remaining: u16,
    pub last_ate: Option<AteInfo>,
    /// The run's random source.  It is public only because Verus treats a
    /// struct with a private field as opaque outside its module, and the
    /// contracts of the session and the screens read this struct's fields.
    pub rng: StdRng,
}

/// The snake's direction once the first queued turn, if any, is applied.
pub open spec fn dir_after_turn(g: Game) -> Direction {
    if g.pending_turns@.len() > 0 {
        turned(g.snake.direction, g.pending_turns@[0])
    } else {
        g.snake.direction
    }
}

/// The queue once its first turn, if any, is taken.
pub open spec fn pending_after_turn(g: Game) -> Seq<Direction> {
    if g.pending_turns@.len() > 0 {
        g.pending_turns@.drop_first()
    } else {
        g.pending_turns@
    }
}

/// The cell the head moves to this tick, or `None` where it hits a wall.
pub open spec fn target_of(g: Game) -> Option<(u16, u16)> {
    resolve_spec(
        step_coords(g.snake.body@[0], dir_after_turn(g)),
        g.mode,
        g.config.board_width,
        g.config.board_height,
    )
}

/// The body after this tick: unchanged against a wall, else moved, and grown
/// by one where the head lands on the food.
pub open spec fn body_after(g: Game) -> Seq<(u16, u16)> {
    match target_of(g) {
        None => g.snake.body@,
        Some(nh) => advanced(g.snake.body@, nh, nh == g.food.position),
    }
}

/// This tick eats the food: the head lands on it without biting the body.
pub open spec fn eats(g: Game) -> bool {
    &&& target_of(g) is Some
    &&& target_of(g)->0 == g.food.position
    &&& !hits_itself(body_after(g))
}

/// The result of one tick.
pub open spec fn update_outcome(g: Game) -> UpdateResult {
    match target_of(g) {
        None => UpdateResult::Died(DeathCause::Wall),
        Some(nh) => if hits_itself(body_after(g)) {
            UpdateResult::Died(DeathCause::SelfCollision)
        } else if nh == g.food.position {
            if free_cells(body_after(g), g.config.board_width, g.config.board_height).len() == 0 {
                UpdateResult::Won
            } else {
                UpdateResult::Ate
            }
        } else {
            UpdateResult::Moved
        },
    }
}

/// The counters every tick moves: one more tick survived, one more since eating.
pub open spec fn ticked(s: RunStats) -> RunStats {
    RunStats {
        ticks_survived: (s.ticks_survived + 1) as u64,
        ticks_since_last_eat: s.ticks_since_last_eat.saturating_add(1),
        ..s
    }
}

/// Food eaten now carries the streak on: it comes within the window of the
/// last and a streak is running.
pub open spec fn streak_continues(s: RunStats, window: u16) -> bool {
    s.ticks_since_last_eat <= window && s.current_streak > 0
}

/// A streak goes on when food comes within the window of the last, else restarts at one.
pub open spec fn streak_after_eat(s: RunStats, window: u16) -> u16 {
    if streak_continues(s, window) {
        (s.current_streak + 1) as u16
    } else {
        1
    }
}

pub open spec fn stats_after_eat(s: RunStats, kind: FoodKind, window: u16) -> RunStats {
    let streak = streak_after_eat(s, window);
    RunStats {
        food_eaten: (s.food_eaten + 1) as u16,
        max_streak: if s.max_streak >= streak {
            s.max_streak
        } else {
            streak
        },
        current_streak: streak,
        golden_eaten: if kind == FoodKind::Golden {
            (s.golden_eaten + 1) as u16
        } else {
            s.golden_eaten
        },
        ticks_survived: s.ticks_survived,
        ticks_since_last_eat: 0,
    }
}

/// The statistics after one tick.
pub open spec fn stats_after(g: Game) -> RunStats {
    let s = ticked(g.stats);
    match update_outcome(g) {
        UpdateResult::Died(_) => s,
        UpdateResult::Moved => if s.ticks_since_last_eat > g.config.streak_window_ticks {
            RunStats { current_streak: 0, ..s }
        } else {
            s
        },
        _ => stats_after_eat(s, g.food.kind, g.config.streak_window_ticks),
    }
}

/// Points for the food eaten this tick: the kind's base and a third of the streak.
pub open spec fn points_after(g: Game) -> u16 {
    (points_of(g.food.kind) + stats_after(g).current_streak / 3) as u16
}

pub open spec fn score_after(g: Game) -> u16 {
    if eats(g) {
        g.score.saturating_add(points_after(g))
    } else {
        g.score
    }
}

pub open spec fn boost_after(g: Game) -> u16 {
    if eats(g) && g.food.kind == FoodKind::SpeedBoost {
        SPEED_BOOST_DURATION_TICKS
    } else if g.speed_boost_ticks_remaining > 0 {
        (g.speed_boost_ticks_remaining - 1) as u16
    } else {
        g.speed_boost_ticks_remaining
    }
}

/// A level is reached when the score changes onto a positive multiple of the interval.
pub open spec fn levels_up(prev: u16, score: u16, interval: u16) -> bool {
    score > 0 && score.is_multiple_of(interval) && score != prev
}

pub open spec fn last_ate_after(g: Game) -> Option<AteInfo> {
    if eats(g) {
        Some(
            AteInfo {
                kind: g.food.kind,
                points: points_after(g),
                streak: stats_after(g).current_streak,
                leveled_up: levels_up(g.score, score_after(g), g.config.speed_ramp_interval),
            },
        )
    } else {
        g.last_ate
    }
}

/// What `update` needs: a head, a board to wrap on in Wrap mode, room in
/// each counter that this tick raises, and food weights to roll where it
/// respawns the food.
pub open spec fn can_update(g: Game) -> bool {
    &&& g.snake.body.len() > 0
    &&& g.stats.ticks_survived < u64::MAX
    &&& g.mode == GameMode::Wrap ==> g.config.board_width > 0 && g.config.board_height > 0
    &&& eats(g) ==> eat_fits(ticked(g.stats), g.food.kind, g.config.streak_window_ticks)
    &&& update_outcome(g) == UpdateResult::Ate ==> g.config.weight_total() > 0
}

/// Eating `kind` with the counters `s` overflows none of them: the food
/// count always rises, the golden count for golden food, and the streak
/// where it goes on.
pub open spec fn eat_fits(s: RunStats, kind: FoodKind, window: u16) -> bool {
    &&& s.food_eaten < u16::MAX
    &&& kind == FoodKind::Golden ==> s.golden_eaten < u16::MAX
    &&& streak_continues(s, window) ==> s.current_streak < u16::MAX
}

/// The relation between the game before and after one `update` returning `r`.
#[verifier::opaque]
pub open spec fn update_step(g: Game, g2: Game, r: UpdateResult) -> bool {
    &&& r == update_outcome(g)
    &&& g2.config == g.config
    &&& g2.mode == g.mode
    &&& g2.snake.direction == dir_after_turn(g)
    &&& g2.snake.body@ == body_after(g)
    &&& g2.pending_turns@ == pending_after_turn(g)
    &&& g2.stats == stats_after(g)
    &&& g2.score == score_after(g)
    &&& g2.speed_boost_ticks_remaining == boost_after(g)
    &&& g2.last_ate == last_ate_after(g)
    &&& r == UpdateResult::Ate ==> respawned(g.food, g2.food, body_after(g), g.config)
    &&& r != UpdateResult::Ate ==> g2.food == g.food
}

/// The pending turns after asking for `dir`.
pub open spec fn queued(g: Game, dir: Direction) -> Seq<Direction> {
    let q = g.pending_turns@;
    let reference = if q.len() > 0 {
        q.last()
    } else {
        g.snake.direction
    };
    if dir == opposite_of(reference) || q.len() >= INPUT_BUFFER_SIZE || (q.len() > 0 && q.last() == dir) {
        q
    } else {
        q.push(dir)
    }
}

/// `g2` is `g` once `dir` was asked for: the queue as `queued` says, all
/// else kept.
pub open spec fn turn_queued(g: Game, g2: Game, dir: Direction) -> bool {
    &&& g2.pending_turns@ == queued(g, dir)
    &&& g2.snake == g.snake
    &&& g2.config == g.config
    &&& g2.food == g.food
    &&& g2.score == g.score
    &&& g2.mode == g.mode
    &&& g2.stats == g.stats
    &&& g2.speed_boost_ticks_remaining == g.speed_boost_ticks_remaining
    &&& g2.last_ate == g.last_ate
}

/// Milliseconds per tick.
pub open spec fn tick_rate_of(g: Game) -> u64 {
    match g.config.fixed_tick_rate {
        Some(fixed) => fixed,
        None => if g.speed_boost_ticks_remaining > 0 {
            SPEED_BOOST_TICK_MS
        } else {
            let steps = g.score / g.config.speed_ramp_interval;
            let slowed = g.config.base_tick_ms.saturating_sub((steps * g.config.tick_ms_decrease) as u64);
            if slowed >= g.config.min_tick_ms {
                slowed
            } else {
                g.config.min_tick_ms
            }
        },
    }
}

/// `tick_rate_ms` divides by the ramp interval and multiplies the steps.
pub open spec fn tick_rate_defined(g: Game) -> bool {
    (g.config.fixed_tick_rate is None && g.speed_boost_ticks_remaining == 0) ==> {
        &&& g.config.speed_ramp_interval > 0
        &&& (g.score / g.config.speed_ramp_interval) * g.config.tick_ms_decrease <= u64::MAX
    }
}

/// A freshly started game, whatever food it drew.
pub open spec fn fresh_game(g: Game, mode: GameMode, config: GameConfig) -> bool {
    &&& g.config == config
    &&& g.mode == mode
    &&& g.score == 0
    &&& g.snake.body@ == seq![
        (config.board_width / 4, config.board_height / 2),
        ((config.board_width / 4).saturating_sub(1), config.board_height / 2),
    ]
    &&& g.snake.direction == Direction::Right
    &&& g.pending_turns@ == Seq::<Direction>::empty()
    &&& g.stats == zero_stats()
    &&& g.speed_boost_ticks_remaining == 0
    &&& g.last_ate is None
    &&& respawned(Food { position: (0, 0), kind: FoodKind::Normal }, g.food, g.snake.body@, config)
}

/// The day number of a Unix time.
pub open spec fn day_of(secs: u64) -> u64 {
    secs / 86_400
}

/// The key of a day's daily challenge: `day` and the day number.
pub open spec fn day_key(day: u64) -> Seq<char> {
    seq!['d', 'a', 'y'] + decimal(day as nat)
}

/// `std::time::SystemTime`, carried as an opaque value.
#[verifier::external_type_specification]
#[verifier::external_body]
pub struct ExSystemTime(std::time::SystemTime);

/// Calls `SystemTime::now`.  The value is the system clock's, so nothing is
/// stated of it.
#[verifier::external_body]
fn clock_now() -> std::time::SystemTime {
    std::time::SystemTime::now()
}

/// Calls `SystemTime::duration_since(UNIX_EPOCH)`; its error (a time before
/// the epoch) becomes `None`.  Nothing is stated of the duration.
#[verifier::external_body]
fn since_epoch(t: &std::time::SystemTime) -> Option<std::time::Duration> {
    t.duration_since(std::time::UNIX_EPOCH).ok()
}

/// Calls `Duration::as_secs`, the whole seconds of the duration; the
/// duration is opaque here, so nothing is stated of the result.
#[verifier::external_body]
fn whole_secs(d: &std::time::Duration) -> u64 {
    d.as_secs()
}

/// Seconds since the Unix epoch by the system clock, 0 where the clock is
/// set before the epoch.
fn unix_time_secs() -> u64 {
    match since_epoch(&clock_now()) {
        Some(d) => whole_secs(&d),
        None => 0,
    }
}

impl Game {
    /// A new game seeded from the operating system's entropy.
    pub fn new(mode: GameMode, config: GameConfig) -> (g: Self)
        requires
            config.weight_total() > 0
                || free_cells(
                seq![
                    (config.board_width / 4, config.board_height / 2),
                    ((config.board_width / 4).saturating_sub(1), config.board_height / 2),
                ],
                config.board_width,
                config.board_height,
            ).len() == 0,
        ensures
            fresh_game(g, mode, config),
    {
        Self::new_with_seed(mode, config, None)
    }

    /// A new game whose generator is seeded from `seed`, or from the
    /// operating system's entropy where there is none.  The food is drawn
    /// from that generator; which cell and kind it gives is not stated here
    /// (`rand` does not promise the same draws on every platform).
    pub fn new_with_seed(mode: GameMode, config: GameConfig, seed: Option<u64>) -> (g: Self)
        requires
            config.weight_total() > 0
                || free_cells(
                seq![
                    (config.board_width / 4, config.board_height / 2),
                    ((config.board_width / 4).saturating_sub(1), config.board_height / 2),
                ],
                config.board_width,
                config.board_height,
            ).len() == 0,
        ensures
            fresh_game(g, mode, config),
    {
        let mut rng = match seed {
            Some(s) => seeded_rng(s),
            None => seeded_rng(fresh_seed()),
        };
        let start_x = config.board_width / 4;
        let start_y = config.board_height / 2;
        let snake = Snake::new(start_x, start_y);
        let food = Food::new(snake.body.as_slice(), &config, &mut rng);
        Game {
            config,
            snake,
            food,
            score: 0,
            mode,
            pending_turns: VecDeque::new(),
            stats: RunStats::default(),
            speed_boost_ticks_remaining: 0,
            last_ate: None,
            rng,
        }
    }

    /// Today's day number by the system clock: the seed of the daily challenge.
    pub fn daily_seed_for_today() -> (d: u64)
        ensures
            exists|secs: u64| d == day_of(secs),
    {
        let secs = unix_time_secs();
        Self::daily_seed_from_secs(secs)
    }

    /// The key of today's daily challenge.
    pub fn daily_date_key() -> (s: String)
        ensures
            exists|secs: u64| s@ == day_key(#[trigger] day_of(secs)),
    {
        Self::date_key_for_day(Self::daily_seed_for_today())
    }

    /// The key of a day's daily challenge, such as `day20000`.
    pub fn date_key_for_day(day: u64) -> (s: String)
        ensures
            s@ == day_key(day),
    {
        let mut s = String::new();
        push_char(&mut s, 'd');
        push_char(&mut s, 'a');
        push_char(&mut s, 'y');
        push_decimal(&mut s, day);
        s
    }

    /// The day number of a Unix time.
    pub fn daily_seed_from_secs(secs: u64) -> (d: u64)
        ensures
            d == day_of(secs),
    {
        secs / 86_400
    }

    pub fn level(&self) -> (l: u16)
        requires
            self.config.speed_ramp_interval > 0,
            self.score / self.config.speed_ramp_interval < u16::MAX,
        ensures
            l == self.score / self.config.speed_ramp_interval + 1,
    {
        self.score / self.config.speed_ramp_interval + 1
    }

    pub fn tick_rate_ms(&self) -> (r: u64)
        requires
            tick_rate_defined(*self),
        ensures
            r == tick_rate_of(*self),
    {
        if let Some(fixed) = self.config.fixed_tick_rate {
            return fixed;
        }
        if self.speed_boost_ticks_remaining > 0 {
            return SPEED_BOOST_TICK_MS;
        }
        let steps = (self.score / self.config.speed_ramp_interval) as u64;
        let slowed = self.config.base_tick_ms.saturating_sub(steps * self.config.tick_ms_decrease);
        if slowed >= self.config.min_tick_ms {
            slowed
        } else {
            self.config.min_tick_ms
        }
    }

    /// Buffers a turn: a reversal of the last queued direction, a repeat of
    /// it, or a turn beyond the buffer's size is dropped.
    pub fn queue_turn(&mut self, dir: Direction)
        ensures
            turn_queued(*old(self), *final(self), dir),
    {
        let len = self.pending_turns.len();
        let reference = if len > 0 {
            self.pending_turns[len - 1]
        } else {
            self.snake.direction
        };
        if dir == reference.opposite() {
            return;
        }
        if len >= INPUT_BUFFER_SIZE {
            return;
        }
        if len > 0 && self.pending_turns[len - 1] == dir {
            return;
        }
        self.pending_turns.push_back(dir);
    }

    /// One tick: take a queued turn, move, and eat, die, or win.
    pub fn update(&mut self) -> (r: UpdateResult)
        requires
            can_update(*old(self)),
        ensures
            r == update_outcome(*old(self)),
            final(self).config == old(self).config,
            final(self).mode == old(self).mode,
            final(self).snake.direction == dir_after_turn(*old(self)),
            final(self).snake.body@ == body_after(*old(self)),
            final(self).pending_turns@ == pending_after_turn(*old(self)),
            final(self).stats == stats_after(*old(self)),
            final(self).score == score_after(*old(self)),
            final(self).speed_boost_ticks_remaining == boost_after(*old(self)),
            final(self).last_ate == last_ate_after(*old(self)),
            r == UpdateResult::Ate ==> respawned(
                old(self).food,
                final(self).food,
                body_after(*old(self)),
                old(self).config,
            ),
            r != UpdateResult::Ate ==> final(self).food == old(self).food,
            update_step(*old(self), *final(self), r),
            final(self).stats.max_streak >= old(self).stats.max_streak,
            !((r == UpdateResult::Ate || r == UpdateResult::Won) && old(self).food.kind == FoodKind::SpeedBoost)
                && old(self).speed_boost_ticks_remaining > 0 ==> final(self).speed_boost_ticks_remaining
                == old(self).speed_boost_ticks_remaining - 1,
    {
        reveal(update_step);
        let ghost g = *self;
        self.apply_pending_turn();
        self.stats.ticks_survived = self.stats.ticks_survived + 1;
        self.stats.ticks_since_last_eat = self.stats.ticks_since_last_eat.saturating_add(1);
        if self.speed_boost_ticks_remaining > 0 {
            self.speed_boost_ticks_remaining = self.speed_boost_ticks_remaining - 1;
        }
        assert(self.stats == ticked(g.stats));
        let next_coords = self.snake.next_head_coords();
        let next = Snake::resolve_head(
            next_coords,
            self.mode,
            self.config.board_width,
            self.config.board_height,
        );
        assert(next == target_of(g));
        let next_head = match next {
            Some(nh) => nh,
            None => {
                return UpdateResult::Died(DeathCause::Wall);
            },
        };
        let will_eat = same_cell(next_head, self.food.position);
        self.snake.advance_to(next_head, will_eat);
        assert(self.snake.body@ == body_after(g));
        if self.snake.check_self_collision() {
            return UpdateResult::Died(DeathCause::SelfCollision);
        }
        if will_eat {
            assert(eats(g));
            return self.handle_eat();
        }
        if self.stats.ticks_since_last_eat > self.config.streak_window_ticks {
            self.stats.current_streak = 0;
        }
        UpdateResult::Moved
    }

    fn handle_eat(&mut self) -> (r: UpdateResult)
        requires
            old(self).snake.body.len() > 0,
            eat_fits(old(self).stats, old(self).food.kind, old(self).config.streak_window_ticks),
            free_cells(old(self).snake.body@, old(self).config.board_width, old(self).config.board_height).len()
                > 0 ==> old(self).config.weight_total() > 0,
        ensures
            r == (if free_cells(
                old(self).snake.body@,
                old(self).config.board_width,
                old(self).config.board_height,
            ).len() == 0 {
                UpdateResult::Won
            } else {
                UpdateResult::Ate
            }),
            final(self).config == old(self).config,
            final(self).mode == old(self).mode,
            final(self).snake == old(self).snake,
            final(self).pending_turns@ == old(self).pending_turns@,
            final(self).stats == stats_after_eat(
                old(self).stats,
                old(self).food.kind,
                old(self).config.streak_window_ticks,
            ),
            final(self).score == old(self).score.saturating_add(
                (points_of(old(self).food.kind) + final(self).stats.current_streak / 3) as u16,
            ),
            final(self).speed_boost_ticks_remaining == (if old(self).food.kind == FoodKind::SpeedBoost {
                SPEED_BOOST_DURATION_TICKS
            } else {
                old(self).speed_boost_ticks_remaining
            }),
            final(self).last_ate == Some(
                AteInfo {
                    kind: old(self).food.kind,
                    points: (points_of(old(self).food.kind) + final(self).stats.current_streak / 3) as u16,
                    streak: final(self).stats.current_streak,
                    leveled_up: levels_up(
                        old(self).score,
                        final(self).score,
                        old(self).config.speed_ramp_interval,
                    ),
                },
            ),
            r == UpdateResult::Ate ==> respawned(
                old(self).food,
                final(self).food,
                old(self).snake.body@,
                old(self).config,
            ),
            r != UpdateResult::Ate ==> final(self).food == old(self).food,
            final(self).stats.max_streak >= old(self).stats.max_streak,
            final(self).stats.max_streak >= final(self).stats.current_streak,
    {
        let kind = self.food.kind;
        let prev_score = self.score;

        if self.stats.ticks_since_last_eat <= self.config.streak_window_ticks && self.stats.current_streak > 0 {
            self.stats.current_streak = self.stats.current_streak + 1;
        } else {
            self.stats.current_streak = 1;
        }
        self.stats.ticks_since_last_eat = 0;
        if self.stats.current_streak > self.stats.max_streak {
            self.stats.max_streak = self.stats.current_streak;
        }
        self.stats.food_eaten = self.stats.food_eaten + 1;
        if kind == FoodKind::Golden {
            self.stats.golden_eaten = self.stats.golden_eaten + 1;
        }

        let streak_bonus = self.stats.current_streak / 3;
        let points = kind.base_points() + streak_bonus;
        self.score = self.score.saturating_add(points);

        if kind == FoodKind::SpeedBoost {
            self.speed_boost_ticks_remaining = SPEED_BOOST_DURATION_TICKS;
        }

        let leveled_up = self.score > 0 && self.score.is_multiple_of(self.config.speed_ramp_interval)
            && self.score != prev_score;

        let ate_info = AteInfo { kind, points, streak: self.stats.current_streak, leveled_up };
        self.last_ate = Some(ate_info);

        let empty = empty_cells(self.snake.body.as_slice(), &self.config);
        if empty.len() == 0 {
            return UpdateResult::Won;
        }
        self.food.respawn(self.snake.body.as_slice(), &self.config, &mut self.rng);
        UpdateResult::Ate
    }

    /// Whether the next `update` can run: `can_update`, checked at run time.
    /// It works out where the head goes; only where the tick eats on a board
    /// without food weights does it build the grown body to see whether a
    /// free cell is left.
    pub fn can_tick(&self) -> (r: bool)
        ensures
            r == can_update(*self),
    {
        if self.snake.body.len() == 0 || self.stats.ticks_survived == u64::MAX {
            return false;
        }
        if self.mode == GameMode::Wrap && (self.config.board_width == 0 || self.config.board_height == 0) {
            return false;
        }
        let dir = if self.pending_turns.len() > 0 {
            turned_dir(self.snake.direction, self.pending_turns[0])
        } else {
            self.snake.direction
        };
        assert(dir == dir_after_turn(*self));
        let coords = step_from(self.snake.body[0], dir);
        let target = Snake::resolve_head(coords, self.mode, self.config.board_width, self.config.board_height);
        assert(target == target_of(*self));
        let nh = match target {
            None => {
                return true;
            },
            Some(nh) => nh,
        };
        if !same_cell(nh, self.food.position) {
            assert(!eats(*self));
            assert(update_outcome(*self) != UpdateResult::Ate);
            return true;
        }
        let ghost grown = body_after(*self);
        assert(grown == seq![nh] + self.snake.body@);
        if contains_cell(self.snake.body.as_slice(), nh) {
            proof {
                let i = choose|i: int| 0 <= i < self.snake.body@.len() && self.snake.body@[i] == nh;
                assert(grown[i + 1] == grown[0]);
            }
            return true;
        }
        assert(!hits_itself(grown)) by {
            if hits_itself(grown) {
                let i = choose|i: int| 1 <= i < grown.len() && #[trigger] grown[i] == grown[0];
                assert(self.snake.body@[i - 1] == nh);
            }
        }
        assert(eats(*self));
        let s = &self.stats;
        let window = self.config.streak_window_ticks;
        let since = s.ticks_since_last_eat.saturating_add(1);
        assert(since == ticked(self.stats).ticks_since_last_eat);
        if s.food_eaten == u16::MAX {
            return false;
        }
        if self.food.kind == FoodKind::Golden && s.golden_eaten == u16::MAX {
            return false;
        }
        if since <= window && s.current_streak > 0 && s.current_streak == u16::MAX {
            return false;
        }
        assert(eat_fits(ticked(self.stats), self.food.kind, window));
        if (self.config.food_weight_normal as u16) + (self.config.food_weight_golden as u16)
            + (self.config.food_weight_speed_boost as u16) > 0 {
            return true;
        }
        let mut body: Vec<(u16, u16)> = Vec::new();
        body.push(nh);
        let mut i: usize = 0;
        while i < self.snake.body.len()
            invariant
                0 <= i <= self.snake.body.len(),
                body@ == seq![nh] + self.snake.body@.subrange(0, i as int),
            decreases self.snake.body.len() - i,
        {
            body.push(self.snake.body[i]);
            i = i + 1;
            assert(body@ == seq![nh] + self.snake.body@.subrange(0, i as int));
        }
        assert(self.snake.body@.subrange(0, i as int) == self.snake.body@);
        let free = empty_cells(body.as_slice(), &self.config);
        free.len() == 0
    }

    fn apply_pending_turn(&mut self)
        ensures
            final(self).snake.direction == dir_after_turn(*old(self)),
            final(self).pending_turns@ == pending_after_turn(*old(self)),
            final(self).snake.body@ == old(self).snake.body@,
            final(self).config == old(self).config,
            final(self).food == old(self).food,
            final(self).score == old(self).score,
            final(self).mode == old(self).mode,
            final(self).stats == old(self).stats,
            final(self).speed_boost_ticks_remaining == old(self).speed_boost_ticks_remaining,
            final(self).last_ate == old(self).last_ate,
    {
        if let Some(dir) = self.pending_turns.pop_front() {
            self.snake.change_direction(dir);
        }
    }
}

} // verus!
