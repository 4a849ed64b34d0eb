//! Properties of the game as a whole, stated over the specifications that
//! the functions' contracts use.
use crate::game::{
    can_update, body_after, cell_at, dir_after_turn, free_cells, free_cells_upto, hits_itself, mode_after, opposite_of,
    preset_after, queued, resolve_spec, respawned, target_of, tick_rate_defined, tick_rate_of, turned,
    update_step, BoardPreset, Direction, FoodKind, Game, GameMode, UpdateResult, INPUT_BUFFER_SIZE,
    SPEED_BOOST_DURATION_TICKS,
};
use crate::persist::{
    beats_all, board_after_add, first_sound_setting, sound_enabled_spec, sound_line, sound_text, sound_word, entry_line, insert_by_score, migrated, name_char, name_chars_upto,
    needs_migration, normalized_legacy, parse_line, parse_lines, parsed_entries, sanitized, serialized,
    sorted_by_score, MAX_ENTRIES, MAX_NAME_LEN,
};
use crate::text::{
    decimal, find_from, is_digit, is_ws, lemma_decimal_digits, lemma_find_from_bounds,
    lemma_trimmed_of_trimmed, lemma_trimmed_shape, line_at, lines_from, lines_of, parse_u16_spec, player_word,
    trimmed,
};
use crate::input::{play_steering, steered, KeyPresses};
use crate::session::{can_advance, ends_run, stalls, stops_at, ticks_due, ticks_safe, valid_trace, RunSession};
use vstd::prelude::*;

verus! {

// ---------------------------------------------------------------------------
// Directions and menus
// ---------------------------------------------------------------------------

/// Turning around twice faces the first way again, and no direction is its own opposite.
pub proof fn law_opposite_involution(d: Direction)
    ensures
        opposite_of(opposite_of(d)) == d,
        opposite_of(d) != d,
{
}

/// The mode and board toggles cycle through all three choices and come back.
pub proof fn law_toggles_cycle(m: GameMode, p: BoardPreset)
    ensures
        mode_after(mode_after(mode_after(m))) == m,
        mode_after(m) != m,
        preset_after(preset_after(preset_after(p))) == p,
        preset_after(p) != p,
{
}

/// A requested turn never reverses the snake onto itself.
pub proof fn law_turn_never_reverses(cur: Direction, d: Direction)
    ensures
        turned(cur, d) != opposite_of(cur),
{
}

// ---------------------------------------------------------------------------
// The input buffer
// ---------------------------------------------------------------------------

/// The buffer holds at most `INPUT_BUFFER_SIZE` turns, none reversing the
/// direction before it and none repeating the turn before it.
pub open spec fn queue_ok(dir: Direction, q: Seq<Direction>) -> bool {
    &&& q.len() <= INPUT_BUFFER_SIZE
    &&& q.len() > 0 ==> q[0] != opposite_of(dir)
    &&& forall|i: int| 1 <= i < q.len() ==> #[trigger] q[i] != opposite_of(q[i - 1]) && q[i] != q[i - 1]
}

/// Queueing a turn keeps the buffer well formed.
pub proof fn law_queue_turn_keeps_buffer(g: Game, d: Direction)
    requires
        queue_ok(g.snake.direction, g.pending_turns@),
    ensures
        queue_ok(g.snake.direction, queued(g, d)),
{
    let q = g.pending_turns@;
    let n = queued(g, d);
    if n != q {
        assert(n == q.push(d));
        assert forall|i: int| 1 <= i < n.len() implies #[trigger] n[i] != opposite_of(n[i - 1]) && n[i] != n[i
            - 1] by {
            if i < q.len() {
                assert(n[i] == q[i] && n[i - 1] == q[i - 1]);
            } else {
                assert(n[i - 1] == q.last());
            }
        }
    }
}

/// A tick takes the first buffered turn, which is never a reversal, and
/// leaves a well-formed buffer.
pub proof fn law_update_keeps_buffer(g: Game, g2: Game, r: UpdateResult)
    requires
        queue_ok(g.snake.direction, g.pending_turns@),
        update_step(g, g2, r),
    ensures
        queue_ok(g2.snake.direction, g2.pending_turns@),
        g.pending_turns@.len() > 0 ==> g2.snake.direction == g.pending_turns@[0],
        g2.snake.direction != opposite_of(g.snake.direction),
{
    reveal(update_step);
    let q = g.pending_turns@;
    if q.len() > 0 {
        let q2 = q.drop_first();
        assert(g2.pending_turns@ == q2);
        assert forall|i: int| 1 <= i < q2.len() implies #[trigger] q2[i] != opposite_of(q2[i - 1]) && q2[i]
            != q2[i - 1] by {
            assert(q2[i] == q[i + 1] && q2[i - 1] == q[i]);
        }
        if q2.len() > 0 {
            assert(q2[0] == q[1]);
        }
    }
}

/// Play's keys never turn the snake at once: a steering key only queues its
/// turn, and the snake keeps its direction until a tick takes the turn.  On
/// an empty buffer a turn that is no reversal is the one the next tick takes.
pub proof fn law_steering_waits_for_tick(g: Game, g2: Game, keys: KeyPresses, d: Direction)
    requires
        steered(g, g2, keys),
    ensures
        g2.snake == g.snake,
        play_steering(keys) == Some(d) && g.pending_turns@.len() == 0 && d != opposite_of(g.snake.direction)
            ==> g2.pending_turns@ == seq![d] && dir_after_turn(g2) == d,
{
    if play_steering(keys) == Some(d) {
        if g.pending_turns@.len() == 0 && d != opposite_of(g.snake.direction) {
            assert(g2.pending_turns@ == Seq::<Direction>::empty().push(d));
            assert(g2.pending_turns@[0] == d);
        }
    }
}

// ---------------------------------------------------------------------------
// The board
// ---------------------------------------------------------------------------

/// In Wrap mode the head always lands on the board; in the other modes it
/// lands exactly where the step leads when that is on the board, and hits a
/// wall otherwise.
pub proof fn law_resolve_on_board(coords: (i32, i32), mode: GameMode, w: u16, h: u16)
    requires
        mode == GameMode::Wrap ==> w > 0 && h > 0,
    ensures
        resolve_spec(coords, mode, w, h) matches Some(c) ==> c.0 < w && c.1 < h,
        mode == GameMode::Wrap ==> resolve_spec(coords, mode, w, h) is Some,
        mode != GameMode::Wrap ==> (resolve_spec(coords, mode, w, h) is Some <==> (0 <= coords.0 < w && 0
            <= coords.1 < h)),
{
}

proof fn lemma_free_cells_upto(body: Seq<(u16, u16)>, w: u16, k: nat)
    requires
        w > 0,
    ensures
        forall|c: (u16, u16)| #[trigger]
            free_cells_upto(body, w, k).contains(c) ==> !body.contains(c) && exists|i: nat|
                i < k && c == #[trigger] cell_at(w, i),
        forall|i: nat| i < k && !body.contains(#[trigger] cell_at(w, i)) ==> free_cells_upto(
            body,
            w,
            k,
        ).contains(cell_at(w, i)),
    decreases k,
{
    if k > 0 {
        lemma_free_cells_upto(body, w, (k - 1) as nat);
        let prev = free_cells_upto(body, w, (k - 1) as nat);
        let c = cell_at(w, (k - 1) as nat);
        let cur = free_cells_upto(body, w, k);
        assert forall|x: (u16, u16)| #[trigger] cur.contains(x) implies !body.contains(x) && exists|i: nat|
            i < k && x == #[trigger] cell_at(w, i) by {
            if !body.contains(c) {
                assert(cur == prev.push(c));
                if x != c {
                    let j = choose|j: int| 0 <= j < cur.len() && cur[j] == x;
                    assert(prev[j] == x);
                    assert(prev.contains(x));
                } else {
                    assert(x == cell_at(w, (k - 1) as nat));
                }
            } else {
                assert(cur == prev);
            }
        }
        assert forall|i: nat| i < k && !body.contains(#[trigger] cell_at(w, i)) implies cur.contains(
            cell_at(w, i),
        ) by {
            if i < k - 1 {
                assert(prev.contains(cell_at(w, i)));
                if !body.contains(c) {
                    let j = choose|j: int| 0 <= j < prev.len() && prev[j] == cell_at(w, i);
                    assert(cur[j] == cell_at(w, i));
                }
            } else {
                assert(cur == prev.push(c));
                assert(cur[cur.len() - 1] == c);
            }
        }
    }
}

/// The cell at column `x` and row `y` comes at index `y * w + x`.
proof fn lemma_cell_index(w: u16, h: u16, x: u16, y: u16)
    requires
        x < w,
        y < h,
    ensures
        ((y * w + x) as nat) < (w * h) as nat,
        cell_at(w, (y * w + x) as nat) == (x, y),
{
    vstd::arithmetic::div_mod::lemma_fundamental_div_mod_converse((y * w + x) as int, w as int, y as int, x as int);
    assert((y * w + x) < w * h) by (nonlinear_arith)
        requires
            x < w,
            y < h,
    ;
}

/// A cell counted below `w * h` lies on the board.
proof fn lemma_cell_on_board(w: u16, h: u16, i: nat)
    requires
        w > 0,
        i < w * h,
    ensures
        cell_at(w, i).0 < w,
        cell_at(w, i).1 < h,
{
    assert(i / (w as nat) < h) by (nonlinear_arith)
        requires
            w > 0,
            i < w * h,
    {
        vstd::arithmetic::div_mod::lemma_div_is_ordered(i as int, (w * h) as int - 1, w as int);
        vstd::arithmetic::div_mod::lemma_div_multiples_vanish(h as int, w as int);
    }
}

/// A free cell is on the board and off the body; a board cell off the body is free.
pub proof fn law_free_cells(body: Seq<(u16, u16)>, w: u16, h: u16)
    ensures
        forall|c: (u16, u16)| #[trigger]
            free_cells(body, w, h).contains(c) ==> c.0 < w && c.1 < h && !body.contains(c),
        forall|x: u16, y: u16|
            x < w && y < h && !body.contains((x, y)) ==> #[trigger] free_cells(body, w, h).contains((x, y)),
{
    if w > 0 {
        lemma_free_cells_upto(body, w, (w * h) as nat);
        assert forall|c: (u16, u16)| #[trigger] free_cells(body, w, h).contains(c) implies c.0 < w && c.1 < h
            && !body.contains(c) by {
            let i = choose|i: nat| i < (w * h) as nat && c == #[trigger] cell_at(w, i);
            lemma_cell_on_board(w, h, i);
        }
        assert forall|x: u16, y: u16| x < w && y < h && !body.contains((x, y)) implies #[trigger] free_cells(
            body,
            w,
            h,
        ).contains((x, y)) by {
            lemma_cell_index(w, h, x, y);
        }
    } else {
        assert((w * h) as nat == 0);
        assert(free_cells_upto(body, w, 0) == Seq::<(u16, u16)>::empty());
    }
}

/// Respawned food lies on the board, clear of the snake, unless the board was full.
pub proof fn law_respawn_clear_of_snake(
    before: crate::game::Food,
    after: crate::game::Food,
    body: Seq<(u16, u16)>,
    config: crate::game::GameConfig,
)
    requires
        respawned(before, after, body, config),
        free_cells(body, config.board_width, config.board_height).len() > 0,
    ensures
        after.position.0 < config.board_width,
        after.position.1 < config.board_height,
        !body.contains(after.position),
{
    law_free_cells(body, config.board_width, config.board_height);
}

/// Food never lies under the snake, except under its head once the game is won.
pub proof fn law_food_stays_clear(g: Game, g2: Game, r: UpdateResult)
    requires
        update_step(g, g2, r),
        g.snake.body.len() > 0,
        !g.snake.body@.contains(g.food.position),
        r != UpdateResult::Won,
    ensures
        !g2.snake.body@.contains(g2.food.position),
{
    reveal(update_step);
    if r == UpdateResult::Ate {
        law_food_clear_after_eating(g, g2, r);
    } else if target_of(g) is Some {
        let nh = target_of(g)->0;
        let b = g.snake.body@;
        let b2 = g2.snake.body@;
        if nh == g.food.position {
            assert(b2 == seq![nh] + b);
            assert(b2[0] == nh);
            assert(hits_itself(b2) ==> exists|i: int| 1 <= i < b2.len() && #[trigger] b2[i] == nh);
            if hits_itself(b2) {
                let i = choose|i: int| 1 <= i < b2.len() && #[trigger] b2[i] == b2[0];
                assert(b[i - 1] == nh);
                assert(b.contains(nh));
            }
        } else {
            assert(b2 == (seq![nh] + b).drop_last());
            if b2.contains(g2.food.position) {
                let i = choose|i: int| 0 <= i < b2.len() && b2[i] == g2.food.position;
                if i > 0 {
                    assert(b[i - 1] == g.food.position);
                }
            }
        }
    }
}

/// The game is won exactly when the snake, grown by its last meal, covers
/// every cell of the board.
pub proof fn law_won_means_board_full(g: Game, g2: Game, r: UpdateResult)
    requires
        update_step(g, g2, r),
        r == UpdateResult::Won,
    ensures
        forall|x: u16, y: u16|
            x < g.config.board_width && y < g.config.board_height ==> #[trigger] g2.snake.body@.contains((x, y)),
{
    reveal(update_step);
    let w = g.config.board_width;
    let h = g.config.board_height;
    law_free_cells(g2.snake.body@, w, h);
    assert forall|x: u16, y: u16| x < w && y < h implies #[trigger] g2.snake.body@.contains((x, y)) by {
        if !g2.snake.body@.contains((x, y)) {
            assert(free_cells(g2.snake.body@, w, h).contains((x, y)));
        }
    }
}

// ---------------------------------------------------------------------------
// One tick
// ---------------------------------------------------------------------------

/// A tick moves the snake by one cell: it grows by one exactly when it eats
/// (or wins), keeps its length when it just moves, and stays put at a wall.
pub proof fn law_update_length(g: Game, g2: Game, r: UpdateResult)
    requires
        update_step(g, g2, r),
        g.snake.body.len() > 0,
    ensures
        r == UpdateResult::Moved ==> g2.snake.body@.len() == g.snake.body@.len(),
        (r == UpdateResult::Ate || r == UpdateResult::Won) ==> g2.snake.body@.len() == g.snake.body@.len() + 1,
        r == UpdateResult::Died(crate::game::DeathCause::Wall) ==> g2.snake.body@ == g.snake.body@,
        r != UpdateResult::Died(crate::game::DeathCause::Wall) ==> g2.snake.body@[0] == target_of(g)->0,
{
    reveal(update_step);
}

/// Every cell of the body lies on the board.
pub open spec fn on_board(body: Seq<(u16, u16)>, w: u16, h: u16) -> bool {
    forall|i: int| 0 <= i < body.len() ==> (#[trigger] body[i]).0 < w && body[i].1 < h
}

/// A snake on the board stays on the board.
pub proof fn law_body_stays_on_board(g: Game, g2: Game, r: UpdateResult)
    requires
        update_step(g, g2, r),
        g.snake.body.len() > 0,
        g.mode == GameMode::Wrap ==> g.config.board_width > 0 && g.config.board_height > 0,
        on_board(g.snake.body@, g.config.board_width, g.config.board_height),
    ensures
        on_board(g2.snake.body@, g.config.board_width, g.config.board_height),
{
    reveal(update_step);
    let w = g.config.board_width;
    let h = g.config.board_height;
    let b = g.snake.body@;
    let b2 = g2.snake.body@;
    if target_of(g) is Some {
        let nh = target_of(g)->0;
        law_resolve_on_board(
            crate::game::step_coords(b[0], dir_after_turn(g)),
            g.mode,
            w,
            h,
        );
        assert forall|i: int| 0 <= i < b2.len() implies (#[trigger] b2[i]).0 < w && b2[i].1 < h by {
            if i > 0 {
                assert(b2[i] == b[i - 1]);
            }
        }
    }
}

/// The score never goes down.
pub proof fn law_score_never_decreases(g: Game, g2: Game, r: UpdateResult)
    requires
        update_step(g, g2, r),
    ensures
        g2.score >= g.score,
        (r == UpdateResult::Moved || r is Died) ==> g2.score == g.score,
{
    reveal(update_step);
}

/// The current streak never exceeds the best streak of the run.
pub proof fn law_streak_within_max(g: Game, g2: Game, r: UpdateResult)
    requires
        update_step(g, g2, r),
        g.stats.current_streak <= g.stats.max_streak,
    ensures
        g2.stats.current_streak <= g2.stats.max_streak,
{
    reveal(update_step);
}

/// The run's best streak never drops, and after a tick that eats it is at
/// least the streak that the meal reached.
pub proof fn law_best_streak_kept(g: Game, g2: Game, r: UpdateResult)
    requires
        update_step(g, g2, r),
    ensures
        g2.stats.max_streak >= g.stats.max_streak,
        (r == UpdateResult::Ate || r == UpdateResult::Won) ==> g2.stats.max_streak >= g2.stats.current_streak,
{
    reveal(update_step);
}

/// Eating raises the food count by one; every tick counts one more tick survived.
pub proof fn law_update_counts(g: Game, g2: Game, r: UpdateResult)
    requires
        update_step(g, g2, r),
        g.stats.ticks_survived < u64::MAX,
        g.stats.food_eaten < u16::MAX,
    ensures
        g2.stats.ticks_survived == g.stats.ticks_survived + 1,
        (r == UpdateResult::Ate || r == UpdateResult::Won) ==> g2.stats.food_eaten == g.stats.food_eaten + 1,
        (r == UpdateResult::Moved || r is Died) ==> g2.stats.food_eaten == g.stats.food_eaten,
{
    reveal(update_step);
}

/// Food that a tick respawns lies on the board, clear of the snake.
pub proof fn law_food_clear_after_eating(g: Game, g2: Game, r: UpdateResult)
    requires
        update_step(g, g2, r),
        r == UpdateResult::Ate,
    ensures
        g2.food.position.0 < g.config.board_width,
        g2.food.position.1 < g.config.board_height,
        !g2.snake.body@.contains(g2.food.position),
{
    reveal(update_step);
    law_respawn_clear_of_snake(g.food, g2.food, body_after(g), g.config);
}

// ---------------------------------------------------------------------------
// Speed
// ---------------------------------------------------------------------------

/// Without a fixed rate or a boost, the tick rate never drops below the
/// minimum and never rises as the score grows.
pub proof fn law_tick_rate_speeds_up(g1: Game, g2: Game)
    requires
        g1.config == g2.config,
        g1.config.fixed_tick_rate is None,
        g1.speed_boost_ticks_remaining == 0,
        g2.speed_boost_ticks_remaining == 0,
        tick_rate_defined(g1),
        tick_rate_defined(g2),
        g1.score <= g2.score,
    ensures
        tick_rate_of(g2) <= tick_rate_of(g1),
        tick_rate_of(g1) >= g1.config.min_tick_ms,
        tick_rate_of(g1) <= if g1.config.base_tick_ms >= g1.config.min_tick_ms {
            g1.config.base_tick_ms
        } else {
            g1.config.min_tick_ms
        },
{
    let i = g1.config.speed_ramp_interval as int;
    let d = g1.config.tick_ms_decrease as int;
    let s1 = g1.score as int / i;
    let s2 = g2.score as int / i;
    vstd::arithmetic::div_mod::lemma_div_is_ordered(g1.score as int, g2.score as int, i);
    assert(s1 * d <= s2 * d) by (nonlinear_arith)
        requires
            s1 <= s2,
            d >= 0,
    ;
}

/// A speed boost runs out: a tick that does not eat speed-boost food lowers
/// a running boost by exactly one tick and leaves a finished one finished,
/// while eating speed-boost food starts a boost of
/// `SPEED_BOOST_DURATION_TICKS` ticks.  So a boost never outlasts that many
/// ticks without another such meal.
pub proof fn law_boost_runs_out(g: Game, g2: Game, r: UpdateResult)
    requires
        update_step(g, g2, r),
    ensures
        ({
            let boost_meal = (r == UpdateResult::Ate || r == UpdateResult::Won) && g.food.kind == FoodKind::SpeedBoost;
            &&& !boost_meal && g.speed_boost_ticks_remaining > 0 ==> g2.speed_boost_ticks_remaining
                == g.speed_boost_ticks_remaining - 1
            &&& !boost_meal && g.speed_boost_ticks_remaining == 0 ==> g2.speed_boost_ticks_remaining == 0
            &&& boost_meal ==> g2.speed_boost_ticks_remaining == SPEED_BOOST_DURATION_TICKS
            &&& g.speed_boost_ticks_remaining <= SPEED_BOOST_DURATION_TICKS ==> g2.speed_boost_ticks_remaining
                <= SPEED_BOOST_DURATION_TICKS
        }),
{
    reveal(update_step);
}

/// Once a boost has run out the speed is the score's again: with no fixed
/// rate and no boost, the tick rate is the base rate less the score's
/// steps, but never under the minimum, and never the boost's rate unless
/// that is what this gives.
pub proof fn law_rate_without_boost(g: Game)
    requires
        g.config.fixed_tick_rate is None,
        g.speed_boost_ticks_remaining == 0,
        tick_rate_defined(g),
    ensures
        tick_rate_of(g) == if g.config.base_tick_ms >= (g.score / g.config.speed_ramp_interval)
            * g.config.tick_ms_decrease + g.config.min_tick_ms {
            (g.config.base_tick_ms - (g.score / g.config.speed_ramp_interval) * g.config.tick_ms_decrease) as u64
        } else {
            g.config.min_tick_ms
        },
{
}

/// A fixed tick rate, as in the daily challenge, holds whatever the score or boost.
pub proof fn law_fixed_rate(g: Game)
    requires
        g.config.fixed_tick_rate is Some,
    ensures
        tick_rate_of(g) == g.config.fixed_tick_rate->0,
{
}

// ---------------------------------------------------------------------------
// The leaderboard
// ---------------------------------------------------------------------------

/// Scores never rise along the list.
pub open spec fn sorted_desc(es: Seq<(u16, Seq<char>)>) -> bool {
    forall|i: int, j: int| 0 <= i < j < es.len() ==> #[trigger] es[i].0 >= #[trigger] es[j].0
}

proof fn lemma_insert_keeps(es: Seq<(u16, Seq<char>)>, e: (u16, Seq<char>))
    ensures
        insert_by_score(es, e).to_multiset() == es.to_multiset().insert(e),
        insert_by_score(es, e).len() == es.len() + 1,
        sorted_desc(es) ==> sorted_desc(insert_by_score(es, e)),
    decreases es.len(),
{
    broadcast use vstd::seq_lib::group_to_multiset_ensures, vstd::multiset::group_multiset_axioms;

    let r = insert_by_score(es, e);
    if es.len() == 0 {
        assert(r == Seq::<(u16, Seq<char>)>::empty().push(e));
    } else if es[0].0 >= e.0 {
        let t = es.drop_first();
        lemma_insert_keeps(t, e);
        let rt = insert_by_score(t, e);
        vstd::seq_lib::lemma_multiset_commutative(seq![es[0]], rt);
        vstd::seq_lib::lemma_multiset_commutative(seq![es[0]], t);
        assert(seq![es[0]] + t == es);
        assert(seq![es[0]].to_multiset() == Seq::<(u16, Seq<char>)>::empty().push(es[0]).to_multiset());
        assert(r.to_multiset() =~= es.to_multiset().insert(e));
        if sorted_desc(es) {
            assert(sorted_desc(t)) by {
                assert forall|i: int, j: int| 0 <= i < j < t.len() implies #[trigger] t[i].0 >= #[trigger] t[j].0 by {
                    assert(t[i] == es[i + 1] && t[j] == es[j + 1]);
                }
            }
            assert forall|i: int, j: int| 0 <= i < j < r.len() implies #[trigger] r[i].0 >= #[trigger] r[j].0 by {
                if i == 0 {
                    assert(rt.to_multiset().contains(r[j]));
                    assert(r[j] == rt[j - 1]);
                    assert(rt.to_multiset().count(rt[j - 1]) > 0);
                    if r[j] != e {
                        assert(t.to_multiset().contains(r[j]));
                        assert(t.contains(r[j]));
                        let k = choose|k: int| 0 <= k < t.len() && t[k] == r[j];
                        assert(es[k + 1] == r[j]);
                    }
                } else {
                    assert(r[i] == rt[i - 1] && r[j] == rt[j - 1]);
                }
            }
        }
    } else {
        vstd::seq_lib::lemma_multiset_commutative(seq![e], es);
        assert(seq![e].to_multiset() == Seq::<(u16, Seq<char>)>::empty().push(e).to_multiset());
        assert(r.to_multiset() =~= es.to_multiset().insert(e));
        if sorted_desc(es) {
            assert forall|i: int, j: int| 0 <= i < j < r.len() implies #[trigger] r[i].0 >= #[trigger] r[j].0 by {
                if i == 0 {
                    assert(r[j] == es[j - 1]);
                    assert(es[0].0 >= es[j - 1].0);
                } else {
                    assert(r[i] == es[i - 1] && r[j] == es[j - 1]);
                }
            }
        }
    }
}

/// Sorting by score orders the entries by descending score and keeps every entry.
pub proof fn law_sort_orders_and_keeps(es: Seq<(u16, Seq<char>)>)
    ensures
        sorted_desc(sorted_by_score(es)),
        sorted_by_score(es).to_multiset() == es.to_multiset(),
        sorted_by_score(es).len() == es.len(),
    decreases es.len(),
{
    broadcast use vstd::seq_lib::group_to_multiset_ensures;

    if es.len() > 0 {
        law_sort_orders_and_keeps(es.drop_last());
        lemma_insert_keeps(sorted_by_score(es.drop_last()), es.last());
        assert(es.drop_last().push(es.last()) == es);
    }
}

/// After a positive score is added the board is sorted by descending score,
/// holds at most `MAX_ENTRIES` entries, and loses an entry only where the
/// board overflows.
pub proof fn law_board_after_add(es: Seq<(u16, Seq<char>)>, score: u16, name: Seq<char>)
    ensures
        sorted_desc(board_after_add(es, score, name)),
        board_after_add(es, score, name).len() == if es.len() + 1 > MAX_ENTRIES {
            MAX_ENTRIES as int
        } else {
            es.len() + 1 as int
        },
        es.len() + 1 <= MAX_ENTRIES ==> board_after_add(es, score, name).to_multiset() == es.to_multiset().insert(
            (score, sanitized(name)),
        ),
{
    broadcast use vstd::seq_lib::group_to_multiset_ensures;

    let w = es.push((score, sanitized(name)));
    law_sort_orders_and_keeps(w);
    let s = sorted_by_score(w);
    let b = board_after_add(es, score, name);
    assert forall|i: int, j: int| 0 <= i < j < b.len() implies #[trigger] b[i].0 >= #[trigger] b[j].0 by {
        assert(b[i] == s[i] && b[j] == s[j]);
    }
}

/// A positive score that beats every score on the board takes first place;
/// one that does not (a tie included) leaves first place to the entry that
/// held it.
pub proof fn law_new_first_place(es: Seq<(u16, Seq<char>)>, score: u16, name: Seq<char>)
    requires
        score > 0,
    ensures
        beats_all(es, score) ==> board_after_add(es, score, name)[0] == (score, sanitized(name)),
        !beats_all(es, score) ==> board_after_add(es, score, name)[0] == sorted_by_score(es)[0]
            && sorted_by_score(es)[0].0 >= score,
{
    broadcast use vstd::seq_lib::group_to_multiset_ensures;

    let e = (score, sanitized(name));
    let w = es.push(e);
    let se = sorted_by_score(es);
    law_sort_orders_and_keeps(es);
    law_sort_orders_and_keeps(w);
    assert(w.drop_last() == es);
    assert(sorted_by_score(w) == insert_by_score(se, e));
    if beats_all(es, score) {
        if se.len() > 0 {
            assert(se.to_multiset().count(se[0]) > 0);
            assert(es.contains(se[0]));
            let i = choose|i: int| 0 <= i < es.len() && es[i] == se[0];
            assert(es[i].0 < score);
        }
        assert(insert_by_score(se, e)[0] == e);
    } else {
        let j = choose|j: int| 0 <= j < es.len() && !(#[trigger] es[j].0 < score);
        assert(es.to_multiset().count(es[j]) > 0);
        assert(se.contains(es[j]));
        let k = choose|k: int| 0 <= k < se.len() && se[k] == es[j];
        if k > 0 {
            assert(se[0].0 >= se[k].0);
        }
        assert(insert_by_score(se, e)[0] == se[0]);
    }
}

// ---------------------------------------------------------------------------
// The leaderboard's text format
// ---------------------------------------------------------------------------

/// A name that the text format carries unchanged: no line feed in it and no
/// whitespace at either end.
pub open spec fn storable_name(n: Seq<char>) -> bool {
    &&& !n.contains('\n')
    &&& n.len() > 0 ==> !is_ws(n[0]) && !is_ws(n.last())
}

proof fn lemma_serialized_front(es: Seq<(u16, Seq<char>)>)
    requires
        es.len() >= 2,
    ensures
        serialized(es) == entry_line(es[0]) + seq!['\n'] + serialized(es.drop_first()),
    decreases es.len(),
{
    let dl = es.drop_last();
    let t = es.drop_first();
    assert(serialized(es) == serialized(dl) + seq!['\n'] + entry_line(es.last()));
    if es.len() == 2 {
        assert(dl.len() == 1 && dl[0] == es[0]);
        assert(t.len() == 1 && t[0] == es[1]);
        assert(serialized(dl) == entry_line(es[0]));
        assert(serialized(t) == entry_line(es[1]));
    } else {
        lemma_serialized_front(dl);
        assert(t.drop_last() == dl.drop_first());
        assert(t.last() == es.last());
        assert(dl[0] == es[0]);
        assert(serialized(t) == serialized(t.drop_last()) + seq!['\n'] + entry_line(t.last()));
        assert(serialized(es) =~= entry_line(es[0]) + seq!['\n'] + serialized(t));
    }
}

proof fn lemma_find_shift(p: Seq<char>, b: Seq<char>, c: char, k: int)
    requires
        0 <= k <= b.len(),
    ensures
        find_from(p + b, c, p.len() + k) == p.len() + find_from(b, c, k),
    decreases b.len() - k,
{
    if k < b.len() {
        assert((p + b)[p.len() + k] == b[k]);
        if b[k] != c {
            lemma_find_shift(p, b, c, k + 1);
        }
    }
}

proof fn lemma_lines_shift(p: Seq<char>, b: Seq<char>, k: int)
    requires
        0 <= k <= b.len(),
    ensures
        lines_from(p + b, p.len() + k) == lines_from(b, k),
    decreases b.len() - k,
{
    let s = p + b;
    if k < b.len() {
        lemma_find_shift(p, b, '\n', k);
        lemma_find_from_bounds(b, '\n', k);
        let e = find_from(b, '\n', k);
        assert(line_at(s, p.len() + k, p.len() + e) == line_at(b, k, e)) by {
            if e < b.len() && e > k {
                assert(s[p.len() + e - 1] == b[e - 1]);
            }
            assert(s.subrange(p.len() + k, p.len() + e) == b.subrange(k, e));
            if e > k {
                assert(s.subrange(p.len() + k, p.len() + e - 1) == b.subrange(k, e - 1));
            }
        }
        if e < b.len() {
            lemma_lines_shift(p, b, e + 1);
        }
    }
}

/// A line with no line feed, followed by a line feed and more text, is the
/// first line of that text.
proof fn lemma_lines_cons(line: Seq<char>, rest: Seq<char>)
    requires
        !line.contains('\n'),
        line.len() > 0,
        line.last() != '\r',
    ensures
        lines_of(line + seq!['\n'] + rest) == seq![line] + lines_of(rest),
{
    let p = line + seq!['\n'];
    let s = p + rest;
    assert(s == line + seq!['\n'] + rest);
    assert forall|k: int| 0 <= k < line.len() implies s[k] != '\n' by {
        assert(s[k] == line[k]);
        if s[k] == '\n' {
            assert(line.contains('\n'));
        }
    }
    lemma_find_upto(s, '\n', 0, line.len() as int);
    assert(s[line.len() as int] == '\n');
    assert(find_from(s, '\n', line.len() as int) == line.len());
    assert(line_at(s, 0, line.len() as int) == line) by {
        assert(s[line.len() - 1] == line.last());
        assert(s.subrange(0, line.len() as int) == line);
    }
    lemma_lines_shift(p, rest, 0);
    assert(p.len() == line.len() + 1);
}

proof fn lemma_find_upto(s: Seq<char>, c: char, i: int, j: int)
    requires
        0 <= i <= j <= s.len(),
        forall|k: int| i <= k < j ==> s[k] != c,
    ensures
        find_from(s, c, i) == find_from(s, c, j),
    decreases j - i,
{
    if i < j {
        lemma_find_upto(s, c, i + 1, j);
    }
}

/// A single line with no line feed is read back as that one line.
proof fn lemma_lines_single(line: Seq<char>)
    requires
        !line.contains('\n'),
        line.len() > 0,
    ensures
        lines_of(line) == seq![line],
{
    assert forall|k: int| 0 <= k < line.len() implies line[k] != '\n' by {
        if line[k] == '\n' {
            assert(line.contains('\n'));
        }
    }
    lemma_find_upto(line, '\n', 0, line.len() as int);
    assert(line.subrange(0, line.len() as int) == line);
}

proof fn lemma_entry_line(e: (u16, Seq<char>))
    requires
        storable_name(e.1),
    ensures
        parse_line(entry_line(e)) == Some(e),
        !entry_line(e).contains('\n'),
        entry_line(e).len() > 0,
        entry_line(e).last() != '\r',
{
    let d = decimal(e.0 as nat);
    lemma_decimal_digits(e.0 as nat);
    let l = entry_line(e);
    assert(l == d + seq!['|'] + e.1);
    assert forall|k: int| 0 <= k < d.len() implies l[k] != '|' by {
        assert(l[k] == d[k]);
        assert(is_digit(d[k]));
    }
    lemma_find_upto(l, '|', 0, d.len() as int);
    assert(l[d.len() as int] == '|');
    assert(l.subrange(0, d.len() as int) == d);
    assert(l.subrange(d.len() as int + 1, l.len() as int) == e.1);
    assert(trimmed(d) == d) by {
        assert(!is_ws(d[0]) && !is_ws(d.last())) by {
            assert(is_digit(d[0]));
            assert(is_digit(d[d.len() - 1]));
        }
        lemma_trimmed_of_trimmed(d);
    }
    lemma_trimmed_of_trimmed(e.1);
    assert(d.drop_first().len() == d.len() - 1);
    assert(parse_u16_spec(d) == Some(e.0));
    assert forall|k: int| 0 <= k < l.len() implies l[k] != '\n' by {
        if k < d.len() {
            assert(l[k] == d[k]);
            assert(is_digit(d[k]));
        } else if k > d.len() {
            assert(l[k] == e.1[k - d.len() - 1]);
            assert(e.1.contains(e.1[k - d.len() - 1]));
        }
    }
    if e.1.len() > 0 {
        assert(l.last() == e.1.last());
    } else {
        assert(l.last() == '|');
    }
}

/// Saving entries and reading the text back gives the same entries, for
/// names that the format can carry.
pub proof fn law_text_roundtrip(es: Seq<(u16, Seq<char>)>)
    requires
        forall|i: int| 0 <= i < es.len() ==> storable_name(#[trigger] es[i].1),
    ensures
        parsed_entries(serialized(es)) == es,
    decreases es.len(),
{
    if es.len() == 0 {
        assert(serialized(es) == Seq::<char>::empty());
        assert(lines_from(serialized(es), 0) == Seq::<Seq<char>>::empty());
        assert(parse_lines(Seq::<Seq<char>>::empty()) == Seq::<(u16, Seq<char>)>::empty());
    } else if es.len() == 1 {
        lemma_entry_line(es[0]);
        lemma_lines_single(entry_line(es[0]));
        assert(serialized(es) == entry_line(es[0]));
        assert(seq![entry_line(es[0])].drop_first() == Seq::<Seq<char>>::empty());
        assert(parse_lines(Seq::<Seq<char>>::empty()) == Seq::<(u16, Seq<char>)>::empty());
        assert(parse_lines(seq![entry_line(es[0])]) == seq![es[0]] + Seq::<(u16, Seq<char>)>::empty());
        assert(seq![es[0]] == es);
    } else {
        let t = es.drop_first();
        assert forall|i: int| 0 <= i < t.len() implies storable_name(#[trigger] t[i].1) by {
            assert(t[i] == es[i + 1]);
        }
        law_text_roundtrip(t);
        lemma_serialized_front(es);
        lemma_entry_line(es[0]);
        lemma_lines_cons(entry_line(es[0]), serialized(t));
        let ls = seq![entry_line(es[0])] + lines_of(serialized(t));
        assert(ls.drop_first() == lines_of(serialized(t)));
        assert(ls[0] == entry_line(es[0]));
        assert(seq![es[0]] + t == es);
    }
}

/// A board saved as text and loaded again (which also migrates legacy
/// names) holds the same entries, where the names are storable and none
/// looks like a legacy day number.
pub proof fn law_board_reload(es: Seq<(u16, Seq<char>)>)
    requires
        forall|i: int| 0 <= i < es.len() ==> storable_name(#[trigger] es[i].1),
        !needs_migration(es),
    ensures
        migrated(parsed_entries(serialized(es))) == es,
{
    law_text_roundtrip(es);
    assert forall|i: int| 0 <= i < es.len() implies #[trigger] migrated(es)[i] == es[i] by {
        assert(!(normalized_legacy(es[i].1) != es[i].1));
    }
    assert(migrated(es) =~= es);
}

// ---------------------------------------------------------------------------
// Names
// ---------------------------------------------------------------------------

/// Normalizing a legacy name twice changes nothing more.
pub proof fn law_normalize_idempotent(name: Seq<char>)
    ensures
        normalized_legacy(normalized_legacy(name)) == normalized_legacy(name),
{
    let t = trimmed(name);
    lemma_trimmed_shape(name);
    lemma_trimmed_of_trimmed(t);
    let p = player_word();
    assert(!is_ws(p[0]) && !is_ws(p.last()));
    lemma_trimmed_of_trimmed(p);
    assert(!is_digit(p[0]));
}

/// Migrating entries twice changes nothing more, and a migrated board needs no migration.
pub proof fn law_migration_idempotent(es: Seq<(u16, Seq<char>)>)
    ensures
        migrated(migrated(es)) == migrated(es),
        !needs_migration(migrated(es)),
{
    let m = migrated(es);
    assert forall|i: int| 0 <= i < m.len() implies normalized_legacy(#[trigger] m[i].1) == m[i].1 by {
        law_normalize_idempotent(es[i].1);
    }
    assert(migrated(m) =~= m);
}

/// A sanitized name holds between one and `MAX_NAME_LEN` characters, each a
/// name character.
pub proof fn law_sanitized_shape(name: Seq<char>)
    ensures
        1 <= sanitized(name).len() <= MAX_NAME_LEN,
        forall|i: int| 0 <= i < sanitized(name).len() ==> name_char(#[trigger] sanitized(name)[i]),
{
    let t = trimmed(name);
    lemma_name_chars(t, t.len() as int);
}

proof fn lemma_name_chars(t: Seq<char>, i: int)
    ensures
        forall|k: int| 0 <= k < name_chars_upto(t, i).len() ==> name_char(#[trigger] name_chars_upto(t, i)[k]),
    decreases i,
{
    if 0 < i <= t.len() {
        lemma_name_chars(t, i - 1);
        let p = name_chars_upto(t, i - 1);
        if name_char(t[i - 1]) {
            assert forall|k: int| 0 <= k < p.push(t[i - 1]).len() implies name_char(#[trigger] p.push(t[i - 1])[k]) by {
                if k < p.len() {
                    assert(p.push(t[i - 1])[k] == p[k]);
                }
            }
        }
    }
}

/// Reading back the settings text written for a sound setting gives that
/// setting.
pub proof fn law_sound_setting_read_back(enabled: bool)
    ensures
        sound_enabled_spec(Some(sound_text(enabled))) == enabled,
{
    let t = sound_text(enabled);
    let v: Seq<char> = if enabled {
        seq!['o', 'n']
    } else {
        seq!['o', 'f', 'f']
    };
    let n = t.len() - 1;
    assert(t.len() == 7 + v.len());
    assert(t[n] == '\n');
    lemma_find_from_bounds(t, '\n', 0);
    assert forall|k: int| 0 <= k < n implies #[trigger] t[k] != '\n' by {
        if k >= 6 {
            assert(t[k] == v[k - 6]);
        }
    }
    assert(find_from(t, '\n', 0) == n);
    let line = t.subrange(0, n);
    assert(t[n - 1] != '\r') by {
        assert(t[n - 1] == v.last());
    }
    assert(line_at(t, 0, n) == line);
    assert(lines_from(t, n + 1) == Seq::<Seq<char>>::empty());
    assert(lines_of(t) == seq![line]);
    lemma_find_from_bounds(line, '=', 0);
    assert(line[5] == '=');
    assert forall|k: int| 0 <= k < 5 implies #[trigger] line[k] != '=' by {
        assert(line[k] == sound_word()[k]);
    }
    assert(find_from(line, '=', 0) == 5);
    let key = line.subrange(0, 5);
    let value = line.subrange(6, line.len() as int);
    assert(key == sound_word());
    assert(value == v);
    lemma_trimmed_of_trimmed(key);
    lemma_trimmed_of_trimmed(value);
    assert(sound_line(line) == Some(enabled));
    assert(seq![line].drop_first() == Seq::<Seq<char>>::empty());
    assert(first_sound_setting(seq![line]) == Some(enabled));
}

// ---------------------------------------------------------------------------
// Sessions
// ---------------------------------------------------------------------------

/// A session can advance by `dt_us` exactly where its ticks do not stall:
/// the precondition of `advance_session_ticks` holds if and only if no run
/// of the ticks due reaches a game that `update` cannot take, and the tick
/// rate can be worked out and is positive.
pub proof fn law_advance_unless_stalled(s: RunSession, dt_us: u64)
    ensures
        can_advance(s, dt_us) <==> !stalls(s, dt_us),
{
    let g = s.game;
    let n = ticks_due(s, dt_us);
    if ticks_safe(g, n) {
        assert forall|trace: Seq<Game>, results: Seq<UpdateResult>| !#[trigger] stops_at(g, n, trace, results) by {
            if stops_at(g, n, trace, results) {
                lemma_safe_along_trace(g, n, trace, results);
            }
        }
    } else {
        lemma_unsafe_has_stop(g, n);
    }
}

/// Along a run still going from a game whose next `n` ticks are safe, the
/// game reached after `k` ticks has its next `n - k` ticks safe.
proof fn lemma_safe_along_trace(g: Game, n: nat, trace: Seq<Game>, results: Seq<UpdateResult>)
    requires
        ticks_safe(g, n),
        valid_trace(trace, results),
        trace[0] == g,
        results.len() == 0 || !ends_run(results.last()),
        results.len() <= n,
    ensures
        ticks_safe(trace.last(), (n - results.len()) as nat),
    decreases results.len(),
{
    if results.len() > 0 {
        let k = results.len() - 1;
        let t1 = trace.drop_last();
        let r1 = results.drop_last();
        assert forall|i: int| 0 <= i < r1.len() implies update_step(#[trigger] t1[i], t1[i + 1], r1[i]) by {
            assert(t1[i] == trace[i] && t1[i + 1] == trace[i + 1] && r1[i] == results[i]);
        }
        assert forall|i: int| 0 <= i < r1.len() - 1 implies !ends_run(#[trigger] r1[i]) by {
            assert(r1[i] == results[i]);
        }
        if r1.len() > 0 {
            assert(r1.last() == results[k - 1]);
        }
        assert(valid_trace(t1, r1));
        lemma_safe_along_trace(g, n, t1, r1);
        let prev = t1.last();
        assert(prev == trace[k]);
        assert(update_step(trace[k], trace[k + 1], results[k]));
        assert(trace.last() == trace[k + 1]);
        assert(ticks_safe(prev, (n - k) as nat));
        assert((n - k) as nat > 0);
    }
}

/// Where the next `n` ticks are not all safe, some run still going reaches,
/// within them, a game that `update` cannot take.
proof fn lemma_unsafe_has_stop(g: Game, n: nat)
    requires
        !ticks_safe(g, n),
    ensures
        exists|trace: Seq<Game>, results: Seq<UpdateResult>| #[trigger] stops_at(g, n, trace, results),
    decreases n,
{
    if !can_update(g) {
        let trace = seq![g];
        let results = Seq::<UpdateResult>::empty();
        assert(valid_trace(trace, results));
        assert(stops_at(g, n, trace, results));
    } else {
        let (g2, r0) = choose|g2: Game, r0: UpdateResult|
            #[trigger] update_step(g, g2, r0) && !ends_run(r0) && !ticks_safe(g2, (n - 1) as nat);
        lemma_unsafe_has_stop(g2, (n - 1) as nat);
        let (t2, r2) = choose|t2: Seq<Game>, r2: Seq<UpdateResult>| #[trigger] stops_at(g2, (n - 1) as nat, t2, r2);
        let trace = seq![g] + t2;
        let results = seq![r0] + r2;
        assert forall|i: int| 0 <= i < results.len() implies update_step(
            #[trigger] trace[i],
            trace[i + 1],
            results[i],
        ) by {
            if i > 0 {
                assert(trace[i] == t2[i - 1] && trace[i + 1] == t2[i] && results[i] == r2[i - 1]);
            }
        }
        assert forall|i: int| 0 <= i < results.len() - 1 implies !ends_run(#[trigger] results[i]) by {
            if i > 0 {
                assert(results[i] == r2[i - 1]);
            }
        }
        assert(valid_trace(trace, results));
        assert(trace.last() == t2.last());
        if r2.len() > 0 {
            assert(results.last() == r2.last());
        }
        assert(stops_at(g, n, trace, results));
    }
}

} // verus!
