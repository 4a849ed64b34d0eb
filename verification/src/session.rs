//! A run in progress: the game, the body as it was before the latest tick
//! (for smooth drawing), and the time that has built up towards the next tick.
//! Time is counted in whole microseconds.
use crate::game::{
    can_update, daily_config, fresh_game, preset_config, tick_rate_defined, tick_rate_of, update_step,
    AteInfo, BoardPreset, DeathCause, Game, GameConfig, GameMode, UpdateResult,
};
use crate::persist::Leaderboards;
use vstd::prelude::*;

verus! {

pub struct RunSession {
    pub game: Game,
    /// The body before the latest tick.
    pub prev_body: Vec<(u16, u16)>,
    /// Time gathered towards the next tick, in microseconds.
    pub tick_elapsed_us: u64,
    pub previous_best: u16,
}

/// The player's choices and records between runs.
pub struct PlayerProfile {
    pub name: String,
    pub name_editing: bool,
    pub sound_enabled: bool,
    pub selected_mode: GameMode,
    pub selected_preset: BoardPreset,
    /// One leaderboard per game mode.
    pub leaderboards: Leaderboards,
}

impl PlayerProfile {
    /// A profile with an empty name being edited, Classic mode on the
    /// Classic board, and the saved sound setting and leaderboards.
    pub fn new(sound_enabled: bool, leaderboards: Leaderboards) -> (p: Self)
        ensures
            p.name@ == Seq::<char>::empty(),
            p.name_editing,
            p.sound_enabled == sound_enabled,
            p.selected_mode == GameMode::Classic,
            p.selected_preset == BoardPreset::Classic,
            p.leaderboards == leaderboards,
    {
        PlayerProfile {
            name: String::new(),
            name_editing: true,
            sound_enabled,
            selected_mode: GameMode::Classic,
            selected_preset: BoardPreset::Classic,
            leaderboards,
        }
    }
}

#[derive(Debug, Clone, PartialEq, Eq, Structural)]
pub enum GameTickEvent {
    Ate,
    LeveledUp,
    Died(DeathCause),
    Won,
}

pub struct TickOutcome {
    /// The last event of the ticks that ran, if any.
    pub result: Option<GameTickEvent>,
    /// Some tick that ran ate food.
    pub ate: bool,
}

/// The event a tick's result reports; `last_ate` is the game's record after the tick.
pub open spec fn event_of(r: UpdateResult, last_ate: Option<AteInfo>) -> Option<GameTickEvent> {
    match r {
        UpdateResult::Died(c) => Some(GameTickEvent::Died(c)),
        UpdateResult::Won => Some(GameTickEvent::Won),
        UpdateResult::Ate => if last_ate matches Some(a) && a.leveled_up {
            Some(GameTickEvent::LeveledUp)
        } else {
            Some(GameTickEvent::Ate)
        },
        UpdateResult::Moved => None,
    }
}

/// The last event among the first `n` ticks of a trace.
pub open spec fn last_event(trace: Seq<Game>, results: Seq<UpdateResult>, n: nat) -> Option<GameTickEvent>
    decreases n,
{
    if n == 0 {
        None
    } else {
        match event_of(results[n - 1], trace[n as int].last_ate) {
            Some(e) => Some(e),
            None => last_event(trace, results, (n - 1) as nat),
        }
    }
}

pub open spec fn ends_run(r: UpdateResult) -> bool {
    r is Died || r == UpdateResult::Won
}

/// `trace[i + 1]` is `trace[i]` after one `update` that returned `results[i]`,
/// and only the last tick may end the run.
pub open spec fn valid_trace(trace: Seq<Game>, results: Seq<UpdateResult>) -> bool {
    &&& trace.len() == results.len() + 1
    &&& forall|i: int| 0 <= i < results.len() ==> update_step(#[trigger] trace[i], trace[i + 1], results[i])
    &&& forall|i: int| 0 <= i < results.len() - 1 ==> !ends_run(#[trigger] results[i])
}

/// Milliseconds per tick, as microseconds.
pub open spec fn tick_us_of(g: Game) -> int {
    tick_rate_of(g) * 1000
}

/// The number of whole tick periods in the time gathered after adding `dt_us`.
pub open spec fn ticks_due(s: RunSession, dt_us: u64) -> nat {
    ((s.tick_elapsed_us.saturating_add(dt_us) as int) / tick_us_of(s.game)) as nat
}

/// Each of the next `k` ticks can run from `g`, whatever food the generator
/// draws on the way: every game that a run still going reaches within those
/// ticks satisfies `can_update`.
pub open spec fn ticks_safe(g: Game, k: nat) -> bool
    decreases k,
{
    k == 0 || (can_update(g) && forall|g2: Game, r: UpdateResult|
        #[trigger] update_step(g, g2, r) && !ends_run(r) ==> ticks_safe(g2, (k - 1) as nat))
}

/// What `advance_session_ticks` needs: a tick rate that can be worked out
/// and is positive, and ticks that can all run for as many tick periods as
/// the time allows (the counters they raise stay in range).
pub open spec fn can_advance(s: RunSession, dt_us: u64) -> bool {
    &&& tick_rate_defined(s.game)
    &&& tick_rate_of(s.game) >= 1
    &&& ticks_safe(s.game, ticks_due(s, dt_us))
}

/// A run still going reached, after `results.len()` of the `n` ticks due, a
/// game on which `update` cannot run.
pub open spec fn stops_at(g: Game, n: nat, trace: Seq<Game>, results: Seq<UpdateResult>) -> bool {
    &&& valid_trace(trace, results)
    &&& trace[0] == g
    &&& results.len() == 0 || !ends_run(results.last())
    &&& results.len() < n
    &&& !can_update(trace.last())
}

/// The ticks that the time allows cannot all run: the tick rate divides by
/// zero, overflows, or is zero, or some tick would start from a game that
/// `update` cannot take.
pub open spec fn stalls(s: RunSession, dt_us: u64) -> bool {
    ||| !tick_rate_defined(s.game)
    ||| tick_rate_of(s.game) == 0
    ||| exists|trace: Seq<Game>, results: Seq<UpdateResult>| #[trigger] stops_at(s.game, ticks_due(s, dt_us), trace, results)
}

/// Where the ticks stall, the session `s2` they leave: `s` unchanged where
/// the tick rate is unusable, else the game that the ticks ran to and on
/// which `update` cannot run.
pub open spec fn stalled_at(s: RunSession, s2: RunSession, dt_us: u64) -> bool {
    ||| (!tick_rate_defined(s.game) || tick_rate_of(s.game) == 0) && s2 == s
    ||| exists|trace: Seq<Game>, results: Seq<UpdateResult>|
        #[trigger] stops_at(s.game, ticks_due(s, dt_us), trace, results) && trace.last() == s2.game
}

/// Whether `tick_rate_ms` can be worked out, checked at run time.
fn rate_defined(g: &Game) -> (r: bool)
    ensures
        r == tick_rate_defined(*g),
{
    if g.config.fixed_tick_rate.is_none() && g.speed_boost_ticks_remaining == 0 {
        if g.config.speed_ramp_interval == 0 {
            return false;
        }
        let steps = (g.score / g.config.speed_ramp_interval) as u64;
        if steps.checked_mul(g.config.tick_ms_decrease).is_none() {
            return false;
        }
    }
    true
}

fn copy_cells(cells: &Vec<(u16, u16)>) -> (r: Vec<(u16, u16)>)
    ensures
        r@ == cells@,
{
    let mut r: Vec<(u16, u16)> = Vec::new();
    let mut i: usize = 0;
    while i < cells.len()
        invariant
            0 <= i <= cells.len(),
            r@ == cells@.subrange(0, i as int),
        decreases cells.len() - i,
    {
        r.push(cells[i]);
        i = i + 1;
        assert(r@ == cells@.subrange(0, i as int));
    }
    assert(cells@.subrange(0, cells.len() as int) == cells@);
    r
}

/// A session just begun in `mode` on `preset`'s board (the daily challenge
/// has a board of its own), whatever food it drew.
pub open spec fn fresh_session(s: RunSession, mode: GameMode, preset: BoardPreset) -> bool {
    &&& fresh_game(
        s.game,
        mode,
        if mode == GameMode::Daily {
            daily_config()
        } else {
            preset_config(preset)
        },
    )
    &&& s.prev_body@ == s.game.snake.body@
    &&& s.tick_elapsed_us == 0
}

impl RunSession {
    /// A new run: the daily challenge is seeded by today's date, the other
    /// modes by the operating system's entropy on the preset's board.
    pub fn new(mode: GameMode, preset: BoardPreset) -> (s: Self)
        ensures
            fresh_session(s, mode, preset),
            s.previous_best == 0,
    {
        let config = match mode {
            GameMode::Daily => GameConfig::daily(),
            _ => preset.config(),
        };
        proof {
            assert(config.weight_total() > 0);
        }
        let game = if mode == GameMode::Daily {
            Game::new_with_seed(mode, config, Some(Game::daily_seed_for_today()))
        } else {
            Game::new(mode, config)
        };
        let prev_body = copy_cells(&game.snake.body);
        RunSession { game, prev_body, tick_elapsed_us: 0, previous_best: 0 }
    }

    pub fn set_previous_best(&mut self, best: u16)
        ensures
            final(self).previous_best == best,
            final(self).game == old(self).game,
            final(self).prev_body@ == old(self).prev_body@,
            final(self).tick_elapsed_us == old(self).tick_elapsed_us,
    {
        self.previous_best = best;
    }
}

/// How a call of `advance_session_ticks` with `dt_us` relates the session
/// before, the session after, and the outcome: some trace of ticks ran, one
/// per whole tick period, stopping early only where the run ended.
pub open spec fn advance_relation(s: RunSession, s2: RunSession, dt_us: u64, outcome: TickOutcome) -> bool {
    &&& exists|trace: Seq<Game>, results: Seq<UpdateResult>|
        {
            &&& valid_trace(trace, results)
            &&& trace[0] == s.game
            &&& trace.last() == s2.game
            &&& s2.tick_elapsed_us + results.len() * tick_us_of(s.game) == s.tick_elapsed_us.saturating_add(dt_us)
            &&& (results.len() == 0 || !ends_run(results.last())) ==> s2.tick_elapsed_us < tick_us_of(s.game)
            &&& outcome.result == last_event(trace, results, results.len())
            &&& outcome.ate == exists|i: int| 0 <= i < results.len() && #[trigger] results[i] == UpdateResult::Ate
            &&& s2.prev_body@ == (if results.len() == 0 {
                s.prev_body@
            } else {
                trace[results.len() - 1].snake.body@
            })
        }
    &&& s2.previous_best == s.previous_best
}

/// Adds `dt_us` to the time gathered and runs one tick for each whole tick
/// period in it, stopping early when the run ends.  The tick period is the
/// game's rate when the call starts.
pub fn advance_session_ticks(session: &mut RunSession, dt_us: u64) -> (outcome: TickOutcome)
    requires
        can_advance(*old(session), dt_us),
    ensures
        advance_relation(*old(session), *final(session), dt_us, outcome),
{
    match try_advance_session_ticks(session, dt_us) {
        Some(outcome) => outcome,
        None => {
            proof {
                assert(false);
            }
            TickOutcome { result: None, ate: false }
        },
    }
}

/// `advance_session_ticks` for any session: `None` where the ticks the time
/// allows cannot all run (`stalls`), found before the tick that cannot run.
/// Where the session can advance, the outcome is always there.
pub fn try_advance_session_ticks(session: &mut RunSession, dt_us: u64) -> (r: Option<TickOutcome>)
    ensures
        r matches Some(outcome) ==> advance_relation(*old(session), *final(session), dt_us, outcome),
        can_advance(*old(session), dt_us) ==> r is Some,
        r is None ==> stalls(*old(session), dt_us) && stalled_at(*old(session), *final(session), dt_us),
{
    let ghost s0 = *session;
    assert(s0 == *old(session));
    let ghost g0 = session.game;
    let ghost total: int = session.tick_elapsed_us.saturating_add(dt_us) as int;
    if !rate_defined(&session.game) {
        return None;
    }
    let rate = session.game.tick_rate_ms();
    if rate == 0 {
        return None;
    }
    session.tick_elapsed_us = session.tick_elapsed_us.saturating_add(dt_us);
    if rate > u64::MAX / 1000 {
        proof {
            let trace = seq![g0];
            let results = Seq::<UpdateResult>::empty();
            assert(valid_trace(trace, results));
            assert(trace.last() == session.game);
            assert(last_event(trace, results, 0) == None::<GameTickEvent>);
            assert(session.tick_elapsed_us < tick_us_of(g0));
        }
        return Some(TickOutcome { result: None, ate: false });
    }
    let tick_us = rate * 1000;
    let ghost n_max = total / (tick_us as int);
    assert(n_max == ticks_due(s0, dt_us));
    let mut event: Option<GameTickEvent> = None;
    let mut ate = false;
    let ghost mut trace: Seq<Game> = seq![g0];
    let ghost mut results: Seq<UpdateResult> = Seq::empty();
    loop
        invariant_except_break
            session.tick_elapsed_us + results.len() * tick_us == total,
            results.len() == 0 || !ends_run(results.last()),
        invariant
            tick_us == tick_us_of(g0),
            tick_us >= 1000,
            n_max == total / (tick_us as int),
            n_max == ticks_due(s0, dt_us),
            g0 == s0.game,
            s0 == *old(session),
            valid_trace(trace, results),
            trace[0] == g0,
            trace.last() == session.game,
            results.len() <= n_max,
            can_advance(s0, dt_us) && (results.len() == 0 || !ends_run(results.last())) ==> ticks_safe(
                session.game,
                (n_max - results.len()) as nat,
            ),
            event == last_event(trace, results, results.len()),
            ate == exists|i: int| 0 <= i < results.len() && #[trigger] results[i] == UpdateResult::Ate,
            session.prev_body@ == (if results.len() == 0 {
                s0.prev_body@
            } else {
                trace[results.len() - 1].snake.body@
            }),
            session.previous_best == s0.previous_best,
        ensures
            session.tick_elapsed_us + results.len() * tick_us == total,
            (results.len() == 0 || !ends_run(results.last())) ==> session.tick_elapsed_us < tick_us,
        decreases session.tick_elapsed_us,
    {
        if session.tick_elapsed_us < tick_us {
            break;
        }
        proof {
            let k = results.len() as int;
            assert((k + 1) * (tick_us as int) <= total) by (nonlinear_arith)
                requires
                    session.tick_elapsed_us + k * tick_us == total,
                    session.tick_elapsed_us >= tick_us,
            ;
            assert(k + 1 <= n_max) by (nonlinear_arith)
                requires
                    (k + 1) * (tick_us as int) <= total,
                    n_max == total / (tick_us as int),
                    tick_us >= 1000,
            {
                vstd::arithmetic::div_mod::lemma_div_is_ordered((k + 1) * (tick_us as int), total, tick_us as int);
                vstd::arithmetic::div_mod::lemma_div_multiples_vanish(k + 1, tick_us as int);
            }
        }
        if !session.game.can_tick() {
            proof {
                assert(stops_at(s0.game, ticks_due(s0, dt_us), trace, results));
                assert(stalls(s0, dt_us));
                if can_advance(s0, dt_us) {
                    assert(ticks_safe(session.game, (n_max - results.len()) as nat));
                    assert((n_max - results.len()) as nat > 0);
                    assert(can_update(session.game));
                }
            }
            return None;
        }
        let ghost e0 = session.tick_elapsed_us as int;
        let ghost k0 = results.len() as int;
        session.tick_elapsed_us = session.tick_elapsed_us - tick_us;
        session.prev_body = copy_cells(&session.game.snake.body);
        let ghost before = session.game;
        let r = session.game.update();
        proof {
            if can_advance(s0, dt_us) && !ends_run(r) {
                assert(ticks_safe(before, (n_max - k0) as nat));
                assert(update_step(before, session.game, r));
                assert(ticks_safe(session.game, (n_max - k0 - 1) as nat));
            }
            lemma_trace_extend(trace, results, session.game, r);
            trace = trace.push(session.game);
            results = results.push(r);
            assert(session.tick_elapsed_us + results.len() * tick_us == total) by (nonlinear_arith)
                requires
                    session.tick_elapsed_us == e0 - tick_us,
                    results.len() == k0 + 1,
                    e0 + k0 * tick_us == total,
            ;
        }
        match r {
            UpdateResult::Died(cause) => {
                event = Some(GameTickEvent::Died(cause));
                break;
            },
            UpdateResult::Won => {
                event = Some(GameTickEvent::Won);
                break;
            },
            UpdateResult::Ate => {
                let leveled = match &session.game.last_ate {
                    Some(a) => a.leveled_up,
                    None => false,
                };
                if leveled {
                    event = Some(GameTickEvent::LeveledUp);
                } else {
                    event = Some(GameTickEvent::Ate);
                }
                ate = true;
            },
            UpdateResult::Moved => {},
        }
    }
    Some(TickOutcome { result: event, ate })
}

/// A trace that ran without ending the run, extended by one more tick.
proof fn lemma_trace_extend(trace: Seq<Game>, results: Seq<UpdateResult>, g2: Game, r: UpdateResult)
    requires
        valid_trace(trace, results),
        results.len() == 0 || !ends_run(results.last()),
        update_step(trace.last(), g2, r),
    ensures
        valid_trace(trace.push(g2), results.push(r)),
        last_event(trace.push(g2), results.push(r), results.len()) == last_event(trace, results, results.len()),
        last_event(trace.push(g2), results.push(r), results.len() + 1) == match event_of(r, g2.last_ate) {
            Some(e) => Some(e),
            None => last_event(trace, results, results.len()),
        },
        (exists|i: int| 0 <= i < results.len() + 1 && #[trigger] results.push(r)[i] == UpdateResult::Ate)
            == ((exists|i: int| 0 <= i < results.len() && #[trigger] results[i] == UpdateResult::Ate) || r
            == UpdateResult::Ate),
{
    let t2 = trace.push(g2);
    let r2 = results.push(r);
    assert forall|i: int| 0 <= i < r2.len() implies update_step(#[trigger] t2[i], t2[i + 1], r2[i]) by {
        if i < results.len() {
            assert(t2[i] == trace[i]);
            assert(t2[i + 1] == trace[i + 1]);
        }
    }
    assert forall|i: int| 0 <= i < r2.len() - 1 implies !ends_run(#[trigger] r2[i]) by {
        assert(r2[i] == results[i]);
    }
    lemma_last_event_prefix(trace, results, t2, r2, results.len());
    if exists|i: int| 0 <= i < results.len() && #[trigger] results[i] == UpdateResult::Ate {
        let i = choose|i: int| 0 <= i < results.len() && #[trigger] results[i] == UpdateResult::Ate;
        assert(r2[i] == results[i]);
    }
    if r == UpdateResult::Ate {
        assert(r2[results.len() as int] == r);
    }
}

/// `last_event` over the first `n` ticks depends only on those ticks.
proof fn lemma_last_event_prefix(
    t1: Seq<Game>,
    r1: Seq<UpdateResult>,
    t2: Seq<Game>,
    r2: Seq<UpdateResult>,
    n: nat,
)
    requires
        n <= r1.len(),
        n <= r2.len(),
        n < t1.len(),
        n < t2.len(),
        forall|i: int| 0 <= i < n ==> r1[i] == r2[i],
        forall|i: int| 0 <= i <= n ==> t1[i] == t2[i],
    ensures
        last_event(t2, r2, n) == last_event(t1, r1, n),
    decreases n,
{
    if n > 0 {
        lemma_last_event_prefix(t1, r1, t2, r2, (n - 1) as nat);
    }
}

} // verus!
