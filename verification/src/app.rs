//! The program's screens and what one frame does on each: the start menu,
//! the countdown, play, pause and the end screen.  Drawing, sound and files
//! are left to the caller, which carries out the effects a frame returns.
//! Time is counted in whole microseconds.
use crate::game::{mode_after, preset_after, DeathCause, GameMode};
use crate::input::{
    handle_countdown, handle_game_over, handle_paused, handle_playing, handle_start_menu, start_menu_action,
    steered, typed_name, InputAction, KeyPresses,
};
use crate::persist::{beats_all, board_after_add, top_score_of};
use crate::text::{decimal, push_chars, push_decimal};
use crate::session::{
    advance_relation, fresh_session, stalls, try_advance_session_ticks, GameTickEvent, PlayerProfile,
    RunSession,
};
use vstd::prelude::*;

verus! {

/// How long the countdown before a run lasts.
pub const COUNTDOWN_US: u64 = 3_000_000;

/// How long the level-up banner shows.
pub const LEVEL_UP_DISPLAY_US: u64 = 800_000;

pub enum AppState {
    StartMenu,
    Countdown { remaining_us: u64, session: RunSession },
    Playing { session: RunSession, level_up_us: u64 },
    Paused { session: RunSession, level_up_us: u64 },
    EndScreen { session: RunSession, is_new_record: bool, won: bool, death_cause: Option<DeathCause> },
}

/// What the caller carries out after a frame, in order.
#[derive(Debug, Clone, Copy, PartialEq, Eq, Structural)]
pub enum Effect {
    PlayEat,
    PlayLevelUp,
    PlayGameOver,
    /// Flash the board: the snake ate.
    FlashEat,
    /// Flash the board's edge: a level was reached.
    FlashLevelUp,
    /// Shake the board: the run is over.
    ShakeDeath,
    /// Save the sound setting.
    SaveSound(bool),
    /// Save the leaderboard of the mode.
    SaveLeaderboard(GameMode),
    /// A new run began: reset its visual effects.
    NewRun,
}

pub struct App {
    pub state: AppState,
    pub profile: PlayerProfile,
}

/// The sound effect `e`, where sound is on.
pub open spec fn chime(enabled: bool, e: Effect) -> Seq<Effect> {
    if enabled {
        seq![e]
    } else {
        Seq::empty()
    }
}

/// Turning sound to `on` saves the setting and, when it is now on, plays a chime.
pub open spec fn sound_toggle_effects(on: bool) -> Seq<Effect> {
    seq![Effect::SaveSound(on)] + chime(on, Effect::PlayEat)
}

/// The profile kept all but possibly its leaderboards.
pub open spec fn same_choices(p2: PlayerProfile, p: PlayerProfile) -> bool {
    &&& p2.name == p.name
    &&& p2.name_editing == p.name_editing
    &&& p2.sound_enabled == p.sound_enabled
    &&& p2.selected_mode == p.selected_mode
    &&& p2.selected_preset == p.selected_preset
}

/// A countdown to a new run in the profile's mode and preset.
pub open spec fn counting_down(st: AppState, p: PlayerProfile) -> bool {
    st matches AppState::Countdown { remaining_us, session } && remaining_us == COUNTDOWN_US && fresh_session(
        session,
        p.selected_mode,
        p.selected_preset,
    ) && session.previous_best == top_score_of(p.leaderboards.board_of(p.selected_mode))
}

/// The frame quit: the program stops.
pub open spec fn quit_frame(p: PlayerProfile, a2: App, running: bool, fx: Seq<Effect>) -> bool {
    !running && a2.state is StartMenu && a2.profile == p && fx.len() == 0
}

pub open spec fn start_menu_frame(p: PlayerProfile, keys: KeyPresses, a2: App, running: bool, fx: Seq<Effect>) -> bool {
    match start_menu_action(p.name@, keys) {
        InputAction::Quit => quit_frame(p, a2, running, fx),
        InputAction::Start => running && fx == seq![Effect::NewRun] && a2.profile == p && counting_down(a2.state, p),
        InputAction::ToggleMode => running && fx.len() == 0 && a2.state is StartMenu && a2.profile == (
        PlayerProfile { selected_mode: mode_after(p.selected_mode), ..p }),
        InputAction::TogglePreset => running && fx.len() == 0 && a2.state is StartMenu && a2.profile == (
        PlayerProfile { selected_preset: preset_after(p.selected_preset), ..p }),
        InputAction::ToggleSound => running && a2.state is StartMenu && a2.profile == (PlayerProfile {
            sound_enabled: !p.sound_enabled,
            ..p
        }) && fx == sound_toggle_effects(!p.sound_enabled),
        _ => running && fx.len() == 0 && a2.state is StartMenu && a2.profile.name@ == typed_name(p.name@, keys)
            && a2.profile == (PlayerProfile { name: a2.profile.name, ..p }),
    }
}

pub open spec fn countdown_frame(
    remaining_us: u64,
    session: RunSession,
    p: PlayerProfile,
    keys: KeyPresses,
    dt_us: u64,
    a2: App,
    running: bool,
    fx: Seq<Effect>,
) -> bool {
    if keys.quit {
        quit_frame(p, a2, running, fx)
    } else {
        &&& running
        &&& fx.len() == 0
        &&& a2.profile == p
        &&& a2.state == if dt_us >= remaining_us {
            AppState::Playing { session, level_up_us: 0 }
        } else {
            AppState::Countdown { remaining_us: (remaining_us - dt_us) as u64, session }
        }
    }
}

/// The run ended with `session`: a shake, the closing sound, the score
/// recorded where positive, and the end screen.
pub open spec fn finished(
    session: RunSession,
    won: bool,
    cause: Option<DeathCause>,
    p: PlayerProfile,
    a2: App,
    running: bool,
    fx: Seq<Effect>,
    before: Seq<Effect>,
) -> bool {
    let score = session.game.score;
    let mode = session.game.mode;
    let before_board = p.leaderboards.board_of(mode);
    let board = if score > 0 {
        board_after_add(before_board, score, p.name@)
    } else {
        before_board
    };
    &&& running
    &&& same_choices(a2.profile, p)
    &&& a2.profile.leaderboards.board_of(mode) == board
    &&& forall|m: GameMode| m != mode ==> #[trigger] a2.profile.leaderboards.board_of(m) == p.leaderboards.board_of(m)
    &&& a2.state == AppState::EndScreen {
        session,
        is_new_record: score > 0 && beats_all(before_board, score),
        won,
        death_cause: cause,
    }
    &&& fx == before + seq![Effect::ShakeDeath] + chime(
        p.sound_enabled,
        if won {
            Effect::PlayLevelUp
        } else {
            Effect::PlayGameOver
        },
    ) + (if score > 0 {
        seq![Effect::SaveLeaderboard(mode)]
    } else {
        Seq::empty()
    })
}

/// After play's ticks ran from `s1` to `s2` with outcome `result`/`ate`.
pub open spec fn after_ticks(
    s2: RunSession,
    result: Option<GameTickEvent>,
    ate: bool,
    level_up_us: u64,
    p: PlayerProfile,
    a2: App,
    running: bool,
    fx: Seq<Effect>,
) -> bool {
    let flash = if ate {
        seq![Effect::FlashEat]
    } else {
        Seq::<Effect>::empty()
    };
    match result {
        Some(GameTickEvent::Died(c)) => finished(s2, false, Some(c), p, a2, running, fx, flash),
        Some(GameTickEvent::Won) => finished(s2, true, None, p, a2, running, fx, flash),
        Some(GameTickEvent::Ate) => running && a2.profile == p && a2.state == (AppState::Playing {
            session: s2,
            level_up_us,
        }) && fx == flash + chime(p.sound_enabled, Effect::PlayEat),
        Some(GameTickEvent::LeveledUp) => running && a2.profile == p && a2.state == (AppState::Playing {
            session: s2,
            level_up_us: LEVEL_UP_DISPLAY_US,
        }) && fx == flash + chime(p.sound_enabled, Effect::PlayEat) + chime(p.sound_enabled, Effect::PlayLevelUp)
            + seq![Effect::FlashLevelUp],
        None => running && a2.profile == p && a2.state == (AppState::Playing { session: s2, level_up_us })
            && fx == flash,
    }
}

/// `s1` is the session `s` once play's keys steered its game.
pub open spec fn steered_session(s: RunSession, s1: RunSession, keys: KeyPresses) -> bool {
    &&& steered(s.game, s1.game, keys)
    &&& s1.prev_body == s.prev_body
    &&& s1.tick_elapsed_us == s.tick_elapsed_us
    &&& s1.previous_best == s.previous_best
}

/// The ticks of a frame of play ran from the steered session `s1`: the
/// frame goes on by what they did.  Where they cannot all run (`stalls`:
/// a counter would overflow, or the tick rate cannot be worked out) the
/// program stops.
pub open spec fn played(
    s1: RunSession,
    dt_us: u64,
    level_up_us: u64,
    p: PlayerProfile,
    a2: App,
    running: bool,
    fx: Seq<Effect>,
) -> bool {
    ||| exists|s2: RunSession, result: Option<GameTickEvent>, ate: bool|
        advance_relation(s1, s2, dt_us, crate::session::TickOutcome { result, ate }) && after_ticks(
            s2,
            result,
            ate,
            level_up_us,
            p,
            a2,
            running,
            fx,
        )
    ||| stalls(s1, dt_us) && quit_frame(p, a2, running, fx)
}

/// A frame of play: quit, pause, or queue the steering and run the ticks
/// the time allows.
pub open spec fn playing_frame(
    session: RunSession,
    level_up_us: u64,
    p: PlayerProfile,
    keys: KeyPresses,
    dt_us: u64,
    a2: App,
    running: bool,
    fx: Seq<Effect>,
) -> bool {
    if keys.quit {
        quit_frame(p, a2, running, fx)
    } else if keys.pause {
        running && fx.len() == 0 && a2.profile == p && a2.state == (AppState::Paused { session, level_up_us })
    } else {
        exists|s1: RunSession|
            #[trigger] steered_session(session, s1, keys) && played(
                s1,
                dt_us,
                level_up_us.saturating_sub(dt_us),
                p,
                a2,
                running,
                fx,
            )
    }
}

pub open spec fn paused_frame(
    session: RunSession,
    level_up_us: u64,
    p: PlayerProfile,
    keys: KeyPresses,
    a2: App,
    running: bool,
    fx: Seq<Effect>,
) -> bool {
    if keys.quit {
        quit_frame(p, a2, running, fx)
    } else if keys.pause {
        running && fx.len() == 0 && a2.profile == p && a2.state == (AppState::Playing { session, level_up_us })
    } else if keys.sound {
        running && a2.state == (AppState::Paused { session, level_up_us }) && a2.profile == (PlayerProfile {
            sound_enabled: !p.sound_enabled,
            ..p
        }) && fx == sound_toggle_effects(!p.sound_enabled)
    } else {
        running && fx.len() == 0 && a2.profile == p && a2.state == (AppState::Paused { session, level_up_us })
    }
}

pub open spec fn end_screen_frame(
    session: RunSession,
    is_new_record: bool,
    won: bool,
    death_cause: Option<DeathCause>,
    p: PlayerProfile,
    keys: KeyPresses,
    a2: App,
    running: bool,
    fx: Seq<Effect>,
) -> bool {
    if keys.quit {
        quit_frame(p, a2, running, fx)
    } else if keys.enter || keys.restart {
        running && fx == seq![Effect::NewRun] && a2.profile == p && counting_down(a2.state, p)
    } else {
        running && fx.len() == 0 && a2.profile == p && a2.state == (AppState::EndScreen {
            session,
            is_new_record,
            won,
            death_cause,
        })
    }
}

/// What one frame does, by the screen it starts on.
pub open spec fn frame(a: App, keys: KeyPresses, dt_us: u64, a2: App, running: bool, fx: Seq<Effect>) -> bool {
    match a.state {
        AppState::StartMenu => start_menu_frame(a.profile, keys, a2, running, fx),
        AppState::Countdown { remaining_us, session } => countdown_frame(
            remaining_us,
            session,
            a.profile,
            keys,
            dt_us,
            a2,
            running,
            fx,
        ),
        AppState::Playing { session, level_up_us } => playing_frame(
            session,
            level_up_us,
            a.profile,
            keys,
            dt_us,
            a2,
            running,
            fx,
        ),
        AppState::Paused { session, level_up_us } => paused_frame(
            session,
            level_up_us,
            a.profile,
            keys,
            a2,
            running,
            fx,
        ),
        AppState::EndScreen { session, is_new_record, won, death_cause } => end_screen_frame(
            session,
            is_new_record,
            won,
            death_cause,
            a.profile,
            keys,
            a2,
            running,
            fx,
        ),
    }
}

/// How the end screen compares a score with the best before the run:
/// ` (+N vs best)`, ` (-N vs best)`, ` (matched best)` where a best was
/// matched, and nothing when both are zero.
pub open spec fn best_comparison_text(score: u16, previous_best: u16) -> Seq<char> {
    let vs = seq![' ', 'v', 's', ' ', 'b', 'e', 's', 't', ')'];
    if score > previous_best {
        seq![' ', '(', '+'] + decimal((score - previous_best) as nat) + vs
    } else if score < previous_best {
        seq![' ', '(', '-'] + decimal((previous_best - score) as nat) + vs
    } else if previous_best > 0 {
        seq![' ', '(', 'm', 'a', 't', 'c', 'h', 'e', 'd', ' ', 'b', 'e', 's', 't', ')']
    } else {
        Seq::empty()
    }
}

pub fn best_comparison(score: u16, previous_best: u16) -> (s: String)
    ensures
        s@ == best_comparison_text(score, previous_best),
{
    let mut s = String::new();
    let vs = vec![' ', 'v', 's', ' ', 'b', 'e', 's', 't', ')'];
    if score > previous_best {
        push_chars(&mut s, &vec![' ', '(', '+']);
        push_decimal(&mut s, (score - previous_best) as u64);
        push_chars(&mut s, &vs);
    } else if score < previous_best {
        push_chars(&mut s, &vec![' ', '(', '-']);
        push_decimal(&mut s, (previous_best - score) as u64);
        push_chars(&mut s, &vs);
    } else if previous_best > 0 {
        push_chars(&mut s, &vec![' ', '(', 'm', 'a', 't', 'c', 'h', 'e', 'd', ' ', 'b', 'e', 's', 't', ')']);
    }
    assert(s@ =~= best_comparison_text(score, previous_best));
    s
}

impl App {
    /// The program starts on the start menu.
    pub fn new(profile: PlayerProfile) -> (a: Self)
        ensures
            a.state is StartMenu,
            a.profile == profile,
    {
        App { state: AppState::StartMenu, profile }
    }

    /// One frame: `keys` pressed and `dt_us` passed.  Says whether the
    /// program goes on, and what to play, flash, shake or save.
    pub fn update(&mut self, keys: &KeyPresses, dt_us: u64) -> (r: (bool, Vec<Effect>))
        ensures
            frame(*old(self), *keys, dt_us, *final(self), r.0, r.1@),
    {
        let mut state = AppState::StartMenu;
        std::mem::swap(&mut state, &mut self.state);
        let mut fx: Vec<Effect> = Vec::new();
        let running = match state {
            AppState::StartMenu => self.update_start_menu(keys, &mut fx),
            AppState::Countdown { remaining_us, session } => {
                self.update_countdown(keys, dt_us, remaining_us, session)
            },
            AppState::Playing { session, level_up_us } => {
                self.update_playing(keys, dt_us, session, level_up_us, &mut fx)
            },
            AppState::Paused { session, level_up_us } => {
                self.update_paused(keys, session, level_up_us, &mut fx)
            },
            AppState::EndScreen { session, is_new_record, won, death_cause } => {
                self.update_end_screen(keys, session, is_new_record, won, death_cause, &mut fx)
            },
        };
        (running, fx)
    }

    fn toggle_sound(&mut self, fx: &mut Vec<Effect>)
        ensures
            final(self).profile == (PlayerProfile { sound_enabled: !old(self).profile.sound_enabled, ..old(self).profile }),
            final(fx)@ == old(fx)@ + sound_toggle_effects(!old(self).profile.sound_enabled),
            final(self).state == old(self).state,
    {
        self.profile.sound_enabled = !self.profile.sound_enabled;
        fx.push(Effect::SaveSound(self.profile.sound_enabled));
        if self.profile.sound_enabled {
            fx.push(Effect::PlayEat);
        }
    }

    fn update_start_menu(&mut self, keys: &KeyPresses, fx: &mut Vec<Effect>) -> (running: bool)
        requires
            old(self).state is StartMenu,
            old(fx)@.len() == 0,
        ensures
            start_menu_frame(old(self).profile, *keys, *final(self), running, final(fx)@),
    {
        let action = handle_start_menu(&mut self.profile.name, keys);
        match action {
            InputAction::Quit => {
                return false;
            },
            InputAction::Start => {
                self.start_countdown(fx);
                return true;
            },
            InputAction::ToggleMode => {
                self.profile.selected_mode = self.profile.selected_mode.toggle();
            },
            InputAction::TogglePreset => {
                self.profile.selected_preset = self.profile.selected_preset.toggle();
            },
            InputAction::ToggleSound => {
                self.toggle_sound(fx);
            },
            _ => {},
        }
        true
    }

    fn update_countdown(&mut self, keys: &KeyPresses, dt_us: u64, remaining_us: u64, session: RunSession) -> (running:
        bool)
        requires
            old(self).state is StartMenu,
        ensures
            countdown_frame(remaining_us, session, old(self).profile, *keys, dt_us, *final(self), running, Seq::empty()),
    {
        if handle_countdown(keys) == InputAction::Quit {
            return false;
        }
        if dt_us >= remaining_us {
            self.state = AppState::Playing { session, level_up_us: 0 };
        } else {
            self.state = AppState::Countdown { remaining_us: remaining_us - dt_us, session };
        }
        true
    }

    fn update_playing(
        &mut self,
        keys: &KeyPresses,
        dt_us: u64,
        session: RunSession,
        level_up_us: u64,
        fx: &mut Vec<Effect>,
    ) -> (running: bool)
        requires
            old(self).state is StartMenu,
            old(fx)@.len() == 0,
        ensures
            playing_frame(session, level_up_us, old(self).profile, *keys, dt_us, *final(self), running, final(fx)@),
    {
        let ghost s0 = session;
        let mut session = session;
        match handle_playing(&mut session.game, keys) {
            InputAction::Quit => {
                return false;
            },
            InputAction::Pause => {
                assert(session == s0);
                self.state = AppState::Paused { session, level_up_us };
                return true;
            },
            _ => {},
        }
        assert(!keys.quit && !keys.pause);
        let timer = level_up_us.saturating_sub(dt_us);
        let ghost s1 = session;
        assert(steered_session(s0, s1, *keys));
        let outcome = match try_advance_session_ticks(&mut session, dt_us) {
            Some(outcome) => outcome,
            None => {
                assert(played(s1, dt_us, timer, old(self).profile, *self, false, fx@));
                return false;
            },
        };
        if outcome.ate {
            fx.push(Effect::FlashEat);
        }
        let ghost flash = fx@;
        assert(flash =~= (if outcome.ate {
            seq![Effect::FlashEat]
        } else {
            Seq::<Effect>::empty()
        }));
        assert(advance_relation(
            s1,
            session,
            dt_us,
            crate::session::TickOutcome { result: outcome.result, ate: outcome.ate },
        ));
        let running = match outcome.result {
            Some(GameTickEvent::Died(cause)) => self.finish_run(session, false, Some(cause), fx),
            Some(GameTickEvent::Won) => self.finish_run(session, true, None, fx),
            Some(GameTickEvent::Ate) => {
                if self.profile.sound_enabled {
                    fx.push(Effect::PlayEat);
                }
                assert(fx@ =~= flash + chime(self.profile.sound_enabled, Effect::PlayEat));
                self.state = AppState::Playing { session, level_up_us: timer };
                true
            },
            Some(GameTickEvent::LeveledUp) => {
                if self.profile.sound_enabled {
                    fx.push(Effect::PlayEat);
                    fx.push(Effect::PlayLevelUp);
                }
                fx.push(Effect::FlashLevelUp);
                assert(fx@ =~= flash + chime(self.profile.sound_enabled, Effect::PlayEat) + chime(
                    self.profile.sound_enabled,
                    Effect::PlayLevelUp,
                ) + seq![Effect::FlashLevelUp]);
                self.state = AppState::Playing { session, level_up_us: LEVEL_UP_DISPLAY_US };
                true
            },
            None => {
                self.state = AppState::Playing { session, level_up_us: timer };
                true
            },
        };
        proof {
            assert(after_ticks(session, outcome.result, outcome.ate, timer, old(self).profile, *self, running, fx@));
            assert(exists|s2: RunSession, result: Option<GameTickEvent>, ate: bool|
                advance_relation(s1, s2, dt_us, crate::session::TickOutcome { result, ate }) && after_ticks(
                    s2,
                    result,
                    ate,
                    timer,
                    old(self).profile,
                    *self,
                    running,
                    fx@,
                ));
            assert(played(s1, dt_us, timer, old(self).profile, *self, running, fx@));
            assert(timer == level_up_us.saturating_sub(dt_us));
        }
        running
    }

    fn update_paused(&mut self, keys: &KeyPresses, session: RunSession, level_up_us: u64, fx: &mut Vec<Effect>) -> (running:
        bool)
        requires
            old(self).state is StartMenu,
            old(fx)@.len() == 0,
        ensures
            paused_frame(session, level_up_us, old(self).profile, *keys, *final(self), running, final(fx)@),
    {
        match handle_paused(keys) {
            InputAction::Quit => {
                return false;
            },
            InputAction::Resume => {
                self.state = AppState::Playing { session, level_up_us };
            },
            InputAction::ToggleSound => {
                self.toggle_sound(fx);
                self.state = AppState::Paused { session, level_up_us };
            },
            _ => {
                self.state = AppState::Paused { session, level_up_us };
            },
        }
        true
    }

    fn update_end_screen(
        &mut self,
        keys: &KeyPresses,
        session: RunSession,
        is_new_record: bool,
        won: bool,
        death_cause: Option<DeathCause>,
        fx: &mut Vec<Effect>,
    ) -> (running: bool)
        requires
            old(self).state is StartMenu,
            old(fx)@.len() == 0,
        ensures
            end_screen_frame(
                session,
                is_new_record,
                won,
                death_cause,
                old(self).profile,
                *keys,
                *final(self),
                running,
                final(fx)@,
            ),
    {
        match handle_game_over(keys) {
            InputAction::Quit => {
                return false;
            },
            InputAction::PlayAgain => {
                self.start_countdown(fx);
                return true;
            },
            _ => {},
        }
        self.state = AppState::EndScreen { session, is_new_record, won, death_cause };
        true
    }

    fn finish_run(&mut self, session: RunSession, won: bool, death_cause: Option<DeathCause>, fx: &mut Vec<Effect>) -> (running:
        bool)
        ensures
            finished(session, won, death_cause, old(self).profile, *final(self), running, final(fx)@, old(fx)@),
    {
        fx.push(Effect::ShakeDeath);
        if self.profile.sound_enabled {
            if won {
                fx.push(Effect::PlayLevelUp);
            } else {
                fx.push(Effect::PlayGameOver);
            }
        }
        let ghost sounded = fx@;
        let score = session.game.score;
        let mode = session.game.mode;
        let is_new_record = self.profile.leaderboards.add_score(mode, score, self.profile.name.as_str());
        if score > 0 {
            fx.push(Effect::SaveLeaderboard(mode));
        }
        self.state = AppState::EndScreen { session, is_new_record, won, death_cause };
        proof {
            let tail = if score > 0 {
                seq![Effect::SaveLeaderboard(mode)]
            } else {
                Seq::<Effect>::empty()
            };
            assert(fx@ =~= sounded + tail);
            assert(sounded =~= old(fx)@ + seq![Effect::ShakeDeath] + chime(
                old(self).profile.sound_enabled,
                if won {
                    Effect::PlayLevelUp
                } else {
                    Effect::PlayGameOver
                },
            ));
        }
        true
    }

    fn start_countdown(&mut self, fx: &mut Vec<Effect>)
        requires
            old(fx)@.len() == 0,
        ensures
            final(self).profile == old(self).profile,
            counting_down(final(self).state, old(self).profile),
            final(fx)@ == seq![Effect::NewRun],
    {
        let mut session = RunSession::new(self.profile.selected_mode, self.profile.selected_preset);
        let best = self.profile.leaderboards.top_score_for(self.profile.selected_mode);
        session.set_previous_best(best);
        self.state = AppState::Countdown { remaining_us: COUNTDOWN_US, session };
        fx.push(Effect::NewRun);
    }
}

// ---------------------------------------------------------------------------
// Screens
// ---------------------------------------------------------------------------

/// On the end screen, Enter or R (without quit) plays again: the program
/// goes on, the frame asks only for a new run, the profile is kept, and the
/// screen becomes a full countdown to a fresh run of the profile's mode,
/// at score zero and with its previous best from that mode's board.
pub proof fn law_end_screen_plays_again(
    a: App,
    keys: KeyPresses,
    dt_us: u64,
    a2: App,
    running: bool,
    fx: Seq<Effect>,
)
    requires
        frame(a, keys, dt_us, a2, running, fx),
        a.state is EndScreen,
        !keys.quit,
        keys.enter || keys.restart,
    ensures
        running,
        fx == seq![Effect::NewRun],
        a2.profile == a.profile,
        a2.state matches AppState::Countdown { remaining_us, session } && remaining_us == COUNTDOWN_US
            && session.game.mode == a.profile.selected_mode && session.game.score == 0 && session.tick_elapsed_us
            == 0 && session.previous_best == top_score_of(a.profile.leaderboards.board_of(a.profile.selected_mode)),
{
}

} // verus!
