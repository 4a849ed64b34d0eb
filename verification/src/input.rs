//! What each screen does with the keys pressed in a frame.  Reading the
//! keyboard is left to the caller, which hands over a `KeyPresses`.
use crate::game::{turn_queued, Direction, Game};
use crate::persist::{name_char, MAX_NAME_LEN};
use crate::text::{chars_of, string_of};
use vstd::prelude::*;

verus! {

/// The keys pressed during one frame.
#[derive(Debug, Clone, Copy, PartialEq, Eq, Structural)]
pub struct KeyPresses {
    /// Q or Escape.
    pub quit: bool,
    pub enter: bool,
    /// M: toggle the mode.
    pub mode: bool,
    /// B: toggle the board preset.
    pub board: bool,
    /// T: toggle sound.
    pub sound: bool,
    /// P: pause or resume.
    pub pause: bool,
    /// R: play again.
    pub restart: bool,
    pub backspace: bool,
    /// W or the up arrow.
    pub up: bool,
    /// S or the down arrow.
    pub down: bool,
    /// A or the left arrow.
    pub left: bool,
    /// D or the right arrow.
    pub right: bool,
    /// The character typed, if any.
    pub typed: Option<char>,
}

#[derive(Debug, Clone, Copy, PartialEq, Eq, Structural)]
pub enum InputAction {
    Nothing,
    Quit,
    Start,
    ToggleMode,
    TogglePreset,
    ToggleSound,
    Pause,
    Resume,
    PlayAgain,
}

/// The name after one frame of typing: backspace drops the last character;
/// otherwise a typed name character is added while the name is shorter
/// than `MAX_NAME_LEN`.
pub open spec fn typed_name(name: Seq<char>, keys: KeyPresses) -> Seq<char> {
    if keys.backspace {
        if name.len() > 0 {
            name.drop_last()
        } else {
            name
        }
    } else {
        match keys.typed {
            Some(c) => if name_char(c) && name.len() < MAX_NAME_LEN {
                name.push(c)
            } else {
                name
            },
            None => name,
        }
    }
}

/// Whether a name holds something besides whitespace.
pub open spec fn has_visible(name: Seq<char>) -> bool {
    crate::text::trimmed(name).len() > 0
}

/// The start menu's action: quit, start (only with a name), toggle mode,
/// toggle board, toggle sound, in that order of precedence.
pub open spec fn start_menu_action(name: Seq<char>, keys: KeyPresses) -> InputAction {
    if keys.quit {
        InputAction::Quit
    } else if keys.enter && has_visible(name) {
        InputAction::Start
    } else if keys.mode {
        InputAction::ToggleMode
    } else if keys.board {
        InputAction::TogglePreset
    } else if keys.sound {
        InputAction::ToggleSound
    } else {
        InputAction::Nothing
    }
}

/// The steering the keys ask for; up wins over down, down over left, left over right.
pub open spec fn steering_of(keys: KeyPresses) -> Option<Direction> {
    if keys.up {
        Some(Direction::Up)
    } else if keys.down {
        Some(Direction::Down)
    } else if keys.left {
        Some(Direction::Left)
    } else if keys.right {
        Some(Direction::Right)
    } else {
        None
    }
}

/// The turn that play's keys ask for: the steering key's direction, unless
/// quit or pause was pressed.
pub open spec fn play_steering(keys: KeyPresses) -> Option<Direction> {
    if keys.quit || keys.pause {
        None
    } else {
        steering_of(keys)
    }
}

/// `g2` is `g` after play's keys: a steering key queues its turn, to be taken
/// by a later tick; without one the game is unchanged.
pub open spec fn steered(g: Game, g2: Game, keys: KeyPresses) -> bool {
    match play_steering(keys) {
        Some(d) => turn_queued(g, g2, d),
        None => g2 == g,
    }
}

/// Types into the player's name.
pub fn handle_name_typing(name: &mut String, keys: &KeyPresses)
    ensures
        final(name)@ == typed_name(old(name)@, *keys),
{
    let v = chars_of(name.as_str());
    if keys.backspace {
        if v.len() > 0 {
            let mut w = v;
            w.pop();
            *name = string_of(&w);
        }
        return;
    }
    match keys.typed {
        Some(c) => {
            let allowed = ('a' <= c && c <= 'z') || ('A' <= c && c <= 'Z') || ('0' <= c && c <= '9') || c
                == '_' || c == '-' || c == ' ';
            if allowed && v.len() < MAX_NAME_LEN {
                let mut w = v;
                w.push(c);
                *name = string_of(&w);
            }
        },
        None => {},
    }
}

fn has_visible_chars(name: &String) -> (r: bool)
    ensures
        r == has_visible(name@),
{
    let v = chars_of(name.as_str());
    let t = crate::text::trim_chars(&v);
    t.len() > 0
}

/// The start menu: where no other action applies, the keys type into the name.
pub fn handle_start_menu(player_name: &mut String, keys: &KeyPresses) -> (action: InputAction)
    ensures
        action == start_menu_action(old(player_name)@, *keys),
        action == InputAction::Nothing ==> final(player_name)@ == typed_name(old(player_name)@, *keys),
        action != InputAction::Nothing ==> *final(player_name) == *old(player_name),
{
    if keys.quit {
        return InputAction::Quit;
    }
    if keys.enter && has_visible_chars(player_name) {
        return InputAction::Start;
    }
    if keys.mode {
        return InputAction::ToggleMode;
    }
    if keys.board {
        return InputAction::TogglePreset;
    }
    if keys.sound {
        return InputAction::ToggleSound;
    }
    handle_name_typing(player_name, keys);
    InputAction::Nothing
}

pub fn handle_countdown(keys: &KeyPresses) -> (action: InputAction)
    ensures
        action == (if keys.quit {
            InputAction::Quit
        } else {
            InputAction::Nothing
        }),
{
    if keys.quit {
        InputAction::Quit
    } else {
        InputAction::Nothing
    }
}

/// Play: quit or pause, else a steering key queues its turn.
pub fn handle_playing(game: &mut Game, keys: &KeyPresses) -> (action: InputAction)
    ensures
        action == (if keys.quit {
            InputAction::Quit
        } else if keys.pause {
            InputAction::Pause
        } else {
            InputAction::Nothing
        }),
        steered(*old(game), *final(game), *keys),
{
    if keys.quit {
        return InputAction::Quit;
    }
    if keys.pause {
        return InputAction::Pause;
    }
    if let Some(dir) = steering_pressed(keys) {
        game.queue_turn(dir);
    }
    InputAction::Nothing
}

pub fn handle_paused(keys: &KeyPresses) -> (action: InputAction)
    ensures
        action == (if keys.quit {
            InputAction::Quit
        } else if keys.pause {
            InputAction::Resume
        } else if keys.sound {
            InputAction::ToggleSound
        } else {
            InputAction::Nothing
        }),
{
    if keys.quit {
        return InputAction::Quit;
    }
    if keys.pause {
        return InputAction::Resume;
    }
    if keys.sound {
        return InputAction::ToggleSound;
    }
    InputAction::Nothing
}

pub fn handle_game_over(keys: &KeyPresses) -> (action: InputAction)
    ensures
        action == (if keys.quit {
            InputAction::Quit
        } else if keys.enter || keys.restart {
            InputAction::PlayAgain
        } else {
            InputAction::Nothing
        }),
{
    if keys.quit {
        return InputAction::Quit;
    }
    if keys.enter || keys.restart {
        return InputAction::PlayAgain;
    }
    InputAction::Nothing
}

pub fn steering_pressed(keys: &KeyPresses) -> (d: Option<Direction>)
    ensures
        d == steering_of(*keys),
{
    if keys.up {
        Some(Direction::Up)
    } else if keys.down {
        Some(Direction::Down)
    } else if keys.left {
        Some(Direction::Left)
    } else if keys.right {
        Some(Direction::Right)
    } else {
        None
    }
}

} // verus!
