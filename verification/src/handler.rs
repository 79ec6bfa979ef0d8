//! What the keys do.

use vstd::prelude::*;
use vstd::string::*;
use crate::app::{App, GameEvent, PlayerModel, World};
use crate::fixed::SCALE;
use crate::skill::{skill_names, Skill};

verus! {

/// The keys that the game tells apart.
#[derive(Debug, Clone, Copy, PartialEq, Eq, Structural)]
pub enum KeyCode {
    Esc,
    Right,
    Left,
    Up,
    Down,
    /// A key that types this character.
    Char(char),
    /// Any other key.
    Other,
}

/// The modifier keys held down with a key, one bit each.
#[derive(Debug, Clone, Copy, PartialEq, Eq, Structural)]
pub struct KeyModifiers {
    pub bits: u8,
}

/// The bit of the shift key.
pub const SHIFT: u8 = 1;

/// The bit of the control key.
pub const CONTROL: u8 = 2;

/// The bit of the alt key.
pub const ALT: u8 = 4;

/// A key press.
#[derive(Debug, Clone, Copy, PartialEq, Eq, Structural)]
pub struct KeyEvent {
    pub code: KeyCode,
    pub modifiers: KeyModifiers,
}

/// What a key asks for.
#[derive(Debug, Clone, Copy, PartialEq, Eq, Structural)]
pub enum Command {
    /// Leave the game.
    Quit,
    /// Queue a move in this direction, at full speed.
    Move(i64, i64),
    /// Queue the one ability there is to try out.
    LearnPython,
    /// Nothing.
    Ignore,
}

/// The command bound to a key: `Esc` and `q` quit, and so does `c` with
/// control and nothing else held down; the arrows and `w`, `a`, `s`, `d`
/// move; `p` queues an ability. Every other key is ignored.
pub open spec fn spec_command(key: KeyEvent) -> Command {
    match key.code {
        KeyCode::Esc => Command::Quit,
        KeyCode::Right => Command::Move(SCALE, 0),
        KeyCode::Left => Command::Move((-SCALE) as i64, 0),
        KeyCode::Up => Command::Move(0, SCALE),
        KeyCode::Down => Command::Move(0, (-SCALE) as i64),
        KeyCode::Char(c) => if c == 'q' {
            Command::Quit
        } else if c == 'c' || c == 'C' {
            if key.modifiers.bits == CONTROL {
                Command::Quit
            } else {
                Command::Ignore
            }
        } else if c == 'd' {
            Command::Move(SCALE, 0)
        } else if c == 'a' {
            Command::Move((-SCALE) as i64, 0)
        } else if c == 'w' {
            Command::Move(0, SCALE)
        } else if c == 's' {
            Command::Move(0, (-SCALE) as i64)
        } else if c == 'p' {
            Command::LearnPython
        } else {
            Command::Ignore
        },
        KeyCode::Other => Command::Ignore,
    }
}

/// The world after a command.
pub open spec fn commanded(w: World, command: Command) -> World {
    match command {
        Command::Quit => World { running: false, ..w },
        Command::Move(x, y) => World { events: w.events.push(GameEvent::PlayerMove(x, y)), ..w },
        Command::LearnPython => World {
            player: PlayerModel { skills: w.player.skills.push("Python"@), ..w.player },
            ..w
        },
        Command::Ignore => w,
    }
}

/// Finds the command bound to a key.
#[verifier::when_used_as_spec(spec_command)]
pub fn command(key: KeyEvent) -> (c: Command)
    ensures
        c == spec_command(key),
{
    match key.code {
        KeyCode::Esc => Command::Quit,
        KeyCode::Right => Command::Move(SCALE, 0),
        KeyCode::Left => Command::Move(-SCALE, 0),
        KeyCode::Up => Command::Move(0, SCALE),
        KeyCode::Down => Command::Move(0, -SCALE),
        KeyCode::Char(c) => {
            if c == 'q' {
                Command::Quit
            } else if c == 'c' || c == 'C' {
                if key.modifiers.bits == CONTROL {
                    Command::Quit
                } else {
                    Command::Ignore
                }
            } else if c == 'd' {
                Command::Move(SCALE, 0)
            } else if c == 'a' {
                Command::Move(-SCALE, 0)
            } else if c == 'w' {
                Command::Move(0, SCALE)
            } else if c == 's' {
                Command::Move(0, -SCALE)
            } else if c == 'p' {
                Command::LearnPython
            } else {
                Command::Ignore
            }
        },
        KeyCode::Other => Command::Ignore,
    }
}

/// Handles the key events and updates the state of [`App`].
pub fn handle_key_events(key_event: KeyEvent, app: &mut App)
    ensures
        final(app)@ == commanded(old(app)@, command(key_event)),
        old(app)@.well_formed() ==> final(app)@.well_formed(),
{
    match command(key_event) {
        Command::Quit => {
            app.quit();
        },
        Command::Move(x, y) => {
            app.events.push(GameEvent::PlayerMove(x, y));
        },
        Command::LearnPython => {
            app.player.skills.push(Skill { name: String::from_str("Python") });
            assert(skill_names(app.player.skills@) =~= skill_names(old(app).player.skills@).push(
                "Python"@,
            ));
        },
        Command::Ignore => {},
    }
}

/// The keys keep the world in order.
pub proof fn lemma_commands_keep_well_formed(w: World, command: Command)
    requires
        w.well_formed(),
    ensures
        commanded(w, command).well_formed(),
{
}

} // verus!
