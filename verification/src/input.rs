//! Turning key presses into game commands.

use vstd::prelude::*;
use crate::data::game_state::GameState;
use crate::platform::KeyEvent;

verus! {

/// Game commands.
#[derive(Debug, Clone, Copy, PartialEq, Eq, Structural)]
pub enum InputCommand {
    NoCommand,
    MoveUp,
    MoveDown,
    MoveLeft,
    MoveRight,
    Confirm,
    Cancel,
    Domestic,
    Military,
    Diplomacy,
    Personnel,
    Save,
    Load,
    EndTurn,
    Info,
    Quit,
    DebugStatus,
    DebugNextTurn,
}

/// The command of a character key: WASD move, space confirms, q and Esc
/// cancel (or quit once the game is exiting), digits 1 to 7 open the menus,
/// 0 and e end the turn, x quits, @ prints the state and n runs a round.
pub open spec fn char_command(c: u8, exiting: bool) -> InputCommand {
    if c == 0x77 || c == 0x57 {
        InputCommand::MoveUp
    } else if c == 0x73 || c == 0x53 {
        InputCommand::MoveDown
    } else if c == 0x61 || c == 0x41 {
        InputCommand::MoveLeft
    } else if c == 0x64 || c == 0x44 {
        InputCommand::MoveRight
    } else if c == 0x20 {
        InputCommand::Confirm
    } else if c == 0x71 || c == 0x51 {
        if exiting {
            InputCommand::Quit
        } else {
            InputCommand::Cancel
        }
    } else if c == 0x31 {
        InputCommand::Domestic
    } else if c == 0x32 {
        InputCommand::Military
    } else if c == 0x33 {
        InputCommand::Diplomacy
    } else if c == 0x34 {
        InputCommand::Personnel
    } else if c == 0x35 {
        InputCommand::Info
    } else if c == 0x36 {
        InputCommand::Save
    } else if c == 0x37 {
        InputCommand::Load
    } else if c == 0x30 || c == 0x65 || c == 0x45 {
        InputCommand::EndTurn
    } else if c == 0x78 || c == 0x58 {
        InputCommand::Quit
    } else if c == 0x40 {
        InputCommand::DebugStatus
    } else if c == 0x6E || c == 0x4E {
        InputCommand::DebugNextTurn
    } else {
        InputCommand::NoCommand
    }
}

/// The command of a key: characters by `char_command`, the arrow scan
/// codes 0x48, 0x50, 0x4B, 0x4D move, Enter confirms, Esc cancels (or
/// quits once the game is exiting); other keys do nothing.
pub open spec fn key_command(key: KeyEvent, exiting: bool) -> InputCommand {
    match key {
        KeyEvent::Char(c) => char_command(c, exiting),
        KeyEvent::Special(code) => if code == 0x48 {
            InputCommand::MoveUp
        } else if code == 0x50 {
            InputCommand::MoveDown
        } else if code == 0x4B {
            InputCommand::MoveLeft
        } else if code == 0x4D {
            InputCommand::MoveRight
        } else {
            InputCommand::NoCommand
        },
        KeyEvent::Enter => InputCommand::Confirm,
        KeyEvent::Esc => if exiting {
            InputCommand::Quit
        } else {
            InputCommand::Cancel
        },
        _ => InputCommand::NoCommand,
    }
}

/// Whether the game is exiting matters only for Esc, q and Q: they quit
/// while it is exiting and cancel otherwise; every other key gives the
/// same command either way.
pub proof fn lemma_exiting_changes_only_cancel(key: KeyEvent)
    ensures
        (key == KeyEvent::Esc || key == KeyEvent::Char(0x71) || key == KeyEvent::Char(0x51)) ==> key_command(
            key,
            true,
        ) == InputCommand::Quit && key_command(key, false) == InputCommand::Cancel,
        !(key == KeyEvent::Esc || key == KeyEvent::Char(0x71) || key == KeyEvent::Char(0x51)) ==> key_command(
            key,
            true,
        ) == key_command(key, false),
{
}

/// The input handler.
pub struct InputHandler {
    pub waiting: bool,
    pub commands: Vec<InputCommand>,
}

impl Default for InputHandler {
    fn default() -> (r: Self)
        ensures
            !r.waiting,
            r.commands@ == Seq::<InputCommand>::empty(),
    {
        InputHandler { waiting: false, commands: Vec::new() }
    }
}

impl InputHandler {
    /// A handler that is not waiting, with no buffered commands.
    pub fn new() -> (r: Self)
        ensures
            !r.waiting,
            r.commands@ == Seq::<InputCommand>::empty(),
    {
        Self::default()
    }

    /// The command of the key polled, if a key was pressed.
    pub fn poll_input(&mut self, key: Option<KeyEvent>, game: &GameState) -> (r: Option<InputCommand>)
        ensures
            r == match key {
                Some(k) => Some(key_command(k, game.exit_flag)),
                None => None,
            },
            final(self).waiting == old(self).waiting,
            final(self).commands@ == old(self).commands@,
    {
        match key {
            Some(k) => Some(self.translate_key(k, game)),
            None => None,
        }
    }

    /// The command of the key waited for.
    pub fn wait_input(&mut self, key: KeyEvent, game: &GameState) -> (r: InputCommand)
        ensures
            r == key_command(key, game.exit_flag),
            final(self).waiting == old(self).waiting,
            final(self).commands@ == old(self).commands@,
    {
        self.translate_key(key, game)
    }

    /// The command of a key (see `key_command`).
    fn translate_key(&self, key: KeyEvent, game: &GameState) -> (r: InputCommand)
        ensures
            r == key_command(key, game.exit_flag),
    {
        match key {
            KeyEvent::Char(0x77) | KeyEvent::Char(0x57) | KeyEvent::Special(0x48) => InputCommand::MoveUp,
            KeyEvent::Char(0x73) | KeyEvent::Char(0x53) | KeyEvent::Special(0x50) => InputCommand::MoveDown,
            KeyEvent::Char(0x61) | KeyEvent::Char(0x41) | KeyEvent::Special(0x4B) => InputCommand::MoveLeft,
            KeyEvent::Char(0x64) | KeyEvent::Char(0x44) | KeyEvent::Special(0x4D) => InputCommand::MoveRight,
            KeyEvent::Enter | KeyEvent::Char(0x20) => InputCommand::Confirm,
            KeyEvent::Esc | KeyEvent::Char(0x71) | KeyEvent::Char(0x51) => {
                if game.exit_flag {
                    InputCommand::Quit
                } else {
                    InputCommand::Cancel
                }
            },
            KeyEvent::Char(0x31) => InputCommand::Domestic,
            KeyEvent::Char(0x32) => InputCommand::Military,
            KeyEvent::Char(0x33) => InputCommand::Diplomacy,
            KeyEvent::Char(0x34) => InputCommand::Personnel,
            KeyEvent::Char(0x35) => InputCommand::Info,
            KeyEvent::Char(0x36) => InputCommand::Save,
            KeyEvent::Char(0x37) => InputCommand::Load,
            KeyEvent::Char(0x30) | KeyEvent::Char(0x65) | KeyEvent::Char(0x45) => InputCommand::EndTurn,
            KeyEvent::Char(0x78) | KeyEvent::Char(0x58) => InputCommand::Quit,
            KeyEvent::Char(0x40) => InputCommand::DebugStatus,
            KeyEvent::Char(0x6E) | KeyEvent::Char(0x4E) => InputCommand::DebugNextTurn,
            _ => InputCommand::NoCommand,
        }
    }
}

} // verus!
