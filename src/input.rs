use vstd::prelude::*;

use crate::movement::MoveDirection;

verus! {

/// A session command.
#[derive(Debug, Clone, Copy, PartialEq, Eq, Structural)]
pub enum GameCommand {
    Reset,
    Quit,
    NextMap,
    PreviousMap,
}

/// What one input event asks for: at most one move and at most one command.
#[derive(Debug, Clone, Copy, PartialEq, Eq, Structural)]
pub struct InputAction {
    pub movement_command: Option<MoveDirection>,
    pub game_command: Option<GameCommand>,
}

/// A key press as the session reads it; `Other` stands for every other key
/// and for events that are not key presses.
#[derive(Debug, Clone, Copy, PartialEq, Eq, Structural)]
pub enum Key {
    Left,
    Right,
    Up,
    Down,
    Esc,
    Char(char),
    Other,
}

/// The move that a key asks for: the arrow keys.
pub open spec fn movement_for(key: Key) -> Option<MoveDirection> {
    match key {
        Key::Left => Some(MoveDirection::Left),
        Key::Right => Some(MoveDirection::Right),
        Key::Up => Some(MoveDirection::Up),
        Key::Down => Some(MoveDirection::Down),
        _ => None,
    }
}

/// The command that a key asks for: `q` or Esc quits, `n` and `p` go to the
/// next and the previous level, `r` resets the level.
pub open spec fn command_for(key: Key) -> Option<GameCommand> {
    match key {
        Key::Esc => Some(GameCommand::Quit),
        Key::Char(c) => if c == 'q' {
            Some(GameCommand::Quit)
        } else if c == 'n' {
            Some(GameCommand::NextMap)
        } else if c == 'p' {
            Some(GameCommand::PreviousMap)
        } else if c == 'r' {
            Some(GameCommand::Reset)
        } else {
            None
        },
        _ => None,
    }
}

impl InputAction {
    /// The action that a key press asks for.
    pub fn from_key(key: Key) -> (r: InputAction)
        ensures
            r.movement_command == movement_for(key),
            r.game_command == command_for(key),
    {
        let movement_command = match key {
            Key::Left => Some(MoveDirection::Left),
            Key::Right => Some(MoveDirection::Right),
            Key::Up => Some(MoveDirection::Up),
            Key::Down => Some(MoveDirection::Down),
            _ => None,
        };
        let game_command = match key {
            Key::Esc | Key::Char('q') => Some(GameCommand::Quit),
            Key::Char('n') => Some(GameCommand::NextMap),
            Key::Char('p') => Some(GameCommand::PreviousMap),
            Key::Char('r') => Some(GameCommand::Reset),
            _ => None,
        };
        InputAction { movement_command, game_command }
    }
}

/// A source of input actions, one per call.
pub trait UserInputProvider {
    fn get_user_input(&mut self) -> InputAction;
}

} // verus!
