//! Input vocabulary: the abstract actions the game reacts to, and the
//! keyboard mapping that produces them.

use vstd::prelude::*;

verus! {

/// A pressed key, reduced to the keys the game reacts to.
#[derive(Clone, Copy, Debug, PartialEq, Eq, Structural)]
pub enum KeyCode {
    Escape,
    Left,
    Up,
    Right,
    Down,
    Return,
    /// Any key the game does not react to.
    Other,
}

/// An abstract input action, whatever device produced it.
#[derive(Clone, Copy, Debug, PartialEq, Eq, Structural)]
pub enum InputAction {
    Up,
    Down,
    Left,
    Right,
    Select,
    Cancel,
}

/// The action a key press stands for: arrows move, return selects, escape
/// cancels; repeats and other keys mean nothing.
pub open spec fn spec_key_action(keycode: Option<KeyCode>, repeat: bool) -> Option<InputAction> {
    if repeat {
        None
    } else {
        match keycode {
            Some(KeyCode::Escape) => Some(InputAction::Cancel),
            Some(KeyCode::Left) => Some(InputAction::Left),
            Some(KeyCode::Up) => Some(InputAction::Up),
            Some(KeyCode::Right) => Some(InputAction::Right),
            Some(KeyCode::Down) => Some(InputAction::Down),
            Some(KeyCode::Return) => Some(InputAction::Select),
            _ => None,
        }
    }
}

/// Keyboard input handling.
pub struct KeyboardInput {}

impl KeyboardInput {
    /// Maps one key event to the action it stands for.
    pub fn process_key_input(keycode: Option<KeyCode>, repeat: bool) -> (r: Option<InputAction>)
        ensures
            r == spec_key_action(keycode, repeat),
    {
        if repeat {
            return None;
        }
        match keycode {
            Some(KeyCode::Escape) => Some(InputAction::Cancel),
            Some(KeyCode::Left) => Some(InputAction::Left),
            Some(KeyCode::Up) => Some(InputAction::Up),
            Some(KeyCode::Right) => Some(InputAction::Right),
            Some(KeyCode::Down) => Some(InputAction::Down),
            Some(KeyCode::Return) => Some(InputAction::Select),
            _ => None,
        }
    }
}

} // verus!
