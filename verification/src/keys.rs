//! What a key press does in each editor mode.

use vstd::prelude::*;

use crate::buffer::EditorMode;

verus! {

/// A key of the keyboard, as far as the editor tells keys apart.
#[derive(Debug, Clone, Copy, PartialEq, Eq, Structural)]
pub enum Key {
    Char(char),
    Left,
    Right,
    Up,
    Down,
    Esc,
    Backspace,
    Other,
}

/// A keyboard event: which key, whether it was a press (rather than a
/// release or a repeat), and whether Control was held.
#[derive(Debug, Clone, Copy, PartialEq, Eq, Structural)]
pub struct KeyInput {
    pub key: Key,
    pub pressed: bool,
    pub control: bool,
}

/// What the editor does in answer to a key.
#[derive(Debug, Clone, Copy, PartialEq, Eq, Structural)]
pub enum EditorAction {
    Exit,
    EnterInsertMode,
    EnterNormalMode,
    MoveLeft,
    MoveRight,
    MoveUp,
    MoveDown,
    InsertCharacter(char),
    Backspace,
    Nothing,
}

/// Whether the editor goes on after handling an event.
#[derive(Debug, Clone, Copy, PartialEq, Eq, Structural)]
pub enum ControlFlow {
    Continue,
    Exit,
}

/// The action of a key press in normal mode: `q` quits, `i` enters insert
/// mode, the arrows and `h` `l` `k` `j` move the cursor.
pub open spec fn normal_mode_action(key: Key) -> EditorAction {
    match key {
        Key::Char('q') => EditorAction::Exit,
        Key::Char('i') => EditorAction::EnterInsertMode,
        Key::Left | Key::Char('h') => EditorAction::MoveLeft,
        Key::Right | Key::Char('l') => EditorAction::MoveRight,
        Key::Up | Key::Char('k') => EditorAction::MoveUp,
        Key::Down | Key::Char('j') => EditorAction::MoveDown,
        _ => EditorAction::Nothing,
    }
}

/// The action of a key press in insert mode: Escape returns to normal mode,
/// a character typed without Control is inserted, Backspace deletes.
pub open spec fn insert_mode_action(key: Key, control: bool) -> EditorAction {
    match key {
        Key::Esc => EditorAction::EnterNormalMode,
        Key::Char(c) => if control {
            EditorAction::Nothing
        } else {
            EditorAction::InsertCharacter(c)
        },
        Key::Backspace => EditorAction::Backspace,
        _ => EditorAction::Nothing,
    }
}

/// The action of `input` in `mode`; only presses act.
pub fn action_for(mode: EditorMode, input: KeyInput) -> (r: EditorAction)
    ensures
        r == if !input.pressed {
            EditorAction::Nothing
        } else {
            match mode {
                EditorMode::Normal => normal_mode_action(input.key),
                EditorMode::Insert => insert_mode_action(input.key, input.control),
            }
        },
{
    if !input.pressed {
        return EditorAction::Nothing;
    }
    match mode {
        EditorMode::Normal => match input.key {
            Key::Char('q') => EditorAction::Exit,
            Key::Char('i') => EditorAction::EnterInsertMode,
            Key::Left | Key::Char('h') => EditorAction::MoveLeft,
            Key::Right | Key::Char('l') => EditorAction::MoveRight,
            Key::Up | Key::Char('k') => EditorAction::MoveUp,
            Key::Down | Key::Char('j') => EditorAction::MoveDown,
            _ => EditorAction::Nothing,
        },
        EditorMode::Insert => match input.key {
            Key::Esc => EditorAction::EnterNormalMode,
            Key::Char(c) => if input.control {
                EditorAction::Nothing
            } else {
                EditorAction::InsertCharacter(c)
            },
            Key::Backspace => EditorAction::Backspace,
            _ => EditorAction::Nothing,
        },
    }
}

/// The editor goes on after any action but `Exit`.
pub fn control_flow(action: EditorAction) -> (r: ControlFlow)
    ensures
        r == if action == EditorAction::Exit {
            ControlFlow::Exit
        } else {
            ControlFlow::Continue
        },
{
    match action {
        EditorAction::Exit => ControlFlow::Exit,
        _ => ControlFlow::Continue,
    }
}

/// The key bindings: in normal mode `q` quits, `i` enters insert mode, and
/// each of `h`, `l`, `k`, `j` does what the Left, Right, Up and Down arrows
/// do, moving the cursor that way; no other key does any of these. In insert
/// mode Escape returns to normal mode, Backspace deletes, and a character
/// typed without Control is inserted, and nothing else does so. A key that is
/// not pressed does nothing in either mode.
pub proof fn lemma_key_bindings(key: Key, c: char, control: bool)
    ensures
        (normal_mode_action(key) == EditorAction::MoveLeft) == (key == Key::Left || key == Key::Char('h')),
        (normal_mode_action(key) == EditorAction::MoveRight) == (key == Key::Right || key == Key::Char('l')),
        (normal_mode_action(key) == EditorAction::MoveUp) == (key == Key::Up || key == Key::Char('k')),
        (normal_mode_action(key) == EditorAction::MoveDown) == (key == Key::Down || key == Key::Char('j')),
        (normal_mode_action(key) == EditorAction::Exit) == (key == Key::Char('q')),
        (normal_mode_action(key) == EditorAction::EnterInsertMode) == (key == Key::Char('i')),
        normal_mode_action(Key::Char('h')) == normal_mode_action(Key::Left),
        normal_mode_action(Key::Char('l')) == normal_mode_action(Key::Right),
        normal_mode_action(Key::Char('k')) == normal_mode_action(Key::Up),
        normal_mode_action(Key::Char('j')) == normal_mode_action(Key::Down),
        (insert_mode_action(key, control) == EditorAction::InsertCharacter(c)) == (key == Key::Char(c)
            && !control),
        (insert_mode_action(key, control) == EditorAction::EnterNormalMode) == (key == Key::Esc),
        (insert_mode_action(key, control) == EditorAction::Backspace) == (key == Key::Backspace),
{
}

} // verus!
