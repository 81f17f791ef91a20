use forge::buffer::{BackspaceResult, EditorMode};
use forge::cursor::Cursor;
use forge::editor_state::EditorState;
use forge::keys::{action_for, control_flow, ControlFlow, EditorAction, Key, KeyInput};
use forge::viewport::{cursor_cell, Viewport};

fn press(key: Key) -> KeyInput {
    KeyInput { key, pressed: true, control: false }
}

#[test]
fn cursor_moves_and_clamps() {
    let mut cursor = Cursor::default();
    cursor.move_left();
    assert_eq!((cursor.line(), cursor.column()), (0, 0));
    cursor.move_right(2);
    cursor.move_right(2);
    cursor.move_right(2);
    assert_eq!(cursor.column(), 2);
    cursor.move_down(3, 1);
    assert_eq!((cursor.line(), cursor.column()), (1, 1));
    cursor.move_down(2, 5);
    assert_eq!((cursor.line(), cursor.column()), (1, 1));
    cursor.move_up(0);
    assert_eq!((cursor.line(), cursor.column()), (0, 0));
    cursor.move_to(4, 7);
    cursor.move_right_unbounded();
    assert_eq!(cursor.position().line, 4);
    assert_eq!(cursor.position().column, 8);
}

#[test]
fn viewport_scrolls_to_show_cursor() {
    let mut viewport = Viewport::default();
    let mut cursor = Cursor::default();
    cursor.move_to(10, 30);
    viewport.ensure_cursor_visible(&cursor);
    assert_eq!((viewport.scroll_y(), viewport.scroll_x()), (0, 0));

    viewport.resize(20, 5);
    viewport.ensure_cursor_visible(&cursor);
    assert_eq!(viewport.scroll_y(), 6);
    assert_eq!(viewport.scroll_x(), 11);
    assert_eq!((viewport.width(), viewport.height()), (20, 5));

    cursor.move_to(2, 3);
    viewport.ensure_cursor_visible(&cursor);
    assert_eq!((viewport.scroll_y(), viewport.scroll_x()), (2, 3));
    viewport.ensure_cursor_visible(&cursor);
    assert_eq!((viewport.scroll_y(), viewport.scroll_x()), (2, 3));
}

#[test]
fn viewport_without_width_scrolls_only_vertically() {
    let mut viewport = Viewport::default();
    viewport.resize(0, 2);
    let mut cursor = Cursor::default();
    cursor.move_to(5, 9);
    viewport.ensure_cursor_visible(&cursor);
    assert_eq!((viewport.scroll_y(), viewport.scroll_x()), (4, 0));
}

#[test]
fn editor_state_modes() {
    let mut state = EditorState::default();
    assert!(state.is_normal());
    assert_eq!(state.mode(), EditorMode::Normal);
    state.enter_insert_mode();
    assert!(state.is_insert());
    state.enter_normal_mode();
    assert!(!state.is_insert());
}

#[test]
fn editor_state_moves_cursor_through_content() {
    let content = "hello\nhi\r\n\nworld";
    let mut state = EditorState::default();
    state.resize_viewport(10, 2);
    for _ in 0..7 {
        state.move_cursor_right_in(content);
    }
    assert_eq!(state.cursor().column(), 5);
    state.move_cursor_down_in(content);
    assert_eq!((state.cursor().line(), state.cursor().column()), (1, 2));
    state.move_cursor_down_in(content);
    assert_eq!((state.cursor().line(), state.cursor().column()), (2, 0));
    state.move_cursor_down_in(content);
    state.move_cursor_down_in(content);
    assert_eq!((state.cursor().line(), state.cursor().column()), (3, 0));
    assert_eq!(state.viewport().scroll_y(), 2);
    state.move_cursor_up_in(content);
    state.move_cursor_up_in(content);
    assert_eq!(state.cursor().line(), 1);
    assert_eq!(state.viewport().scroll_y(), 1);
    state.move_cursor_left();
    assert_eq!(state.cursor().column(), 0);
}

#[test]
fn editor_state_follows_edits() {
    let mut state = EditorState::default();
    state.cursor_mut().move_to(2, 4);
    state.after_insert(true);
    assert_eq!(state.cursor().column(), 5);
    state.after_insert(false);
    assert_eq!(state.cursor().column(), 5);
    state.after_backspace(BackspaceResult::CharacterDeleted);
    assert_eq!(state.cursor().column(), 4);
    state.after_backspace(BackspaceResult::LinesJoined { line: 1, column: 7 });
    assert_eq!((state.cursor().line(), state.cursor().column()), (1, 7));
    state.after_backspace(BackspaceResult::Noop);
    assert_eq!((state.cursor().line(), state.cursor().column()), (1, 7));
}

#[test]
fn keys_in_normal_mode() {
    let mode = EditorMode::Normal;
    assert_eq!(action_for(mode, press(Key::Char('q'))), EditorAction::Exit);
    assert_eq!(action_for(mode, press(Key::Char('i'))), EditorAction::EnterInsertMode);
    assert_eq!(action_for(mode, press(Key::Char('h'))), EditorAction::MoveLeft);
    assert_eq!(action_for(mode, press(Key::Right)), EditorAction::MoveRight);
    assert_eq!(action_for(mode, press(Key::Char('k'))), EditorAction::MoveUp);
    assert_eq!(action_for(mode, press(Key::Down)), EditorAction::MoveDown);
    assert_eq!(action_for(mode, press(Key::Char('x'))), EditorAction::Nothing);
    let release = KeyInput { key: Key::Char('q'), pressed: false, control: false };
    assert_eq!(action_for(mode, release), EditorAction::Nothing);
}

#[test]
fn keys_in_insert_mode() {
    let mode = EditorMode::Insert;
    assert_eq!(action_for(mode, press(Key::Esc)), EditorAction::EnterNormalMode);
    assert_eq!(action_for(mode, press(Key::Char('q'))), EditorAction::InsertCharacter('q'));
    assert_eq!(action_for(mode, press(Key::Backspace)), EditorAction::Backspace);
    let with_control = KeyInput { key: Key::Char('c'), pressed: true, control: true };
    assert_eq!(action_for(mode, with_control), EditorAction::Nothing);
    assert_eq!(action_for(mode, press(Key::Left)), EditorAction::Nothing);
}

#[test]
fn only_exit_stops_the_editor() {
    assert_eq!(control_flow(EditorAction::Exit), ControlFlow::Exit);
    assert_eq!(control_flow(EditorAction::MoveLeft), ControlFlow::Continue);
}

#[test]
fn cursor_cell_is_offset_from_the_area_corner() {
    let mut cursor = Cursor::default();
    cursor.move_to(12, 30);
    let mut viewport = Viewport::new();
    viewport.resize(20, 5);
    viewport.ensure_cursor_visible(&cursor);
    assert_eq!((viewport.scroll_x(), viewport.scroll_y()), (11, 8));

    assert_eq!(cursor_cell(1, 4, 20, 5, &cursor, &viewport), Some((1 + 19, 4 + 4)));
    assert_eq!(cursor_cell(1, 4, 19, 5, &cursor, &viewport), None);
    assert_eq!(cursor_cell(1, 4, 20, 4, &cursor, &viewport), None);

    let start = Cursor::default();
    assert_eq!(cursor_cell(1, 4, 20, 5, &start, &viewport), Some((1, 4)));
}
