use forge::buffer::{BackspaceResult, DocumentBuffer, EditorError, EditorMode};
use forge::ids::DocumentId;

fn buffer_with(content: &str) -> DocumentBuffer {
    DocumentBuffer::new(DocumentId::from_value(1), "/tmp/document.txt", content)
}

#[test]
fn should_load_document_buffer_from_file() {
    let document_id = DocumentId::from_value(9);
    let buffer = DocumentBuffer::new(document_id, "/tmp/document.txt", "Hello, Forge!");

    assert_eq!(buffer.document_id(), document_id);
    assert_eq!(buffer.path(), "/tmp/document.txt");
    assert_eq!(buffer.content(), "Hello, Forge!");
    assert_eq!(buffer.version(), 0);
    assert!(!buffer.is_dirty());
}

#[test]
fn should_replace_content() {
    let mut buffer = buffer_with("old content");

    buffer.replace_content("new content");

    assert_eq!(buffer.content(), "new content");
    assert_eq!(buffer.version(), 1);
    assert!(buffer.is_dirty());
}

#[test]
fn should_not_modify_buffer_when_content_is_identical() {
    let mut buffer = buffer_with("same content");

    buffer.replace_content("same content");

    assert_eq!(buffer.content(), "same content");
    assert_eq!(buffer.version(), 0);
    assert!(!buffer.is_dirty());
}

#[test]
fn should_increment_version_for_each_content_change() {
    let mut buffer = buffer_with("version zero");

    buffer.replace_content("version one");
    buffer.replace_content("version two");

    assert_eq!(buffer.version(), 2);
    assert_eq!(buffer.content(), "version two");
    assert!(buffer.is_dirty());
}

#[test]
fn should_save_content_to_file() {
    let mut buffer = buffer_with("old content");

    buffer.replace_content("saved content");
    buffer.complete_save(Ok(())).expect("failed to save buffer");

    assert!(!buffer.is_dirty());
    assert_eq!(buffer.version(), 1);
    assert_eq!(buffer.content(), "saved content");
}

#[test]
fn should_keep_buffer_dirty_when_save_fails() {
    let mut buffer = buffer_with("initial content");

    buffer.replace_content("modified content");

    let result = buffer.complete_save(Err(std::io::Error::new(
        std::io::ErrorKind::NotFound,
        "directory removed",
    )));

    assert!(matches!(
        result,
        Err(EditorError::FailedToSaveFile { path: error_path, .. }) if error_path == "/tmp/document.txt"
    ));

    assert!(buffer.is_dirty());
    assert_eq!(buffer.version(), 1);
    assert_eq!(buffer.content(), "modified content");
}

#[test]
fn inserts_character_at_line_and_column() {
    let mut buffer = buffer_with("ab\ncd");
    assert!(buffer.insert_charracter(1, 1, 'X'));
    assert_eq!(buffer.content(), "ab\ncXd");
    assert_eq!(buffer.version(), 1);
    assert!(buffer.is_dirty());
}

#[test]
fn inserts_at_end_of_line_and_end_of_text() {
    let mut buffer = buffer_with("ab\ncd");
    assert!(buffer.insert_charracter(0, 2, '!'));
    assert_eq!(buffer.content(), "ab!\ncd");
    assert!(buffer.insert_charracter(1, 2, '?'));
    assert_eq!(buffer.content(), "ab!\ncd?");
    assert_eq!(buffer.version(), 2);
}

#[test]
fn refuses_positions_the_text_does_not_have() {
    let mut buffer = buffer_with("ab\ncd");
    assert!(!buffer.insert_charracter(0, 3, 'X'));
    assert!(!buffer.insert_charracter(2, 0, 'X'));
    assert_eq!(buffer.content(), "ab\ncd");
    assert_eq!(buffer.version(), 0);
    assert!(!buffer.is_dirty());
}

#[test]
fn counts_columns_in_characters_not_bytes() {
    let mut buffer = buffer_with("é\nü");
    assert!(buffer.insert_charracter(0, 1, 'x'));
    assert_eq!(buffer.content(), "éx\nü");
    assert_eq!(buffer.backspace(1, 1), BackspaceResult::CharacterDeleted);
    assert_eq!(buffer.content(), "éx\n");
}

#[test]
fn backspace_at_start_of_text_does_nothing() {
    let mut buffer = buffer_with("abc");
    assert_eq!(buffer.backspace(0, 0), BackspaceResult::Noop);
    assert_eq!(buffer.content(), "abc");
    assert_eq!(buffer.version(), 0);
}

#[test]
fn backspace_deletes_character_before_cursor() {
    let mut buffer = buffer_with("abc\ndef");
    assert_eq!(buffer.backspace(1, 2), BackspaceResult::CharacterDeleted);
    assert_eq!(buffer.content(), "abc\ndf");
    assert_eq!(buffer.version(), 1);
    assert!(buffer.is_dirty());
}

#[test]
fn backspace_at_line_start_joins_lines() {
    let mut buffer = buffer_with("abc\ndef");
    assert_eq!(
        buffer.backspace(1, 0),
        BackspaceResult::LinesJoined { line: 0, column: 3 }
    );
    assert_eq!(buffer.content(), "abcdef");
}

#[test]
fn backspace_join_column_leaves_out_carriage_return() {
    let mut buffer = buffer_with("abc\r\ndef");
    assert_eq!(
        buffer.backspace(1, 0),
        BackspaceResult::LinesJoined { line: 0, column: 3 }
    );
    assert_eq!(buffer.content(), "abc\rdef");
}

#[test]
fn backspace_outside_text_does_nothing() {
    let mut buffer = buffer_with("abc");
    assert_eq!(buffer.backspace(0, 5), BackspaceResult::Noop);
    assert_eq!(buffer.backspace(3, 0), BackspaceResult::Noop);
    assert_eq!(buffer.content(), "abc");
    assert!(!buffer.is_dirty());
}

#[test]
fn backspace_undoes_inserted_character() {
    let mut buffer = buffer_with("hello\nworld");
    assert!(buffer.insert_charracter(1, 2, 'Z'));
    assert_eq!(buffer.backspace(1, 3), BackspaceResult::CharacterDeleted);
    assert_eq!(buffer.content(), "hello\nworld");
    assert_eq!(buffer.version(), 2);
}

#[test]
fn backspace_undoes_inserted_newline() {
    let mut buffer = buffer_with("hello\nworld");
    assert!(buffer.insert_charracter(0, 2, '\n'));
    assert_eq!(buffer.content(), "he\nllo\nworld");
    assert_eq!(
        buffer.backspace(1, 0),
        BackspaceResult::LinesJoined { line: 0, column: 2 }
    );
    assert_eq!(buffer.content(), "hello\nworld");
}

#[test]
fn snapshot_copies_state() {
    let mut buffer = buffer_with("abc");
    buffer.replace_content("xyz");
    let snapshot = buffer.snapshot();
    assert_eq!(snapshot.document_id, DocumentId::from_value(1));
    assert_eq!(snapshot.path, "/tmp/document.txt");
    assert_eq!(snapshot.content, "xyz");
    assert_eq!(snapshot.version, 1);
    assert!(snapshot.dirty);
}

#[test]
fn editor_mode_defaults_to_normal() {
    assert_eq!(EditorMode::default(), EditorMode::Normal);
}

#[test]
fn error_messages_name_the_path() {
    assert_eq!(
        EditorError::FileNotFound("/a.txt".to_string()).message(),
        "file not found: /a.txt"
    );
    assert_eq!(
        EditorError::BufferNotOpen(DocumentId::from_value(1)).message(),
        "buffer is not open"
    );
}

#[test]
fn dirty_exactly_when_version_passed_last_save() {
    let mut buffer = buffer_with("saved");
    assert!(!buffer.is_dirty());

    assert!(buffer.insert_charracter(0, 5, '!'));
    assert!(buffer.is_dirty());
    buffer.complete_save(Ok(())).unwrap();
    let saved_version = buffer.version();
    assert_eq!(saved_version, 1);
    assert!(!buffer.is_dirty());
    assert_eq!(buffer.content(), "saved!");

    buffer.replace_content("other");
    buffer.replace_content("saved!");
    assert_eq!(buffer.content(), "saved!");
    assert_eq!(buffer.version(), saved_version + 2);
    assert!(buffer.is_dirty());

    assert_eq!(buffer.backspace(0, 0), BackspaceResult::Noop);
    assert_eq!(buffer.version(), saved_version + 2);
}
