use forge::buffer::{BackspaceResult, DocumentBuffer, EditorError};
use forge::editor::EditorBuffers;
use forge::ids::DocumentId;

fn id(value: u64) -> DocumentId {
    DocumentId::from_value(value)
}

fn with_buffer(value: u64, content: &str) -> EditorBuffers {
    let mut buffers = EditorBuffers::new();
    buffers
        .open_buffer(DocumentBuffer::new(id(value), "/tmp/doc.txt", content))
        .expect("buffer should open");
    buffers
}

#[test]
fn opens_and_reads_buffer() {
    let buffers = with_buffer(1, "Hello, Forge!");
    let snapshot = buffers.buffer(id(1)).expect("buffer should be open");
    assert_eq!(snapshot.document_id, id(1));
    assert_eq!(snapshot.path, "/tmp/doc.txt");
    assert_eq!(snapshot.content, "Hello, Forge!");
    assert_eq!(snapshot.version, 0);
    assert!(!snapshot.dirty);
    assert!(buffers.contains(id(1)));
}

#[test]
fn rejects_second_buffer_for_same_document() {
    let mut buffers = with_buffer(1, "a");
    let result = buffers.open_buffer(DocumentBuffer::new(id(1), "/tmp/other.txt", "b"));
    assert!(matches!(result, Err(EditorError::BufferAlreadyOpen(e)) if e == id(1)));
    assert_eq!(buffers.buffer(id(1)).unwrap().content, "a");
}

#[test]
fn closes_buffer_and_reports_unknown_ones() {
    let mut buffers = with_buffer(1, "a");
    buffers.close_buffer(id(1)).expect("buffer should close");
    assert!(matches!(buffers.buffer(id(1)), Err(EditorError::BufferNotOpen(e)) if e == id(1)));
    assert!(matches!(buffers.close_buffer(id(1)), Err(EditorError::BufferNotOpen(e)) if e == id(1)));
}

#[test]
fn edits_reach_the_right_buffer() {
    let mut buffers = with_buffer(1, "one");
    buffers
        .open_buffer(DocumentBuffer::new(id(2), "/tmp/two.txt", "two"))
        .unwrap();
    buffers.replace_content(id(2), "TWO").unwrap();
    assert!(buffers.insert_character(id(1), 0, 3, '!').unwrap());
    assert_eq!(buffers.buffer(id(1)).unwrap().content, "one!");
    assert_eq!(buffers.buffer(id(2)).unwrap().content, "TWO");
    assert_eq!(buffers.backspace(id(2), 0, 3).unwrap(), BackspaceResult::CharacterDeleted);
    assert_eq!(buffers.buffer(id(2)).unwrap().content, "TW");
    assert_eq!(buffers.buffer(id(2)).unwrap().version, 2);
}

#[test]
fn edits_of_unknown_buffer_fail() {
    let mut buffers = with_buffer(1, "one");
    assert!(matches!(buffers.replace_content(id(5), "x"), Err(EditorError::BufferNotOpen(e)) if e == id(5)));
    assert!(matches!(buffers.insert_character(id(5), 0, 0, 'x'), Err(EditorError::BufferNotOpen(_))));
    assert!(matches!(buffers.backspace(id(5), 0, 1), Err(EditorError::BufferNotOpen(_))));
    assert!(matches!(buffers.save_request(id(5)), Err(EditorError::BufferNotOpen(_))));
}

#[test]
fn save_clears_dirty_flag_only_on_success() {
    let mut buffers = with_buffer(1, "one");
    buffers.replace_content(id(1), "changed").unwrap();
    let (path, content) = buffers.save_request(id(1)).unwrap();
    assert_eq!(path, "/tmp/doc.txt");
    assert_eq!(content, "changed");

    let failed = buffers.complete_save(id(1), Err(std::io::Error::other("disk full")));
    assert!(matches!(failed, Err(EditorError::FailedToSaveFile { path, .. }) if path == "/tmp/doc.txt"));
    assert!(buffers.buffer(id(1)).unwrap().dirty);

    buffers.complete_save(id(1), Ok(())).unwrap();
    assert!(!buffers.buffer(id(1)).unwrap().dirty);
    assert_eq!(buffers.buffer(id(1)).unwrap().version, 1);
}
