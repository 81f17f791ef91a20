//! The text of one open document, edited at line and column positions.

use vstd::prelude::*;

use crate::ids::DocumentId;
use crate::text::{
    at_position, chars_of, column_of, has_position, index_of_position, length_of_line,
    lemma_delete_before_undoes_insert, lemma_line_column_bounded, lemma_position_index,
    line_length, line_of, position_index, same_chars, string_of,
};

verus! {

/// The standard library's I/O error, carried by the errors of reading and
/// saving a document.
#[verifier::external_type_specification]
#[verifier::external_body]
pub struct ExIoError(std::io::Error);

/// What can go wrong while editing documents.
#[derive(Debug)]
pub enum EditorError {
    FileNotFound(String),
    FailedToReadFile { path: String, source: std::io::Error },
    FailedToSaveFile { path: String, source: std::io::Error },
    BufferNotOpen(DocumentId),
    BufferAlreadyOpen(DocumentId),
}

impl EditorError {
    /// This is the error that no buffer for document `id` is open.
    pub open spec fn is_buffer_not_open(&self, id: DocumentId) -> bool {
        match self {
            EditorError::BufferNotOpen(e) => *e == id,
            _ => false,
        }
    }

    /// This is the error that a buffer for document `id` is open already.
    pub open spec fn is_buffer_already_open(&self, id: DocumentId) -> bool {
        match self {
            EditorError::BufferAlreadyOpen(e) => *e == id,
            _ => false,
        }
    }

    /// The text of this error's message.
    pub open spec fn spec_message(&self) -> Seq<char> {
        match self {
            EditorError::FileNotFound(path) => "file not found: "@ + path@,
            EditorError::FailedToReadFile { path, .. } => "failed to read file: "@ + path@,
            EditorError::FailedToSaveFile { path, .. } => "failed to save file: "@ + path@,
            EditorError::BufferNotOpen(_) => "buffer is not open"@,
            EditorError::BufferAlreadyOpen(_) => "buffer is already open"@,
        }
    }

    /// The message that describes this error.
    pub fn message(&self) -> (r: String)
        ensures
            r@ == self.spec_message(),
    {
        match self {
            EditorError::FileNotFound(path) => {
                let mut m = String::from_str("file not found: ");
                m.append(path.as_str());
                m
            },
            EditorError::FailedToReadFile { path, .. } => {
                let mut m = String::from_str("failed to read file: ");
                m.append(path.as_str());
                m
            },
            EditorError::FailedToSaveFile { path, .. } => {
                let mut m = String::from_str("failed to save file: ");
                m.append(path.as_str());
                m
            },
            EditorError::BufferNotOpen(_) => String::from_str("buffer is not open"),
            EditorError::BufferAlreadyOpen(_) => String::from_str("buffer is already open"),
        }
    }
}

/// What a backspace did to a buffer.
#[derive(Debug, Clone, Copy, PartialEq, Eq, Structural)]
pub enum BackspaceResult {
    Noop,
    CharacterDeleted,
    LinesJoined { line: usize, column: usize },
}

/// The state of a buffer as plain values.
pub struct DocumentBufferView {
    pub document_id: DocumentId,
    pub path: Seq<char>,
    pub content: Seq<char>,
    pub version: u64,
    pub dirty: bool,
}

impl DocumentBufferView {
    /// The same buffer with `content` as its text, one version later and
    /// dirty.
    pub open spec fn edited(self, content: Seq<char>) -> DocumentBufferView {
        DocumentBufferView { content, version: (self.version + 1) as u64, dirty: true, ..self }
    }
}

/// What a backspace at `line` and `column` does: it gives `r` and turns
/// buffer `before` into `after`.
pub open spec fn backspace_outcome(
    before: DocumentBufferView,
    line: usize,
    column: usize,
    r: BackspaceResult,
    after: DocumentBufferView,
) -> bool {
    let s = before.content;
    let k = position_index(s, line as int, column as int);
    match r {
        BackspaceResult::Noop => {
            &&& (line == 0 && column == 0) || !has_position(s, line as int, column as int)
            &&& after == before
        },
        BackspaceResult::CharacterDeleted => {
            &&& column > 0
            &&& has_position(s, line as int, column as int)
            &&& after == before.edited(s.remove(k - 1))
        },
        BackspaceResult::LinesJoined { line: joined_line, column: joined_column } => {
            &&& column == 0
            &&& line > 0
            &&& has_position(s, line as int, column as int)
            &&& joined_line == line - 1
            &&& joined_column == line_length(s, line - 1)
            &&& s[k - 1] == '\n'
            &&& after == before.edited(s.remove(k - 1))
        },
    }
}

/// Typing a character at a position and then deleting backwards from just
/// after it gives the text back: the deletion takes the character typed
/// (joining the two lines where it was a newline), and the buffer ends two
/// versions on and dirty.
pub proof fn lemma_backspace_undoes_insert(
    before: DocumentBufferView,
    line: usize,
    column: usize,
    c: char,
    r: BackspaceResult,
    after: DocumentBufferView,
)
    requires
        has_position(before.content, line as int, column as int),
        before.version < u64::MAX - 1,
        c == '\n' ==> line < usize::MAX,
        c != '\n' ==> column < usize::MAX,
        backspace_outcome(
            before.edited(
                before.content.insert(position_index(before.content, line as int, column as int), c),
            ),
            if c == '\n' { (line + 1) as usize } else { line },
            if c == '\n' { 0usize } else { (column + 1) as usize },
            r,
            after,
        ),
    ensures
        after.content == before.content,
        after.version == before.version + 2,
        after.dirty,
        after.document_id == before.document_id,
        after.path == before.path,
        if c == '\n' {
            r matches BackspaceResult::LinesJoined { line: joined, .. } && joined == line
        } else {
            r == BackspaceResult::CharacterDeleted
        },
{
    lemma_delete_before_undoes_insert(before.content, line as int, column as int, c);
}

/// Buffer `b` is clean since the last time its text was read or saved,
/// which left it at version `saved_version` holding `saved_text`: it is dirty
/// exactly when its version has passed that one, and while it is not dirty
/// it holds that text.
pub open spec fn clean_since(b: DocumentBufferView, saved_version: u64, saved_text: Seq<char>) -> bool {
    &&& saved_version <= b.version
    &&& (b.dirty <==> b.version > saved_version)
    &&& !b.dirty ==> b.content == saved_text
}

/// A buffer is dirty exactly when its version has passed the one it had
/// when its text was last read or saved, and a buffer that is not dirty
/// holds the text of that read or save. A buffer just read (`new`) is so at
/// version 0 with the text read; every edit (`edited`, as replacing,
/// inserting and deleting state) keeps it so, as does every step that leaves
/// the buffer as it was; a successful save (`complete_save`) makes it so
/// anew at the current version and text.
pub proof fn lemma_dirty_tracks_last_save(
    b: DocumentBufferView,
    saved_version: u64,
    saved_text: Seq<char>,
    content: Seq<char>,
)
    ensures
        clean_since(
            DocumentBufferView { content, version: 0, dirty: false, ..b },
            0,
            content,
        ),
        clean_since(b, saved_version, saved_text) && b.version < u64::MAX ==> clean_since(
            b.edited(content),
            saved_version,
            saved_text,
        ),
        clean_since(DocumentBufferView { dirty: false, ..b }, b.version, b.content),
{
}

/// One step in the life of a buffer, as the contracts of its operations
/// describe it: an edit that leaves the given text (`replace_content` with a
/// new text, `insert_charracter` at a position the text has, a `backspace`
/// that deletes), a successful save (`complete_save` given `Ok`), or a step
/// that leaves the buffer as it was (any other call).
pub enum BufferStep {
    Edit(Seq<char>),
    Saved,
    Unchanged,
}

/// The buffer after `step`.
pub open spec fn after_step(b: DocumentBufferView, step: BufferStep) -> DocumentBufferView {
    match step {
        BufferStep::Edit(content) => b.edited(content),
        BufferStep::Saved => DocumentBufferView { dirty: false, ..b },
        BufferStep::Unchanged => b,
    }
}

/// The buffer after `steps`, taken in order.
pub open spec fn after_steps(b: DocumentBufferView, steps: Seq<BufferStep>) -> DocumentBufferView
    decreases steps.len(),
{
    if steps.len() == 0 {
        b
    } else {
        after_step(after_steps(b, steps.drop_last()), steps.last())
    }
}

/// The version and text of the buffer at the last successful save among
/// `steps`, or those of `b` where there is none.
pub open spec fn last_saved(b: DocumentBufferView, steps: Seq<BufferStep>) -> (u64, Seq<char>)
    decreases steps.len(),
{
    if steps.len() == 0 {
        (b.version, b.content)
    } else if steps.last() is Saved {
        let before = after_steps(b, steps.drop_last());
        (before.version, before.content)
    } else {
        last_saved(b, steps.drop_last())
    }
}

/// Over any history of a buffer that starts clean (as one just read is):
/// the buffer is dirty exactly when its version has passed the one it had at
/// the last successful save (or at the start, where there was none), and
/// while it is not dirty it holds the text of that save; its version grows
/// by at most one per step, and its document and path never change.
pub proof fn lemma_dirty_over_history(b: DocumentBufferView, steps: Seq<BufferStep>)
    requires
        !b.dirty,
        b.version + steps.len() <= u64::MAX,
    ensures
        after_steps(b, steps).version <= b.version + steps.len(),
        after_steps(b, steps).document_id == b.document_id,
        after_steps(b, steps).path == b.path,
        clean_since(after_steps(b, steps), last_saved(b, steps).0, last_saved(b, steps).1),
    decreases steps.len(),
{
    if steps.len() > 0 {
        let rest = steps.drop_last();
        lemma_dirty_over_history(b, rest);
        let prev = after_steps(b, rest);
        let (sv, st) = last_saved(b, rest);
        match steps.last() {
            BufferStep::Edit(content) => {
                lemma_dirty_tracks_last_save(prev, sv, st, content);
            },
            BufferStep::Saved => {
                lemma_dirty_tracks_last_save(prev, sv, st, prev.content);
            },
            BufferStep::Unchanged => {},
        }
    }
}

/// A copy of a buffer's state, handed out to readers.
#[derive(Debug, Clone)]
pub struct DocumentBufferSnapshot {
    pub document_id: DocumentId,
    pub path: String,
    pub content: String,
    pub version: u64,
    pub dirty: bool,
}

/// The text of one open document, with the number of changes made to it
/// (its version) and whether it differs from what was last saved.
#[derive(Debug)]
pub struct DocumentBuffer {
    document_id: DocumentId,
    path: String,
    content: Vec<char>,
    version: u64,
    dirty: bool,
}

impl View for DocumentBuffer {
    type V = DocumentBufferView;

    closed spec fn view(&self) -> DocumentBufferView {
        DocumentBufferView {
            document_id: self.document_id,
            path: self.path@,
            content: self.content@,
            version: self.version,
            dirty: self.dirty,
        }
    }
}

impl DocumentBuffer {
    /// A buffer for document `document_id` at `path`, holding `content` as
    /// read from the file: version 0, not dirty.
    pub fn new(document_id: DocumentId, path: &str, content: &str) -> (r: DocumentBuffer)
        ensures
            r@ == (DocumentBufferView {
                document_id,
                path: path@,
                content: content@,
                version: 0,
                dirty: false,
            }),
    {
        DocumentBuffer {
            document_id,
            path: path.to_owned(),
            content: chars_of(content),
            version: 0,
            dirty: false,
        }
    }

    pub fn document_id(&self) -> (r: DocumentId)
        ensures
            r == self@.document_id,
    {
        self.document_id
    }

    pub fn path(&self) -> (r: &str)
        ensures
            r@ == self@.path,
    {
        self.path.as_str()
    }

    pub fn content(&self) -> (r: String)
        ensures
            r@ == self@.content,
    {
        string_of(&self.content)
    }

    pub fn version(&self) -> (r: u64)
        ensures
            r == self@.version,
    {
        self.version
    }

    pub fn is_dirty(&self) -> (r: bool)
        ensures
            r == self@.dirty,
    {
        self.dirty
    }

    /// A copy of the buffer's state.
    pub fn snapshot(&self) -> (r: DocumentBufferSnapshot)
        ensures
            r.document_id == self@.document_id,
            r.path@ == self@.path,
            r.content@ == self@.content,
            r.version == self@.version,
            r.dirty == self@.dirty,
    {
        DocumentBufferSnapshot {
            document_id: self.document_id,
            path: self.path.clone(),
            content: string_of(&self.content),
            version: self.version,
            dirty: self.dirty,
        }
    }

    /// Replaces the whole text. A text equal to the current one changes
    /// nothing; any other is an edit.
    pub fn replace_content(&mut self, content: &str)
        requires
            old(self)@.content != content@ ==> old(self)@.version < u64::MAX,
        ensures
            final(self)@ == if old(self)@.content == content@ {
                old(self)@
            } else {
                old(self)@.edited(content@)
            },
    {
        let new_content = chars_of(content);
        if !same_chars(&self.content, &new_content) {
            self.content = new_content;
            self.mark_modified();
        }
    }

    /// Records that the text was written to the file: on success the buffer
    /// is no longer dirty; on failure it is unchanged and the error names the
    /// buffer's path.
    pub fn complete_save(&mut self, written: Result<(), std::io::Error>) -> (r: Result<
        (),
        EditorError,
    >)
        ensures
            match written {
                Ok(()) => r is Ok && final(self)@ == (DocumentBufferView {
                    dirty: false,
                    ..old(self)@
                }),
                Err(e) => {
                    &&& final(self)@ == old(self)@
                    &&& r matches Err(EditorError::FailedToSaveFile { path, source })
                    &&& path@ == old(self)@.path
                    &&& source == e
                },
            },
    {
        match written {
            Ok(()) => {
                self.dirty = false;
                Ok(())
            },
            Err(source) => Err(EditorError::FailedToSaveFile { path: self.path.clone(), source }),
        }
    }

    /// Inserts `character` at `line` and `column`. Returns whether that
    /// position exists in the text; where it does not, nothing changes.
    pub fn insert_charracter(&mut self, line: usize, column: usize, character: char) -> (r: bool)
        requires
            has_position(old(self)@.content, line as int, column as int) ==> old(self)@.version
                < u64::MAX,
        ensures
            r == has_position(old(self)@.content, line as int, column as int),
            final(self)@ == if r {
                old(self)@.edited(
                    old(self)@.content.insert(
                        position_index(old(self)@.content, line as int, column as int),
                        character,
                    ),
                )
            } else {
                old(self)@
            },
    {
        match index_of_position(&self.content, line, column) {
            None => false,
            Some(index) => {
                proof {
                    lemma_position_index(self@.content, line as int, column as int, index as int);
                }
                self.content.insert(index, character);
                self.mark_modified();
                true
            },
        }
    }

    /// Deletes the character before `line` and `column`: within a line the
    /// character to its left, at the start of a line the newline that ends the
    /// line before, joining the two. At the start of the text, or at a
    /// position the text does not have, nothing changes.
    pub fn backspace(&mut self, line: usize, column: usize) -> (r: BackspaceResult)
        requires
            !(line == 0 && column == 0) && has_position(old(self)@.content, line as int, column as int)
                ==> old(self)@.version < u64::MAX,
        ensures
            backspace_outcome(old(self)@, line, column, r, final(self)@),
    {
        if line == 0 && column == 0 {
            return BackspaceResult::Noop;
        }
        let ghost s = self@.content;
        if column > 0 {
            let index = match index_of_position(&self.content, line, column) {
                None => {
                    return BackspaceResult::Noop;
                },
                Some(index) => index,
            };
            proof {
                lemma_position_index(s, line as int, column as int, index as int);
                lemma_line_column_bounded(s, index as int);
            }
            self.content.remove(index - 1);
            self.mark_modified();
            return BackspaceResult::CharacterDeleted;
        }
        let previous_line = line - 1;
        let previous_line_length = length_of_line(&self.content, previous_line);
        let line_start = match index_of_position(&self.content, line, 0) {
            None => {
                return BackspaceResult::Noop;
            },
            Some(index) => index,
        };
        proof {
            lemma_position_index(s, line as int, 0, line_start as int);
            if line_start > 0 {
                lemma_line_column_bounded(s, line_start - 1);
            }
        }
        if line_start == 0 || self.content[line_start - 1] != '\n' {
            proof {
                // A line after the first starts just after a newline.
                assert(line_of(s, 0) == 0);
                assert(false);
            }
            return BackspaceResult::Noop;
        }
        self.content.remove(line_start - 1);
        self.mark_modified();
        BackspaceResult::LinesJoined { line: previous_line, column: previous_line_length }
    }

    fn mark_modified(&mut self)
        requires
            old(self).version < u64::MAX,
        ensures
            final(self).version == old(self).version + 1,
            final(self).dirty,
            final(self).document_id == old(self).document_id,
            final(self).path == old(self).path,
            final(self).content == old(self).content,
    {
        self.version += 1;
        self.dirty = true;
    }
}

/// How the editor treats keys: as commands or as text.
#[derive(Debug, Clone, Copy, PartialEq, Eq, Structural)]
pub enum EditorMode {
    Normal,
    Insert,
}

impl Default for EditorMode {
    fn default() -> (r: EditorMode)
        ensures
            r == EditorMode::Normal,
    {
        EditorMode::Normal
    }
}

} // verus!
