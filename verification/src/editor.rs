//! The buffers the editor holds, one per open document, and the edits made
//! to them by document identifier.

use vstd::prelude::*;

use crate::buffer::{
    backspace_outcome, BackspaceResult, DocumentBuffer, DocumentBufferSnapshot,
    DocumentBufferView, EditorError,
};
use crate::ids::DocumentId;
use crate::text::{has_position, position_index};

verus! {

/// The buffers as plain values, in the order they were opened.
pub struct EditorBuffersView {
    pub buffers: Seq<DocumentBufferView>,
}

impl EditorBuffersView {
    /// A buffer for document `id` is open.
    pub open spec fn has(self, id: DocumentId) -> bool {
        exists|i: int| 0 <= i < self.buffers.len() && #[trigger] self.buffers[i].document_id == id
    }

    /// Where the buffer for document `id` stands.
    pub open spec fn index(self, id: DocumentId) -> int {
        choose|i: int| 0 <= i < self.buffers.len() && #[trigger] self.buffers[i].document_id == id
    }

    /// The buffer for document `id`.
    pub open spec fn get(self, id: DocumentId) -> DocumentBufferView {
        self.buffers[self.index(id)]
    }

    /// No two buffers are for the same document.
    pub open spec fn well_formed(self) -> bool {
        forall|i: int, j: int|
            0 <= i < j < self.buffers.len() ==> #[trigger] self.buffers[i].document_id
                != #[trigger] self.buffers[j].document_id
    }

    /// The buffers with the one for document `id` replaced by `b`.
    pub open spec fn with_buffer(self, id: DocumentId, b: DocumentBufferView) -> EditorBuffersView {
        EditorBuffersView { buffers: self.buffers.update(self.index(id), b) }
    }
}

/// Changing the buffer of one open document to `b` keeps the buffers well
/// formed: reading that document then gives `b`, and every other document
/// reads as before.
pub proof fn lemma_with_buffer_reads(v: EditorBuffersView, id: DocumentId, b: DocumentBufferView)
    requires
        v.well_formed(),
        v.has(id),
        b.document_id == id,
    ensures
        v.with_buffer(id, b).well_formed(),
        v.with_buffer(id, b).has(id),
        v.with_buffer(id, b).get(id) == b,
        forall|other: DocumentId|
            other != id ==> (#[trigger] v.with_buffer(id, b).has(other) == v.has(other)) && (v.has(
                other,
            ) ==> v.with_buffer(id, b).get(other) == v.get(other)),
{
    let w = v.with_buffer(id, b);
    let i = v.index(id);
    assert(w.buffers[i].document_id == id);
    assert forall|j: int, k: int| 0 <= j < k < w.buffers.len() implies #[trigger] w.buffers[j].document_id
        != #[trigger] w.buffers[k].document_id by {
        assert(w.buffers[j].document_id == v.buffers[j].document_id);
        assert(w.buffers[k].document_id == v.buffers[k].document_id);
    }
    assert(w.has(id));
    let wi = w.index(id);
    assert(w.buffers[wi].document_id == id);
    assert(wi == i) by {
        if wi != i {
            assert(v.buffers[wi].document_id == id);
        }
    }
    assert forall|other: DocumentId| other != id implies (#[trigger] w.has(other) == v.has(other)) && (
    v.has(other) ==> w.get(other) == v.get(other)) by {
        if v.has(other) {
            let vj = v.index(other);
            assert(w.buffers[vj].document_id == other);
            assert(w.has(other));
            let wj = w.index(other);
            assert(v.buffers[wj].document_id == other);
            assert(wj == vj);
        }
        if w.has(other) {
            let wj = w.index(other);
            assert(v.buffers[wj].document_id == other);
        }
    }
}

/// Reading a buffer after its text was replaced gives the new text: what a
/// read gives back of a write.
pub proof fn lemma_read_after_replace(v: EditorBuffersView, id: DocumentId, content: Seq<char>)
    requires
        v.well_formed(),
        v.has(id),
    ensures
        ({
            let b = if v.get(id).content == content {
                v.get(id)
            } else {
                v.get(id).edited(content)
            };
            &&& v.with_buffer(id, b).has(id)
            &&& v.with_buffer(id, b).get(id).content == content
        }),
{
    let i = v.index(id);
    assert(v.buffers[i].document_id == id);
    let b = if v.get(id).content == content {
        v.get(id)
    } else {
        v.get(id).edited(content)
    };
    lemma_with_buffer_reads(v, id, b);
}

/// The open buffers, at most one per document.
pub struct EditorBuffers {
    buffers: Vec<DocumentBuffer>,
}

impl View for EditorBuffers {
    type V = EditorBuffersView;

    closed spec fn view(&self) -> EditorBuffersView {
        EditorBuffersView { buffers: self.buffers@.map_values(|b: DocumentBuffer| b@) }
    }
}

impl EditorBuffers {
    /// No buffers.
    pub fn new() -> (r: EditorBuffers)
        ensures
            r@.buffers == Seq::<DocumentBufferView>::empty(),
            r@.well_formed(),
    {
        let r = EditorBuffers { buffers: Vec::new() };
        assert(r@.buffers =~= Seq::<DocumentBufferView>::empty());
        r
    }

    /// Where the buffer for document `id` stands, if one is open.
    fn find(&self, id: DocumentId) -> (r: Option<usize>)
        requires
            self@.well_formed(),
        ensures
            match r {
                Some(i) => self@.has(id) && i == self@.index(id) && i < self@.buffers.len(),
                None => !self@.has(id),
            },
    {
        let mut i: usize = 0;
        while i < self.buffers.len()
            invariant
                i <= self.buffers.len(),
                self@.well_formed(),
                forall|j: int| 0 <= j < i ==> #[trigger] self@.buffers[j].document_id != id,
            decreases self.buffers.len() - i,
        {
            if self.buffers[i].document_id() == id {
                assert(self@.buffers[i as int].document_id == id);
                let ghost k = self@.index(id);
                assert(k == i);
                return Some(i);
            }
            i += 1;
        }
        None
    }

    /// Whether a buffer for document `id` is open.
    pub fn contains(&self, id: DocumentId) -> (r: bool)
        requires
            self@.well_formed(),
        ensures
            r == self@.has(id),
    {
        self.find(id).is_some()
    }

    /// The version of the buffer for document `id`, if one is open.
    pub fn version_of(&self, id: DocumentId) -> (r: Option<u64>)
        requires
            self@.well_formed(),
        ensures
            match r {
                Some(v) => self@.has(id) && v == self@.get(id).version,
                None => !self@.has(id),
            },
    {
        match self.find(id) {
            Some(i) => Some(self.buffers[i].version()),
            None => None,
        }
    }

    /// Adds `buffer`; fails with `BufferAlreadyOpen`, changing nothing, where
    /// a buffer for its document is open already.
    pub fn open_buffer(&mut self, buffer: DocumentBuffer) -> (r: Result<(), EditorError>)
        requires
            old(self)@.well_formed(),
        ensures
            final(self)@.well_formed(),
            r is Ok <==> !old(self)@.has(buffer@.document_id),
            r is Ok ==> final(self)@.buffers == old(self)@.buffers.push(buffer@),
            r matches Err(e) ==> final(self)@ == old(self)@ && e.is_buffer_already_open(
                buffer@.document_id,
            ),
    {
        let id = buffer.document_id();
        if self.find(id).is_some() {
            return Err(EditorError::BufferAlreadyOpen(id));
        }
        let ghost before = self@.buffers;
        self.buffers.push(buffer);
        proof {
            assert(self@.buffers =~= before.push(buffer@));
            assert forall|i: int, j: int| 0 <= i < j < self@.buffers.len() implies #[trigger] self@.buffers[i].document_id
                != #[trigger] self@.buffers[j].document_id by {
                if j == before.len() {
                    assert(before[i].document_id != id);
                }
            }
        }
        Ok(())
    }

    /// Removes the buffer for document `id`; fails with `BufferNotOpen`,
    /// changing nothing, where none is open.
    pub fn close_buffer(&mut self, id: DocumentId) -> (r: Result<(), EditorError>)
        requires
            old(self)@.well_formed(),
        ensures
            final(self)@.well_formed(),
            r is Ok <==> old(self)@.has(id),
            r is Ok ==> final(self)@.buffers == old(self)@.buffers.remove(old(self)@.index(id)),
            r matches Err(e) ==> final(self)@ == old(self)@ && e.is_buffer_not_open(id),
    {
        let index = match self.find(id) {
            None => {
                return Err(EditorError::BufferNotOpen(id));
            },
            Some(index) => index,
        };
        let ghost before = self@.buffers;
        self.buffers.remove(index);
        proof {
            let nb = self@.buffers;
            assert(nb =~= before.remove(index as int));
            assert forall|i: int, j: int| 0 <= i < j < nb.len() implies #[trigger] nb[i].document_id
                != #[trigger] nb[j].document_id by {
                let oi = if i < index { i } else { i + 1 };
                let oj = if j < index { j } else { j + 1 };
                assert(nb[i] == before[oi]);
                assert(nb[j] == before[oj]);
            }
        }
        Ok(())
    }

    /// A copy of the state of the buffer for document `id`.
    pub fn buffer(&self, id: DocumentId) -> (r: Result<DocumentBufferSnapshot, EditorError>)
        requires
            self@.well_formed(),
        ensures
            r is Ok <==> self@.has(id),
            r matches Ok(s) ==> s.document_id == id && s.path@ == self@.get(id).path && s.content@
                == self@.get(id).content && s.version == self@.get(id).version && s.dirty
                == self@.get(id).dirty,
            r matches Err(e) ==> e.is_buffer_not_open(id),
    {
        match self.find(id) {
            None => Err(EditorError::BufferNotOpen(id)),
            Some(i) => Ok(self.buffers[i].snapshot()),
        }
    }

    /// The path and text of the buffer for document `id`: what saving it
    /// writes, and where.
    pub fn save_request(&self, id: DocumentId) -> (r: Result<(String, String), EditorError>)
        requires
            self@.well_formed(),
        ensures
            r is Ok <==> self@.has(id),
            r matches Ok((path, content)) ==> path@ == self@.get(id).path && content@ == self@.get(
                id,
            ).content,
            r matches Err(e) ==> e.is_buffer_not_open(id),
    {
        match self.find(id) {
            None => Err(EditorError::BufferNotOpen(id)),
            Some(i) => Ok((self.buffers[i].path().to_owned(), self.buffers[i].content())),
        }
    }

    /// Takes the buffer at `index` out, keeping the others in place.
    fn take_out(&mut self, index: usize) -> (r: DocumentBuffer)
        requires
            index < old(self)@.buffers.len(),
        ensures
            r@ == old(self)@.buffers[index as int],
            final(self)@.buffers == old(self)@.buffers.remove(index as int),
    {
        let ghost before = self@.buffers;
        let r = self.buffers.remove(index);
        assert(self@.buffers =~= before.remove(index as int));
        r
    }

    /// Puts `b` back at `index`, where it was taken out.
    fn put_back(&mut self, index: usize, b: DocumentBuffer)
        requires
            index <= old(self)@.buffers.len(),
        ensures
            final(self)@.buffers == old(self)@.buffers.insert(index as int, b@),
    {
        let ghost before = self@.buffers;
        self.buffers.insert(index, b);
        assert(self@.buffers =~= before.insert(index as int, b@));
    }

    /// Replacing one buffer by another for the same document keeps the
    /// buffers well formed.
    proof fn lemma_replace_keeps_well_formed(
        before: EditorBuffersView,
        index: int,
        b: DocumentBufferView,
    )
        requires
            before.well_formed(),
            0 <= index < before.buffers.len(),
            b.document_id == before.buffers[index].document_id,
        ensures
            before.buffers.remove(index).insert(index, b) == before.buffers.update(index, b),
            (EditorBuffersView { buffers: before.buffers.update(index, b) }).well_formed(),
    {
        assert(before.buffers.remove(index).insert(index, b) =~= before.buffers.update(index, b));
        let nb = before.buffers.update(index, b);
        assert forall|i: int, j: int| 0 <= i < j < nb.len() implies #[trigger] nb[i].document_id
            != #[trigger] nb[j].document_id by {
            assert(nb[i].document_id == before.buffers[i].document_id);
            assert(nb[j].document_id == before.buffers[j].document_id);
        }
    }

    /// Replaces the text of the buffer for document `id`.
    pub fn replace_content(&mut self, id: DocumentId, content: &str) -> (r: Result<(), EditorError>)
        requires
            old(self)@.well_formed(),
            old(self)@.has(id) && old(self)@.get(id).content != content@ ==> old(self)@.get(
                id,
            ).version < u64::MAX,
        ensures
            final(self)@.well_formed(),
            r is Ok <==> old(self)@.has(id),
            r matches Err(e) ==> final(self)@ == old(self)@ && e.is_buffer_not_open(id),
            r is Ok ==> final(self)@ == old(self)@.with_buffer(
                id,
                if old(self)@.get(id).content == content@ {
                    old(self)@.get(id)
                } else {
                    old(self)@.get(id).edited(content@)
                },
            ),
    {
        let index = match self.find(id) {
            None => {
                return Err(EditorError::BufferNotOpen(id));
            },
            Some(index) => index,
        };
        let ghost before = self@;
        let mut b = self.take_out(index);
        b.replace_content(content);
        proof {
            Self::lemma_replace_keeps_well_formed(before, index as int, b@);
        }
        self.put_back(index, b);
        Ok(())
    }

    /// Records the outcome of writing the buffer for document `id` to its
    /// file.
    pub fn complete_save(&mut self, id: DocumentId, written: Result<(), std::io::Error>) -> (r: Result<
        (),
        EditorError,
    >)
        requires
            old(self)@.well_formed(),
        ensures
            final(self)@.well_formed(),
            !old(self)@.has(id) ==> final(self)@ == old(self)@ && (r matches Err(e)
                && e.is_buffer_not_open(id)),
            old(self)@.has(id) ==> match written {
                Ok(()) => r is Ok && final(self)@ == old(self)@.with_buffer(
                    id,
                    DocumentBufferView { dirty: false, ..old(self)@.get(id) },
                ),
                Err(e) => {
                    &&& final(self)@ == old(self)@
                    &&& r matches Err(EditorError::FailedToSaveFile { path, source })
                    &&& path@ == old(self)@.get(id).path
                    &&& source == e
                },
            },
    {
        let index = match self.find(id) {
            None => {
                return Err(EditorError::BufferNotOpen(id));
            },
            Some(index) => index,
        };
        let ghost before = self@;
        let mut b = self.take_out(index);
        let r = b.complete_save(written);
        proof {
            Self::lemma_replace_keeps_well_formed(before, index as int, b@);
            assert(before.buffers.update(index as int, before.buffers[index as int]) =~= before.buffers);
        }
        self.put_back(index, b);
        r
    }

    /// Inserts `character` at `line` and `column` of the buffer for document
    /// `id`; the result tells whether that position exists.
    pub fn insert_character(&mut self, id: DocumentId, line: usize, column: usize, character: char) -> (r:
        Result<bool, EditorError>)
        requires
            old(self)@.well_formed(),
            old(self)@.has(id) && has_position(old(self)@.get(id).content, line as int, column as int)
                ==> old(self)@.get(id).version < u64::MAX,
        ensures
            final(self)@.well_formed(),
            r is Ok <==> old(self)@.has(id),
            r matches Err(e) ==> final(self)@ == old(self)@ && e.is_buffer_not_open(id),
            r matches Ok(inserted) ==> inserted == has_position(
                old(self)@.get(id).content,
                line as int,
                column as int,
            ) && final(self)@ == old(self)@.with_buffer(
                id,
                if inserted {
                    old(self)@.get(id).edited(
                        old(self)@.get(id).content.insert(
                            position_index(old(self)@.get(id).content, line as int, column as int),
                            character,
                        ),
                    )
                } else {
                    old(self)@.get(id)
                },
            ),
    {
        let index = match self.find(id) {
            None => {
                return Err(EditorError::BufferNotOpen(id));
            },
            Some(index) => index,
        };
        let ghost before = self@;
        let mut b = self.take_out(index);
        let inserted = b.insert_charracter(line, column, character);
        proof {
            Self::lemma_replace_keeps_well_formed(before, index as int, b@);
        }
        self.put_back(index, b);
        Ok(inserted)
    }

    /// Deletes backwards from `line` and `column` in the buffer for document
    /// `id`, as `DocumentBuffer::backspace` does.
    pub fn backspace(&mut self, id: DocumentId, line: usize, column: usize) -> (r: Result<
        BackspaceResult,
        EditorError,
    >)
        requires
            old(self)@.well_formed(),
            old(self)@.has(id) && !(line == 0 && column == 0) && has_position(
                old(self)@.get(id).content,
                line as int,
                column as int,
            ) ==> old(self)@.get(id).version < u64::MAX,
        ensures
            final(self)@.well_formed(),
            r is Ok <==> old(self)@.has(id),
            r matches Err(e) ==> final(self)@ == old(self)@ && e.is_buffer_not_open(id),
            r matches Ok(result) ==> exists|b: DocumentBufferView|
                #![trigger old(self)@.with_buffer(id, b)]
                final(self)@ == old(self)@.with_buffer(id, b) && backspace_outcome(
                    old(self)@.get(id),
                    line,
                    column,
                    result,
                    b,
                ),
    {
        let index = match self.find(id) {
            None => {
                return Err(EditorError::BufferNotOpen(id));
            },
            Some(index) => index,
        };
        let ghost before = self@;
        let mut b = self.take_out(index);
        let result = b.backspace(line, column);
        let ghost after = b@;
        proof {
            Self::lemma_replace_keeps_well_formed(before, index as int, b@);
        }
        self.put_back(index, b);
        assert(self@ == before.with_buffer(id, after));
        Ok(result)
    }
}

} // verus!
