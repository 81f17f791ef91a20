//! A workspace: a root folder and the documents opened under it, one of them
//! active.

use vstd::prelude::*;

use crate::ids::{DocumentId, WorkspaceId};
use crate::paths::{path_starts_with, paths_equal, same_path, starts_with};

verus! {

/// Whether a workspace is open.
#[derive(Debug, Clone, Copy, PartialEq, Eq, Structural)]
pub enum WorkspaceState {
    Open,
    Closed,
}

/// What can go wrong while working with a workspace.
#[derive(Debug)]
pub enum WorkspaceError {
    FolderNotFoundOrFile(String),
    AlreadyClosed,
    WorkspaceClosed,
    DocumentOutsideWorkspace(String),
    FileNotFound(String),
    DocumentAlreadyOpen(String),
    DocumentNotFound(DocumentId),
}

/// A `WorkspaceError` as plain values.
pub enum WorkspaceErrorView {
    FolderNotFoundOrFile(Seq<char>),
    AlreadyClosed,
    WorkspaceClosed,
    DocumentOutsideWorkspace(Seq<char>),
    FileNotFound(Seq<char>),
    DocumentAlreadyOpen(Seq<char>),
    DocumentNotFound(DocumentId),
}

impl View for WorkspaceError {
    type V = WorkspaceErrorView;

    open spec fn view(&self) -> WorkspaceErrorView {
        match self {
            WorkspaceError::FolderNotFoundOrFile(p) => WorkspaceErrorView::FolderNotFoundOrFile(p@),
            WorkspaceError::AlreadyClosed => WorkspaceErrorView::AlreadyClosed,
            WorkspaceError::WorkspaceClosed => WorkspaceErrorView::WorkspaceClosed,
            WorkspaceError::DocumentOutsideWorkspace(p) => WorkspaceErrorView::DocumentOutsideWorkspace(
                p@,
            ),
            WorkspaceError::FileNotFound(p) => WorkspaceErrorView::FileNotFound(p@),
            WorkspaceError::DocumentAlreadyOpen(p) => WorkspaceErrorView::DocumentAlreadyOpen(p@),
            WorkspaceError::DocumentNotFound(id) => WorkspaceErrorView::DocumentNotFound(*id),
        }
    }
}

impl WorkspaceError {
    /// The text of this error's message.
    pub open spec fn spec_message(&self) -> Seq<char> {
        match self {
            WorkspaceError::FolderNotFoundOrFile(path) => "Folder not found or it is a file: "@ + path@,
            WorkspaceError::AlreadyClosed => "workspace is already closed"@,
            WorkspaceError::WorkspaceClosed => "workspace is closed"@,
            WorkspaceError::DocumentOutsideWorkspace(path) => "document is outside the workspace: "@
                + path@,
            WorkspaceError::FileNotFound(path) => "file not found: "@ + path@,
            WorkspaceError::DocumentAlreadyOpen(path) => "document is already open: "@ + path@,
            WorkspaceError::DocumentNotFound(_) => "document not found"@,
        }
    }

    /// The message that describes this error.
    pub fn message(&self) -> (r: String)
        ensures
            r@ == self.spec_message(),
    {
        match self {
            WorkspaceError::FolderNotFoundOrFile(path) => {
                let mut m = String::from_str("Folder not found or it is a file: ");
                m.append(path.as_str());
                m
            },
            WorkspaceError::AlreadyClosed => String::from_str("workspace is already closed"),
            WorkspaceError::WorkspaceClosed => String::from_str("workspace is closed"),
            WorkspaceError::DocumentOutsideWorkspace(path) => {
                let mut m = String::from_str("document is outside the workspace: ");
                m.append(path.as_str());
                m
            },
            WorkspaceError::FileNotFound(path) => {
                let mut m = String::from_str("file not found: ");
                m.append(path.as_str());
                m
            },
            WorkspaceError::DocumentAlreadyOpen(path) => {
                let mut m = String::from_str("document is already open: ");
                m.append(path.as_str());
                m
            },
            WorkspaceError::DocumentNotFound(_) => String::from_str("document not found"),
        }
    }
}

/// A document open in a workspace: its identifier and its path.
#[derive(Debug)]
pub struct Document {
    id: DocumentId,
    path: String,
}

impl Document {
    /// The identifier and path of this document as plain values.
    pub closed spec fn entry(&self) -> (DocumentId, Seq<char>) {
        (self.id, self.path@)
    }

    pub fn new(id: DocumentId, path: &str) -> (r: Document)
        ensures
            r.entry() == (id, path@),
    {
        Document { id, path: path.to_owned() }
    }

    pub fn id(&self) -> (r: DocumentId)
        ensures
            r == self.entry().0,
    {
        self.id
    }

    pub fn path(&self) -> (r: &str)
        ensures
            r@ == self.entry().1,
    {
        self.path.as_str()
    }
}

impl Clone for Document {
    fn clone(&self) -> (r: Document)
        ensures
            r.entry() == self.entry(),
    {
        Document { id: self.id, path: self.path.clone() }
    }
}

/// The state of a workspace as plain values. `documents` lists the open
/// documents (identifier and path) in the order they were opened.
pub struct WorkspaceView {
    pub id: WorkspaceId,
    pub root: Seq<char>,
    pub state: WorkspaceState,
    pub documents: Seq<(DocumentId, Seq<char>)>,
    pub active_document: Option<DocumentId>,
    pub next_document_id: u64,
}

impl WorkspaceView {
    /// A document with identifier `id` is open.
    pub open spec fn has_document(self, id: DocumentId) -> bool {
        exists|i: int| 0 <= i < self.documents.len() && #[trigger] self.documents[i].0 == id
    }

    /// Where the document with identifier `id` stands in `documents`.
    pub open spec fn document_index(self, id: DocumentId) -> int {
        choose|i: int| 0 <= i < self.documents.len() && #[trigger] self.documents[i].0 == id
    }

    /// The path of the open document with identifier `id`.
    pub open spec fn document_path(self, id: DocumentId) -> Option<Seq<char>> {
        if self.has_document(id) {
            Some(self.documents[self.document_index(id)].1)
        } else {
            None
        }
    }

    /// A document whose path is equal to `path`, as `Path` compares, is open.
    pub open spec fn path_is_open(self, path: Seq<char>) -> bool {
        exists|i: int|
            0 <= i < self.documents.len() && paths_equal(#[trigger] self.documents[i].1, path)
    }

    /// The workspace is open.
    pub open spec fn is_open(self) -> bool {
        self.state == WorkspaceState::Open
    }

    /// The identifiers are well formed, and no two open documents have equal
    /// paths.
    pub open spec fn well_formed(self) -> bool {
        &&& self.ids_well_formed()
        &&& forall|i: int, j: int|
            0 <= i < self.documents.len() && 0 <= j < self.documents.len() && i != j
                ==> !paths_equal(#[trigger] self.documents[i].1, #[trigger] self.documents[j].1)
    }

    /// Identifiers are distinct, positive and below the next one to be given
    /// out; the active document is an open one.
    pub open spec fn ids_well_formed(self) -> bool {
        &&& self.next_document_id >= 1
        &&& forall|i: int, j: int|
            0 <= i < j < self.documents.len() ==> #[trigger] self.documents[i].0
                != #[trigger] self.documents[j].0
        &&& forall|i: int|
            0 <= i < self.documents.len() ==> 0 < (#[trigger] self.documents[i]).0.spec_value()
                < self.next_document_id
        &&& self.active_document matches Some(id) ==> self.has_document(id)
    }

    /// The error opening `path` gives, if any, given whether `path` lies
    /// under the root, whether it names a file and whether a document with
    /// an equal path is open: the first of these checks that fails.
    pub open spec fn open_error_given(
        self,
        path: Seq<char>,
        inside_root: bool,
        path_is_file: bool,
        already_open: bool,
    ) -> Option<WorkspaceErrorView> {
        if !self.is_open() {
            Some(WorkspaceErrorView::WorkspaceClosed)
        } else if !inside_root {
            Some(WorkspaceErrorView::DocumentOutsideWorkspace(path))
        } else if !path_is_file {
            Some(WorkspaceErrorView::FileNotFound(path))
        } else if already_open {
            Some(WorkspaceErrorView::DocumentAlreadyOpen(path))
        } else {
            None
        }
    }

    /// The error `open_document` gives for `path`, if any.
    pub open spec fn open_document_error(self, path: Seq<char>, path_is_file: bool) -> Option<
        WorkspaceErrorView,
    > {
        self.open_error_given(
            path,
            path_starts_with(path, self.root),
            path_is_file,
            self.path_is_open(path),
        )
    }

    /// The workspace after opening `path` as a new document: it gets the next
    /// identifier and becomes active if no document was.
    pub open spec fn with_document_opened(self, path: Seq<char>) -> WorkspaceView {
        let id = DocumentId::spec_from_value(self.next_document_id);
        WorkspaceView {
            documents: self.documents.push((id, path)),
            active_document: if self.active_document is None {
                Some(id)
            } else {
                self.active_document
            },
            next_document_id: (self.next_document_id + 1) as u64,
            ..self
        }
    }

    /// The error `close_document` or `set_active_document` gives for `id`, if
    /// any.
    pub open spec fn document_error(self, id: DocumentId) -> Option<WorkspaceErrorView> {
        if !self.is_open() {
            Some(WorkspaceErrorView::WorkspaceClosed)
        } else if !self.has_document(id) {
            Some(WorkspaceErrorView::DocumentNotFound(id))
        } else {
            None
        }
    }

    /// The workspace after closing document `id`: it is no longer listed, and
    /// no document is active if it was the active one.
    pub open spec fn with_document_closed(self, id: DocumentId) -> WorkspaceView {
        WorkspaceView {
            documents: self.documents.remove(self.document_index(id)),
            active_document: if self.active_document == Some(id) {
                None
            } else {
                self.active_document
            },
            ..self
        }
    }
}

/// A root folder and the documents opened under it.
#[derive(Debug, Clone)]
pub struct Workspace {
    id: WorkspaceId,
    root: String,
    state: WorkspaceState,
    documents: Vec<Document>,
    active_document: Option<DocumentId>,
    next_document_id: u64,
}

impl View for Workspace {
    type V = WorkspaceView;

    closed spec fn view(&self) -> WorkspaceView {
        WorkspaceView {
            id: self.id,
            root: self.root@,
            state: self.state,
            documents: self.documents@.map_values(|d: Document| d.entry()),
            active_document: self.active_document,
            next_document_id: self.next_document_id,
        }
    }
}

impl Workspace {
    /// Opens the workspace rooted at `root`, given whether `root` names a
    /// directory, as workspace `id` whose first document gets the number
    /// `first_document_id`. Fails with `FolderNotFoundOrFile` exactly when
    /// `root` is no directory.
    pub fn open(root: &str, root_is_directory: bool, id: WorkspaceId, first_document_id: u64) -> (r:
        Result<Workspace, WorkspaceError>)
        requires
            first_document_id > 0,
        ensures
            root_is_directory <==> r is Ok,
            r matches Ok(w) ==> w@ == (WorkspaceView {
                id,
                root: root@,
                state: WorkspaceState::Open,
                documents: Seq::empty(),
                active_document: None,
                next_document_id: first_document_id,
            }) && w@.well_formed(),
            r matches Err(e) ==> e@ == WorkspaceErrorView::FolderNotFoundOrFile(root@),
    {
        if !root_is_directory {
            return Err(WorkspaceError::FolderNotFoundOrFile(root.to_owned()));
        }
        let w = Workspace {
            id,
            root: root.to_owned(),
            state: WorkspaceState::Open,
            documents: Vec::new(),
            active_document: None,
            next_document_id: first_document_id,
        };
        assert(w@.documents =~= Seq::empty());
        Ok(w)
    }

    pub fn id(&self) -> (r: WorkspaceId)
        ensures
            r == self@.id,
    {
        self.id
    }

    /// The number the next opened document's identifier gets.
    pub fn next_document_id(&self) -> (r: u64)
        ensures
            r == self@.next_document_id,
    {
        self.next_document_id
    }

    pub fn root(&self) -> (r: &str)
        ensures
            r@ == self@.root,
    {
        self.root.as_str()
    }

    pub fn state(&self) -> (r: WorkspaceState)
        ensures
            r == self@.state,
    {
        self.state
    }

    pub fn is_open(&self) -> (r: bool)
        ensures
            r == self@.is_open(),
    {
        self.state == WorkspaceState::Open
    }

    /// Closes the workspace; fails with `AlreadyClosed`, changing nothing,
    /// where it is closed already.
    pub fn close(&mut self) -> (r: Result<(), WorkspaceError>)
        ensures
            r is Ok <==> old(self)@.is_open(),
            r matches Err(e) ==> e@ == WorkspaceErrorView::AlreadyClosed && final(self)@ == old(
                self,
            )@,
            r is Ok ==> final(self)@ == (WorkspaceView {
                state: WorkspaceState::Closed,
                ..old(self)@
            }),
    {
        if self.state == WorkspaceState::Closed {
            return Err(WorkspaceError::AlreadyClosed);
        }
        self.state = WorkspaceState::Closed;
        Ok(())
    }

    /// Whether a document whose path equals `path` is open.
    pub fn is_document_open(&self, path: &str) -> (r: bool)
        ensures
            r == self@.path_is_open(path@),
            !r ==> forall|i: int|
                0 <= i < self@.documents.len() ==> !paths_equal(path@, #[trigger] self@.documents[i].1),
            (exists|i: int| 0 <= i < self@.documents.len() && #[trigger] self@.documents[i].1 == path@)
                ==> r,
    {
        let mut i: usize = 0;
        while i < self.documents.len()
            invariant
                i <= self.documents.len(),
                forall|j: int| 0 <= j < i ==> !paths_equal(#[trigger] self@.documents[j].1, path@),
                forall|j: int| 0 <= j < i ==> !paths_equal(path@, #[trigger] self@.documents[j].1),
                forall|j: int| 0 <= j < i ==> #[trigger] self@.documents[j].1 != path@,
            decreases self.documents.len() - i,
        {
            if same_path(self.documents[i].path(), path) {
                assert(paths_equal(self@.documents[i as int].1, path@));
                return true;
            }
            i += 1;
        }
        false
    }

    /// Where the document with identifier `id` stands, if it is open.
    fn find(&self, id: DocumentId) -> (r: Option<usize>)
        requires
            self@.well_formed(),
        ensures
            match r {
                Some(i) => self@.has_document(id) && i == self@.document_index(id) && i
                    < self@.documents.len(),
                None => !self@.has_document(id),
            },
    {
        let mut i: usize = 0;
        while i < self.documents.len()
            invariant
                i <= self.documents.len(),
                self@.well_formed(),
                forall|j: int| 0 <= j < i ==> #[trigger] self@.documents[j].0 != id,
            decreases self.documents.len() - i,
        {
            if self.documents[i].id() == id {
                assert(self@.documents[i as int].0 == id);
                let ghost k = self@.document_index(id);
                assert(k == i);
                return Some(i);
            }
            i += 1;
        }
        None
    }

    /// Opens the document at `path`, given whether `path` names a file. It
    /// gets the next identifier and becomes active if no document was.
    pub fn open_document(&mut self, path: &str, path_is_file: bool) -> (r: Result<
        DocumentId,
        WorkspaceError,
    >)
        requires
            old(self)@.well_formed(),
            old(self)@.open_document_error(path@, path_is_file) is None ==> old(self)@.next_document_id
                < u64::MAX,
        ensures
            final(self)@.well_formed(),
            match old(self)@.open_document_error(path@, path_is_file) {
                Some(e) => r matches Err(err) && err@ == e && final(self)@ == old(self)@,
                None => r == Ok::<DocumentId, WorkspaceError>(
                    DocumentId::spec_from_value(old(self)@.next_document_id),
                ) && final(self)@ == old(self)@.with_document_opened(path@),
            },
    {
        let inside_root = starts_with(path, self.root.as_str());
        self.open_document_checked(path, inside_root, path_is_file)
    }

    /// Opens the document at `path`, given whether it lies under the root and
    /// whether it names a file; fails, changing nothing, at the first check
    /// that does not allow it (the workspace is open, `path` lies under the
    /// root, it names a file, no document with an equal path is open). The
    /// document gets the next identifier and becomes active if no document
    /// was.
    pub fn open_document_checked(&mut self, path: &str, inside_root: bool, path_is_file: bool) -> (r:
        Result<DocumentId, WorkspaceError>)
        requires
            old(self)@.well_formed(),
            old(self)@.open_error_given(
                path@,
                inside_root,
                path_is_file,
                old(self)@.path_is_open(path@),
            ) is None ==> old(self)@.next_document_id < u64::MAX,
        ensures
            final(self)@.well_formed(),
            match old(self)@.open_error_given(
                path@,
                inside_root,
                path_is_file,
                old(self)@.path_is_open(path@),
            ) {
                Some(e) => r matches Err(err) && err@ == e && final(self)@ == old(self)@,
                None => r == Ok::<DocumentId, WorkspaceError>(
                    DocumentId::spec_from_value(old(self)@.next_document_id),
                ) && final(self)@ == old(self)@.with_document_opened(path@),
            },
    {
        if !self.is_open() {
            return Err(WorkspaceError::WorkspaceClosed);
        }
        if !inside_root {
            return Err(WorkspaceError::DocumentOutsideWorkspace(path.to_owned()));
        }
        if !path_is_file {
            return Err(WorkspaceError::FileNotFound(path.to_owned()));
        }
        if self.is_document_open(path) {
            return Err(WorkspaceError::DocumentAlreadyOpen(path.to_owned()));
        }
        let ghost before = self@;
        let document_id = DocumentId::from_value(self.next_document_id);
        self.documents.push(Document::new(document_id, path));
        self.next_document_id = self.next_document_id + 1;
        if self.active_document.is_none() {
            self.active_document = Some(document_id);
        }
        proof {
            assert(self@.documents =~= before.documents.push((document_id, path@)));
            assert(self@.documents[before.documents.len() as int].0 == document_id);
            if let Some(a) = before.active_document {
                let i = choose|i: int| 0 <= i < before.documents.len() && #[trigger] before.documents[i].0 == a;
                assert(self@.documents[i].0 == a);
            }
            let nd = self@.documents;
            let n = before.documents.len() as int;
            assert forall|i: int, j: int|
                0 <= i < nd.len() && 0 <= j < nd.len() && i != j implies !paths_equal(
                #[trigger] nd[i].1,
                #[trigger] nd[j].1,
            ) by {
                if i < n && j < n {
                    assert(nd[i] == before.documents[i]);
                    assert(nd[j] == before.documents[j]);
                } else if i < n {
                    assert(nd[i] == before.documents[i]);
                    assert(!paths_equal(before.documents[i].1, path@));
                } else {
                    assert(nd[j] == before.documents[j]);
                    assert(!paths_equal(path@, before.documents[j].1));
                }
            }
        }
        Ok(document_id)
    }

    /// Closes document `id`; no document is active afterwards if it was the
    /// active one.
    pub fn close_document(&mut self, id: DocumentId) -> (r: Result<(), WorkspaceError>)
        requires
            old(self)@.well_formed(),
        ensures
            final(self)@.well_formed(),
            match old(self)@.document_error(id) {
                Some(e) => r matches Err(err) && err@ == e && final(self)@ == old(self)@,
                None => r is Ok && final(self)@ == old(self)@.with_document_closed(id),
            },
            r is Ok ==> !final(self)@.path_is_open(old(self)@.document_path(id)->0),
    {
        if !self.is_open() {
            return Err(WorkspaceError::WorkspaceClosed);
        }
        let index = match self.find(id) {
            None => {
                return Err(WorkspaceError::DocumentNotFound(id));
            },
            Some(index) => index,
        };
        let ghost before = self@;
        self.documents.remove(index);
        if let Some(active) = self.active_document {
            if active == id {
                self.active_document = None;
            }
        }
        proof {
            let nd = self@.documents;
            let od = before.documents;
            assert(nd =~= od.remove(index as int));
            assert forall|i: int, j: int| 0 <= i < j < nd.len() implies #[trigger] nd[i].0
                != #[trigger] nd[j].0 by {
                let oi = if i < index { i } else { i + 1 };
                let oj = if j < index { j } else { j + 1 };
                assert(nd[i] == od[oi]);
                assert(nd[j] == od[oj]);
            }
            assert forall|i: int| 0 <= i < nd.len() implies 0 < (#[trigger] nd[i]).0.spec_value()
                < self@.next_document_id by {
                let oi = if i < index { i } else { i + 1 };
                assert(nd[i] == od[oi]);
            }
            assert forall|i: int, j: int|
                0 <= i < nd.len() && 0 <= j < nd.len() && i != j implies !paths_equal(
                #[trigger] nd[i].1,
                #[trigger] nd[j].1,
            ) by {
                let oi = if i < index { i } else { i + 1 };
                let oj = if j < index { j } else { j + 1 };
                assert(nd[i] == od[oi]);
                assert(nd[j] == od[oj]);
            }
            let closed_path = od[index as int].1;
            assert(before.document_path(id) == Some(closed_path));
            assert forall|i: int| 0 <= i < nd.len() implies !paths_equal(
                #[trigger] nd[i].1,
                closed_path,
            ) by {
                let oi = if i < index { i } else { i + 1 };
                assert(nd[i] == od[oi]);
                assert(!paths_equal(od[oi].1, od[index as int].1));
            }
            if let Some(a) = self.active_document {
                let i = choose|i: int| 0 <= i < before.documents.len() && #[trigger] before.documents[i].0 == a;
                assert(i != index);
                if i < index {
                    assert(self@.documents[i].0 == a);
                } else {
                    assert(self@.documents[i - 1].0 == a);
                }
            }
        }
        Ok(())
    }

    /// Makes document `id` the active one.
    pub fn set_active_document(&mut self, id: DocumentId) -> (r: Result<(), WorkspaceError>)
        requires
            old(self)@.well_formed(),
        ensures
            final(self)@.well_formed(),
            match old(self)@.document_error(id) {
                Some(e) => r matches Err(err) && err@ == e && final(self)@ == old(self)@,
                None => r is Ok && final(self)@ == (WorkspaceView {
                    active_document: Some(id),
                    ..old(self)@
                }),
            },
    {
        if !self.is_open() {
            return Err(WorkspaceError::WorkspaceClosed);
        }
        match self.find(id) {
            None => Err(WorkspaceError::DocumentNotFound(id)),
            Some(_) => {
                let ghost before = self@;
                self.active_document = Some(id);
                assert(self@.documents == before.documents);
                assert(self@.has_document(id));
                Ok(())
            },
        }
    }

    /// The open document with identifier `id`, if any.
    pub fn document(&self, id: DocumentId) -> (r: Option<&Document>)
        requires
            self@.well_formed(),
        ensures
            match r {
                Some(d) => self@.document_path(id) == Some(d.entry().1) && d.entry().0 == id,
                None => self@.document_path(id) is None,
            },
    {
        match self.find(id) {
            Some(i) => Some(&self.documents[i]),
            None => None,
        }
    }

    /// The open documents, in the order they were opened.
    pub fn documents(&self) -> (r: &[Document])
        ensures
            r@.map_values(|d: Document| d.entry()) == self@.documents,
    {
        self.documents.as_slice()
    }

    /// The identifier of the active document, if any.
    pub fn active_document_id(&self) -> (r: Option<DocumentId>)
        ensures
            r == self@.active_document,
    {
        self.active_document
    }

    /// The active document, if any.
    pub fn active_document(&self) -> (r: Option<&Document>)
        requires
            self@.well_formed(),
        ensures
            match self@.active_document {
                Some(id) => r matches Some(d) && d.entry().0 == id && self@.document_path(id) == Some(
                    d.entry().1,
                ),
                None => r is None,
            },
    {
        match self.active_document {
            Some(id) => self.document(id),
            None => None,
        }
    }
}

/// The identifier that opening a document hands out belongs to no document
/// open before: identifiers are never reused.
pub proof fn lemma_next_identifier_is_fresh(w: WorkspaceView)
    requires
        w.ids_well_formed(),
    ensures
        !w.has_document(DocumentId::spec_from_value(w.next_document_id)),
{
    let id = DocumentId::spec_from_value(w.next_document_id);
    DocumentId::lemma_from_value(w.next_document_id);
    if w.has_document(id) {
        let i = choose|i: int| 0 <= i < w.documents.len() && #[trigger] w.documents[i].0 == id;
        assert(w.documents[i].0.spec_value() < w.next_document_id);
    }
}

/// Each document a workspace lists (as `documents` gives them) is found
/// again by its identifier (as `document` finds them), with its path, where
/// no two listed documents share an identifier, as in every well-formed
/// workspace.
pub proof fn lemma_document_path_at(w: WorkspaceView, i: int)
    requires
        forall|a: int, b: int|
            0 <= a < b < w.documents.len() ==> #[trigger] w.documents[a].0
                != #[trigger] w.documents[b].0,
        0 <= i < w.documents.len(),
    ensures
        w.has_document(w.documents[i].0),
        w.document_index(w.documents[i].0) == i,
        w.document_path(w.documents[i].0) == Some(w.documents[i].1),
{
    let id = w.documents[i].0;
    assert(w.has_document(id));
    let k = w.document_index(id);
    if k < i {
        assert(w.documents[k].0 != w.documents[i].0);
    } else if k > i {
        assert(w.documents[i].0 != w.documents[k].0);
    }
}

/// A document is open exactly while it has been opened and not closed
/// since. Opening gives the new identifier its path and leaves every other
/// identifier as it was; closing takes the closed identifier away and leaves
/// every other one as it was. The active document changes only thus: the
/// first document opened while none is active becomes active, and closing
/// the active document leaves none active (besides `set_active_document`).
/// What is said of opening holds while the identifier count is below its
/// limit, as opening requires.
pub proof fn lemma_documents_follow_open_and_close(
    w: WorkspaceView,
    path: Seq<char>,
    id: DocumentId,
    other: DocumentId,
)
    requires
        w.ids_well_formed(),
    ensures
        w.next_document_id < u64::MAX ==> ({
            let new_id = DocumentId::spec_from_value(w.next_document_id);
            let opened = w.with_document_opened(path);
            &&& opened.ids_well_formed()
            &&& opened.document_path(new_id) == Some(path)
            &&& other != new_id ==> opened.document_path(other) == w.document_path(other)
            &&& opened.active_document == if w.active_document is None {
                Some(new_id)
            } else {
                w.active_document
            }
        }),
        w.has_document(id) ==> ({
            let closed = w.with_document_closed(id);
            &&& closed.ids_well_formed()
            &&& closed.document_path(id) is None
            &&& other != id ==> closed.document_path(other) == w.document_path(other)
            &&& closed.active_document == if w.active_document == Some(id) {
                None
            } else {
                w.active_document
            }
        }),
{
    if w.next_document_id < u64::MAX {
        let new_id = DocumentId::spec_from_value(w.next_document_id);
        let opened = w.with_document_opened(path);
        let n = w.documents.len() as int;
        lemma_next_identifier_is_fresh(w);
        assert forall|a: int, b: int|
            0 <= a < b < opened.documents.len() implies #[trigger] opened.documents[a].0
                != #[trigger] opened.documents[b].0 by {
            if b == n {
                assert(opened.documents[a] == w.documents[a]);
                assert(w.has_document(w.documents[a].0));
            } else {
                assert(opened.documents[a] == w.documents[a]);
                assert(opened.documents[b] == w.documents[b]);
            }
        }
        assert(opened.documents[n] == (new_id, path));
        lemma_document_path_at(opened, n);
        DocumentId::lemma_from_value(w.next_document_id);
        assert forall|i: int| 0 <= i < opened.documents.len() implies 0 < (
        #[trigger] opened.documents[i]).0.spec_value() < opened.next_document_id by {
            if i < n {
                assert(opened.documents[i] == w.documents[i]);
            }
        }
        if let Some(a) = w.active_document {
            let k = w.document_index(a);
            assert(opened.documents[k] == w.documents[k]);
            assert(opened.has_document(a));
        }
        assert(opened.ids_well_formed());
        if other != new_id {
            if w.has_document(other) {
                let k = w.document_index(other);
                lemma_document_path_at(w, k);
                assert(opened.documents[k] == w.documents[k]);
                lemma_document_path_at(opened, k);
            } else {
                if opened.has_document(other) {
                    let k = opened.document_index(other);
                    assert(k != n);
                    assert(opened.documents[k] == w.documents[k]);
                    assert(w.has_document(other));
                }
            }
        }
    }
    if w.has_document(id) {
        let closed = w.with_document_closed(id);
        let k = w.document_index(id);
        let od = w.documents;
        let cd = closed.documents;
        assert(cd =~= od.remove(k));
        assert forall|a: int, b: int| 0 <= a < b < cd.len() implies #[trigger] cd[a].0
            != #[trigger] cd[b].0 by {
            let oa = if a < k { a } else { a + 1 };
            let ob = if b < k { b } else { b + 1 };
            assert(cd[a] == od[oa]);
            assert(cd[b] == od[ob]);
        }
        assert forall|i: int| 0 <= i < cd.len() implies 0 < (#[trigger] cd[i]).0.spec_value()
            < closed.next_document_id by {
            let oi = if i < k { i } else { i + 1 };
            assert(cd[i] == od[oi]);
        }
        if let Some(a) = closed.active_document {
            let m = w.document_index(a);
            assert(od[m].0 == a);
            assert(od[k].0 == id);
            assert(m != k);
            let cm = if m < k { m } else { m - 1 };
            assert(cd[cm] == od[m]);
            assert(closed.has_document(a));
        }
        assert(closed.ids_well_formed());
        if closed.has_document(id) {
            let j = closed.document_index(id);
            let oj = if j < k { j } else { j + 1 };
            assert(cd[j] == od[oj]);
            assert(od[k].0 == id);
            if oj < k {
                assert(od[oj].0 != od[k].0);
            } else {
                assert(od[k].0 != od[oj].0);
            }
        }
        if other != id {
            if w.has_document(other) {
                let m = w.document_index(other);
                lemma_document_path_at(w, m);
                assert(m != k);
                let cm = if m < k { m } else { m - 1 };
                assert(cd[cm] == od[m]);
                lemma_document_path_at(closed, cm);
            } else {
                if closed.has_document(other) {
                    let j = closed.document_index(other);
                    let oj = if j < k { j } else { j + 1 };
                    assert(cd[j] == od[oj]);
                    assert(w.has_document(other));
                }
            }
        }
    }
}

/// Opening a document checks, in order: that the workspace is open, that
/// the path lies under the root as `Path::starts_with` compares them (whole
/// components), that it names a file, and that no document with an equal
/// path is open. A path that does not start with the root, component by
/// component, is refused as outside the workspace in an open workspace,
/// whatever else holds; one that passes all four checks opens.
pub proof fn lemma_open_checks(w: WorkspaceView, path: Seq<char>, path_is_file: bool)
    ensures
        !w.is_open() ==> w.open_document_error(path, path_is_file) == Some(
            WorkspaceErrorView::WorkspaceClosed,
        ),
        w.is_open() && !path_starts_with(path, w.root) ==> w.open_document_error(path, path_is_file)
            == Some(WorkspaceErrorView::DocumentOutsideWorkspace(path)),
        w.is_open() && path_starts_with(path, w.root) && !path_is_file ==> w.open_document_error(
            path,
            path_is_file,
        ) == Some(WorkspaceErrorView::FileNotFound(path)),
        w.is_open() && path_starts_with(path, w.root) && path_is_file && w.path_is_open(path)
            ==> w.open_document_error(path, path_is_file) == Some(
            WorkspaceErrorView::DocumentAlreadyOpen(path),
        ),
        (w.open_document_error(path, path_is_file) is None) == (w.is_open() && path_starts_with(
            path,
            w.root,
        ) && path_is_file && !w.path_is_open(path)),
{
}

/// One successful change of a workspace's documents, as the contracts of
/// its operations describe it: `open_document` of a path, `close_document`
/// or `set_active_document` of an identifier. A call that fails leaves the
/// workspace as it was, and so is no step.
pub enum WorkspaceStep {
    Open(Seq<char>),
    Close(DocumentId),
    Activate(DocumentId),
}

/// `step` can succeed on `w`: the workspace is open, and for a close or an
/// activation the document is open in it (the identifier count being below
/// its limit for an opening).
pub open spec fn step_allowed(w: WorkspaceView, step: WorkspaceStep) -> bool {
    match step {
        WorkspaceStep::Open(_) => w.is_open() && w.next_document_id < u64::MAX,
        WorkspaceStep::Close(id) => w.document_error(id) is None,
        WorkspaceStep::Activate(id) => w.document_error(id) is None,
    }
}

/// The workspace after `step` succeeded.
pub open spec fn after_step(w: WorkspaceView, step: WorkspaceStep) -> WorkspaceView {
    match step {
        WorkspaceStep::Open(path) => w.with_document_opened(path),
        WorkspaceStep::Close(id) => w.with_document_closed(id),
        WorkspaceStep::Activate(id) => WorkspaceView { active_document: Some(id), ..w },
    }
}

/// The workspace after `steps`, taken in order.
pub open spec fn after_steps(w: WorkspaceView, steps: Seq<WorkspaceStep>) -> WorkspaceView
    decreases steps.len(),
{
    if steps.len() == 0 {
        w
    } else {
        after_step(after_steps(w, steps.drop_last()), steps.last())
    }
}

/// Each of `steps` can succeed where it is taken.
pub open spec fn steps_allowed(w: WorkspaceView, steps: Seq<WorkspaceStep>) -> bool
    decreases steps.len(),
{
    if steps.len() == 0 {
        true
    } else {
        steps_allowed(w, steps.drop_last()) && step_allowed(
            after_steps(w, steps.drop_last()),
            steps.last(),
        )
    }
}

/// The documents open after `steps`, by identifier: each opening adds the
/// identifier it hands out with its path, each close takes its identifier
/// away.
pub open spec fn documents_opened(w: WorkspaceView, steps: Seq<WorkspaceStep>) -> Map<
    DocumentId,
    Seq<char>,
>
    decreases steps.len(),
{
    if steps.len() == 0 {
        Map::empty()
    } else {
        let before = documents_opened(w, steps.drop_last());
        match steps.last() {
            WorkspaceStep::Open(path) => before.insert(
                DocumentId::spec_from_value(after_steps(w, steps.drop_last()).next_document_id),
                path,
            ),
            WorkspaceStep::Close(id) => before.remove(id),
            WorkspaceStep::Activate(_) => before,
        }
    }
}

/// The active document after `steps`: it changes only when a document is
/// opened while none is active (the new one becomes active), when the active
/// document is closed (none is active then), and when one is made active.
pub open spec fn active_after(w: WorkspaceView, steps: Seq<WorkspaceStep>) -> Option<DocumentId>
    decreases steps.len(),
{
    if steps.len() == 0 {
        w.active_document
    } else {
        let before = active_after(w, steps.drop_last());
        match steps.last() {
            WorkspaceStep::Open(_) => if before is None {
                Some(DocumentId::spec_from_value(after_steps(w, steps.drop_last()).next_document_id))
            } else {
                before
            },
            WorkspaceStep::Close(id) => if before == Some(id) {
                None
            } else {
                before
            },
            WorkspaceStep::Activate(id) => Some(id),
        }
    }
}

/// Over any history of a workspace opened with no document: a document is
/// found by an identifier exactly when an opening handed that identifier
/// out and no close has taken it away since, and it is found with the path
/// it was opened with; any other identifier finds nothing. The active
/// document is the one `active_after` tracks, and if any, it is one of those
/// open. The workspace's identifier and root never change.
pub proof fn lemma_documents_over_history(w: WorkspaceView, steps: Seq<WorkspaceStep>)
    requires
        w.ids_well_formed(),
        w.documents.len() == 0,
        steps_allowed(w, steps),
    ensures
        after_steps(w, steps).ids_well_formed(),
        after_steps(w, steps).id == w.id,
        after_steps(w, steps).root == w.root,
        forall|id: DocumentId| #[trigger]
            after_steps(w, steps).document_path(id) == if documents_opened(w, steps).dom().contains(
                id,
            ) {
                Some(documents_opened(w, steps)[id])
            } else {
                None
            },
        after_steps(w, steps).active_document == active_after(w, steps),
        after_steps(w, steps).active_document matches Some(id) ==> documents_opened(
            w,
            steps,
        ).dom().contains(id),
    decreases steps.len(),
{
    if steps.len() == 0 {
        assert forall|id: DocumentId| #[trigger] w.document_path(id) == if Map::<
            DocumentId,
            Seq<char>,
        >::empty().dom().contains(id) {
            Some(Map::<DocumentId, Seq<char>>::empty()[id])
        } else {
            None
        } by {}
    } else {
        let rest = steps.drop_last();
        lemma_documents_over_history(w, rest);
        let prev = after_steps(w, rest);
        let model = documents_opened(w, rest);
        let now = after_steps(w, steps);
        let now_model = documents_opened(w, steps);
        match steps.last() {
            WorkspaceStep::Open(path) => {
                let new_id = DocumentId::spec_from_value(prev.next_document_id);
                lemma_documents_follow_open_and_close(prev, path, new_id, new_id);
                assert forall|other: DocumentId| #[trigger] now.document_path(other) == if now_model.dom().contains(
                    other,
                ) {
                    Some(now_model[other])
                } else {
                    None
                } by {
                    lemma_documents_follow_open_and_close(prev, path, new_id, other);
                    assert(prev.document_path(other) == if model.dom().contains(other) {
                        Some(model[other])
                    } else {
                        None
                    });
                }
            },
            WorkspaceStep::Close(id) => {
                lemma_documents_follow_open_and_close(prev, seq![], id, id);
                assert forall|other: DocumentId| #[trigger] now.document_path(other) == if now_model.dom().contains(
                    other,
                ) {
                    Some(now_model[other])
                } else {
                    None
                } by {
                    lemma_documents_follow_open_and_close(prev, seq![], id, other);
                    assert(prev.document_path(other) == if model.dom().contains(other) {
                        Some(model[other])
                    } else {
                        None
                    });
                }
            },
            WorkspaceStep::Activate(id) => {
                assert(now.documents == prev.documents);
                assert forall|other: DocumentId| #[trigger] now.document_path(other) == if now_model.dom().contains(
                    other,
                ) {
                    Some(now_model[other])
                } else {
                    None
                } by {
                    assert(prev.document_path(other) == if model.dom().contains(other) {
                        Some(model[other])
                    } else {
                        None
                    });
                }
            },
        }
        if let Some(a) = now.active_document {
            let k = now.document_index(a);
            assert(now.documents[k].0 == a);
            assert(now.has_document(a));
            assert(now.document_path(a) is Some);
        }
    }
}

/// Opening a document makes it open under its new identifier and path, and
/// closing it again gives back the open documents and the active document as
/// they were; only the next identifier has moved on.
pub proof fn lemma_close_undoes_open(w: WorkspaceView, path: Seq<char>)
    requires
        w.well_formed(),
        w.is_open(),
        w.next_document_id < u64::MAX,
    ensures
        ({
            let id = DocumentId::spec_from_value(w.next_document_id);
            let opened = w.with_document_opened(path);
            &&& opened.document_path(id) == Some(path)
            &&& opened.document_error(id) is None
            &&& opened.with_document_closed(id) == (WorkspaceView {
                next_document_id: (w.next_document_id + 1) as u64,
                ..w
            })
        }),
{
    let id = DocumentId::spec_from_value(w.next_document_id);
    let opened = w.with_document_opened(path);
    lemma_next_identifier_is_fresh(w);
    let n = w.documents.len() as int;
    assert(opened.documents[n].0 == id);
    assert(opened.has_document(id));
    let k = opened.document_index(id);
    if k != n {
        assert(opened.documents[k] == w.documents[k]);
        assert(w.documents[k].0 == id);
        assert(w.has_document(id));
    }
    assert(opened.documents.remove(n) =~= w.documents);
}

} // verus!
