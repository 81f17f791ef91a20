//! The workspace an editing session has open, if any, and the events that
//! each change to it announces.

use vstd::prelude::*;

use crate::ids::{DocumentId, WorkspaceId};
use crate::workspace::{Document, Workspace, WorkspaceError, WorkspaceErrorView, WorkspaceView};

verus! {

/// A document was opened in a workspace.
#[derive(Debug, Clone)]
pub struct DocumentOpened {
    pub workspace_id: WorkspaceId,
    pub document_id: DocumentId,
    pub path: String,
}

/// A document was closed in a workspace.
#[derive(Debug, Clone, Copy)]
pub struct DocumentClosed {
    pub workspace_id: WorkspaceId,
    pub document_id: DocumentId,
}

/// The active document of a workspace changed.
#[derive(Debug, Clone, Copy)]
pub struct ActiveDocumentChanged {
    pub workspace_id: WorkspaceId,
    pub previous: Option<DocumentId>,
    pub current: Option<DocumentId>,
}

/// One of the events a workspace change announces.
#[derive(Debug, Clone)]
pub enum WorkspaceEvent {
    DocumentOpened(DocumentOpened),
    DocumentClosed(DocumentClosed),
    ActiveDocumentChanged(ActiveDocumentChanged),
}

/// A `WorkspaceEvent` as plain values.
pub enum WorkspaceEventView {
    DocumentOpened { workspace_id: WorkspaceId, document_id: DocumentId, path: Seq<char> },
    DocumentClosed { workspace_id: WorkspaceId, document_id: DocumentId },
    ActiveDocumentChanged {
        workspace_id: WorkspaceId,
        previous: Option<DocumentId>,
        current: Option<DocumentId>,
    },
}

impl View for WorkspaceEvent {
    type V = WorkspaceEventView;

    open spec fn view(&self) -> WorkspaceEventView {
        match self {
            WorkspaceEvent::DocumentOpened(e) => WorkspaceEventView::DocumentOpened {
                workspace_id: e.workspace_id,
                document_id: e.document_id,
                path: e.path@,
            },
            WorkspaceEvent::DocumentClosed(e) => WorkspaceEventView::DocumentClosed {
                workspace_id: e.workspace_id,
                document_id: e.document_id,
            },
            WorkspaceEvent::ActiveDocumentChanged(e) => WorkspaceEventView::ActiveDocumentChanged {
                workspace_id: e.workspace_id,
                previous: e.previous,
                current: e.current,
            },
        }
    }
}

/// The views of `events`, in order.
pub open spec fn event_views(events: Seq<WorkspaceEvent>) -> Seq<WorkspaceEventView> {
    events.map_values(|e: WorkspaceEvent| e@)
}

/// What can go wrong while working with the session's workspace.
#[derive(Debug)]
pub enum WorkspaceHandleError {
    WorkspaceNotOpen,
    Workspace(WorkspaceError),
}

impl WorkspaceHandleError {
    /// This error carries the workspace error `e`.
    pub open spec fn is_workspace_error(&self, e: WorkspaceErrorView) -> bool {
        match self {
            WorkspaceHandleError::Workspace(w) => w@ == e,
            _ => false,
        }
    }

    /// The text of this error's message.
    pub open spec fn spec_message(&self) -> Seq<char> {
        match self {
            WorkspaceHandleError::WorkspaceNotOpen => "workspace is not open"@,
            WorkspaceHandleError::Workspace(e) => e.spec_message(),
        }
    }

    /// The message that describes this error.
    pub fn message(&self) -> (r: String)
        ensures
            r@ == self.spec_message(),
    {
        match self {
            WorkspaceHandleError::WorkspaceNotOpen => String::from_str("workspace is not open"),
            WorkspaceHandleError::Workspace(e) => e.message(),
        }
    }
}

/// The session's workspace as plain values. `next_document_id` is the
/// number the next document gets while no workspace is open; an open
/// workspace carries the count on.
pub struct SessionView {
    pub workspace: Option<WorkspaceView>,
    pub next_workspace_id: u64,
    pub next_document_id: u64,
}

impl SessionView {
    /// A workspace is held only while it is open and well formed, and it
    /// counts documents on from where the session stood when it was opened.
    pub open spec fn well_formed(self) -> bool {
        &&& self.next_document_id > 0
        &&& self.workspace matches Some(w) ==> w.well_formed() && w.is_open()
            && self.next_document_id <= w.next_document_id && w.id.spec_value()
            < self.next_workspace_id
    }

    /// The number the next document opened in this session gets, whichever
    /// workspace it is opened in.
    pub open spec fn document_counter(self) -> u64 {
        match self.workspace {
            Some(w) => w.next_document_id,
            None => self.next_document_id,
        }
    }

    /// The session after opening the workspace at `root` in place of any
    /// open before: it gets the next workspace identifier and counts
    /// documents on.
    pub open spec fn with_workspace_opened(self, root: Seq<char>) -> SessionView {
        SessionView {
            workspace: Some(
                WorkspaceView {
                    id: WorkspaceId::spec_from_value(self.next_workspace_id),
                    root,
                    state: crate::workspace::WorkspaceState::Open,
                    documents: Seq::empty(),
                    active_document: None,
                    next_document_id: self.document_counter(),
                },
            ),
            next_workspace_id: (self.next_workspace_id + 1) as u64,
            next_document_id: self.document_counter(),
        }
    }
}

/// The workspace an editing session has open, if any. Document identifiers
/// are counted over the whole session, so that no two documents opened in
/// it, in one workspace or in two, share one.
pub struct WorkspaceSession {
    workspace: Option<Workspace>,
    next_workspace_id: u64,
    next_document_id: u64,
}

impl View for WorkspaceSession {
    type V = SessionView;

    closed spec fn view(&self) -> SessionView {
        SessionView {
            workspace: match self.workspace {
                Some(w) => Some(w@),
                None => None,
            },
            next_workspace_id: self.next_workspace_id,
            next_document_id: self.next_document_id,
        }
    }
}

/// The events opening a document announces: that it was opened, and that
/// the active document changed where it did.
pub open spec fn opened_events(w: WorkspaceView, path: Seq<char>) -> Seq<WorkspaceEventView> {
    let id = DocumentId::spec_from_value(w.next_document_id);
    let opened = WorkspaceEventView::DocumentOpened {
        workspace_id: w.id,
        document_id: id,
        path,
    };
    let current = w.with_document_opened(path).active_document;
    if w.active_document != current {
        seq![
            opened,
            WorkspaceEventView::ActiveDocumentChanged {
                workspace_id: w.id,
                previous: w.active_document,
                current,
            },
        ]
    } else {
        seq![opened]
    }
}

impl WorkspaceSession {
    /// A session with no workspace open.
    pub fn new() -> (r: WorkspaceSession)
        ensures
            r@.workspace is None,
            r@.next_workspace_id == 1,
            r@.next_document_id == 1,
            r@.well_formed(),
    {
        WorkspaceSession { workspace: None, next_workspace_id: 1, next_document_id: 1 }
    }

    /// Whether a workspace is open.
    pub fn is_open(&self) -> (r: bool)
        ensures
            r == self@.workspace is Some,
    {
        self.workspace.is_some()
    }

    /// The root of the open workspace.
    pub fn root(&self) -> (r: Option<String>)
        ensures
            match self@.workspace {
                Some(w) => r matches Some(root) && root@ == w.root,
                None => r is None,
            },
    {
        match &self.workspace {
            Some(w) => Some(w.root().to_owned()),
            None => None,
        }
    }

    /// The number the next opened workspace's identifier gets.
    pub fn next_workspace_id(&self) -> (r: u64)
        ensures
            r == self@.next_workspace_id,
    {
        self.next_workspace_id
    }

    /// The number the next document opened in this session gets.
    pub fn next_document_id(&self) -> (r: u64)
        ensures
            r == self@.document_counter(),
    {
        match &self.workspace {
            Some(w) => w.next_document_id(),
            None => self.next_document_id,
        }
    }

    /// The identifier of the open workspace.
    pub fn id(&self) -> (r: Option<WorkspaceId>)
        ensures
            match self@.workspace {
                Some(w) => r == Some(w.id),
                None => r is None,
            },
    {
        match &self.workspace {
            Some(w) => Some(w.id()),
            None => None,
        }
    }

    /// Opens the workspace at `root`, given whether it names a directory; it
    /// replaces any workspace open before, gets the next identifier and
    /// counts documents on from where the session stands.
    pub fn open(&mut self, root: &str, root_is_directory: bool) -> (r: Result<
        (),
        WorkspaceHandleError,
    >)
        requires
            old(self)@.well_formed(),
            root_is_directory ==> old(self)@.next_workspace_id < u64::MAX,
        ensures
            final(self)@.well_formed(),
            r is Ok <==> root_is_directory,
            r matches Err(e) ==> final(self)@ == old(self)@ && e.is_workspace_error(
                WorkspaceErrorView::FolderNotFoundOrFile(root@),
            ),
            r is Ok ==> final(self)@ == old(self)@.with_workspace_opened(root@),
    {
        let id = WorkspaceId::from_value(self.next_workspace_id);
        let first_document_id = self.next_document_id();
        match Workspace::open(root, root_is_directory, id, first_document_id) {
            Err(e) => Err(WorkspaceHandleError::Workspace(e)),
            Ok(w) => {
                self.workspace = Some(w);
                self.next_workspace_id = self.next_workspace_id + 1;
                self.next_document_id = first_document_id;
                Ok(())
            },
        }
    }

    /// Closes the open workspace; fails with `WorkspaceNotOpen` where none
    /// is. The count of documents goes on from where the workspace left it.
    pub fn close(&mut self) -> (r: Result<(), WorkspaceHandleError>)
        requires
            old(self)@.well_formed(),
        ensures
            final(self)@.well_formed(),
            r is Ok <==> old(self)@.workspace is Some,
            r is Ok ==> final(self)@ == (SessionView {
                workspace: None,
                next_document_id: old(self)@.document_counter(),
                ..old(self)@
            }),
            r matches Err(e) ==> final(self)@ == old(self)@ && e is WorkspaceNotOpen,
    {
        let mut w = match self.workspace.take() {
            None => {
                return Err(WorkspaceHandleError::WorkspaceNotOpen);
            },
            Some(w) => w,
        };
        let counter = w.next_document_id();
        match w.close() {
            Err(e) => {
                self.workspace = Some(w);
                Err(WorkspaceHandleError::Workspace(e))
            },
            Ok(()) => {
                self.next_document_id = counter;
                Ok(())
            },
        }
    }

    /// Opens the document at `path` in the open workspace, given whether
    /// `path` names a file, and gives its identifier with the events to
    /// announce.
    pub fn open_document(&mut self, path: &str, path_is_file: bool) -> (r: Result<
        (DocumentId, Vec<WorkspaceEvent>),
        WorkspaceHandleError,
    >)
        requires
            old(self)@.well_formed(),
            old(self)@.workspace matches Some(w) ==> (w.open_document_error(path@, path_is_file)
                is None ==> w.next_document_id < u64::MAX),
        ensures
            final(self)@.well_formed(),
            match old(self)@.workspace {
                None => final(self)@ == old(self)@ && (r matches Err(e) && e is WorkspaceNotOpen),
                Some(w) => match w.open_document_error(path@, path_is_file) {
                    Some(err) => final(self)@ == old(self)@ && (r matches Err(e)
                        && e.is_workspace_error(err)),
                    None => {
                        &&& final(self)@ == (SessionView {
                            workspace: Some(w.with_document_opened(path@)),
                            ..old(self)@
                        })
                        &&& r matches Ok((id, events))
                        &&& id == DocumentId::spec_from_value(w.next_document_id)
                        &&& event_views(events@) == opened_events(w, path@)
                    },
                },
            },
    {
        let mut w = match self.workspace.take() {
            None => {
                return Err(WorkspaceHandleError::WorkspaceNotOpen);
            },
            Some(w) => w,
        };
        let workspace_id = w.id();
        let previous = w.active_document_id();
        let result = w.open_document(path, path_is_file);
        let current = w.active_document_id();
        self.workspace = Some(w);
        match result {
            Err(e) => Err(WorkspaceHandleError::Workspace(e)),
            Ok(document_id) => {
                let mut events: Vec<WorkspaceEvent> = Vec::new();
                events.push(
                    WorkspaceEvent::DocumentOpened(
                        DocumentOpened { document_id, workspace_id, path: path.to_owned() },
                    ),
                );
                if !same_document(previous, current) {
                    events.push(
                        WorkspaceEvent::ActiveDocumentChanged(
                            ActiveDocumentChanged { workspace_id, previous, current },
                        ),
                    );
                }
                assert(event_views(events@) =~= opened_events(old(self)@.workspace->0, path@));
                Ok((document_id, events))
            },
        }
    }

    /// Closes document `id` of the open workspace and gives the events to
    /// announce: that it was closed. (The active document is taken before the
    /// close both as the previous and the current one, so no change of it is
    /// announced.)
    pub fn close_document(&mut self, id: DocumentId) -> (r: Result<
        Vec<WorkspaceEvent>,
        WorkspaceHandleError,
    >)
        requires
            old(self)@.well_formed(),
        ensures
            final(self)@.well_formed(),
            match old(self)@.workspace {
                None => final(self)@ == old(self)@ && (r matches Err(e) && e is WorkspaceNotOpen),
                Some(w) => match w.document_error(id) {
                    Some(err) => final(self)@ == old(self)@ && (r matches Err(e)
                        && e.is_workspace_error(err)),
                    None => {
                        &&& final(self)@ == (SessionView {
                            workspace: Some(w.with_document_closed(id)),
                            ..old(self)@
                        })
                        &&& r matches Ok(events)
                        &&& event_views(events@) == seq![
                            WorkspaceEventView::DocumentClosed { workspace_id: w.id, document_id: id },
                        ]
                    },
                },
            },
    {
        let mut w = match self.workspace.take() {
            None => {
                return Err(WorkspaceHandleError::WorkspaceNotOpen);
            },
            Some(w) => w,
        };
        let workspace_id = w.id();
        let previous = w.active_document_id();
        let current = w.active_document_id();
        let result = w.close_document(id);
        self.workspace = Some(w);
        match result {
            Err(e) => Err(WorkspaceHandleError::Workspace(e)),
            Ok(()) => {
                let mut events: Vec<WorkspaceEvent> = Vec::new();
                events.push(
                    WorkspaceEvent::DocumentClosed(
                        DocumentClosed { document_id: id, workspace_id },
                    ),
                );
                if !same_document(previous, current) {
                    events.push(
                        WorkspaceEvent::ActiveDocumentChanged(
                            ActiveDocumentChanged { workspace_id, previous, current },
                        ),
                    );
                }
                assert(event_views(events@) =~= seq![
                    WorkspaceEventView::DocumentClosed { workspace_id, document_id: id },
                ]);
                Ok(events)
            },
        }
    }

    /// Makes document `id` of the open workspace the active one, and gives
    /// the events to announce: a change of the active document, where there
    /// was one.
    pub fn set_active_document(&mut self, id: DocumentId) -> (r: Result<
        Vec<WorkspaceEvent>,
        WorkspaceHandleError,
    >)
        requires
            old(self)@.well_formed(),
        ensures
            final(self)@.well_formed(),
            match old(self)@.workspace {
                None => final(self)@ == old(self)@ && (r matches Err(e) && e is WorkspaceNotOpen),
                Some(w) => match w.document_error(id) {
                    Some(err) => final(self)@ == old(self)@ && (r matches Err(e)
                        && e.is_workspace_error(err)),
                    None => {
                        &&& final(self)@ == (SessionView {
                            workspace: Some(WorkspaceView { active_document: Some(id), ..w }),
                            ..old(self)@
                        })
                        &&& r matches Ok(events)
                        &&& event_views(events@) == if w.active_document == Some(id) {
                            Seq::<WorkspaceEventView>::empty()
                        } else {
                            seq![
                                WorkspaceEventView::ActiveDocumentChanged {
                                    workspace_id: w.id,
                                    previous: w.active_document,
                                    current: Some(id),
                                },
                            ]
                        }
                    },
                },
            },
    {
        let mut w = match self.workspace.take() {
            None => {
                return Err(WorkspaceHandleError::WorkspaceNotOpen);
            },
            Some(w) => w,
        };
        let workspace_id = w.id();
        let previous = w.active_document_id();
        let result = w.set_active_document(id);
        let current = w.active_document_id();
        self.workspace = Some(w);
        match result {
            Err(e) => Err(WorkspaceHandleError::Workspace(e)),
            Ok(()) => {
                let mut events: Vec<WorkspaceEvent> = Vec::new();
                if !same_document(previous, current) {
                    events.push(
                        WorkspaceEvent::ActiveDocumentChanged(
                            ActiveDocumentChanged { workspace_id, previous, current },
                        ),
                    );
                }
                assert(event_views(events@) =~= if previous == Some(id) {
                    Seq::<WorkspaceEventView>::empty()
                } else {
                    seq![
                        WorkspaceEventView::ActiveDocumentChanged {
                            workspace_id,
                            previous,
                            current: Some(id),
                        },
                    ]
                });
                Ok(events)
            },
        }
    }

    /// A copy of document `id` of the open workspace, if it is open.
    pub fn document(&self, id: DocumentId) -> (r: Result<Option<Document>, WorkspaceHandleError>)
        requires
            self@.well_formed(),
        ensures
            match self@.workspace {
                None => r matches Err(e) && e is WorkspaceNotOpen,
                Some(w) => r matches Ok(d) && match d {
                    Some(d) => d.entry().0 == id && w.document_path(id) == Some(d.entry().1),
                    None => w.document_path(id) is None,
                },
            },
    {
        match &self.workspace {
            None => Err(WorkspaceHandleError::WorkspaceNotOpen),
            Some(w) => match w.document(id) {
                Some(d) => Ok(Some(d.clone())),
                None => Ok(None),
            },
        }
    }

    /// Copies of the documents of the open workspace, in the order they were
    /// opened.
    pub fn documents(&self) -> (r: Result<Vec<Document>, WorkspaceHandleError>)
        requires
            self@.well_formed(),
        ensures
            match self@.workspace {
                None => r matches Err(e) && e is WorkspaceNotOpen,
                Some(w) => r matches Ok(ds) && ds@.map_values(|d: Document| d.entry())
                    == w.documents,
            },
    {
        match &self.workspace {
            None => Err(WorkspaceHandleError::WorkspaceNotOpen),
            Some(w) => {
                let docs = w.documents();
                let mut r: Vec<Document> = Vec::new();
                let mut i: usize = 0;
                while i < docs.len()
                    invariant
                        i <= docs@.len(),
                        r@.map_values(|d: Document| d.entry()) =~= docs@.take(i as int).map_values(
                            |d: Document| d.entry(),
                        ),
                    decreases docs.len() - i,
                {
                    r.push(docs[i].clone());
                    i += 1;
                    assert(docs@.take(i as int).map_values(|d: Document| d.entry()) =~= docs@.take(
                        (i - 1) as int,
                    ).map_values(|d: Document| d.entry()).push(docs@[i - 1].entry()));
                }
                assert(docs@.take(i as int) =~= docs@);
                Ok(r)
            },
        }
    }

    /// A copy of the active document of the open workspace, if any.
    pub fn active_document(&self) -> (r: Result<Option<Document>, WorkspaceHandleError>)
        requires
            self@.well_formed(),
        ensures
            match self@.workspace {
                None => r matches Err(e) && e is WorkspaceNotOpen,
                Some(w) => r matches Ok(d) && match w.active_document {
                    Some(id) => d matches Some(d) && d.entry().0 == id && w.document_path(id) == Some(
                        d.entry().1,
                    ),
                    None => d is None,
                },
            },
    {
        match &self.workspace {
            None => Err(WorkspaceHandleError::WorkspaceNotOpen),
            Some(w) => match w.active_document() {
                Some(d) => Ok(Some(d.clone())),
                None => Ok(None),
            },
        }
    }
}

/// A workspace opened in place of another, or after it was closed, hands
/// out no identifier that a document of the other had: the first document
/// it opens gets a number above all of theirs, and so does every later one.
pub proof fn lemma_reopening_keeps_identifiers_fresh(s: SessionView, root: Seq<char>)
    requires
        s.well_formed(),
        s.next_workspace_id < u64::MAX,
    ensures
        s.with_workspace_opened(root).well_formed(),
        s.workspace matches Some(w) ==> forall|i: int|
            0 <= i < w.documents.len() ==> (#[trigger] w.documents[i]).0.spec_value()
                < s.with_workspace_opened(root).document_counter(),
        ({
            let closed = SessionView {
                workspace: None,
                next_document_id: s.document_counter(),
                ..s
            };
            s.workspace matches Some(w) ==> forall|i: int|
                0 <= i < w.documents.len() ==> (#[trigger] w.documents[i]).0.spec_value()
                    < closed.with_workspace_opened(root).document_counter()
        }),
{
    let opened = s.with_workspace_opened(root);
    WorkspaceId::lemma_from_value(s.next_workspace_id);
    assert(opened.workspace->0.documents =~= Seq::<(DocumentId, Seq<char>)>::empty());
}

/// Every workspace the session opens gets an identifier that no workspace
/// opened in it before had: the one open now, if any, and, after a second
/// opening, the first. Their numbers count up by one with each opening;
/// closing hands none back.
pub proof fn lemma_workspace_ids_fresh(s: SessionView, first: Seq<char>, second: Seq<char>)
    requires
        s.well_formed(),
        s.next_workspace_id < u64::MAX - 1,
    ensures
        ({
            let once = s.with_workspace_opened(first);
            let twice = once.with_workspace_opened(second);
            &&& once.well_formed()
            &&& once.workspace->0.id.spec_value() == s.next_workspace_id
            &&& s.workspace matches Some(w) ==> w.id != once.workspace->0.id
            &&& twice.well_formed()
            &&& once.workspace->0.id != twice.workspace->0.id
            &&& SessionView { workspace: None, next_document_id: once.document_counter(), ..once }.with_workspace_opened(second).workspace->0.id
                != once.workspace->0.id
        }),
{
    let once = s.with_workspace_opened(first);
    lemma_reopening_keeps_identifiers_fresh(s, first);
    lemma_reopening_keeps_identifiers_fresh(once, second);
    WorkspaceId::lemma_from_value(s.next_workspace_id);
    WorkspaceId::lemma_from_value(once.next_workspace_id);
    if let Some(w) = s.workspace {
        WorkspaceId::lemma_value_injective(w.id, once.workspace->0.id);
    }
    let twice = once.with_workspace_opened(second);
    WorkspaceId::lemma_value_injective(once.workspace->0.id, twice.workspace->0.id);
}

/// Opening a document announces that it was opened, under the identifier
/// it gets and with its path; and, exactly when no document was active
/// before (whether or not other documents are open), that the active
/// document changed from none to the new one. Where a document was active,
/// it stays so and only the opening is announced.
pub proof fn lemma_opening_announces(w: WorkspaceView, path: Seq<char>)
    ensures
        ({
            let id = DocumentId::spec_from_value(w.next_document_id);
            let events = opened_events(w, path);
            &&& events.len() == if w.active_document is None { 2int } else { 1int }
            &&& events[0] == WorkspaceEventView::DocumentOpened {
                workspace_id: w.id,
                document_id: id,
                path,
            }
            &&& w.active_document is None ==> events[1] == WorkspaceEventView::ActiveDocumentChanged {
                workspace_id: w.id,
                previous: None,
                current: Some(id),
            }
            &&& w.with_document_opened(path).active_document == if w.active_document is None {
                Some(id)
            } else {
                w.active_document
            }
        }),
{
}

/// A successful opening or closing of the session's workspace, as `open`
/// and `close` describe it. (The operations on documents change neither the
/// workspace's identifier nor the count of workspace identifiers.)
pub enum SessionStep {
    OpenWorkspace(Seq<char>),
    CloseWorkspace,
}

/// The session after `steps`, taken in order.
pub open spec fn session_after(s: SessionView, steps: Seq<SessionStep>) -> SessionView
    decreases steps.len(),
{
    if steps.len() == 0 {
        s
    } else {
        let before = session_after(s, steps.drop_last());
        match steps.last() {
            SessionStep::OpenWorkspace(root) => before.with_workspace_opened(root),
            SessionStep::CloseWorkspace => SessionView {
                workspace: None,
                next_document_id: before.document_counter(),
                ..before
            },
        }
    }
}

/// The identifiers of the workspaces opened by `steps`, in order.
pub open spec fn workspace_ids_handed_out(s: SessionView, steps: Seq<SessionStep>) -> Seq<
    WorkspaceId,
>
    decreases steps.len(),
{
    if steps.len() == 0 {
        Seq::empty()
    } else {
        let before = workspace_ids_handed_out(s, steps.drop_last());
        match steps.last() {
            SessionStep::OpenWorkspace(_) => before.push(
                WorkspaceId::spec_from_value(session_after(s, steps.drop_last()).next_workspace_id),
            ),
            SessionStep::CloseWorkspace => before,
        }
    }
}

/// Over any history of openings and closings of a session's workspace, the
/// workspaces opened get identifiers numbered on from the session's count,
/// one up with each opening, so that no two of them share one, and none
/// equals that of the workspace open at the start; the workspace open at the
/// end, if any, has the last of them.
pub proof fn lemma_workspace_ids_over_history(s: SessionView, steps: Seq<SessionStep>)
    requires
        s.well_formed(),
        s.next_workspace_id + steps.len() < u64::MAX,
    ensures
        session_after(s, steps).well_formed(),
        workspace_ids_handed_out(s, steps).len() <= steps.len(),
        session_after(s, steps).next_workspace_id == s.next_workspace_id
            + workspace_ids_handed_out(s, steps).len(),
        forall|i: int|
            0 <= i < workspace_ids_handed_out(s, steps).len() ==> (
            #[trigger] workspace_ids_handed_out(s, steps)[i]).spec_value() == s.next_workspace_id
                + i,
        forall|i: int, j: int|
            0 <= i < j < workspace_ids_handed_out(s, steps).len() ==> #[trigger] workspace_ids_handed_out(
                s,
                steps,
            )[i] != #[trigger] workspace_ids_handed_out(s, steps)[j],
        s.workspace matches Some(w) ==> forall|i: int|
            0 <= i < workspace_ids_handed_out(s, steps).len() ==> w.id
                != #[trigger] workspace_ids_handed_out(s, steps)[i],
        session_after(s, steps).workspace matches Some(w) ==> ({
            let ids = workspace_ids_handed_out(s, steps);
            ||| ids.len() > 0 && w.id == ids.last()
            ||| ids.len() == 0 && s.workspace == Some(w)
        }),
    decreases steps.len(),
{
    if steps.len() > 0 {
        let rest = steps.drop_last();
        lemma_workspace_ids_over_history(s, rest);
        let before = session_after(s, rest);
        let ids = workspace_ids_handed_out(s, steps);
        match steps.last() {
            SessionStep::OpenWorkspace(root) => {
                lemma_reopening_keeps_identifiers_fresh(before, root);
                WorkspaceId::lemma_from_value(before.next_workspace_id);
            },
            SessionStep::CloseWorkspace => {},
        }
        assert forall|i: int, j: int| 0 <= i < j < ids.len() implies #[trigger] ids[i]
            != #[trigger] ids[j] by {
            WorkspaceId::lemma_value_injective(ids[i], ids[j]);
        }
        if let Some(w) = s.workspace {
            assert forall|i: int| 0 <= i < ids.len() implies w.id != #[trigger] ids[i] by {
                WorkspaceId::lemma_value_injective(w.id, ids[i]);
            }
        }
    }
}

/// Whether two optional document identifiers are equal.
fn same_document(a: Option<DocumentId>, b: Option<DocumentId>) -> (r: bool)
    ensures
        r == (a == b),
{
    match (a, b) {
        (Some(x), Some(y)) => x == y,
        (None, None) => true,
        _ => false,
    }
}

} // verus!
