use std::io::Write;
use std::path::{Path, PathBuf};

use forge::ids::{DocumentId, WorkspaceId};
use forge::session::WorkspaceSession;
use forge::workspace::{Document, Workspace, WorkspaceError, WorkspaceState};
use tempfile::TempDir;

fn open(root: &Path) -> Result<Workspace, WorkspaceError> {
    Workspace::open(root.to_str().unwrap(), root.is_dir(), WorkspaceId::from_value(1), 1)
}

fn open_document(workspace: &mut Workspace, path: &Path) -> Result<DocumentId, WorkspaceError> {
    workspace.open_document(path.to_str().unwrap(), path.is_file())
}

fn create_workspace() -> (TempDir, Workspace) {
    let temp_dir = tempfile::tempdir().expect("failed to create temporary directory");
    let workspace = open(temp_dir.path()).expect("failed to open temporary workspace");
    (temp_dir, workspace)
}

fn create_file(temp_dir: &TempDir, name: &str) -> PathBuf {
    let path = temp_dir.path().join(name);
    let (mut file, kept) = tempfile::Builder::new()
        .prefix(name)
        .rand_bytes(0)
        .tempfile_in(temp_dir.path())
        .expect("failed to create temporary file")
        .keep()
        .expect("failed to keep temporary file");
    file.write_all(b"test content").expect("failed to write temporary file");
    assert_eq!(kept, path);
    path
}

#[test]
fn should_open_workspace() {
    let temp_dir = tempfile::tempdir().expect("failed to create temporary directory");
    let workspace = open(temp_dir.path()).expect("failed to open workspace");
    assert!(workspace.is_open());
    assert_eq!(workspace.state(), WorkspaceState::Open);
    assert_eq!(Path::new(workspace.root()), temp_dir.path());
    assert_eq!(workspace.documents().len(), 0);
    assert!(workspace.active_document().is_none());
}

#[test]
fn should_fail_to_open_workspace_when_folder_does_not_exist() {
    let temp_dir = tempfile::tempdir().expect("failed to create temporary directory");
    let missing_directory = temp_dir.path().join("missing");
    let result = open(&missing_directory);
    assert!(
        matches!( result, Err(WorkspaceError::FolderNotFoundOrFile(path)) if Path::new(&path) == missing_directory )
    );
}

#[test]
fn should_fail_to_open_workspace_from_file() {
    let temp_dir = tempfile::tempdir().expect("failed to create temporary directory");
    let file_path = create_file(&temp_dir, "file.txt");
    let result = open(&file_path);
    assert!(
        matches!( result, Err(WorkspaceError::FolderNotFoundOrFile(path)) if Path::new(&path) == file_path )
    );
}

#[test]
fn should_close_workspace() {
    let (_temp_dir, mut workspace) = create_workspace();
    workspace.close().expect("failed to close workspace");
    assert!(!workspace.is_open());
    assert_eq!(workspace.state(), WorkspaceState::Closed);
}

#[test]
fn should_fail_when_closing_workspace_twice() {
    let (_temp_dir, mut workspace) = create_workspace();
    workspace.close().expect("failed to close workspace");
    let result = workspace.close();
    assert!(matches!(result, Err(WorkspaceError::AlreadyClosed)));
}

#[test]
fn should_open_document() {
    let (temp_dir, mut workspace) = create_workspace();
    let file_path = create_file(&temp_dir, "main.rs");
    let document_id = open_document(&mut workspace, &file_path).expect("failed to open document");
    let document = workspace
        .document(document_id)
        .expect("opened document not found");
    assert_eq!(document.id(), document_id);
    assert_eq!(Path::new(document.path()), file_path);
    assert_eq!(workspace.documents().len(), 1);
    assert!(workspace.is_document_open(file_path.to_str().unwrap()));
}

#[test]
fn should_set_first_opened_document_as_active() {
    let (temp_dir, mut workspace) = create_workspace();
    let file_path = create_file(&temp_dir, "main.rs");
    let document_id = open_document(&mut workspace, &file_path).expect("failed to open document");
    let active_document = workspace
        .active_document()
        .expect("active document not found");
    assert_eq!(active_document.id(), document_id);
    assert_eq!(Path::new(active_document.path()), file_path);
}

#[test]
fn should_not_replace_active_document_when_opening_another_document() {
    let (temp_dir, mut workspace) = create_workspace();
    let first_path = create_file(&temp_dir, "first.rs");
    let second_path = create_file(&temp_dir, "second.rs");
    let first_id =
        open_document(&mut workspace, &first_path).expect("failed to open first document");
    open_document(&mut workspace, &second_path).expect("failed to open second document");
    let active_document = workspace
        .active_document()
        .expect("active document not found");
    assert_eq!(active_document.id(), first_id);
}

#[test]
fn should_fail_when_opening_document_twice() {
    let (temp_dir, mut workspace) = create_workspace();
    let file_path = create_file(&temp_dir, "main.rs");
    open_document(&mut workspace, &file_path).expect("failed to open document");
    let result = open_document(&mut workspace, &file_path);
    assert!(
        matches!( result, Err(WorkspaceError::DocumentAlreadyOpen(path)) if Path::new(&path) == file_path )
    );
}

#[test]
fn should_fail_when_opening_missing_file() {
    let (temp_dir, mut workspace) = create_workspace();
    let missing_file = temp_dir.path().join("missing.rs");
    let result = open_document(&mut workspace, &missing_file);
    assert!(
        matches!( result, Err(WorkspaceError::FileNotFound(path)) if Path::new(&path) == missing_file )
    );
}

#[test]
fn should_fail_when_opening_document_outside_workspace() {
    let (_temp_dir, mut workspace) = create_workspace();
    let external_directory =
        tempfile::tempdir().expect("failed to create external temporary directory");
    let external_file = create_file(&external_directory, "external.rs");
    let result = open_document(&mut workspace, &external_file);
    assert!(
        matches!( result, Err(WorkspaceError::DocumentOutsideWorkspace(path)) if Path::new(&path) == external_file )
    );
}

#[test]
fn should_fail_when_opening_document_in_closed_workspace() {
    let (temp_dir, mut workspace) = create_workspace();
    let file_path = create_file(&temp_dir, "main.rs");
    workspace.close().expect("failed to close workspace");
    let result = open_document(&mut workspace, &file_path);
    assert!(matches!(result, Err(WorkspaceError::WorkspaceClosed)));
}

#[test]
fn should_return_document_by_id() {
    let (temp_dir, mut workspace) = create_workspace();
    let file_path = create_file(&temp_dir, "main.rs");
    let document_id = open_document(&mut workspace, &file_path).expect("failed to open document");
    let document = workspace.document(document_id);
    assert!(document.is_some());
    assert_eq!(Path::new(document.expect("document not found").path()), file_path);
}

#[test]
fn should_return_none_for_unknown_document_id() {
    let (_temp_dir, workspace) = create_workspace();
    let unknown_id = DocumentId::from_value(42);
    assert!(workspace.document(unknown_id).is_none());
}

#[test]
fn should_return_all_open_documents() {
    let (temp_dir, mut workspace) = create_workspace();
    let first_path = create_file(&temp_dir, "first.rs");
    let second_path = create_file(&temp_dir, "second.rs");
    open_document(&mut workspace, &first_path).expect("failed to open first document");
    open_document(&mut workspace, &second_path).expect("failed to open second document");
    let paths: Vec<&Path> = workspace
        .documents()
        .iter()
        .map(|document: &Document| Path::new(document.path()))
        .collect();
    assert_eq!(paths.len(), 2);
    assert!(paths.contains(&first_path.as_path()));
    assert!(paths.contains(&second_path.as_path()));
}

#[test]
fn should_set_active_document() {
    let (temp_dir, mut workspace) = create_workspace();
    let first_path = create_file(&temp_dir, "first.rs");
    let second_path = create_file(&temp_dir, "second.rs");
    open_document(&mut workspace, &first_path).expect("failed to open first document");
    let second_id =
        open_document(&mut workspace, &second_path).expect("failed to open second document");
    workspace
        .set_active_document(second_id)
        .expect("failed to set active document");
    let active_document = workspace
        .active_document()
        .expect("active document not found");
    assert_eq!(active_document.id(), second_id);
    assert_eq!(Path::new(active_document.path()), second_path);
}

#[test]
fn should_fail_when_setting_unknown_document_as_active() {
    let (_temp_dir, mut workspace) = create_workspace();
    let unknown_id = DocumentId::from_value(42);
    let result = workspace.set_active_document(unknown_id);
    assert!(matches!( result, Err(WorkspaceError::DocumentNotFound(id)) if id == unknown_id ));
}

#[test]
fn should_fail_when_setting_active_document_in_closed_workspace() {
    let (temp_dir, mut workspace) = create_workspace();
    let file_path = create_file(&temp_dir, "main.rs");
    let document_id = open_document(&mut workspace, &file_path).expect("failed to open document");
    workspace.close().expect("failed to close workspace");
    let result = workspace.set_active_document(document_id);
    assert!(matches!(result, Err(WorkspaceError::WorkspaceClosed)));
}

#[test]
fn should_close_document() {
    let (temp_dir, mut workspace) = create_workspace();
    let file_path = create_file(&temp_dir, "main.rs");
    let document_id = open_document(&mut workspace, &file_path).expect("failed to open document");
    workspace
        .close_document(document_id)
        .expect("failed to close document");
    assert!(workspace.document(document_id).is_none());
    assert!(!workspace.is_document_open(file_path.to_str().unwrap()));
    assert_eq!(workspace.documents().len(), 0);
}

#[test]
fn should_clear_active_document_when_closing_it() {
    let (temp_dir, mut workspace) = create_workspace();
    let file_path = create_file(&temp_dir, "main.rs");
    let document_id = open_document(&mut workspace, &file_path).expect("failed to open document");
    workspace
        .close_document(document_id)
        .expect("failed to close document");
    assert!(workspace.active_document().is_none());
}

#[test]
fn should_keep_active_document_when_closing_another_document() {
    let (temp_dir, mut workspace) = create_workspace();
    let first_path = create_file(&temp_dir, "first.rs");
    let second_path = create_file(&temp_dir, "second.rs");
    let first_id =
        open_document(&mut workspace, &first_path).expect("failed to open first document");
    let second_id =
        open_document(&mut workspace, &second_path).expect("failed to open second document");
    workspace
        .close_document(second_id)
        .expect("failed to close second document");
    let active_document = workspace
        .active_document()
        .expect("active document not found");
    assert_eq!(active_document.id(), first_id);
}

#[test]
fn should_fail_when_closing_unknown_document() {
    let (_temp_dir, mut workspace) = create_workspace();
    let unknown_id = DocumentId::from_value(42);
    let result = workspace.close_document(unknown_id);
    assert!(matches!( result, Err(WorkspaceError::DocumentNotFound(id)) if id == unknown_id ));
}

#[test]
fn should_fail_when_closing_document_in_closed_workspace() {
    let (temp_dir, mut workspace) = create_workspace();
    let file_path = create_file(&temp_dir, "main.rs");
    let document_id = open_document(&mut workspace, &file_path).expect("failed to open document");
    workspace.close().expect("failed to close workspace");
    let result = workspace.close_document(document_id);
    assert!(matches!(result, Err(WorkspaceError::WorkspaceClosed)));
}

#[test]
fn document_ids_should_be_unique() {
    let (temp_dir, mut workspace) = create_workspace();
    let first_id = open_document(&mut workspace, &create_file(&temp_dir, "a.rs")).unwrap();
    let second_id = open_document(&mut workspace, &create_file(&temp_dir, "b.rs")).unwrap();
    assert_ne!(first_id, second_id);
}

#[test]
fn document_id_value_should_return_inner_value() {
    let (temp_dir, mut workspace) = create_workspace();
    let document_id = open_document(&mut workspace, &create_file(&temp_dir, "a.rs")).unwrap();
    assert!(document_id.value() > 0);
    assert_eq!(DocumentId::from_value(7).value(), 7);
}

#[test]
fn closed_document_id_is_not_reused() {
    let (temp_dir, mut workspace) = create_workspace();
    let path = create_file(&temp_dir, "a.rs");
    let first_id = open_document(&mut workspace, &path).unwrap();
    workspace.close_document(first_id).unwrap();
    let second_id = open_document(&mut workspace, &path).unwrap();
    assert_ne!(first_id, second_id);
    assert_eq!(first_id.value(), 1);
    assert_eq!(second_id.value(), 2);
}

#[test]
fn paths_are_compared_by_component() {
    let (temp_dir, mut workspace) = create_workspace();
    let path = create_file(&temp_dir, "a.rs");
    open_document(&mut workspace, &path).unwrap();
    let with_extra_separator = format!("{}/./", path.to_str().unwrap());
    assert!(workspace.is_document_open(&with_extra_separator));
}

#[test]
fn opens_existing_directory() {
    let root = tempfile::tempdir().expect("failed to create temporary directory");

    let workspace = open(root.path()).unwrap();

    assert_eq!(Path::new(workspace.root()), root.path());
    assert!(workspace.is_open());
    assert_eq!(workspace.state(), WorkspaceState::Open);
}

#[test]
fn assigns_different_ids_to_workspaces() {
    let root = tempfile::tempdir().expect("failed to create temporary directory");
    let root_text = root.path().to_str().unwrap();
    let mut session = WorkspaceSession::new();

    session.open(root_text, root.path().is_dir()).unwrap();
    let first = session.id().unwrap();
    session.open(root_text, root.path().is_dir()).unwrap();
    let second = session.id().unwrap();

    assert_ne!(first, second);
}

#[test]
fn rejects_missing_directory() {
    let parent = tempfile::tempdir().expect("failed to create temporary directory");
    let root = parent.path().join("forge-workspace-missing");

    let result = open(&root);

    assert!(matches!(
        result,
        Err(WorkspaceError::FolderNotFoundOrFile(path))
            if Path::new(&path) == root
    ));
}

#[test]
fn rejects_file_as_workspace_root() {
    let parent = tempfile::tempdir().expect("failed to create temporary directory");
    let root = create_file(&parent, "not-a-directory");

    let result = open(&root);

    assert!(matches!(
        result,
        Err(WorkspaceError::FolderNotFoundOrFile(path))
            if Path::new(&path) == root
    ));
}

#[test]
fn closes_open_workspace() {
    let root = tempfile::tempdir().expect("failed to create temporary directory");
    let mut workspace = open(root.path()).unwrap();

    workspace.close().unwrap();

    assert!(!workspace.is_open());
    assert_eq!(workspace.state(), WorkspaceState::Closed);
}

#[test]
fn closing_workspace_twice_fails() {
    let root = tempfile::tempdir().expect("failed to create temporary directory");
    let mut workspace = open(root.path()).unwrap();

    workspace.close().unwrap();
    let result = workspace.close();

    assert!(matches!(result, Err(WorkspaceError::AlreadyClosed)));
}

#[test]
fn open_checks_come_in_order() {
    let (_temp_dir, mut workspace) = create_workspace();

    assert!(matches!(
        workspace.open_document_checked("/elsewhere/a.rs", false, false),
        Err(WorkspaceError::DocumentOutsideWorkspace(path)) if path == "/elsewhere/a.rs"
    ));
    assert!(matches!(
        workspace.open_document_checked("/root/a.rs", true, false),
        Err(WorkspaceError::FileNotFound(path)) if path == "/root/a.rs"
    ));
    assert_eq!(workspace.documents().len(), 0);

    let id = workspace.open_document_checked("/root/a.rs", true, true).unwrap();
    assert_eq!(id.value(), 1);
    assert_eq!(workspace.active_document_id(), Some(id));
    assert_eq!(workspace.documents()[0].path(), "/root/a.rs");

    assert!(matches!(
        workspace.open_document_checked("/root/./a.rs", true, true),
        Err(WorkspaceError::DocumentAlreadyOpen(path)) if path == "/root/./a.rs"
    ));
    assert_eq!(workspace.documents().len(), 1);

    workspace.close_document(id).unwrap();
    assert!(!workspace.is_document_open("/root/a.rs"));

    workspace.close().unwrap();
    assert!(matches!(
        workspace.open_document_checked("/root/b.rs", true, true),
        Err(WorkspaceError::WorkspaceClosed)
    ));
}
