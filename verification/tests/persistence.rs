use flowy_core::revision::RevisionState;
use flowy_core::{
    App, FlowyError, FolderEditor, FolderPad, FolderPersistence, FolderPersistenceTransaction,
    FlowyResult, Workspace, WorkspaceDatabase, WorkspaceUser, FOLDER_ID,
};

fn workspace(id: &str) -> Workspace {
    Workspace { id: id.to_string(), name: format!("ws {}", id), desc: String::new(), create_time: 1 }
}

fn folder_with(ids: &[&str]) -> FolderPad {
    let mut pad = FolderPad::empty();
    for id in ids {
        pad.create_workspace(workspace(id)).unwrap();
    }
    pad
}

fn persistence() -> FolderPersistence {
    FolderPersistence::new(WorkspaceUser::signed_in("u1", "t1"), WorkspaceDatabase::new())
}

fn workspace_ids(p: &mut FolderPersistence) -> FlowyResult<Vec<String>> {
    p.begin_transaction(|e: FolderEditor| {
        let r = e.read_workspaces("u1", None).map(|ws| ws.into_iter().map(|w| w.id).collect());
        (e, r)
    })
}

#[test]
fn a_new_facade_has_no_editor() {
    let p = persistence();
    assert!(!p.is_ready());
    assert_eq!(p.database().revision_count(), 0);
    assert_eq!(p.user().user_id(), Ok("u1".to_string()));
}

#[test]
fn saving_a_folder_writes_the_first_record() {
    let mut p = persistence();
    let folder = folder_with(&["w1"]);
    let bytes = folder.to_bytes();
    assert_eq!(p.save_folder("u1", folder), Ok(()));
    assert!(!p.is_ready());
    assert_eq!(p.database().revision_count(), 1);
    let record = p.database().revision_at(0).unwrap();
    assert_eq!(record.revision.object_id, FOLDER_ID);
    assert_eq!(record.revision.base_rev_id, 0);
    assert_eq!(record.revision.rev_id, 0);
    assert_eq!(record.revision.user_id, "u1");
    assert_eq!(record.revision.delta_data, bytes);
    assert_eq!(record.revision.md5, flowy_core::md5(&bytes));
    assert_eq!(record.state, RevisionState::Sync);
    assert!(record.write_to_disk);
}

#[test]
fn a_second_first_record_is_refused() {
    let mut p = persistence();
    p.save_folder("u1", folder_with(&["w1"])).unwrap();
    assert_eq!(p.save_folder("u1", folder_with(&["w2"])), Err(FlowyError::AlreadyExists));
    assert_eq!(p.database().revision_count(), 1);
    // with a live editor too
    p.initialize("u1").unwrap();
    assert_eq!(p.save_folder("u1", folder_with(&["w3"])), Err(FlowyError::AlreadyExists));
    assert_eq!(p.database().revision_count(), 1);
    assert!(p.is_ready());
}

#[test]
fn saving_needs_a_reachable_store() {
    let mut p = persistence();
    p.set_store_reachable(false);
    assert_eq!(p.save_folder("u1", folder_with(&["w1"])), Err(FlowyError::StoreUnavailable));
    p.set_store_reachable(true);
    assert_eq!(p.database().revision_count(), 0);
    assert_eq!(p.save_folder("u1", folder_with(&["w1"])), Ok(()));
}

#[test]
fn initializing_builds_the_editor_from_the_store() {
    let mut p = persistence();
    p.save_folder("u1", folder_with(&["w1", "w2"])).unwrap();
    assert_eq!(p.initialize("u1"), Ok(()));
    assert!(p.is_ready());
    assert!(p.take_diagnostics().is_empty());
    assert_eq!(workspace_ids(&mut p), Ok(vec!["w1".to_string(), "w2".to_string()]));
    assert!(p.take_diagnostics().is_empty());
}

#[test]
fn initializing_without_data_is_not_found() {
    let mut p = persistence();
    assert_eq!(p.initialize("u1"), Err(FlowyError::NotFound));
    assert!(!p.is_ready());
    assert_eq!(p.database().revision_count(), 0);
}

#[test]
fn initializing_without_a_user_is_not_authenticated() {
    let mut p = FolderPersistence::new(WorkspaceUser::signed_out(), WorkspaceDatabase::new());
    p.save_folder("u1", folder_with(&["w1"])).unwrap();
    assert_eq!(p.initialize("u1"), Err(FlowyError::NotAuthenticated));
    assert!(!p.is_ready());
    p.set_user(WorkspaceUser::signed_in("u1", "t1"));
    assert_eq!(p.initialize("u1"), Ok(()));
    assert!(p.is_ready());
}

#[test]
fn initializing_needs_a_reachable_store() {
    let mut p = persistence();
    p.save_folder("u1", folder_with(&["w1"])).unwrap();
    p.set_store_reachable(false);
    assert_eq!(p.initialize("u1"), Err(FlowyError::StoreUnavailable));
    assert!(!p.is_ready());
    p.set_store_reachable(true);
    assert_eq!(p.initialize("u1"), Ok(()));
}

#[test]
fn initializing_again_keeps_the_folder() {
    let mut p = persistence();
    p.save_folder("u1", folder_with(&["w1"])).unwrap();
    p.initialize("u1").unwrap();
    p.begin_transaction(|mut e: FolderEditor| {
        let r = e.create_workspace("u1", workspace("w2"));
        (e, r)
    })
    .unwrap();
    assert_eq!(p.initialize("u1"), Ok(()));
    assert!(p.is_ready());
    assert_eq!(p.database().revision_count(), 2);
    assert_eq!(workspace_ids(&mut p), Ok(vec!["w1".to_string(), "w2".to_string()]));
    // while the store cannot be reached the live editor stays
    p.set_store_reachable(false);
    assert_eq!(p.initialize("u1"), Err(FlowyError::StoreUnavailable));
    assert!(p.is_ready());
}

#[test]
fn a_transaction_sees_what_the_one_before_wrote() {
    let mut p = persistence();
    p.save_folder("u1", FolderPad::empty()).unwrap();
    p.initialize("u1").unwrap();
    let first = p.begin_transaction(|mut e: FolderEditor| {
        let r = e.create_workspace("u1", workspace("w1"));
        (e, r)
    });
    assert_eq!(first, Ok(()));
    let second = p.begin_transaction(|mut e: FolderEditor| {
        let r = e.create_app(App {
            id: "a1".to_string(),
            workspace_id: "w1".to_string(),
            name: "n".to_string(),
            desc: String::new(),
            create_time: 0,
        });
        (e, r)
    });
    assert_eq!(second, Ok(()));
    assert_eq!(p.database().revision_count(), 3);
    let third: FlowyResult<String> = p.begin_transaction(|e: FolderEditor| {
        let r = e.read_app("a1").map(|a| a.workspace_id);
        (e, r)
    });
    assert_eq!(third, Ok("w1".to_string()));
}

#[test]
fn the_error_of_a_transaction_is_handed_on() {
    let mut p = persistence();
    p.save_folder("u1", FolderPad::empty()).unwrap();
    p.initialize("u1").unwrap();
    let r = p.begin_transaction(|mut e: FolderEditor| {
        let r = e.delete_view("nope");
        (e, r)
    });
    assert_eq!(r, Err(FlowyError::NotFound));
    assert!(p.is_ready());
    assert_eq!(p.database().revision_count(), 1);
}

#[test]
fn a_transaction_before_initializing_builds_the_editor_once_and_notes_the_violation() {
    let mut p = persistence();
    p.save_folder("u1", folder_with(&["w1"])).unwrap();
    assert!(!p.is_ready());
    // the first caller finds no editor: it is built
    let first = p.begin_transaction(|mut e: FolderEditor| {
        let r = e.create_workspace("u1", workspace("w2"));
        (e, r)
    });
    assert_eq!(first, Ok(()));
    assert!(p.is_ready());
    // the second caller gets the same editor: it sees the first one's write
    assert_eq!(workspace_ids(&mut p), Ok(vec!["w1".to_string(), "w2".to_string()]));
    // one violation was noted, for the one building
    assert_eq!(p.take_diagnostics(), vec![FlowyError::ProtocolViolation]);
    assert!(p.take_diagnostics().is_empty());
    assert_eq!(p.database().revision_count(), 2);
}

#[test]
fn a_transaction_that_cannot_build_the_editor_does_not_run() {
    let mut p = persistence();
    let mut ran = false;
    let r = p.begin_transaction(|e: FolderEditor| {
        ran = true;
        (e, Ok(()))
    });
    assert_eq!(r, Err(FlowyError::NotFound));
    assert!(!ran);
    assert!(!p.is_ready());
    assert_eq!(p.take_diagnostics(), vec![FlowyError::ProtocolViolation]);

    let mut p = FolderPersistence::new(WorkspaceUser::signed_out(), WorkspaceDatabase::new());
    p.save_folder("u1", FolderPad::empty()).unwrap();
    let r = p.begin_transaction(|e: FolderEditor| (e, Ok(())));
    assert_eq!(r, Err(FlowyError::NotAuthenticated));

    let mut p = persistence();
    p.save_folder("u1", FolderPad::empty()).unwrap();
    p.set_store_reachable(false);
    let r = p.begin_transaction(|e: FolderEditor| (e, Ok(())));
    assert_eq!(r, Err(FlowyError::StoreUnavailable));
    assert!(!p.is_ready());
}

#[test]
fn logout_drops_the_editor_and_keeps_the_store() {
    let mut p = persistence();
    p.save_folder("u1", FolderPad::empty()).unwrap();
    p.initialize("u1").unwrap();
    p.begin_transaction(|mut e: FolderEditor| {
        let r = e.create_workspace("u1", workspace("w1"));
        (e, r)
    })
    .unwrap();
    let before: Vec<Vec<u8>> =
        p.database().load(FOLDER_ID).unwrap().into_iter().map(|r| r.revision.delta_data).collect();
    p.user_did_logout();
    assert!(!p.is_ready());
    let after: Vec<Vec<u8>> =
        p.database().load(FOLDER_ID).unwrap().into_iter().map(|r| r.revision.delta_data).collect();
    assert_eq!(before, after);
    // logging out twice is logging out
    p.user_did_logout();
    assert!(!p.is_ready());
    assert_eq!(p.database().revision_count(), 2);
    // the next session finds what the last one wrote
    p.initialize("u1").unwrap();
    assert_eq!(workspace_ids(&mut p), Ok(vec!["w1".to_string()]));
}

#[test]
fn the_editor_belongs_to_the_user_that_is_signed_in() {
    let mut p = FolderPersistence::new(WorkspaceUser::signed_in("u7", "t7"), WorkspaceDatabase::new());
    p.save_folder("u7", FolderPad::empty()).unwrap();
    p.initialize("u7").unwrap();
    let who: FlowyResult<String> = p.begin_transaction(|e: FolderEditor| {
        let id = e.user_id().clone();
        (e, Ok(id))
    });
    assert_eq!(who, Ok("u7".to_string()));
    p.begin_transaction(|mut e: FolderEditor| {
        let r = e.create_workspace("u7", workspace("w1"));
        (e, r)
    })
    .unwrap();
    assert_eq!(p.database().revision_at(1).unwrap().revision.user_id, "u7");
}
