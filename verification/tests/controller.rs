use flowy_core::{
    create_default_workspace, seed_for, AppController, DefaultFolderBuilder, DocumentSeed,
    FlowyError, FolderEditor, FolderManager, FolderPersistence, FolderPersistenceTransaction,
    InitFlags, ViewController, ViewInfo, WorkspaceDatabase, WorkspaceNotification, WorkspaceUser,
    FOLDER_ID,
};

fn manager(user: WorkspaceUser) -> FolderManager {
    FolderManager::new(FolderPersistence::new(user, WorkspaceDatabase::new()))
}

#[test]
fn flags_are_kept_by_user_and_the_last_one_counts() {
    let mut flags = InitFlags::new();
    assert_eq!(flags.get("u1"), None);
    flags.insert("u1".to_string(), false);
    flags.insert("u2".to_string(), true);
    assert_eq!(flags.get("u1"), Some(false));
    assert_eq!(flags.get("u2"), Some(true));
    flags.insert("u1".to_string(), true);
    assert_eq!(flags.get("u1"), Some(true));
    flags.insert("u2".to_string(), false);
    assert_eq!(flags.get("u2"), Some(false));
    assert_eq!(flags.get("u3"), None);
    assert_eq!(flags.get(""), None);
}

#[test]
fn the_first_view_of_an_app_starts_with_the_read_me() {
    assert_eq!(seed_for(0), DocumentSeed::ReadMe);
    assert_eq!(seed_for(1), DocumentSeed::Blank);
    assert_eq!(seed_for(usize::MAX), DocumentSeed::Blank);
}

#[test]
fn the_default_folder_is_one_workspace_with_one_app_with_one_view() {
    let folder = create_default_workspace(77, "w".to_string(), "a".to_string(), "v".to_string());
    let workspaces = folder.read_workspaces(None).unwrap();
    assert_eq!(workspaces.len(), 1);
    assert_eq!(workspaces[0].id, "w");
    assert_eq!(workspaces[0].name, "Workspace");
    assert_eq!(workspaces[0].desc, "");
    assert_eq!(workspaces[0].create_time, 77);
    let apps = folder.read_workspace_apps("w").unwrap();
    assert_eq!(apps.len(), 1);
    assert_eq!(apps[0].id, "a");
    assert_eq!(apps[0].name, "Getting started");
    assert_eq!(apps[0].create_time, 77);
    let views = folder.read_views("a").unwrap();
    assert_eq!(views.len(), 1);
    assert_eq!(views[0].id, "v");
    assert_eq!(views[0].name, "Read me");
    assert_eq!(views[0].belong_to_id, "a");
    assert!(folder.read_trash(None).unwrap().is_empty());
}

#[test]
fn the_default_folder_is_a_tree_even_under_one_identifier() {
    let folder = create_default_workspace(0, "x".to_string(), "x".to_string(), "x".to_string());
    assert_eq!(folder.read_workspaces(None).unwrap().len(), 1);
    assert_eq!(folder.read_app("x").unwrap().workspace_id, "x");
    assert_eq!(folder.read_view("x").unwrap().belong_to_id, "x");
}

#[test]
fn the_view_controller_notes_documents_once_a_view() {
    let mut c = ViewController::new();
    assert!(!c.is_listening());
    assert_eq!(c.document_count(), 0);
    assert_eq!(c.create_view_document_content("v1", DocumentSeed::ReadMe), Ok(()));
    assert_eq!(c.create_view_document_content("v2", DocumentSeed::Blank), Ok(()));
    assert_eq!(
        c.create_view_document_content("v1", DocumentSeed::Blank),
        Err(FlowyError::AlreadyExists)
    );
    assert_eq!(c.document_count(), 2);
    let first = c.document_at(0).unwrap();
    assert_eq!(first.view_id, "v1");
    assert_eq!(first.seed, DocumentSeed::ReadMe);
    assert_eq!(c.document_at(1).unwrap().seed, DocumentSeed::Blank);
    assert!(c.document_at(2).is_none());
    assert_eq!(c.initialize(), Ok(()));
    assert!(c.is_listening());
    let v = ViewInfo {
        id: "v9".to_string(),
        belong_to_id: "a".to_string(),
        name: String::new(),
        desc: String::new(),
        create_time: 0,
    };
    c.set_latest_view(&v);
    assert_eq!(c.document_count(), 2);
}

#[test]
fn the_app_controller_starts() {
    let mut c = AppController::new();
    assert!(!c.is_listening());
    assert_eq!(c.initialize(), Ok(()));
    assert!(c.is_listening());
}

#[test]
fn building_with_given_values_saves_the_default_folder_and_hands_out_the_event() {
    let mut p = FolderPersistence::new(WorkspaceUser::signed_in("u1", "t1"), WorkspaceDatabase::new());
    let mut vc = ViewController::new();
    let n = DefaultFolderBuilder::build_with(
        "t1",
        "u1",
        1234,
        "w".to_string(),
        "a".to_string(),
        "v".to_string(),
        &mut p,
        &mut vc,
    )
    .ok()
    .unwrap();
    assert_eq!(n.token, "t1");
    assert_eq!(n.kind, WorkspaceNotification::UserCreateWorkspace);
    let expected = create_default_workspace(1234, "w".to_string(), "a".to_string(), "v".to_string());
    assert_eq!(n.folder.to_bytes(), expected.to_bytes());
    assert_eq!(p.database().revision_count(), 1);
    let record = p.database().revision_at(0).unwrap();
    assert_eq!(record.revision.delta_data, expected.to_bytes());
    assert_eq!(record.revision.rev_id, 0);
    assert_eq!(record.revision.user_id, "u1");
    assert_eq!(vc.document_count(), 1);
    let doc = vc.document_at(0).unwrap();
    assert_eq!(doc.view_id, "v");
    assert_eq!(doc.seed, DocumentSeed::ReadMe);
    assert!(!p.is_ready());
}

#[test]
fn building_stops_at_the_first_failure() {
    // the document exists already: nothing is saved
    let mut p = FolderPersistence::new(WorkspaceUser::signed_in("u1", "t1"), WorkspaceDatabase::new());
    let mut vc = ViewController::new();
    vc.create_view_document_content("v", DocumentSeed::Blank).unwrap();
    let r = DefaultFolderBuilder::build_with(
        "t1", "u1", 1, "w".to_string(), "a".to_string(), "v".to_string(), &mut p, &mut vc,
    );
    assert_eq!(r.err(), Some(FlowyError::AlreadyExists));
    assert_eq!(p.database().revision_count(), 0);
    assert_eq!(vc.document_count(), 1);
    // the store cannot be reached: the document was asked for, no event comes
    let mut p = FolderPersistence::new(WorkspaceUser::signed_in("u1", "t1"), WorkspaceDatabase::new());
    p.set_store_reachable(false);
    let mut vc = ViewController::new();
    let r = DefaultFolderBuilder::build_with(
        "t1", "u1", 1, "w".to_string(), "a".to_string(), "v".to_string(), &mut p, &mut vc,
    );
    assert_eq!(r.err(), Some(FlowyError::StoreUnavailable));
    assert_eq!(vc.document_count(), 1);
    p.set_store_reachable(true);
    assert_eq!(p.database().revision_count(), 0);
}

#[test]
fn building_draws_the_time_and_fresh_identifiers() {
    let mut p = FolderPersistence::new(WorkspaceUser::signed_in("u1", "t1"), WorkspaceDatabase::new());
    let mut vc = ViewController::new();
    let n = DefaultFolderBuilder::build("t1", "u1", &mut p, &mut vc).ok().unwrap();
    let w = &n.folder.read_workspaces(None).unwrap()[0];
    let a = &n.folder.read_workspace_apps(&w.id).unwrap()[0];
    let v = &n.folder.read_views(&a.id).unwrap()[0];
    // the time is now: long after the year 2020
    assert!(w.create_time > 1_577_836_800);
    assert_eq!(a.create_time, w.create_time);
    assert_eq!(v.create_time, w.create_time);
    // the identifiers are three random ones, written as usual
    for id in [&w.id, &a.id, &v.id] {
        assert_eq!(id.len(), 36);
        assert_eq!(id.matches('-').count(), 4);
    }
    assert_ne!(w.id, a.id);
    assert_ne!(a.id, v.id);
    assert_ne!(w.id, v.id);
    assert_eq!(vc.document_at(0).unwrap().view_id, v.id);
    // a second building draws others
    let mut p2 = FolderPersistence::new(WorkspaceUser::signed_in("u1", "t1"), WorkspaceDatabase::new());
    let mut vc2 = ViewController::new();
    let n2 = DefaultFolderBuilder::build("t1", "u1", &mut p2, &mut vc2).ok().unwrap();
    assert_ne!(n2.folder.read_workspaces(None).unwrap()[0].id, w.id);
}

#[test]
fn a_new_manager_knows_the_signed_in_user_as_not_initialized() {
    let m = manager(WorkspaceUser::signed_in("u1", "t1"));
    assert!(!m.is_initialized("u1"));
    assert!(!m.is_initialized("u2"));
    assert!(!m.persistence().is_ready());
    assert!(!m.view_controller().is_listening());
    let m = manager(WorkspaceUser::signed_out());
    assert!(!m.is_initialized("u1"));
}

#[test]
fn a_new_user_gets_one_workspace_one_event_and_an_initialized_folder() {
    let mut m = manager(WorkspaceUser::signed_in("u1", "t1"));
    assert_eq!(m.initialize_with_new_user("u1", "t1"), Ok(()));
    assert!(m.is_initialized("u1"));
    assert!(m.persistence().is_ready());
    assert!(m.view_controller().is_listening());
    // exactly one workspace, with the default app and view
    let records = m.persistence().database().load(FOLDER_ID).unwrap();
    assert_eq!(records.len(), 1);
    let folder = flowy_core::replay_records(&records).unwrap();
    let workspaces = folder.read_workspaces(None).unwrap();
    assert_eq!(workspaces.len(), 1);
    assert_eq!(workspaces[0].name, "Workspace");
    let apps = folder.read_workspace_apps(&workspaces[0].id).unwrap();
    assert_eq!(apps.len(), 1);
    assert_eq!(apps[0].name, "Getting started");
    let views = folder.read_views(&apps[0].id).unwrap();
    assert_eq!(views.len(), 1);
    assert_eq!(views[0].name, "Read me");
    // the event fired once, with the folder that was created
    let events = m.take_notifications();
    assert_eq!(events.len(), 1);
    assert_eq!(events[0].kind, WorkspaceNotification::UserCreateWorkspace);
    assert_eq!(events[0].token, "t1");
    assert_eq!(events[0].folder.to_bytes(), folder.to_bytes());
    assert!(m.take_notifications().is_empty());
    // the read-me was asked for, for the one view
    assert_eq!(m.view_controller().document_count(), 1);
    let doc = m.view_controller().document_at(0).unwrap();
    assert_eq!(doc.view_id, views[0].id);
    assert_eq!(doc.seed, DocumentSeed::ReadMe);
    // initializing afterwards does nothing
    assert_eq!(m.initialize("u1"), Ok(()));
    assert!(m.take_notifications().is_empty());
    assert_eq!(m.persistence().database().revision_count(), 1);
    assert_eq!(m.view_controller().document_count(), 1);
}

#[test]
fn a_user_with_data_is_no_new_user() {
    let mut m = manager(WorkspaceUser::signed_in("u1", "t1"));
    m.initialize_with_new_user("u1", "t1").unwrap();
    let _ = m.take_notifications();
    assert_eq!(m.initialize_with_new_user("u1", "t1"), Err(FlowyError::AlreadyExists));
    assert_eq!(m.persistence().database().revision_count(), 1);
    assert!(m.take_notifications().is_empty());
}

#[test]
fn the_second_initialize_does_nothing() {
    let mut p = FolderPersistence::new(WorkspaceUser::signed_in("u1", "t1"), WorkspaceDatabase::new());
    p.save_folder("u1", flowy_core::FolderPad::empty()).unwrap();
    let mut m = FolderManager::new(p);
    assert_eq!(m.initialize("u1"), Ok(()));
    assert!(m.is_initialized("u1"));
    assert!(m.persistence().is_ready());
    // with the store out of reach a second call would fail if it went to
    // the store at all
    let mut m = {
        let mut p = FolderPersistence::new(
            WorkspaceUser::signed_in("u1", "t1"),
            WorkspaceDatabase::new(),
        );
        p.save_folder("u1", flowy_core::FolderPad::empty()).unwrap();
        let mut m = FolderManager::new(p);
        m.initialize("u1").unwrap();
        m
    };
    m.clear();
    assert!(!m.persistence().is_ready());
    assert_eq!(m.initialize("u1"), Ok(()));
    // the flag outlives the logout: nothing was built again
    assert!(!m.persistence().is_ready());
    assert!(m.is_initialized("u1"));
}

#[test]
fn a_failed_initialize_leaves_the_flag_unset_and_is_tried_again() {
    let mut m = manager(WorkspaceUser::signed_in("u1", "t1"));
    assert_eq!(m.initialize("u1"), Err(FlowyError::NotFound));
    assert!(!m.is_initialized("u1"));
    assert!(!m.view_controller().is_listening());
    assert_eq!(m.initialize("u1"), Err(FlowyError::NotFound));
    // once there is data, the next call succeeds
    assert_eq!(m.initialize_with_new_user("u1", "t1"), Ok(()));
    assert!(m.is_initialized("u1"));
}

#[test]
fn the_manager_needs_a_signed_in_user() {
    let mut p = FolderPersistence::new(WorkspaceUser::signed_out(), WorkspaceDatabase::new());
    p.save_folder("u1", flowy_core::FolderPad::empty()).unwrap();
    let mut m = FolderManager::new(p);
    assert_eq!(m.initialize("u1"), Err(FlowyError::NotAuthenticated));
    assert!(!m.is_initialized("u1"));
}

#[test]
fn the_flags_are_kept_by_user() {
    let mut m = manager(WorkspaceUser::signed_in("u1", "t1"));
    m.initialize_with_new_user("u1", "t1").unwrap();
    assert!(m.is_initialized("u1"));
    assert!(!m.is_initialized("u2"));
    // another user's call goes to the store again
    assert_eq!(m.initialize("u2"), Ok(()));
    assert!(m.is_initialized("u2"));
}

#[test]
fn clear_ends_the_session_and_keeps_what_was_written() {
    let mut m = manager(WorkspaceUser::signed_in("u1", "t1"));
    m.initialize_with_new_user("u1", "t1").unwrap();
    m.clear();
    assert!(!m.persistence().is_ready());
    assert!(m.is_initialized("u1"));
    assert_eq!(m.persistence().database().revision_count(), 1);
    m.clear();
    assert!(!m.persistence().is_ready());
}

#[test]
fn data_from_the_socket_changes_nothing() {
    let mut m = manager(WorkspaceUser::signed_in("u1", "t1"));
    m.initialize_with_new_user("u1", "t1").unwrap();
    m.did_receive_ws_data(bytes::Bytes::from_static(b"anything"));
    m.did_receive_ws_data(bytes::Bytes::new());
    assert_eq!(m.persistence().database().revision_count(), 1);
    assert!(m.is_initialized("u1"));
}

#[test]
fn the_editor_is_reached_through_the_manager_after_a_new_login() {
    let mut p = FolderPersistence::new(WorkspaceUser::signed_in("u1", "t1"), WorkspaceDatabase::new());
    let mut vc = ViewController::new();
    DefaultFolderBuilder::build_with(
        "t1", "u1", 5, "w".to_string(), "a".to_string(), "v".to_string(), &mut p, &mut vc,
    )
    .ok()
    .unwrap();
    p.initialize("u1").unwrap();
    let name = p.begin_transaction(|e: FolderEditor| {
        let r = e.read_view("v").map(|v| v.name);
        (e, r)
    });
    assert_eq!(name, Ok("Read me".to_string()));
}

#[test]
fn transactions_run_through_the_manager() {
    let mut m = manager(WorkspaceUser::signed_in("u1", "t1"));
    m.initialize_with_new_user("u1", "t1").unwrap();
    let r = m.begin_transaction(|mut e: FolderEditor| {
        let r = e.create_workspace(
            "u1",
            flowy_core::Workspace {
                id: "w2".to_string(),
                name: "Second".to_string(),
                desc: String::new(),
                create_time: 0,
            },
        );
        (e, r)
    });
    assert_eq!(r, Ok(()));
    assert_eq!(m.persistence().database().revision_count(), 2);
    assert!(m.take_diagnostics().is_empty());
    // after a logout the next transaction builds the editor and notes it
    m.clear();
    let n = m.begin_transaction(|e: FolderEditor| {
        let r = e.read_workspaces("u1", None).map(|w| w.len());
        (e, r)
    });
    assert_eq!(n, Ok(2));
    assert_eq!(m.take_diagnostics(), vec![FlowyError::ProtocolViolation]);
}

fn saved_store() -> FolderPersistence {
    let mut p = FolderPersistence::new(WorkspaceUser::signed_in("u1", "t1"), WorkspaceDatabase::new());
    p.save_folder("u1", flowy_core::FolderPad::empty()).unwrap();
    p
}

#[test]
fn a_controller_that_meets_an_error_does_not_start() {
    let mut app = AppController::new();
    app.set_fault(Some(FlowyError::StoreUnavailable));
    assert_eq!(app.initialize(), Err(FlowyError::StoreUnavailable));
    assert!(!app.is_listening());
    app.set_fault(None);
    assert_eq!(app.initialize(), Ok(()));
    assert!(app.is_listening());
    let mut view = ViewController::new();
    view.set_fault(Some(FlowyError::NotFound));
    assert_eq!(view.initialize(), Err(FlowyError::NotFound));
    assert!(!view.is_listening());
    view.set_fault(None);
    assert_eq!(view.initialize(), Ok(()));
    assert!(view.is_listening());
}

#[test]
fn when_the_apps_controller_does_not_start_the_flag_stays_unset() {
    let mut app = AppController::new();
    app.set_fault(Some(FlowyError::StoreUnavailable));
    let mut m = FolderManager::with_controllers(saved_store(), app, ViewController::new());
    assert_eq!(m.initialize("u1"), Err(FlowyError::StoreUnavailable));
    assert!(!m.is_initialized("u1"));
    // the store was initialized before, and the views' controller was not started after
    assert!(m.persistence().is_ready());
    assert!(!m.view_controller().is_listening());
    // the next call tries again, and succeeds once the controller starts
    assert_eq!(m.initialize("u1"), Err(FlowyError::StoreUnavailable));
    m.set_controller_faults(None, None);
    assert_eq!(m.initialize("u1"), Ok(()));
    assert!(m.is_initialized("u1"));
    assert!(m.view_controller().is_listening());
}

#[test]
fn when_the_views_controller_does_not_start_the_flag_stays_unset() {
    let mut view = ViewController::new();
    view.set_fault(Some(FlowyError::NotFound));
    let mut m = FolderManager::with_controllers(saved_store(), AppController::new(), view);
    assert_eq!(m.initialize("u1"), Err(FlowyError::NotFound));
    assert!(!m.is_initialized("u1"));
    assert!(m.persistence().is_ready());
    assert!(!m.view_controller().is_listening());
    m.set_controller_faults(None, None);
    assert_eq!(m.initialize("u1"), Ok(()));
    assert!(m.is_initialized("u1"));
}

#[test]
fn the_error_of_the_apps_controller_comes_first() {
    let mut m = FolderManager::new(saved_store());
    m.set_controller_faults(Some(FlowyError::Corruption), Some(FlowyError::NotFound));
    assert_eq!(m.initialize("u1"), Err(FlowyError::Corruption));
    m.set_controller_faults(None, Some(FlowyError::NotFound));
    assert_eq!(m.initialize("u1"), Err(FlowyError::NotFound));
    assert!(!m.is_initialized("u1"));
}

#[test]
fn a_new_user_whose_controller_does_not_start_has_the_folder_and_no_flag() {
    let mut m = manager(WorkspaceUser::signed_in("u1", "t1"));
    m.set_controller_faults(Some(FlowyError::StoreUnavailable), None);
    assert_eq!(m.initialize_with_new_user("u1", "t1"), Err(FlowyError::StoreUnavailable));
    assert!(!m.is_initialized("u1"));
    assert_eq!(m.persistence().database().revision_count(), 1);
    assert_eq!(m.take_notifications().len(), 1);
    m.set_controller_faults(None, None);
    assert_eq!(m.initialize("u1"), Ok(()));
    assert!(m.is_initialized("u1"));
}

#[test]
fn an_initialized_user_is_not_held_up_by_a_controller() {
    let mut m = FolderManager::new(saved_store());
    m.initialize("u1").unwrap();
    m.set_controller_faults(Some(FlowyError::Corruption), Some(FlowyError::Corruption));
    assert_eq!(m.initialize("u1"), Ok(()));
}

#[test]
fn a_new_user_is_set_up_in_two_steps() {
    let mut m = manager(WorkspaceUser::signed_in("u1", "t1"));
    // the first step leaves the store alone and asks for the document
    let folder = m.prepare_new_user().ok().unwrap();
    assert_eq!(m.persistence().database().revision_count(), 0);
    assert!(m.take_notifications().is_empty());
    assert_eq!(m.view_controller().document_count(), 1);
    let view_id = m.view_controller().document_at(0).unwrap().view_id;
    assert_eq!(folder.read_view(&view_id).unwrap().name, "Read me");
    assert_eq!(m.view_controller().document_at(0).unwrap().seed, DocumentSeed::ReadMe);
    // the second step saves, queues the event and initializes
    let bytes = folder.to_bytes();
    assert_eq!(m.complete_new_user("u1", "t1", folder), Ok(()));
    assert!(m.is_initialized("u1"));
    assert_eq!(m.persistence().database().revision_count(), 1);
    assert_eq!(m.persistence().database().revision_at(0).unwrap().revision.delta_data, bytes);
    let events = m.take_notifications();
    assert_eq!(events.len(), 1);
    assert_eq!(events[0].token, "t1");
    assert_eq!(events[0].folder.to_bytes(), bytes);
}

#[test]
fn the_second_step_changes_nothing_where_the_folder_cannot_be_saved() {
    let mut m = manager(WorkspaceUser::signed_in("u1", "t1"));
    m.initialize_with_new_user("u1", "t1").unwrap();
    let _ = m.take_notifications();
    let folder = m.prepare_new_user().ok().unwrap();
    assert_eq!(m.complete_new_user("u1", "t1", folder), Err(FlowyError::AlreadyExists));
    assert_eq!(m.persistence().database().revision_count(), 1);
    assert!(m.take_notifications().is_empty());
}

#[test]
fn preparing_with_given_values_makes_the_default_folder() {
    let mut vc = ViewController::new();
    let folder =
        DefaultFolderBuilder::prepare_with(9, "w".to_string(), "a".to_string(), "v".to_string(), &mut vc)
            .ok()
            .unwrap();
    let expected = create_default_workspace(9, "w".to_string(), "a".to_string(), "v".to_string());
    assert_eq!(folder.to_bytes(), expected.to_bytes());
    assert_eq!(vc.document_count(), 1);
    let again =
        DefaultFolderBuilder::prepare_with(9, "w".to_string(), "a".to_string(), "v".to_string(), &mut vc);
    assert_eq!(again.err(), Some(FlowyError::AlreadyExists));
    assert_eq!(vc.document_count(), 1);
}
