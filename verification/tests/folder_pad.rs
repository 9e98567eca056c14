use flowy_core::{
    App, AppChangeset, FlowyError, FolderNode, FolderPad, Trash, TrashType, ViewChangeset,
    ViewInfo, Workspace, WorkspaceChangeset,
};

fn workspace(id: &str) -> Workspace {
    Workspace { id: id.to_string(), name: format!("ws {}", id), desc: String::new(), create_time: 1 }
}

fn app(id: &str, workspace_id: &str) -> App {
    App {
        id: id.to_string(),
        workspace_id: workspace_id.to_string(),
        name: format!("app {}", id),
        desc: String::new(),
        create_time: 2,
    }
}

fn view(id: &str, app_id: &str) -> ViewInfo {
    ViewInfo {
        id: id.to_string(),
        belong_to_id: app_id.to_string(),
        name: format!("view {}", id),
        desc: String::new(),
        create_time: 3,
    }
}

fn trash(id: &str, ty: TrashType) -> Trash {
    Trash { id: id.to_string(), name: format!("gone {}", id), create_time: 4, ty }
}

/// w1 { a1 { v1, v2 }, a2 { v3 } }, w2 { a3 }
fn sample() -> FolderPad {
    let mut pad = FolderPad::empty();
    pad.create_workspace(workspace("w1")).unwrap();
    pad.create_workspace(workspace("w2")).unwrap();
    pad.create_app(app("a1", "w1")).unwrap();
    pad.create_app(app("a2", "w1")).unwrap();
    pad.create_app(app("a3", "w2")).unwrap();
    pad.create_view(view("v1", "a1")).unwrap();
    pad.create_view(view("v2", "a1")).unwrap();
    pad.create_view(view("v3", "a2")).unwrap();
    pad
}

fn ids_of_workspaces(pad: &FolderPad) -> Vec<String> {
    pad.read_workspaces(None).unwrap().into_iter().map(|w| w.id).collect()
}

fn ids_of_apps(pad: &FolderPad, workspace_id: &str) -> Vec<String> {
    pad.read_workspace_apps(workspace_id).unwrap().into_iter().map(|a| a.id).collect()
}

fn ids_of_views(pad: &FolderPad, app_id: &str) -> Vec<String> {
    pad.read_views(app_id).unwrap().into_iter().map(|v| v.id).collect()
}

#[test]
fn an_empty_folder_holds_nothing() {
    let pad = FolderPad::empty();
    assert!(pad.read_workspaces(None).unwrap().is_empty());
    assert!(pad.read_trash(None).unwrap().is_empty());
    assert_eq!(pad.read_app("a").err(), Some(FlowyError::NotFound));
    assert_eq!(pad.read_view("v").err(), Some(FlowyError::NotFound));
}

#[test]
fn reads_follow_the_tree() {
    let pad = sample();
    assert_eq!(ids_of_workspaces(&pad), vec!["w1", "w2"]);
    assert_eq!(ids_of_apps(&pad, "w1"), vec!["a1", "a2"]);
    assert_eq!(ids_of_apps(&pad, "w2"), vec!["a3"]);
    assert_eq!(ids_of_views(&pad, "a1"), vec!["v1", "v2"]);
    assert_eq!(ids_of_views(&pad, "a2"), vec!["v3"]);
    assert!(ids_of_views(&pad, "a3").is_empty());
    let one = pad.read_workspaces(Some("w2".to_string())).unwrap();
    assert_eq!(one.len(), 1);
    assert_eq!(one[0].id, "w2");
    assert_eq!(one[0].name, "ws w2");
    assert_eq!(pad.read_app("a2").unwrap().workspace_id, "w1");
    assert_eq!(pad.read_view("v3").unwrap().belong_to_id, "a2");
}

#[test]
fn reading_what_is_missing_is_not_found() {
    let pad = sample();
    assert_eq!(pad.read_workspaces(Some("nope".to_string())).err(), Some(FlowyError::NotFound));
    assert_eq!(pad.read_app("nope").err(), Some(FlowyError::NotFound));
    assert_eq!(pad.read_workspace_apps("nope").err(), Some(FlowyError::NotFound));
    assert_eq!(pad.read_view("nope").err(), Some(FlowyError::NotFound));
    assert_eq!(pad.read_views("nope").err(), Some(FlowyError::NotFound));
    assert_eq!(pad.read_trash(Some("nope".to_string())).err(), Some(FlowyError::NotFound));
}

#[test]
fn an_identifier_is_taken_once_for_its_kind() {
    let mut pad = sample();
    assert_eq!(pad.create_workspace(workspace("w1")), Err(FlowyError::AlreadyExists));
    assert_eq!(pad.create_app(app("a1", "w2")), Err(FlowyError::AlreadyExists));
    assert_eq!(pad.create_view(view("v1", "a3")), Err(FlowyError::AlreadyExists));
    // the kinds do not share their identifiers
    assert_eq!(pad.create_workspace(workspace("a1")), Ok(()));
    assert_eq!(pad.create_app(app("v1", "w1")), Ok(()));
    assert_eq!(pad.create_view(view("w1", "a1")), Ok(()));
    assert_eq!(ids_of_workspaces(&pad), vec!["w1", "w2", "a1"]);
}

#[test]
fn a_child_needs_its_parent() {
    let mut pad = sample();
    assert_eq!(pad.create_app(app("a9", "nope")), Err(FlowyError::NotFound));
    assert_eq!(pad.create_view(view("v9", "nope")), Err(FlowyError::NotFound));
    // a workspace is no parent of a view
    assert_eq!(pad.create_view(view("v9", "w1")), Err(FlowyError::NotFound));
    assert_eq!(ids_of_apps(&pad, "w1"), vec!["a1", "a2"]);
}

#[test]
fn an_update_changes_the_named_fields_only() {
    let mut pad = sample();
    pad.update_workspace(WorkspaceChangeset {
        id: "w1".to_string(),
        name: Some("Home".to_string()),
        desc: None,
    })
    .unwrap();
    let w = &pad.read_workspaces(Some("w1".to_string())).unwrap()[0];
    assert_eq!(w.name, "Home");
    assert_eq!(w.desc, "");
    assert_eq!(w.create_time, 1);
    pad.update_app(AppChangeset { id: "a2".to_string(), name: None, desc: Some("notes".to_string()) })
        .unwrap();
    let a = pad.read_app("a2").unwrap();
    assert_eq!(a.name, "app a2");
    assert_eq!(a.desc, "notes");
    assert_eq!(a.workspace_id, "w1");
    pad.update_view(ViewChangeset {
        id: "v2".to_string(),
        name: Some("n".to_string()),
        desc: Some("d".to_string()),
    })
    .unwrap();
    let v = pad.read_view("v2").unwrap();
    assert_eq!(v.name, "n");
    assert_eq!(v.desc, "d");
    // the others are untouched, and the order stays
    assert_eq!(pad.read_view("v1").unwrap().name, "view v1");
    assert_eq!(ids_of_views(&pad, "a1"), vec!["v1", "v2"]);
    assert_eq!(ids_of_workspaces(&pad), vec!["w1", "w2"]);
}

#[test]
fn an_update_without_fields_changes_nothing() {
    let mut pad = sample();
    pad.update_app(AppChangeset { id: "a1".to_string(), name: None, desc: None }).unwrap();
    let a = pad.read_app("a1").unwrap();
    assert_eq!(a.name, "app a1");
    assert_eq!(a.desc, "");
}

#[test]
fn updating_what_is_missing_is_not_found() {
    let mut pad = sample();
    let c = WorkspaceChangeset { id: "nope".to_string(), name: Some("x".to_string()), desc: None };
    assert_eq!(pad.update_workspace(c), Err(FlowyError::NotFound));
    let c = AppChangeset { id: "w1".to_string(), name: Some("x".to_string()), desc: None };
    assert_eq!(pad.update_app(c), Err(FlowyError::NotFound));
    let c = ViewChangeset { id: "a1".to_string(), name: Some("x".to_string()), desc: None };
    assert_eq!(pad.update_view(c), Err(FlowyError::NotFound));
}

#[test]
fn deleting_a_workspace_takes_its_apps_and_views_along() {
    let mut pad = sample();
    pad.delete_workspace("w1").unwrap();
    assert_eq!(ids_of_workspaces(&pad), vec!["w2"]);
    assert_eq!(pad.read_app("a1").err(), Some(FlowyError::NotFound));
    assert_eq!(pad.read_app("a2").err(), Some(FlowyError::NotFound));
    assert_eq!(pad.read_view("v1").err(), Some(FlowyError::NotFound));
    assert_eq!(pad.read_view("v3").err(), Some(FlowyError::NotFound));
    assert_eq!(ids_of_apps(&pad, "w2"), vec!["a3"]);
    assert_eq!(pad.delete_workspace("w1"), Err(FlowyError::NotFound));
}

#[test]
fn deleting_an_app_takes_its_views_along_and_hands_the_app_back() {
    let mut pad = sample();
    let gone = pad.delete_app("a1").unwrap();
    assert_eq!(gone.id, "a1");
    assert_eq!(gone.workspace_id, "w1");
    assert_eq!(gone.name, "app a1");
    assert_eq!(ids_of_apps(&pad, "w1"), vec!["a2"]);
    assert_eq!(pad.read_view("v1").err(), Some(FlowyError::NotFound));
    assert_eq!(pad.read_view("v2").err(), Some(FlowyError::NotFound));
    assert_eq!(ids_of_views(&pad, "a2"), vec!["v3"]);
    assert_eq!(pad.delete_app("a1").err(), Some(FlowyError::NotFound));
}

#[test]
fn deleting_a_view_leaves_the_others() {
    let mut pad = sample();
    pad.delete_view("v1").unwrap();
    assert_eq!(ids_of_views(&pad, "a1"), vec!["v2"]);
    assert_eq!(pad.delete_view("v1"), Err(FlowyError::NotFound));
    assert_eq!(pad.delete_view("a1"), Err(FlowyError::NotFound));
}

#[test]
fn what_goes_to_the_trash_leaves_the_tree() {
    let mut pad = sample();
    pad.create_trash(vec![trash("v3", TrashType::View), trash("a1", TrashType::App)]);
    // the view v3 is gone, and the app a1 with its views
    assert_eq!(pad.read_view("v3").err(), Some(FlowyError::NotFound));
    assert_eq!(pad.read_app("a1").err(), Some(FlowyError::NotFound));
    assert_eq!(pad.read_view("v1").err(), Some(FlowyError::NotFound));
    assert_eq!(pad.read_view("v2").err(), Some(FlowyError::NotFound));
    assert_eq!(ids_of_apps(&pad, "w1"), vec!["a2"]);
    let all = pad.read_trash(None).unwrap();
    assert_eq!(all.len(), 2);
    assert_eq!(all[0].id, "v3");
    assert_eq!(all[1].id, "a1");
    assert_eq!(all[1].ty, TrashType::App);
    // and it cannot come back under its identifier while it is there
    assert_eq!(pad.create_app(app("a1", "w1")), Err(FlowyError::AlreadyExists));
    assert_eq!(pad.create_view(view("v3", "a2")), Err(FlowyError::AlreadyExists));
    // a view may take the identifier of a trashed app
    assert_eq!(pad.create_view(view("a1", "a2")), Ok(()));
}

#[test]
fn an_entry_of_another_kind_moves_nothing() {
    let mut pad = sample();
    pad.create_trash(vec![trash("a1", TrashType::View), trash("v1", TrashType::Unknown)]);
    assert_eq!(pad.read_app("a1").unwrap().id, "a1");
    assert_eq!(pad.read_view("v1").unwrap().id, "v1");
    assert_eq!(pad.read_trash(None).unwrap().len(), 2);
}

#[test]
fn the_trash_is_read_whole_or_by_identifier() {
    let mut pad = sample();
    pad.create_trash(vec![trash("x", TrashType::View), trash("y", TrashType::App)]);
    pad.create_trash(vec![trash("x", TrashType::App)]);
    let by_id = pad.read_trash(Some("x".to_string())).unwrap();
    assert_eq!(by_id.len(), 2);
    assert_eq!(by_id[0].ty, TrashType::View);
    assert_eq!(by_id[1].ty, TrashType::App);
    assert_eq!(pad.read_trash(Some("y".to_string())).unwrap().len(), 1);
    assert_eq!(pad.read_trash(None).unwrap().len(), 3);
}

#[test]
fn the_trash_is_emptied_whole_or_by_identifier() {
    let mut pad = sample();
    pad.create_trash(vec![
        trash("x", TrashType::View),
        trash("y", TrashType::App),
        trash("z", TrashType::View),
    ]);
    pad.delete_trash(Some(vec!["x".to_string(), "nope".to_string()]));
    let left: Vec<String> = pad.read_trash(None).unwrap().into_iter().map(|t| t.id).collect();
    assert_eq!(left, vec!["y", "z"]);
    pad.delete_trash(Some(Vec::new()));
    assert_eq!(pad.read_trash(None).unwrap().len(), 2);
    pad.delete_trash(None);
    assert!(pad.read_trash(None).unwrap().is_empty());
    // once the entry is gone, the identifier is free again
    assert_eq!(pad.create_view(view("x", "a1")), Ok(()));
}

#[test]
fn a_failed_operation_leaves_the_folder_as_it_was() {
    let mut pad = sample();
    let before = pad.to_bytes();
    assert!(pad.create_workspace(workspace("w1")).is_err());
    assert!(pad.create_app(app("a9", "nope")).is_err());
    assert!(pad.delete_view("nope").is_err());
    assert!(pad.delete_app("nope").is_err());
    assert!(pad.delete_workspace("nope").is_err());
    assert_eq!(pad.to_bytes(), before);
}

#[test]
fn a_folder_is_read_back_from_its_layout() {
    let mut pad = sample();
    pad.create_trash(vec![trash("t1", TrashType::View)]);
    let bytes = pad.to_bytes();
    let back = FolderPad::from_bytes(&bytes).unwrap();
    assert_eq!(back.to_bytes(), bytes);
    assert_eq!(ids_of_workspaces(&back), vec!["w1", "w2"]);
    assert_eq!(ids_of_apps(&back, "w1"), vec!["a1", "a2"]);
    assert_eq!(ids_of_views(&back, "a1"), vec!["v1", "v2"]);
    assert_eq!(back.read_trash(None).unwrap()[0].id, "t1");
    let empty = FolderPad::from_bytes(&FolderPad::empty().to_bytes()).unwrap();
    assert!(empty.read_workspaces(None).unwrap().is_empty());
}

#[test]
fn bytes_that_lay_out_no_folder_are_corruption() {
    assert_eq!(FolderPad::from_bytes(&Vec::new()).err(), Some(FlowyError::Corruption));
    assert_eq!(FolderPad::from_bytes(&vec![0u8; 8]).err(), Some(FlowyError::Corruption));
    let mut bytes = sample().to_bytes();
    bytes.pop();
    assert_eq!(FolderPad::from_bytes(&bytes).err(), Some(FlowyError::Corruption));
    let mut bytes = sample().to_bytes();
    bytes.push(0);
    assert_eq!(FolderPad::from_bytes(&bytes).err(), Some(FlowyError::Corruption));
}

fn node(id: &str, parent: &str) -> FolderNode {
    FolderNode {
        id: id.to_string(),
        parent_id: parent.to_string(),
        name: String::new(),
        desc: String::new(),
        create_time: 0,
    }
}

#[test]
fn tables_that_form_no_tree_are_corruption() {
    // two workspaces under one identifier
    let r = FolderPad::new(vec![node("w", ""), node("w", "")], vec![], vec![], vec![]);
    assert_eq!(r.err(), Some(FlowyError::Corruption));
    // a workspace with a parent
    let r = FolderPad::new(vec![node("w", "x")], vec![], vec![], vec![]);
    assert_eq!(r.err(), Some(FlowyError::Corruption));
    // an app without its workspace
    let r = FolderPad::new(vec![node("w", "")], vec![node("a", "nope")], vec![], vec![]);
    assert_eq!(r.err(), Some(FlowyError::Corruption));
    // a view without its app
    let r = FolderPad::new(vec![node("w", "")], vec![node("a", "w")], vec![node("v", "w")], vec![]);
    assert_eq!(r.err(), Some(FlowyError::Corruption));
    // two views under one identifier
    let r = FolderPad::new(
        vec![node("w", "")],
        vec![node("a", "w")],
        vec![node("v", "a"), node("v", "a")],
        vec![],
    );
    assert_eq!(r.err(), Some(FlowyError::Corruption));
    // an app that is in the trash as well
    let r = FolderPad::new(
        vec![node("w", "")],
        vec![node("a", "w")],
        vec![],
        vec![trash("a", TrashType::App)],
    );
    assert_eq!(r.err(), Some(FlowyError::Corruption));
    // a view that is in the trash as well
    let r = FolderPad::new(
        vec![node("w", "")],
        vec![node("a", "w")],
        vec![node("v", "a")],
        vec![trash("v", TrashType::View)],
    );
    assert_eq!(r.err(), Some(FlowyError::Corruption));
}

#[test]
fn tables_that_form_a_tree_are_taken() {
    let pad = FolderPad::new(
        vec![node("w", "")],
        vec![node("a", "w"), node("b", "w")],
        vec![node("v", "b")],
        vec![trash("v", TrashType::App), trash("gone", TrashType::View)],
    )
    .unwrap();
    assert_eq!(ids_of_apps(&pad, "w"), vec!["a", "b"]);
    assert_eq!(ids_of_views(&pad, "b"), vec!["v"]);
    assert_eq!(pad.read_trash(None).unwrap().len(), 2);
}

#[test]
fn a_duplicate_is_a_folder_of_its_own() {
    let pad = sample();
    let mut copy = pad.duplicate();
    assert_eq!(copy.to_bytes(), pad.to_bytes());
    copy.delete_workspace("w1").unwrap();
    assert_eq!(ids_of_workspaces(&pad), vec!["w1", "w2"]);
    assert_eq!(ids_of_workspaces(&copy), vec!["w2"]);
}
