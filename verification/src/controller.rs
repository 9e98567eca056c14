//! The folder manager, which initializes a user's folder once, and
//! the default folder of a new user.

use crate::entities::{node_views, trash_views, App, FolderNode, NodeView, TrashView, ViewInfo, Workspace};
use crate::errors::{FlowyError, FlowyResult};
use crate::folder_model::{lemma_find_at, FolderView};
use crate::folder_pad::FolderPad;
use crate::layout::folder_fits;
use crate::init_flags::InitFlags;
use crate::drawn::{is_identifier, new_identifier, now_timestamp};
use crate::editor::FolderEditor;
use crate::persistence::{same_outcome, transacted, FolderPersistence, PersistenceView};
use bytes::Bytes;
use vstd::prelude::*;

verus! {

/// `bytes::Bytes`: a value that is carried through. Nothing is claimed of
/// what it holds.
#[verifier::external_type_specification]
#[verifier::external_body]
pub struct ExBytes(bytes::Bytes);

/// The error of a drawing that failed: the clock gave no time, or the
/// operating system no random bytes.
pub open spec fn is_drawing_error(e: FlowyError) -> bool {
    e == FlowyError::ClockOutOfRange || e == FlowyError::RandomUnavailable
}

/// What was drawn for a new user's folder: a time that is not before 1970,
/// and three identifiers.
pub open spec fn is_drawn(
    time: i64,
    workspace_id: Seq<char>,
    app_id: Seq<char>,
    view_id: Seq<char>,
) -> bool {
    time >= 0 && is_identifier(workspace_id) && is_identifier(app_id) && is_identifier(view_id)
}

/// The time and three fresh identifiers.
struct Drawn {
    time: i64,
    workspace_id: String,
    app_id: String,
    view_id: String,
}

/// Draws the time and three identifiers, or says which drawing failed.
fn draw() -> (res: FlowyResult<Drawn>)
    ensures
        match res {
            Ok(d) => is_drawn(d.time, d.workspace_id@, d.app_id@, d.view_id@),
            Err(e) => is_drawing_error(e),
        },
{
    let time = match now_timestamp() {
        Some(time) => time,
        None => {
            return Err(FlowyError::ClockOutOfRange);
        },
    };
    let workspace_id = match new_identifier() {
        Some(id) => id,
        None => {
            return Err(FlowyError::RandomUnavailable);
        },
    };
    let app_id = match new_identifier() {
        Some(id) => id,
        None => {
            return Err(FlowyError::RandomUnavailable);
        },
    };
    let view_id = match new_identifier() {
        Some(id) => id,
        None => {
            return Err(FlowyError::RandomUnavailable);
        },
    };
    Ok(Drawn { time, workspace_id, app_id, view_id })
}

/// The one event that the folder manager emits.
#[derive(Clone, Copy, Debug, PartialEq, Eq, Structural)]
pub enum WorkspaceNotification {
    UserCreateWorkspace,
}

pub struct NotificationView {
    pub token: Seq<char>,
    pub kind: WorkspaceNotification,
    pub folder: FolderView,
}

/// An event for the presentation layer, with the folder that it is about.
pub struct Notification {
    pub token: String,
    pub kind: WorkspaceNotification,
    pub folder: FolderPad,
}

impl vstd::view::View for Notification {
    type V = NotificationView;

    open spec fn view(&self) -> NotificationView {
        NotificationView { token: self.token@, kind: self.kind, folder: self.folder@ }
    }
}

pub open spec fn notification_views(items: Seq<Notification>) -> Seq<NotificationView> {
    items.map_values(|n: Notification| n@)
}

/// The first content of a view's document.
#[derive(Clone, Copy, Debug, PartialEq, Eq, Structural)]
pub enum DocumentSeed {
    ReadMe,
    Blank,
}

/// The first view of an app starts with the read-me, every other view blank.
pub open spec fn spec_seed_for(index: usize) -> DocumentSeed {
    if index == 0 {
        DocumentSeed::ReadMe
    } else {
        DocumentSeed::Blank
    }
}

/// The first content of the document of the view at a place in its app.
#[verifier::when_used_as_spec(spec_seed_for)]
pub fn seed_for(index: usize) -> (seed: DocumentSeed)
    ensures
        seed == spec_seed_for(index),
{
    if index == 0 {
        DocumentSeed::ReadMe
    } else {
        DocumentSeed::Blank
    }
}

pub struct DocumentView {
    pub view_id: Seq<char>,
    pub seed: DocumentSeed,
}

/// The document that is to be created for a view.
pub struct ViewDocument {
    pub view_id: String,
    pub seed: DocumentSeed,
}

impl vstd::view::View for ViewDocument {
    type V = DocumentView;

    open spec fn view(&self) -> DocumentView {
        DocumentView { view_id: self.view_id@, seed: self.seed }
    }
}

pub open spec fn document_views(items: Seq<ViewDocument>) -> Seq<DocumentView> {
    items.map_values(|d: ViewDocument| d@)
}

pub struct ViewControllerView {
    pub latest_view: Option<Seq<char>>,
    pub documents: Seq<DocumentView>,
    pub listening: bool,
    /// The error that starting the controller meets, while it meets one.
    pub fault: Option<FlowyError>,
}

impl ViewControllerView {
    /// The controller after it was started, or the error that starting it
    /// met.
    pub open spec fn started(self) -> Result<ViewControllerView, FlowyError> {
        match self.fault {
            Some(e) => Err(e),
            None => Ok(ViewControllerView { listening: true, ..self }),
        }
    }

    pub open spec fn has_document(self, view_id: Seq<char>) -> bool {
        exists|i: int| 0 <= i < self.documents.len() && (#[trigger] self.documents[i]).view_id == view_id
    }

    /// The controller after a document was asked for; `AlreadyExists` where
    /// the view has one.
    pub open spec fn with_document(self, view_id: Seq<char>, seed: DocumentSeed) -> Result<
        ViewControllerView,
        FlowyError,
    > {
        if self.has_document(view_id) {
            Err(FlowyError::AlreadyExists)
        } else {
            Ok(
                ViewControllerView {
                    documents: self.documents.push(DocumentView { view_id, seed }),
                    ..self
                },
            )
        }
    }
}

/// What the folder manager needs of the views' controller: the view that
/// was opened last, and the documents that are to be created.
pub struct ViewController {
    latest_view: Option<String>,
    documents: Vec<ViewDocument>,
    listening: bool,
    fault: Option<FlowyError>,
}

impl vstd::view::View for ViewController {
    type V = ViewControllerView;

    closed spec fn view(&self) -> ViewControllerView {
        ViewControllerView {
            latest_view: match self.latest_view {
                Some(id) => Some(id@),
                None => None,
            },
            documents: document_views(self.documents@),
            listening: self.listening,
            fault: self.fault,
        }
    }
}

impl ViewController {
    pub fn new() -> (c: ViewController)
        ensures
            c@ == (ViewControllerView {
                latest_view: None,
                documents: Seq::empty(),
                listening: false,
                fault: None,
            }),
    {
        let c = ViewController {
            latest_view: None,
            documents: Vec::new(),
            listening: false,
            fault: None,
        };
        proof {
            assert(c@.documents =~= Seq::<DocumentView>::empty());
        }
        c
    }

    /// Starts the controller. While it meets an error, it reports the
    /// error and stays as it is.
    pub fn initialize(&mut self) -> (res: FlowyResult<()>)
        ensures
            match old(self)@.started() {
                Ok(c) => res is Ok && final(self)@ == c,
                Err(e) => res == Err::<(), FlowyError>(e) && final(self)@ == old(self)@,
            },
    {
        match self.fault {
            Some(e) => Err(e),
            None => {
                self.listening = true;
                Ok(())
            },
        }
    }

    /// Says which error starting the controller meets from now on, if any.
    pub fn set_fault(&mut self, fault: Option<FlowyError>)
        ensures
            final(self)@ == (ViewControllerView { fault, ..old(self)@ }),
    {
        self.fault = fault;
    }

    pub fn set_latest_view(&mut self, view: &ViewInfo)
        ensures
            final(self)@ == (ViewControllerView { latest_view: Some(view@.id), ..old(self)@ }),
    {
        self.latest_view = Some(view.id.clone());
    }

    /// Asks for the document of a view.
    pub fn create_view_document_content(&mut self, view_id: &str, seed: DocumentSeed) -> (res:
        FlowyResult<()>)
        ensures
            match old(self)@.with_document(view_id@, seed) {
                Ok(c) => res is Ok && final(self)@ == c,
                Err(e) => res == Err::<(), FlowyError>(e) && final(self)@ == old(self)@,
            },
    {
        let id = view_id.to_owned();
        let mut i: usize = 0;
        while i < self.documents.len()
            invariant
                i <= self.documents.len(),
                id@ == view_id@,
                forall|j: int| 0 <= j < i ==> (#[trigger] self.documents@[j])@.view_id != view_id@,
            decreases self.documents.len() - i,
        {
            if self.documents[i].view_id == id {
                proof {
                    assert(self@.documents[i as int].view_id == view_id@);
                }
                return Err(FlowyError::AlreadyExists);
            }
            i += 1;
        }
        proof {
            assert forall|j: int| 0 <= j < self@.documents.len() implies (
            #[trigger] self@.documents[j]).view_id != view_id@ by {
                assert(self.documents@[j]@.view_id != view_id@);
            }
            let d = ViewDocument { view_id: id, seed };
            assert(document_views(self.documents@.push(d)) =~= document_views(
                self.documents@,
            ).push(d@));
        }
        self.documents.push(ViewDocument { view_id: id, seed });
        Ok(())
    }

    pub fn is_listening(&self) -> (b: bool)
        ensures
            b == self@.listening,
    {
        self.listening
    }

    /// How many documents are to be created.
    pub fn document_count(&self) -> (n: usize)
        ensures
            n == self@.documents.len(),
    {
        self.documents.len()
    }

    /// The view and the seed of the document at a place of the list.
    pub fn document_at(&self, index: usize) -> (res: Option<ViewDocument>)
        ensures
            index < self@.documents.len() ==> res is Some && res->Some_0@
                == self@.documents[index as int],
            index >= self@.documents.len() ==> res is None,
    {
        if index < self.documents.len() {
            let d = &self.documents[index];
            Some(ViewDocument { view_id: d.view_id.clone(), seed: d.seed })
        } else {
            None
        }
    }
}

pub struct AppControllerView {
    pub listening: bool,
    /// The error that starting the controller meets, while it meets one.
    pub fault: Option<FlowyError>,
}

impl AppControllerView {
    /// The controller after it was started, or the error that starting it
    /// met.
    pub open spec fn started(self) -> Result<AppControllerView, FlowyError> {
        match self.fault {
            Some(e) => Err(e),
            None => Ok(AppControllerView { listening: true, ..self }),
        }
    }
}

/// What the folder manager needs of the apps' controller.
pub struct AppController {
    listening: bool,
    fault: Option<FlowyError>,
}

impl vstd::view::View for AppController {
    type V = AppControllerView;

    closed spec fn view(&self) -> AppControllerView {
        AppControllerView { listening: self.listening, fault: self.fault }
    }
}

impl AppController {
    pub fn new() -> (c: AppController)
        ensures
            c@ == (AppControllerView { listening: false, fault: None }),
    {
        AppController { listening: false, fault: None }
    }

    /// Starts the controller. While it meets an error, it reports the
    /// error and stays as it is.
    pub fn initialize(&mut self) -> (res: FlowyResult<()>)
        ensures
            match old(self)@.started() {
                Ok(c) => res is Ok && final(self)@ == c,
                Err(e) => res == Err::<(), FlowyError>(e) && final(self)@ == old(self)@,
            },
    {
        match self.fault {
            Some(e) => Err(e),
            None => {
                self.listening = true;
                Ok(())
            },
        }
    }

    /// Says which error starting the controller meets from now on, if any.
    pub fn set_fault(&mut self, fault: Option<FlowyError>)
        ensures
            final(self)@ == (AppControllerView { fault, ..old(self)@ }),
    {
        self.fault = fault;
    }

    pub fn is_listening(&self) -> (b: bool)
        ensures
            b == self@.listening,
    {
        self.listening
    }
}

/// The folder of a new user: one workspace with one app with one view.
pub open spec fn default_folder(
    time: i64,
    workspace_id: Seq<char>,
    app_id: Seq<char>,
    view_id: Seq<char>,
) -> FolderView {
    FolderView {
        workspaces: seq![
            NodeView {
                id: workspace_id,
                parent_id: Seq::empty(),
                name: "Workspace"@,
                desc: Seq::empty(),
                create_time: time,
            },
        ],
        apps: seq![
            NodeView {
                id: app_id,
                parent_id: workspace_id,
                name: "Getting started"@,
                desc: Seq::empty(),
                create_time: time,
            },
        ],
        views: seq![
            NodeView {
                id: view_id,
                parent_id: app_id,
                name: "Read me"@,
                desc: Seq::empty(),
                create_time: time,
            },
        ],
        trash: Seq::empty(),
    }
}

/// The default folder is a tree, whatever the identifiers are.
pub proof fn lemma_default_folder_wf(
    time: i64,
    workspace_id: Seq<char>,
    app_id: Seq<char>,
    view_id: Seq<char>,
)
    ensures
        default_folder(time, workspace_id, app_id, view_id).wf(),
{
    let f = default_folder(time, workspace_id, app_id, view_id);
    assert(f.workspaces[0].id == workspace_id);
    assert(f.apps[0].id == app_id);
}

/// The default folder, created at `time` under the given identifiers.
pub fn create_default_workspace(
    time: i64,
    workspace_id: String,
    app_id: String,
    view_id: String,
) -> (folder: FolderPad)
    ensures
        folder@ == default_folder(time, workspace_id@, app_id@, view_id@),
        folder.wf(),
{
    let workspace = Workspace {
        id: workspace_id.clone(),
        name: "Workspace".to_owned(),
        desc: String::new(),
        create_time: time,
    };
    let app = App {
        id: app_id.clone(),
        workspace_id,
        name: "Getting started".to_owned(),
        desc: String::new(),
        create_time: time,
    };
    let view = ViewInfo {
        id: view_id,
        belong_to_id: app_id,
        name: "Read me".to_owned(),
        desc: String::new(),
        create_time: time,
    };
    let ghost expected = default_folder(time, workspace@.id, app@.id, view@.id);
    let mut workspaces: Vec<FolderNode> = Vec::new();
    workspaces.push(FolderNode::from_workspace(workspace));
    let mut apps: Vec<FolderNode> = Vec::new();
    apps.push(FolderNode::from_app(app));
    let mut views: Vec<FolderNode> = Vec::new();
    views.push(FolderNode::from_view(view));
    proof {
        lemma_default_folder_wf(time, expected.workspaces[0].id, expected.apps[0].id, expected.views[0].id);
        assert(node_views(workspaces@) =~= expected.workspaces);
        assert(node_views(apps@) =~= expected.apps);
        assert(node_views(views@) =~= expected.views);
        assert(trash_views(Seq::empty()) =~= Seq::<TrashView>::empty());
    }
    FolderPad::assemble(workspaces, apps, views, Vec::new())
}

/// The first step of setting a new user up, which does not touch the store:
/// the view of the default folder is noted as the latest one and its
/// document is asked for. It yields the default folder, or `AlreadyExists`
/// where the view has a document.
pub open spec fn prepared(
    view_controller: ViewControllerView,
    time: i64,
    workspace_id: Seq<char>,
    app_id: Seq<char>,
    view_id: Seq<char>,
) -> (ViewControllerView, Result<FolderView, FlowyError>) {
    let noted = ViewControllerView { latest_view: Some(view_id), ..view_controller };
    match noted.with_document(view_id, seed_for(0)) {
        Err(e) => (noted, Err(e)),
        Ok(seeded) => (seeded, Ok(default_folder(time, workspace_id, app_id, view_id))),
    }
}

/// What building a new user's default folder leaves behind and reports.
pub struct Built {
    pub persistence: PersistenceView,
    pub view_controller: ViewControllerView,
    pub result: Result<NotificationView, FlowyError>,
}

/// Building the default folder: the view is noted as the latest one and its
/// document is asked for, the folder is saved as the first record, and the
/// event that tells of the new workspace is handed out. The first failure
/// ends the building; what was done before it stays done.
pub open spec fn built(
    persistence: PersistenceView,
    view_controller: ViewControllerView,
    token: Seq<char>,
    user_id: Seq<char>,
    time: i64,
    workspace_id: Seq<char>,
    app_id: Seq<char>,
    view_id: Seq<char>,
) -> Built {
    let folder = default_folder(time, workspace_id, app_id, view_id);
    let noted = ViewControllerView { latest_view: Some(view_id), ..view_controller };
    match noted.with_document(view_id, seed_for(0)) {
        Err(e) => Built { persistence, view_controller: noted, result: Err(e) },
        Ok(seeded) => match persistence.saved(user_id, folder) {
            Err(e) => Built { persistence, view_controller: seeded, result: Err(e) },
            Ok(saved) => Built {
                persistence: saved,
                view_controller: seeded,
                result: Ok(
                    NotificationView {
                        token,
                        kind: WorkspaceNotification::UserCreateWorkspace,
                        folder,
                    },
                ),
            },
        },
    }
}

/// The builder's result is what `built` says for these values.
pub open spec fn is_built(
    b: Built,
    persistence: PersistenceView,
    view_controller: ViewControllerView,
    res: Result<Notification, FlowyError>,
) -> bool {
    &&& persistence == b.persistence
    &&& view_controller == b.view_controller
    &&& match b.result {
        Ok(n) => res is Ok && res->Ok_0@ == n,
        Err(e) => res is Err && res->Err_0 == e,
    }
}

/// The builder of a new user's default folder.
pub struct DefaultFolderBuilder();

impl DefaultFolderBuilder {
    /// Makes the default folder for the time and the identifiers given, and
    /// asks for the document of its view. The store is not touched.
    pub fn prepare_with(
        time: i64,
        workspace_id: String,
        app_id: String,
        view_id: String,
        view_controller: &mut ViewController,
    ) -> (res: FlowyResult<FolderPad>)
        ensures
            ({
                let step = prepared(old(view_controller)@, time, workspace_id@, app_id@, view_id@);
                &&& final(view_controller)@ == step.0
                &&& match step.1 {
                    Ok(f) => res is Ok && res->Ok_0@ == f && res->Ok_0.wf(),
                    Err(e) => res is Err && res->Err_0 == e,
                }
            }),
    {
        let first_view = view_id.clone();
        let folder = create_default_workspace(time, workspace_id, app_id, view_id);
        proof {
            assert(folder@.views[0].id == first_view@);
            lemma_find_at(folder@.views, 0);
        }
        let view = match folder.read_view(first_view.as_str()) {
            Err(e) => {
                return Err(e);
            },
            Ok(view) => view,
        };
        view_controller.set_latest_view(&view);
        match view_controller.create_view_document_content(view.id.as_str(), seed_for(0)) {
            Err(e) => Err(e),
            Ok(()) => Ok(folder),
        }
    }

    /// Builds the default folder for the time and the identifiers given.
    pub fn build_with(
        token: &str,
        user_id: &str,
        time: i64,
        workspace_id: String,
        app_id: String,
        view_id: String,
        persistence: &mut FolderPersistence,
        view_controller: &mut ViewController,
    ) -> (res: FlowyResult<Notification>)
        requires
            old(persistence).wf(),
        ensures
            final(persistence).wf(),
            is_built(
                built(
                    old(persistence)@,
                    old(view_controller)@,
                    token@,
                    user_id@,
                    time,
                    workspace_id@,
                    app_id@,
                    view_id@,
                ),
                final(persistence)@,
                final(view_controller)@,
                res,
            ),
            res is Ok ==> folder_fits(default_folder(time, workspace_id@, app_id@, view_id@)),
    {
        let folder = match DefaultFolderBuilder::prepare_with(
            time,
            workspace_id,
            app_id,
            view_id,
            view_controller,
        ) {
            Err(e) => {
                return Err(e);
            },
            Ok(folder) => folder,
        };
        let snapshot = folder.duplicate();
        match persistence.save_folder(user_id, folder) {
            Err(e) => {
                return Err(e);
            },
            Ok(()) => {},
        }
        Ok(
            Notification {
                token: token.to_owned(),
                kind: WorkspaceNotification::UserCreateWorkspace,
                folder: snapshot,
            },
        )
    }

    /// Builds the default folder now, under fresh identifiers. Where the
    /// clock gives no time or the operating system no random bytes, nothing
    /// is built and nothing changes.
    pub fn build(
        token: &str,
        user_id: &str,
        persistence: &mut FolderPersistence,
        view_controller: &mut ViewController,
    ) -> (res: FlowyResult<Notification>)
        requires
            old(persistence).wf(),
        ensures
            final(persistence).wf(),
            (res is Err && is_drawing_error(res->Err_0) && final(persistence)@ == old(
                persistence,
            )@ && final(view_controller)@ == old(view_controller)@) || exists|
                time: i64,
                workspace_id: Seq<char>,
                app_id: Seq<char>,
                view_id: Seq<char>,
            |
                {
                    let b = #[trigger] built(
                        old(persistence)@,
                        old(view_controller)@,
                        token@,
                        user_id@,
                        time,
                        workspace_id,
                        app_id,
                        view_id,
                    );
                    &&& is_drawn(time, workspace_id, app_id, view_id)
                    &&& is_built(b, final(persistence)@, final(view_controller)@, res)
                    &&& b.result is Ok ==> folder_fits(
                        default_folder(time, workspace_id, app_id, view_id),
                    )
                },
    {
        let drawn = match draw() {
            Ok(drawn) => drawn,
            Err(e) => {
                return Err(e);
            },
        };
        let ghost time = drawn.time;
        let ghost ids = (drawn.workspace_id@, drawn.app_id@, drawn.view_id@);
        let res = DefaultFolderBuilder::build_with(
            token,
            user_id,
            drawn.time,
            drawn.workspace_id,
            drawn.app_id,
            drawn.view_id,
            persistence,
            view_controller,
        );
        proof {
            let b = built(
                old(persistence)@,
                old(view_controller)@,
                token@,
                user_id@,
                time,
                ids.0,
                ids.1,
                ids.2,
            );
            assert(is_drawn(time, ids.0, ids.1, ids.2));
            assert(is_built(b, persistence@, view_controller@, res));
            assert(b.result is Ok ==> folder_fits(default_folder(time, ids.0, ids.1, ids.2)));
        }
        res
    }
}

pub struct ManagerView {
    pub persistence: PersistenceView,
    pub app_controller: AppControllerView,
    pub view_controller: ViewControllerView,
    /// For each user that the manager knows, whether the folder is initialized.
    pub flags: Map<Seq<char>, bool>,
    /// The events that wait to be sent, oldest first.
    pub notifications: Seq<NotificationView>,
}

impl ManagerView {
    /// The flags say that the user's folder is initialized.
    pub open spec fn is_initialized(self, user_id: Seq<char>) -> bool {
        self.flags.dom().contains(user_id) && self.flags[user_id]
    }

    /// What initializing leaves behind and reports. For a user whose flag
    /// is set nothing happens. Otherwise the store is initialized, then the
    /// apps' controller is started, then the views' controller, and at last
    /// the user's flag is set. The first of these that fails ends the
    /// initializing with its error: what was done before it stays done, the
    /// steps after it are not taken, and the flags stay as they are.
    pub open spec fn initialized(self, user_id: Seq<char>) -> (ManagerView, Result<(), FlowyError>) {
        if self.is_initialized(user_id) {
            (self, Ok(()))
        } else {
            let (persistence, result) = self.persistence.initialized(user_id);
            let stored = ManagerView { persistence, ..self };
            match result {
                Err(e) => (stored, Err(e)),
                Ok(_) => match self.app_controller.started() {
                    Err(e) => (stored, Err(e)),
                    Ok(app_controller) => {
                        let seeded = ManagerView { app_controller, ..stored };
                        match self.view_controller.started() {
                            Err(e) => (seeded, Err(e)),
                            Ok(view_controller) => (
                                ManagerView {
                                    view_controller,
                                    flags: self.flags.insert(user_id, true),
                                    ..seeded
                                },
                                Ok(()),
                            ),
                        }
                    },
                },
            }
        }
    }

    /// What setting up a new user leaves behind and reports, for what the
    /// builder built.
    pub open spec fn with_new_user(self, user_id: Seq<char>, b: Built) -> (
        ManagerView,
        Result<(), FlowyError>,
    ) {
        let after = ManagerView {
            persistence: b.persistence,
            view_controller: b.view_controller,
            ..self
        };
        match b.result {
            Err(e) => (after, Err(e)),
            Ok(n) => (ManagerView {
                notifications: self.notifications.push(n),
                ..after
            }).initialized(user_id),
        }
    }

    /// What the second step of setting a new user up leaves behind and
    /// reports: the folder is saved as the first record, the event that
    /// tells of the new workspace is queued, and the folder is initialized.
    /// Where the folder cannot be saved, nothing changes.
    pub open spec fn completed(self, user_id: Seq<char>, token: Seq<char>, folder: FolderView) -> (
        ManagerView,
        Result<(), FlowyError>,
    ) {
        match self.persistence.saved(user_id, folder) {
            Err(e) => (self, Err(e)),
            Ok(saved) => (ManagerView {
                persistence: saved,
                notifications: self.notifications.push(
                    NotificationView {
                        token,
                        kind: WorkspaceNotification::UserCreateWorkspace,
                        folder,
                    },
                ),
                ..self
            }).initialized(user_id),
        }
    }
}

/// The orchestrator of a user's folder: it initializes the store once per
/// user, sets a new user up with the default folder, and ends the session.
pub struct FolderManager {
    persistence: FolderPersistence,
    app_controller: AppController,
    view_controller: ViewController,
    init_flags: InitFlags,
    notifications: Vec<Notification>,
}

impl vstd::view::View for FolderManager {
    type V = ManagerView;

    closed spec fn view(&self) -> ManagerView {
        ManagerView {
            persistence: self.persistence@,
            app_controller: self.app_controller@,
            view_controller: self.view_controller@,
            flags: self.init_flags@,
            notifications: notification_views(self.notifications@),
        }
    }
}

impl FolderManager {
    pub closed spec fn wf(&self) -> bool {
        self.persistence.wf()
    }

    /// A manager over the store, with controllers that have not been started.
    /// The user that is signed in gets a flag, which says that the folder is
    /// not initialized yet.
    pub fn new(persistence: FolderPersistence) -> (m: FolderManager)
        requires
            persistence.wf(),
        ensures
            m.wf(),
            m@ == (ManagerView {
                persistence: persistence@,
                app_controller: AppControllerView { listening: false, fault: None },
                view_controller: ViewControllerView {
                    latest_view: None,
                    documents: Seq::empty(),
                    listening: false,
                    fault: None,
                },
                flags: match persistence@.user {
                    Some(s) => Map::<Seq<char>, bool>::empty().insert(s.user_id, false),
                    None => Map::<Seq<char>, bool>::empty(),
                },
                notifications: Seq::empty(),
            }),
    {
        FolderManager::with_controllers(persistence, AppController::new(), ViewController::new())
    }

    /// A manager over the store and the two controllers. The user that is
    /// signed in gets a flag, which says that the folder is not initialized
    /// yet.
    pub fn with_controllers(
        persistence: FolderPersistence,
        app_controller: AppController,
        view_controller: ViewController,
    ) -> (m: FolderManager)
        requires
            persistence.wf(),
        ensures
            m.wf(),
            m@ == (ManagerView {
                persistence: persistence@,
                app_controller: app_controller@,
                view_controller: view_controller@,
                flags: match persistence@.user {
                    Some(s) => Map::<Seq<char>, bool>::empty().insert(s.user_id, false),
                    None => Map::<Seq<char>, bool>::empty(),
                },
                notifications: Seq::empty(),
            }),
    {
        let mut init_flags = InitFlags::new();
        match persistence.user().user_id() {
            Ok(user_id) => {
                init_flags.insert(user_id, false);
            },
            Err(_) => {},
        }
        let m = FolderManager {
            persistence,
            app_controller,
            view_controller,
            init_flags,
            notifications: Vec::new(),
        };
        proof {
            assert(m@.notifications =~= Seq::<NotificationView>::empty());
        }
        m
    }

    /// Says which errors starting the two controllers meets from now on.
    pub fn set_controller_faults(
        &mut self,
        app_fault: Option<FlowyError>,
        view_fault: Option<FlowyError>,
    )
        ensures
            final(self)@ == (ManagerView {
                app_controller: AppControllerView { fault: app_fault, ..old(self)@.app_controller },
                view_controller: ViewControllerView {
                    fault: view_fault,
                    ..old(self)@.view_controller
                },
                ..old(self)@
            }),
            old(self).wf() ==> final(self).wf(),
    {
        self.app_controller.set_fault(app_fault);
        self.view_controller.set_fault(view_fault);
    }

    /// Data that came over the socket. The folder takes nothing from it.
    pub fn did_receive_ws_data(&self, _data: Bytes) {
    }

    /// Initializes the user's folder, once.
    pub fn initialize(&mut self, user_id: &str) -> (res: FlowyResult<()>)
        requires
            old(self).wf(),
        ensures
            final(self).wf(),
            final(self)@ == old(self)@.initialized(user_id@).0,
            same_outcome(res, old(self)@.initialized(user_id@).1),
    {
        match self.init_flags.get(user_id) {
            Some(true) => {
                return Ok(());
            },
            _ => {},
        }
        match self.persistence.initialize(user_id) {
            Err(e) => {
                return Err(e);
            },
            Ok(()) => {},
        }
        match self.app_controller.initialize() {
            Err(e) => {
                return Err(e);
            },
            Ok(()) => {},
        }
        match self.view_controller.initialize() {
            Err(e) => {
                return Err(e);
            },
            Ok(()) => {},
        }
        self.init_flags.insert(user_id.to_owned(), true);
        Ok(())
    }

    /// Sets a new user up: builds and saves the default folder, queues the
    /// event that tells of it, and initializes the folder. Where the clock
    /// gives no time or the operating system no random bytes, nothing
    /// changes.
    pub fn initialize_with_new_user(&mut self, user_id: &str, token: &str) -> (res: FlowyResult<()>)
        requires
            old(self).wf(),
        ensures
            final(self).wf(),
            (res is Err && is_drawing_error(res->Err_0) && final(self)@ == old(self)@) || exists|
                time: i64,
                workspace_id: Seq<char>,
                app_id: Seq<char>,
                view_id: Seq<char>,
            |
                {
                    let b = #[trigger] built(
                        old(self)@.persistence,
                        old(self)@.view_controller,
                        token@,
                        user_id@,
                        time,
                        workspace_id,
                        app_id,
                        view_id,
                    );
                    let outcome = old(self)@.with_new_user(user_id@, b);
                    &&& is_drawn(time, workspace_id, app_id, view_id)
                    &&& final(self)@ == outcome.0
                    &&& same_outcome(res, outcome.1)
                    &&& b.result is Ok ==> folder_fits(
                        default_folder(time, workspace_id, app_id, view_id),
                    )
                },
    {
        let built = DefaultFolderBuilder::build(
            token,
            user_id,
            &mut self.persistence,
            &mut self.view_controller,
        );
        match built {
            Err(e) => Err(e),
            Ok(notification) => {
                proof {
                    assert(notification_views(self.notifications@.push(notification))
                        =~= notification_views(self.notifications@).push(notification@));
                }
                self.notifications.push(notification);
                self.initialize(user_id)
            },
        }
    }

    /// The first step of setting a new user up, for callers that create the
    /// documents themselves before the folder is saved: makes the default
    /// folder now, under fresh identifiers, and asks for the document of its
    /// view. The store is not touched. Where the clock gives no time or the
    /// operating system no random bytes, nothing changes.
    pub fn prepare_new_user(&mut self) -> (res: FlowyResult<FolderPad>)
        requires
            old(self).wf(),
        ensures
            final(self).wf(),
            (res is Err && is_drawing_error(res->Err_0) && final(self)@ == old(self)@) || exists|
                time: i64,
                workspace_id: Seq<char>,
                app_id: Seq<char>,
                view_id: Seq<char>,
            |
                {
                    let step = #[trigger] prepared(
                        old(self)@.view_controller,
                        time,
                        workspace_id,
                        app_id,
                        view_id,
                    );
                    &&& is_drawn(time, workspace_id, app_id, view_id)
                    &&& final(self)@ == (ManagerView { view_controller: step.0, ..old(self)@ })
                    &&& match step.1 {
                        Ok(f) => res is Ok && res->Ok_0@ == f && res->Ok_0.wf(),
                        Err(e) => res is Err && res->Err_0 == e,
                    }
                },
    {
        let drawn = match draw() {
            Ok(drawn) => drawn,
            Err(e) => {
                return Err(e);
            },
        };
        let ghost time = drawn.time;
        let ghost ids = (drawn.workspace_id@, drawn.app_id@, drawn.view_id@);
        let res = DefaultFolderBuilder::prepare_with(
            drawn.time,
            drawn.workspace_id,
            drawn.app_id,
            drawn.view_id,
            &mut self.view_controller,
        );
        proof {
            let step = prepared(old(self)@.view_controller, time, ids.0, ids.1, ids.2);
            assert(is_drawn(time, ids.0, ids.1, ids.2));
            assert(self@ == (ManagerView { view_controller: step.0, ..old(self)@ }));
        }
        res
    }

    /// The second step of setting a new user up: saves the folder as the
    /// first record, queues the event that tells of it, and initializes the
    /// folder.
    pub fn complete_new_user(&mut self, user_id: &str, token: &str, folder: FolderPad) -> (res:
        FlowyResult<()>)
        requires
            old(self).wf(),
            folder.wf(),
        ensures
            final(self).wf(),
            final(self)@ == old(self)@.completed(user_id@, token@, folder@).0,
            same_outcome(res, old(self)@.completed(user_id@, token@, folder@).1),
            old(self)@.persistence.saved(user_id@, folder@) is Ok ==> folder_fits(folder@),
    {
        let snapshot = folder.duplicate();
        match self.persistence.save_folder(user_id, folder) {
            Err(e) => {
                return Err(e);
            },
            Ok(()) => {},
        }
        let notification = Notification {
            token: token.to_owned(),
            kind: WorkspaceNotification::UserCreateWorkspace,
            folder: snapshot,
        };
        proof {
            assert(notification_views(self.notifications@.push(notification))
                =~= notification_views(self.notifications@).push(notification@));
        }
        self.notifications.push(notification);
        self.initialize(user_id)
    }

    /// Ends the session: the editor is dropped, the flags stay as they are.
    pub fn clear(&mut self)
        requires
            old(self).wf(),
        ensures
            final(self).wf(),
            final(self)@ == (ManagerView {
                persistence: PersistenceView { editor: None, ..old(self)@.persistence },
                ..old(self)@
            }),
    {
        self.persistence.user_did_logout();
    }

    /// Runs a transaction on the store's editor.
    pub fn begin_transaction<F, O>(&mut self, f: F) -> (res: FlowyResult<O>) where
        F: FnOnce(FolderEditor) -> (FolderEditor, FlowyResult<O>),

        requires
            old(self).wf(),
            forall|e: FolderEditor| e.wf() ==> f.requires((e,)),
            forall|e: FolderEditor, out: (FolderEditor, FlowyResult<O>)|
                e.wf() && #[trigger] f.ensures((e,), out) ==> out.0.wf() && out.0@.continues(e@),
        ensures
            final(self).wf(),
            transacted(old(self)@.persistence, f, res, final(self)@.persistence),
            final(self)@ == (ManagerView { persistence: final(self)@.persistence, ..old(self)@ }),
    {
        self.persistence.begin_transaction(f)
    }

    /// The errors that the store recovered from since the last call.
    pub fn take_diagnostics(&mut self) -> (noted: Vec<FlowyError>)
        requires
            old(self).wf(),
        ensures
            final(self).wf(),
            noted@ == old(self)@.persistence.diagnostics,
            final(self)@ == (ManagerView {
                persistence: PersistenceView {
                    diagnostics: Seq::empty(),
                    ..old(self)@.persistence
                },
                ..old(self)@
            }),
    {
        self.persistence.take_diagnostics()
    }

    pub fn persistence(&self) -> (p: &FolderPersistence)
        requires
            self.wf(),
        ensures
            p@ == self@.persistence,
            p.wf(),
    {
        &self.persistence
    }

    /// Whether the flags say that the user's folder is initialized.
    pub fn is_initialized(&self, user_id: &str) -> (done: bool)
        ensures
            done == self@.is_initialized(user_id@),
    {
        match self.init_flags.get(user_id) {
            Some(done) => done,
            None => false,
        }
    }

    /// The events that wait to be sent, oldest first; none waits afterwards.
    pub fn take_notifications(&mut self) -> (out: Vec<Notification>)
        ensures
            notification_views(out@) == old(self)@.notifications,
            final(self)@ == (ManagerView { notifications: Seq::empty(), ..old(self)@ }),
            old(self).wf() ==> final(self).wf(),
    {
        let mut out: Vec<Notification> = Vec::new();
        out.append(&mut self.notifications);
        proof {
            assert(notification_views(out@) =~= old(self)@.notifications);
            assert(self@.notifications =~= Seq::<NotificationView>::empty());
        }
        out
    }

    pub fn view_controller(&self) -> (c: &ViewController)
        ensures
            c@ == self@.view_controller,
    {
        &self.view_controller
    }
}

} // verus!
