//! The facade of the folder store and the transactional interface that it
//! hands out.

use crate::database::{records_of, DatabaseView, SessionView, WorkspaceDatabase, WorkspaceUser};
use crate::editor::{replay, EditorView, FolderEditor};
use crate::entities::{
    app_views, opt_view, trash_views, view_views, workspace_views, App,
    AppChangeset, NodeView, Trash, ViewChangeset, ViewInfo, Workspace, WorkspaceChangeset,
};
use crate::errors::{FlowyError, FlowyResult};
use crate::folder_model::FolderView;
use crate::folder_pad::{opt_ids, FolderPad};
use crate::layout::{encode_folder, folder_fits};
use crate::migration::{migration_outcome, FolderMigration};
use crate::revision::{
    checksum, md5, RecordView, Revision, RevisionRecord, RevisionState, RevisionView,
};
use vstd::prelude::*;

verus! {

/// Identifier of the one revision-tracked object that holds a user's folder.
pub const FOLDER_ID: &'static str = "flowy_folder";

/// What a write reports and leaves behind. While the store cannot take a
/// write, the write fails with the store's error and changes nothing.
/// Otherwise it reports `Ok` and leaves the new folder, or reports the
/// operation's own error and leaves the folder as it was.
pub open spec fn written(
    blocked: Option<FlowyError>,
    before: FolderView,
    outcome: Result<FolderView, FlowyError>,
    res: Result<(), FlowyError>,
    after: FolderView,
) -> bool {
    match blocked {
        Some(e) => res == Err::<(), FlowyError>(e) && after == before,
        None => match outcome {
            Ok(f) => res is Ok && after == f,
            Err(e) => res == Err::<(), FlowyError>(e) && after == before,
        },
    }
}

/// The two results are both `Ok`, or both the same error.
pub open spec fn same_outcome(res: Result<(), FlowyError>, expected: Result<(), FlowyError>) -> bool {
    match expected {
        Ok(_) => res is Ok,
        Err(e) => res == Err::<(), FlowyError>(e),
    }
}

/// Create, read, update and delete for workspaces, apps and views; create,
/// read and delete for the trash. Every operation takes effect wholly or not
/// at all.
pub trait FolderPersistenceTransaction {
    /// The folder that the operations work on.
    spec fn folder(&self) -> FolderView;

    /// The implementation's own state is in order.
    spec fn valid(&self) -> bool;

    /// The error that the store gives to every write, while it gives one.
    spec fn blocked(&self) -> Option<FlowyError>;

    fn create_workspace(&mut self, user_id: &str, workspace: Workspace) -> (res: FlowyResult<()>)
        requires
            old(self).valid(),
        ensures
            final(self).valid(),
            written(
                old(self).blocked(),
                old(self).folder(),
                old(self).folder().create_workspace(workspace@),
                res,
                final(self).folder(),
            ),
    ;

    fn read_workspaces(&self, user_id: &str, workspace_id: Option<String>) -> (res: FlowyResult<
        Vec<Workspace>,
    >)
        requires
            self.valid(),
        ensures
            match self.folder().read_workspaces(opt_view(workspace_id)) {
                Ok(s) => res is Ok && workspace_views(res->Ok_0@) == s,
                Err(e) => res is Err && res->Err_0 == e,
            },
    ;

    fn update_workspace(&mut self, changeset: WorkspaceChangeset) -> (res: FlowyResult<()>)
        requires
            old(self).valid(),
        ensures
            final(self).valid(),
            written(
                old(self).blocked(),
                old(self).folder(),
                old(self).folder().update_workspace(changeset@),
                res,
                final(self).folder(),
            ),
    ;

    fn delete_workspace(&mut self, workspace_id: &str) -> (res: FlowyResult<()>)
        requires
            old(self).valid(),
        ensures
            final(self).valid(),
            written(
                old(self).blocked(),
                old(self).folder(),
                old(self).folder().delete_workspace(workspace_id@),
                res,
                final(self).folder(),
            ),
    ;

    fn create_app(&mut self, app: App) -> (res: FlowyResult<()>)
        requires
            old(self).valid(),
        ensures
            final(self).valid(),
            written(
                old(self).blocked(),
                old(self).folder(),
                old(self).folder().create_app(app@),
                res,
                final(self).folder(),
            ),
    ;

    fn update_app(&mut self, changeset: AppChangeset) -> (res: FlowyResult<()>)
        requires
            old(self).valid(),
        ensures
            final(self).valid(),
            written(
                old(self).blocked(),
                old(self).folder(),
                old(self).folder().update_app(changeset@),
                res,
                final(self).folder(),
            ),
    ;

    fn read_app(&self, app_id: &str) -> (res: FlowyResult<App>)
        requires
            self.valid(),
        ensures
            match self.folder().read_app(app_id@) {
                Ok(a) => res is Ok && res->Ok_0@ == a,
                Err(e) => res is Err && res->Err_0 == e,
            },
    ;

    fn read_workspace_apps(&self, workspace_id: &str) -> (res: FlowyResult<Vec<App>>)
        requires
            self.valid(),
        ensures
            match self.folder().read_workspace_apps(workspace_id@) {
                Ok(s) => res is Ok && app_views(res->Ok_0@) == s,
                Err(e) => res is Err && res->Err_0 == e,
            },
    ;

    /// Deletes the app with its views and hands the app back.
    fn delete_app(&mut self, app_id: &str) -> (res: FlowyResult<App>)
        requires
            old(self).valid(),
        ensures
            final(self).valid(),
            match old(self).blocked() {
                Some(e) => res is Err && res->Err_0 == e && final(self).folder() == old(
                    self,
                ).folder(),
                None => match old(self).folder().delete_app(app_id@) {
                    Ok(f) => res is Ok && final(self).folder() == f && Ok::<NodeView, FlowyError>(
                        res->Ok_0@,
                    ) == old(self).folder().read_app(app_id@),
                    Err(e) => res is Err && res->Err_0 == e && final(self).folder() == old(
                        self,
                    ).folder(),
                },
            },
    ;

    fn create_view(&mut self, view: ViewInfo) -> (res: FlowyResult<()>)
        requires
            old(self).valid(),
        ensures
            final(self).valid(),
            written(
                old(self).blocked(),
                old(self).folder(),
                old(self).folder().create_view(view@),
                res,
                final(self).folder(),
            ),
    ;

    fn read_view(&self, view_id: &str) -> (res: FlowyResult<ViewInfo>)
        requires
            self.valid(),
        ensures
            match self.folder().read_view(view_id@) {
                Ok(v) => res is Ok && res->Ok_0@ == v,
                Err(e) => res is Err && res->Err_0 == e,
            },
    ;

    fn read_views(&self, belong_to_id: &str) -> (res: FlowyResult<Vec<ViewInfo>>)
        requires
            self.valid(),
        ensures
            match self.folder().read_views(belong_to_id@) {
                Ok(s) => res is Ok && view_views(res->Ok_0@) == s,
                Err(e) => res is Err && res->Err_0 == e,
            },
    ;

    fn update_view(&mut self, changeset: ViewChangeset) -> (res: FlowyResult<()>)
        requires
            old(self).valid(),
        ensures
            final(self).valid(),
            written(
                old(self).blocked(),
                old(self).folder(),
                old(self).folder().update_view(changeset@),
                res,
                final(self).folder(),
            ),
    ;

    fn delete_view(&mut self, view_id: &str) -> (res: FlowyResult<()>)
        requires
            old(self).valid(),
        ensures
            final(self).valid(),
            written(
                old(self).blocked(),
                old(self).folder(),
                old(self).folder().delete_view(view_id@),
                res,
                final(self).folder(),
            ),
    ;

    fn create_trash(&mut self, trashes: Vec<Trash>) -> (res: FlowyResult<()>)
        requires
            old(self).valid(),
        ensures
            final(self).valid(),
            written(
                old(self).blocked(),
                old(self).folder(),
                Ok(old(self).folder().create_trash(trash_views(trashes@))),
                res,
                final(self).folder(),
            ),
    ;

    fn read_trash(&self, trash_id: Option<String>) -> (res: FlowyResult<Vec<Trash>>)
        requires
            self.valid(),
        ensures
            match self.folder().read_trash(opt_view(trash_id)) {
                Ok(s) => res is Ok && trash_views(res->Ok_0@) == s,
                Err(e) => res is Err && res->Err_0 == e,
            },
    ;

    fn delete_trash(&mut self, trash_ids: Option<Vec<String>>) -> (res: FlowyResult<()>)
        requires
            old(self).valid(),
        ensures
            final(self).valid(),
            written(
                old(self).blocked(),
                old(self).folder(),
                Ok(old(self).folder().delete_trash(opt_ids(trash_ids))),
                res,
                final(self).folder(),
            ),
    ;
}

/// The first record of a folder: the layout of the folder under the number 0,
/// based on itself, waiting to be synchronized.
pub open spec fn bootstrap_record(user_id: Seq<char>, f: FolderView) -> RecordView {
    RecordView {
        revision: RevisionView {
            base_rev_id: 0,
            rev_id: 0,
            delta_data: encode_folder(f),
            md5: checksum(encode_folder(f)),
            object_id: FOLDER_ID@,
            user_id,
        },
        state: RevisionState::Sync,
        write_to_disk: true,
    }
}

pub struct PersistenceView {
    /// Who is signed in.
    pub user: Option<SessionView>,
    /// The live editor, if there is one.
    pub editor: Option<EditorView>,
    /// The store, whether the facade or the live editor holds it.
    pub database: DatabaseView,
    /// The errors that were recovered from, in the order in which they came.
    pub diagnostics: Seq<FlowyError>,
}

impl PersistenceView {
    /// A live editor is in order and works on the facade's store.
    pub open spec fn wf(self) -> bool {
        match self.editor {
            Some(e) => e.wf() && e.database == self.database,
            None => true,
        }
    }

    /// The editor that is built from the store for the signed-in user.
    /// `NotAuthenticated` where nobody is signed in; otherwise the error of
    /// reading the folder's records or of replaying them.
    pub open spec fn created_editor(self) -> Result<EditorView, FlowyError> {
        match self.user {
            None => Err(FlowyError::NotAuthenticated),
            Some(s) => match self.database.load(FOLDER_ID@) {
                Err(e) => Err(e),
                Ok(records) => match replay(records) {
                    Err(e) => Err(e),
                    Ok(f) => Ok(
                        EditorView {
                            user_id: s.user_id,
                            token: s.token,
                            folder: f,
                            rev_id: records.last().revision.rev_id,
                            database: self.database,
                        },
                    ),
                },
            },
        }
    }

    /// The facade after it was asked for the editor. With a live editor
    /// nothing changes. Without one, the violation of the protocol is noted
    /// and the editor is built, if it can be.
    pub open spec fn entered(self) -> PersistenceView {
        match self.editor {
            Some(_) => self,
            None => {
                let noted = PersistenceView {
                    diagnostics: self.diagnostics.push(FlowyError::ProtocolViolation),
                    ..self
                };
                match self.created_editor() {
                    Ok(e) => PersistenceView { editor: Some(e), ..noted },
                    Err(_) => noted,
                }
            },
        }
    }

    /// The facade after a folder was saved as the first record of the
    /// user's folder. `StoreUnavailable` while the store cannot be reached;
    /// `AlreadyExists` where the store already holds a record of the folder.
    pub open spec fn saved(self, user_id: Seq<char>, f: FolderView) -> Result<
        PersistenceView,
        FlowyError,
    > {
        if !self.database.reachable {
            Err(FlowyError::StoreUnavailable)
        } else if records_of(self.database.revisions, FOLDER_ID@).len() > 0 {
            Err(FlowyError::AlreadyExists)
        } else {
            Ok(
                PersistenceView {
                    database: self.database.appended(bootstrap_record(user_id, f)),
                    ..self
                },
            )
        }
    }

    /// The facade after the data of the user was migrated, where there was
    /// any to migrate.
    pub open spec fn migrated(self, user_id: Seq<char>) -> Result<PersistenceView, FlowyError> {
        match migration_outcome(self.database, user_id) {
            Err(e) => Err(e),
            Ok(None) => Ok(self),
            Ok(Some(f)) => Ok(
                PersistenceView {
                    database: self.database.appended(bootstrap_record(user_id, f)),
                    ..self
                },
            ),
        }
    }

    /// What initializing leaves behind and reports. A failed migration
    /// changes nothing. After the migration the editor is built anew; where
    /// that fails, what the migration saved stays saved.
    pub open spec fn initialized(self, user_id: Seq<char>) -> (PersistenceView, Result<(), FlowyError>) {
        match self.migrated(user_id) {
            Err(e) => (self, Err(e)),
            Ok(mid) => match mid.created_editor() {
                Err(e) => (mid, Err(e)),
                Ok(e) => (PersistenceView { editor: Some(e), ..mid }, Ok(())),
            },
        }
    }
}

/// What a transaction leaves behind and reports. The facade is entered
/// first. Where it has no editor then, the error of building one is
/// reported and `f` has not run. Otherwise `f` has run on the editor, its
/// result is reported, and the editor that it handed back is the live one:
/// the same user's, over the same store. Every record that the store held
/// before is still there, in its place and as it was.
pub open spec fn transacted<F, O>(
    before: PersistenceView,
    f: F,
    res: FlowyResult<O>,
    after: PersistenceView,
) -> bool where F: FnOnce(FolderEditor) -> (FolderEditor, FlowyResult<O>) {
    &&& after.user == before.user
    &&& after.diagnostics == before.entered().diagnostics
    &&& after.database.legacy == before.database.legacy
    &&& before.database.revisions.is_prefix_of(after.database.revisions)
    &&& match before.entered().editor {
        None => res is Err && Err::<EditorView, FlowyError>(res->Err_0)
            == before.created_editor() && after == before.entered(),
        Some(entered) => exists|e0: FolderEditor, e1: FolderEditor|
            e0@ == entered && #[trigger] f.ensures((e0,), (e1, res)) && after.editor == Some(e1@)
                && after.database == e1@.database && e1@.continues(entered),
    }
}

/// The facade of the folder store: it holds the store and at most one
/// editor, builds the editor on first use, and drops it on logout.
pub struct FolderPersistence {
    user: WorkspaceUser,
    database: Option<WorkspaceDatabase>,
    folder_editor: Option<FolderEditor>,
    diagnostics: Vec<FlowyError>,
}

impl vstd::view::View for FolderPersistence {
    type V = PersistenceView;

    closed spec fn view(&self) -> PersistenceView {
        PersistenceView {
            user: self.user@,
            editor: match self.folder_editor {
                Some(e) => Some(e@),
                None => None,
            },
            database: match self.folder_editor {
                Some(e) => e@.database,
                None => match self.database {
                    Some(d) => d@,
                    None => arbitrary(),
                },
            },
            diagnostics: self.diagnostics@,
        }
    }
}

impl FolderPersistence {
    /// The store is held in exactly one place.
    pub closed spec fn inv(&self) -> bool {
        self.folder_editor is Some <==> self.database is None
    }

    pub open spec fn wf(&self) -> bool {
        self.inv() && self@.wf()
    }

    pub fn new(user: WorkspaceUser, database: WorkspaceDatabase) -> (p: FolderPersistence)
        ensures
            p.wf(),
            p@ == (PersistenceView {
                user: user@,
                editor: None,
                database: database@,
                diagnostics: Seq::empty(),
            }),
    {
        FolderPersistence {
            user,
            database: Some(database),
            folder_editor: None,
            diagnostics: Vec::new(),
        }
    }

    /// Whether an editor is live.
    pub fn is_ready(&self) -> (ready: bool)
        ensures
            ready == self@.editor is Some,
    {
        self.folder_editor.is_some()
    }

    /// The live editor, for reading.
    pub fn editor(&self) -> (editor: Option<&FolderEditor>)
        ensures
            match self@.editor {
                Some(e) => editor is Some && editor->Some_0@ == e,
                None => editor is None,
            },
            self.wf() && editor is Some ==> editor->Some_0.wf(),
    {
        self.folder_editor.as_ref()
    }

    pub fn user(&self) -> (user: &WorkspaceUser)
        ensures
            user@ == self@.user,
    {
        &self.user
    }

    /// Signs a user in or out. A live editor stays as it is.
    pub fn set_user(&mut self, user: WorkspaceUser)
        ensures
            final(self)@ == (PersistenceView { user: user@, ..old(self)@ }),
            old(self).wf() ==> final(self).wf(),
    {
        self.user = user;
    }

    /// The store, wherever it is held.
    pub fn database(&self) -> (database: &WorkspaceDatabase)
        requires
            self.wf(),
        ensures
            database@ == self@.database,
    {
        match &self.folder_editor {
            Some(e) => e.database(),
            None => self.database.as_ref().unwrap(),
        }
    }

    /// Says whether the store can be reached from now on.
    pub fn set_store_reachable(&mut self, reachable: bool)
        requires
            old(self).wf(),
        ensures
            final(self).wf(),
            final(self)@.database == (DatabaseView { reachable, ..old(self)@.database }),
            final(self)@.user == old(self)@.user,
            final(self)@.diagnostics == old(self)@.diagnostics,
            final(self)@.editor == match old(self)@.editor {
                Some(e) => Some(
                    EditorView { database: DatabaseView { reachable, ..e.database }, ..e },
                ),
                None => None,
            },
    {
        match self.folder_editor.take() {
            Some(mut e) => {
                e.set_store_reachable(reachable);
                self.folder_editor = Some(e);
            },
            None => {
                let mut db = self.database.take().unwrap();
                db.set_reachable(reachable);
                self.database = Some(db);
            },
        }
    }

    /// The errors that were recovered from since the last call, oldest
    /// first.
    pub fn take_diagnostics(&mut self) -> (noted: Vec<FlowyError>)
        ensures
            noted@ == old(self)@.diagnostics,
            final(self)@ == (PersistenceView { diagnostics: Seq::empty(), ..old(self)@ }),
            old(self).wf() ==> final(self).wf(),
    {
        let mut noted: Vec<FlowyError> = Vec::new();
        noted.append(&mut self.diagnostics);
        proof {
            assert(noted@ =~= old(self)@.diagnostics);
        }
        noted
    }

    /// Hands the live editor to `f` and keeps the editor that `f` hands
    /// back, which has to go on from the one that `f` was given. Without a
    /// live editor, the violation of the protocol is noted, the editor is
    /// built first, and `f` is not called where that fails.
    pub fn begin_transaction<F, O>(&mut self, f: F) -> (res: FlowyResult<O>) where
        F: FnOnce(FolderEditor) -> (FolderEditor, FlowyResult<O>),

        requires
            old(self).wf(),
            forall|e: FolderEditor| e.wf() ==> f.requires((e,)),
            forall|e: FolderEditor, out: (FolderEditor, FlowyResult<O>)|
                e.wf() && #[trigger] f.ensures((e,), out) ==> out.0.wf() && out.0@.continues(e@),
        ensures
            final(self).wf(),
            transacted(old(self)@, f, res, final(self)@),
    {
        if self.folder_editor.is_none() {
            self.diagnostics.push(FlowyError::ProtocolViolation);
            match self.init_folder_editor() {
                Err(e) => {
                    return Err(e);
                },
                Ok(()) => {},
            }
        }
        let editor = self.folder_editor.take().unwrap();
        assert(editor.wf());
        let (editor, res) = f(editor);
        self.folder_editor = Some(editor);
        res
    }

    /// Drops the live editor. The store is as it was: every change is
    /// already in its log.
    pub fn user_did_logout(&mut self)
        requires
            old(self).wf(),
        ensures
            final(self).wf(),
            final(self)@ == (PersistenceView { editor: None, ..old(self)@ }),
    {
        match self.folder_editor.take() {
            Some(e) => {
                self.database = Some(e.into_database());
            },
            None => {},
        }
    }

    /// Migrates the user's legacy data where there is any, saves what the
    /// migration yields as the first record of the folder, and builds the
    /// editor.
    pub fn initialize(&mut self, user_id: &str) -> (res: FlowyResult<()>)
        requires
            old(self).wf(),
        ensures
            final(self).wf(),
            final(self)@ == old(self)@.initialized(user_id@).0,
            same_outcome(res, old(self)@.initialized(user_id@).1),
    {
        let migrations = FolderMigration::new(user_id);
        let migrated = match migrations.run_v1_migration(self.database()) {
            Err(e) => {
                return Err(e);
            },
            Ok(m) => m,
        };
        match migrated {
            Some(folder) => {
                match self.save_folder(user_id, folder) {
                    Err(e) => {
                        return Err(e);
                    },
                    Ok(()) => {},
                }
            },
            None => {},
        }
        self.init_folder_editor()
    }

    /// Builds the editor from the store for the signed-in user and makes it
    /// the live one. Where it cannot be built, nothing changes.
    fn init_folder_editor(&mut self) -> (res: FlowyResult<()>)
        requires
            old(self).wf(),
        ensures
            final(self).wf(),
            match old(self)@.created_editor() {
                Ok(e) => res is Ok && final(self)@ == (PersistenceView {
                    editor: Some(e),
                    ..old(self)@
                }),
                Err(e) => res == Err::<(), FlowyError>(e) && final(self)@ == old(self)@,
            },
    {
        let user_id = match self.user.user_id() {
            Err(e) => {
                return Err(e);
            },
            Ok(id) => id,
        };
        let token = match self.user.token() {
            Err(e) => {
                return Err(e);
            },
            Ok(token) => token,
        };
        match self.database().connect() {
            Err(e) => {
                return Err(e);
            },
            Ok(()) => {},
        }
        let database = match self.folder_editor.take() {
            Some(e) => e.into_database(),
            None => self.database.take().unwrap(),
        };
        match FolderEditor::new(user_id.as_str(), token.as_str(), database) {
            Ok(editor) => {
                self.folder_editor = Some(editor);
                Ok(())
            },
            Err((e, database)) => {
                self.database = Some(database);
                Err(e)
            },
        }
    }

    /// Saves a folder as the first record of the user's folder. A folder
    /// that was saved can be laid out.
    pub fn save_folder(&mut self, user_id: &str, folder: FolderPad) -> (res: FlowyResult<()>)
        requires
            old(self).wf(),
            folder.wf(),
        ensures
            final(self).wf(),
            res is Ok ==> folder_fits(folder@),
            match old(self)@.saved(user_id@, folder@) {
                Ok(p) => res is Ok && final(self)@ == p,
                Err(e) => res == Err::<(), FlowyError>(e) && final(self)@ == old(self)@,
            },
    {
        match self.database().has_object(FOLDER_ID) {
            Err(e) => {
                return Err(e);
            },
            Ok(true) => {
                return Err(FlowyError::AlreadyExists);
            },
            Ok(false) => {},
        }
        let delta_data = folder.to_bytes();
        let sum = md5(&delta_data);
        let revision = Revision::new(FOLDER_ID, 0, 0, delta_data, user_id, sum);
        let record = RevisionRecord { revision, state: RevisionState::Sync, write_to_disk: true };
        let mut database = self.database.take().unwrap();
        let _ = database.append(record);
        self.database = Some(database);
        Ok(())
    }
}

} // verus!
