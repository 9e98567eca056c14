//! The editor: the one live copy of a user's folder, together with the
//! store that every change of it is recorded in.

use crate::database::{all_checksums_ok, records_of, DatabaseView, WorkspaceDatabase};
use crate::entities::{
    trash_views, App, AppChangeset, Trash, ViewChangeset, ViewInfo, Workspace, WorkspaceChangeset,
};
use crate::errors::{FlowyError, FlowyResult};
use crate::folder_model::FolderView;
use crate::folder_pad::{opt_ids, FolderPad};
use crate::layout::{decode_folder, encode_folder, folder_fits, lemma_decode_folder_encode};
use crate::persistence::{FolderPersistenceTransaction, FOLDER_ID};
use crate::revision::{
    checksum, md5, record_views, well_sequenced, RecordView, Revision, RevisionRecord,
    RevisionState, RevisionView,
};
use vstd::prelude::*;

verus! {

/// The record's payload lays out a folder that is a tree.
pub open spec fn decodes(r: RecordView) -> bool {
    decode_folder(r.revision.delta_data) is Some && decode_folder(
        r.revision.delta_data,
    )->Some_0.wf()
}

pub open spec fn all_decode(records: Seq<RecordView>) -> bool {
    forall|i: int| 0 <= i < records.len() ==> decodes(#[trigger] records[i])
}

/// The folder that the records of an object lead to when they are taken from
/// the first to the last. `NotFound` where there is no record; `Corruption`
/// where the records are out of sequence, where a payload lays out no
/// folder, or where the folder reached does not have the checksum of the
/// last record.
pub open spec fn replay(records: Seq<RecordView>) -> Result<FolderView, FlowyError> {
    if records.len() == 0 {
        Err(FlowyError::NotFound)
    } else if !well_sequenced(records) || !all_decode(records) {
        Err(FlowyError::Corruption)
    } else {
        let f = decode_folder(records.last().revision.delta_data)->Some_0;
        if checksum(encode_folder(f)) == records.last().revision.md5 {
            Ok(f)
        } else {
            Err(FlowyError::Corruption)
        }
    }
}

/// Replays the records of an object.
pub fn replay_records(records: &Vec<RevisionRecord>) -> (res: FlowyResult<FolderPad>)
    ensures
        match replay(record_views(records@)) {
            Ok(f) => res is Ok && res->Ok_0@ == f && f.wf(),
            Err(e) => res is Err && res->Err_0 == e,
        },
{
    let ghost all = record_views(records@);
    if records.len() == 0 {
        return Err(FlowyError::NotFound);
    }
    let mut folder = FolderPad::empty();
    let mut i: usize = 0;
    while i < records.len()
        invariant
            i <= records.len(),
            records.len() > 0,
            all == record_views(records@),
            well_sequenced(all.take(i as int)),
            all_decode(all.take(i as int)),
            i > 0 ==> Some(folder@) == decode_folder(all[i - 1].revision.delta_data),
        decreases records.len() - i,
    {
        let revision = &records[i].revision;
        let in_sequence = if i == 0 {
            revision.base_rev_id == 0 && revision.rev_id == 0
        } else {
            0 < revision.rev_id && revision.rev_id as u64 == i as u64 && revision.base_rev_id
                == revision.rev_id - 1
        };
        if !in_sequence {
            proof {
                assert(all[i as int].revision == revision@);
            }
            return Err(FlowyError::Corruption);
        }
        match FolderPad::from_bytes(&revision.delta_data) {
            Ok(f) => {
                folder = f;
            },
            Err(_) => {
                proof {
                    assert(!decodes(all[i as int]));
                }
                return Err(FlowyError::Corruption);
            },
        }
        proof {
            let upto = all.take(i + 1);
            let before = all.take(i as int);
            assert forall|j: int| 0 <= j < upto.len() implies decodes(#[trigger] upto[j]) by {
                if j < i {
                    assert(decodes(before[j]));
                }
            }
            assert forall|j: int| 0 <= j < upto.len() implies {
                &&& (#[trigger] upto[j]).revision.rev_id == j
                &&& upto[j].revision.base_rev_id == if j == 0 {
                    0
                } else {
                    j - 1
                }
            } by {
                if j < i {
                    assert(before[j].revision.rev_id == j);
                }
            }
        }
        i += 1;
    }
    proof {
        assert(all.take(records.len() as int) =~= all);
    }
    let payload = folder.to_bytes();
    let sum = md5(&payload);
    if sum == records[records.len() - 1].revision.md5 {
        Ok(folder)
    } else {
        Err(FlowyError::Corruption)
    }
}

pub struct EditorView {
    pub user_id: Seq<char>,
    pub token: Seq<char>,
    pub folder: FolderView,
    pub rev_id: i64,
    pub database: DatabaseView,
}

impl EditorView {
    /// The records of the folder in the editor's store.
    pub open spec fn records(self) -> Seq<RecordView> {
        records_of(self.database.revisions, FOLDER_ID@)
    }

    /// The log of the folder is in order, and the editor's counter stands at
    /// its last record.
    pub open spec fn log_ok(self) -> bool {
        &&& self.records().len() > 0
        &&& all_checksums_ok(self.records())
        &&& well_sequenced(self.records())
        &&& all_decode(self.records())
        &&& self.rev_id == self.records().last().revision.rev_id
    }

    /// The editor's folder is a tree, and it is the folder that the log of
    /// the store leads to.
    pub open spec fn wf(self) -> bool {
        &&& self.folder.wf()
        &&& self.log_ok()
        &&& replay(self.records()) == Ok::<FolderView, FlowyError>(self.folder)
    }

    /// The error that every write meets: the store cannot be reached, or the
    /// counter cannot grow.
    pub open spec fn blocked(self) -> Option<FlowyError> {
        if !self.database.reachable {
            Some(FlowyError::StoreUnavailable)
        } else if self.rev_id == i64::MAX {
            Some(FlowyError::SequenceExhausted)
        } else {
            None
        }
    }

    /// The record that the editor appends for the folder `f`.
    pub open spec fn next_record(self, f: FolderView) -> RecordView {
        RecordView {
            revision: RevisionView {
                base_rev_id: self.rev_id,
                rev_id: (self.rev_id + 1) as i64,
                delta_data: encode_folder(f),
                md5: checksum(encode_folder(f)),
                object_id: FOLDER_ID@,
                user_id: self.user_id,
            },
            state: RevisionState::Sync,
            write_to_disk: true,
        }
    }

    /// The editor after it has recorded the change to the folder `f`.
    pub open spec fn committed(self, f: FolderView) -> EditorView {
        EditorView {
            folder: f,
            rev_id: (self.rev_id + 1) as i64,
            database: self.database.appended(self.next_record(f)),
            ..self
        }
    }

    /// This editor goes on from `before`: it is the same user's, the legacy
    /// tables are untouched, and every record that the store held is still
    /// there, in its place and as it was.
    pub open spec fn continues(self, before: EditorView) -> bool {
        &&& self.user_id == before.user_id
        &&& self.token == before.token
        &&& self.database.legacy == before.database.legacy
        &&& before.database.revisions.is_prefix_of(self.database.revisions)
    }

    /// What a write leaves behind: see `wrote`.
    pub open spec fn after_write(self, outcome: Result<FolderView, FlowyError>) -> EditorView {
        match self.blocked() {
            Some(_) => self,
            None => match outcome {
                Ok(f) => self.committed(f),
                Err(_) => self,
            },
        }
    }
}

/// Recording a change keeps the editor in order.
pub proof fn lemma_committed_wf(e: EditorView, f: FolderView)
    requires
        e.log_ok(),
        e.blocked() is None,
        f.wf(),
        folder_fits(f),
    ensures
        e.committed(f).wf(),
{
    let next = e.committed(f);
    let record = e.next_record(f);
    let before = e.records();
    let after = next.records();
    e.database.revisions.lemma_filter_push(record, crate::database::of_object(FOLDER_ID@));
    assert(after == before.push(record));
    lemma_decode_folder_encode(f);
    assert(decodes(record));
    assert forall|j: int| 0 <= j < after.len() implies (#[trigger] after[j]).revision.checksum_ok() by {
        if j < before.len() {
            assert(before[j].revision.checksum_ok());
        }
    }
    assert forall|j: int| 0 <= j < after.len() implies decodes(#[trigger] after[j]) by {
        if j < before.len() {
            assert(decodes(before[j]));
        }
    }
    assert forall|j: int| 0 <= j < after.len() implies {
        &&& (#[trigger] after[j]).revision.rev_id == j
        &&& after[j].revision.base_rev_id == if j == 0 {
            0
        } else {
            j - 1
        }
    } by {
        if j < before.len() {
            assert(before[j].revision.rev_id == j);
        } else {
            assert(before[before.len() - 1].revision.rev_id == before.len() - 1);
        }
    }
}

/// The single writer of a user's folder.
pub struct FolderEditor {
    user_id: String,
    token: String,
    folder: FolderPad,
    rev_id: i64,
    database: WorkspaceDatabase,
}

impl vstd::view::View for FolderEditor {
    type V = EditorView;

    closed spec fn view(&self) -> EditorView {
        EditorView {
            user_id: self.user_id@,
            token: self.token@,
            folder: self.folder@,
            rev_id: self.rev_id,
            database: self.database@,
        }
    }
}

impl FolderEditor {
    pub open spec fn wf(&self) -> bool {
        self@.wf()
    }

    /// What a write reports and leaves behind. While the store cannot take a
    /// write, the write fails with the store's error. Where the operation
    /// itself fails, the write fails with its error. In both cases nothing
    /// changes. Otherwise the editor has the new folder and the store has
    /// one record more: the layout of the new folder, based on the record
    /// before it. Either way the editor goes on from where it was.
    pub open spec fn wrote(
        before: EditorView,
        outcome: Result<FolderView, FlowyError>,
        res: Result<(), FlowyError>,
        after: EditorView,
    ) -> bool {
        &&& after == before.after_write(outcome)
        &&& after.continues(before)
        &&& match before.blocked() {
            Some(e) => res == Err::<(), FlowyError>(e),
            None => match outcome {
                Ok(_) => res is Ok,
                Err(e) => res == Err::<(), FlowyError>(e),
            },
        }
    }

    /// Loads the folder of the user from the store and takes the store over.
    /// Where the records cannot be read or do not replay, the error comes
    /// back together with the store.
    pub fn new(user_id: &str, token: &str, database: WorkspaceDatabase) -> (res: Result<
        FolderEditor,
        (FlowyError, WorkspaceDatabase),
    >)
        ensures
            match database@.load(FOLDER_ID@) {
                Err(e) => res is Err && res->Err_0.0 == e && res->Err_0.1@ == database@,
                Ok(records) => match replay(records) {
                    Err(e) => res is Err && res->Err_0.0 == e && res->Err_0.1@ == database@,
                    Ok(f) => res is Ok && res->Ok_0.wf() && res->Ok_0@ == (EditorView {
                        user_id: user_id@,
                        token: token@,
                        folder: f,
                        rev_id: records.last().revision.rev_id,
                        database: database@,
                    }),
                },
            },
    {
        let records = match database.load(FOLDER_ID) {
            Ok(records) => records,
            Err(e) => {
                return Err((e, database));
            },
        };
        let folder = match replay_records(&records) {
            Ok(folder) => folder,
            Err(e) => {
                return Err((e, database));
            },
        };
        let rev_id = records[records.len() - 1].revision.rev_id;
        Ok(
            FolderEditor {
                user_id: user_id.to_owned(),
                token: token.to_owned(),
                folder,
                rev_id,
                database,
            },
        )
    }

    /// Gives the store back and ends the editor.
    pub fn into_database(self) -> (database: WorkspaceDatabase)
        ensures
            database@ == self@.database,
    {
        self.database
    }

    pub fn user_id(&self) -> (id: &String)
        ensures
            id@ == self@.user_id,
    {
        &self.user_id
    }

    /// The number of the last record of the folder.
    pub fn rev_id(&self) -> (id: i64)
        ensures
            id == self@.rev_id,
    {
        self.rev_id
    }

    pub fn folder(&self) -> (folder: &FolderPad)
        ensures
            folder@ == self@.folder,
    {
        &self.folder
    }

    pub fn database(&self) -> (database: &WorkspaceDatabase)
        ensures
            database@ == self@.database,
    {
        &self.database
    }

    /// Says whether the store can be reached from now on.
    pub fn set_store_reachable(&mut self, reachable: bool)
        ensures
            final(self)@ == (EditorView {
                database: DatabaseView { reachable, ..old(self)@.database },
                ..old(self)@
            }),
            final(self)@.continues(old(self)@),
            old(self).wf() ==> final(self).wf(),
    {
        self.database.set_reachable(reachable);
    }

    /// The error that a write would meet now, if any.
    fn check_writable(&self) -> (res: FlowyResult<()>)
        ensures
            match self@.blocked() {
                Some(e) => res == Err::<(), FlowyError>(e),
                None => res is Ok,
            },
    {
        match self.database.connect() {
            Err(e) => Err(e),
            Ok(()) => if self.rev_id == i64::MAX {
                Err(FlowyError::SequenceExhausted)
            } else {
                Ok(())
            },
        }
    }

    /// Records the folder as it stands now.
    fn commit(&mut self)
        requires
            old(self)@.log_ok(),
            old(self)@.blocked() is None,
            old(self)@.folder.wf(),
        ensures
            final(self)@ == old(self)@.committed(old(self)@.folder),
            final(self)@.continues(old(self)@),
            final(self).wf(),
    {
        let payload = self.folder.to_bytes();
        let sum = md5(&payload);
        let next = self.rev_id + 1;
        let revision = Revision::new(FOLDER_ID, self.rev_id, next, payload, self.user_id.as_str(), sum);
        let record = RevisionRecord { revision, state: RevisionState::Sync, write_to_disk: true };
        proof {
            lemma_committed_wf(self@, self@.folder);
        }
        let _ = self.database.append(record);
        self.rev_id = next;
    }
}

impl FolderPersistenceTransaction for FolderEditor {
    open spec fn folder(&self) -> FolderView {
        self@.folder
    }

    open spec fn valid(&self) -> bool {
        self@.wf()
    }

    open spec fn blocked(&self) -> Option<FlowyError> {
        self@.blocked()
    }

    fn create_workspace(&mut self, _user_id: &str, workspace: Workspace) -> (res: FlowyResult<()>)
        ensures
            FolderEditor::wrote(old(self)@, old(self)@.folder.create_workspace(workspace@), res, final(self)@),
    {
        match self.check_writable() {
            Err(e) => {
                return Err(e);
            },
            Ok(()) => {},
        }
        match self.folder.create_workspace(workspace) {
            Err(e) => Err(e),
            Ok(()) => {
                self.commit();
                Ok(())
            },
        }
    }

    fn read_workspaces(&self, _user_id: &str, workspace_id: Option<String>) -> (res: FlowyResult<Vec<Workspace>>) {
        self.folder.read_workspaces(workspace_id)
    }

    fn update_workspace(&mut self, changeset: WorkspaceChangeset) -> (res: FlowyResult<()>)
        ensures
            FolderEditor::wrote(old(self)@, old(self)@.folder.update_workspace(changeset@), res, final(self)@),
    {
        match self.check_writable() {
            Err(e) => {
                return Err(e);
            },
            Ok(()) => {},
        }
        match self.folder.update_workspace(changeset) {
            Err(e) => Err(e),
            Ok(()) => {
                self.commit();
                Ok(())
            },
        }
    }

    fn delete_workspace(&mut self, workspace_id: &str) -> (res: FlowyResult<()>)
        ensures
            FolderEditor::wrote(old(self)@, old(self)@.folder.delete_workspace(workspace_id@), res, final(self)@),
    {
        match self.check_writable() {
            Err(e) => {
                return Err(e);
            },
            Ok(()) => {},
        }
        match self.folder.delete_workspace(workspace_id) {
            Err(e) => Err(e),
            Ok(()) => {
                self.commit();
                Ok(())
            },
        }
    }

    fn create_app(&mut self, app: App) -> (res: FlowyResult<()>)
        ensures
            FolderEditor::wrote(old(self)@, old(self)@.folder.create_app(app@), res, final(self)@),
    {
        match self.check_writable() {
            Err(e) => {
                return Err(e);
            },
            Ok(()) => {},
        }
        match self.folder.create_app(app) {
            Err(e) => Err(e),
            Ok(()) => {
                self.commit();
                Ok(())
            },
        }
    }

    fn update_app(&mut self, changeset: AppChangeset) -> (res: FlowyResult<()>)
        ensures
            FolderEditor::wrote(old(self)@, old(self)@.folder.update_app(changeset@), res, final(self)@),
    {
        match self.check_writable() {
            Err(e) => {
                return Err(e);
            },
            Ok(()) => {},
        }
        match self.folder.update_app(changeset) {
            Err(e) => Err(e),
            Ok(()) => {
                self.commit();
                Ok(())
            },
        }
    }

    fn read_app(&self, app_id: &str) -> (res: FlowyResult<App>) {
        self.folder.read_app(app_id)
    }

    fn read_workspace_apps(&self, workspace_id: &str) -> (res: FlowyResult<Vec<App>>) {
        self.folder.read_workspace_apps(workspace_id)
    }

    fn delete_app(&mut self, app_id: &str) -> (res: FlowyResult<App>)
        ensures
            final(self)@ == old(self)@.after_write(old(self)@.folder.delete_app(app_id@)),
            final(self)@.continues(old(self)@),
    {
        match self.check_writable() {
            Err(e) => {
                return Err(e);
            },
            Ok(()) => {},
        }
        match self.folder.delete_app(app_id) {
            Err(e) => Err(e),
            Ok(app) => {
                self.commit();
                Ok(app)
            },
        }
    }

    fn create_view(&mut self, view: ViewInfo) -> (res: FlowyResult<()>)
        ensures
            FolderEditor::wrote(old(self)@, old(self)@.folder.create_view(view@), res, final(self)@),
    {
        match self.check_writable() {
            Err(e) => {
                return Err(e);
            },
            Ok(()) => {},
        }
        match self.folder.create_view(view) {
            Err(e) => Err(e),
            Ok(()) => {
                self.commit();
                Ok(())
            },
        }
    }

    fn read_view(&self, view_id: &str) -> (res: FlowyResult<ViewInfo>) {
        self.folder.read_view(view_id)
    }

    fn read_views(&self, belong_to_id: &str) -> (res: FlowyResult<Vec<ViewInfo>>) {
        self.folder.read_views(belong_to_id)
    }

    fn update_view(&mut self, changeset: ViewChangeset) -> (res: FlowyResult<()>)
        ensures
            FolderEditor::wrote(old(self)@, old(self)@.folder.update_view(changeset@), res, final(self)@),
    {
        match self.check_writable() {
            Err(e) => {
                return Err(e);
            },
            Ok(()) => {},
        }
        match self.folder.update_view(changeset) {
            Err(e) => Err(e),
            Ok(()) => {
                self.commit();
                Ok(())
            },
        }
    }

    fn delete_view(&mut self, view_id: &str) -> (res: FlowyResult<()>)
        ensures
            FolderEditor::wrote(old(self)@, old(self)@.folder.delete_view(view_id@), res, final(self)@),
    {
        match self.check_writable() {
            Err(e) => {
                return Err(e);
            },
            Ok(()) => {},
        }
        match self.folder.delete_view(view_id) {
            Err(e) => Err(e),
            Ok(()) => {
                self.commit();
                Ok(())
            },
        }
    }

    fn create_trash(&mut self, trashes: Vec<Trash>) -> (res: FlowyResult<()>)
        ensures
            FolderEditor::wrote(old(self)@, Ok(old(self)@.folder.create_trash(trash_views(trashes@))), res, final(self)@),
    {
        match self.check_writable() {
            Err(e) => {
                return Err(e);
            },
            Ok(()) => {},
        }
        self.folder.create_trash(trashes);
        self.commit();
        Ok(())
    }

    fn read_trash(&self, trash_id: Option<String>) -> (res: FlowyResult<Vec<Trash>>) {
        self.folder.read_trash(trash_id)
    }

    fn delete_trash(&mut self, trash_ids: Option<Vec<String>>) -> (res: FlowyResult<()>)
        ensures
            FolderEditor::wrote(old(self)@, Ok(old(self)@.folder.delete_trash(opt_ids(trash_ids))), res, final(self)@),
    {
        match self.check_writable() {
            Err(e) => {
                return Err(e);
            },
            Ok(()) => {},
        }
        self.folder.delete_trash(trash_ids);
        self.commit();
        Ok(())
    }
}

} // verus!
