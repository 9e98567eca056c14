//! The store as the folder sees it: who is signed in, the revision log, and
//! the tables that an earlier layout of the store left behind.

use crate::entities::{node_views, trash_views, FolderNode, NodeView, Trash, TrashView};
use crate::errors::{FlowyError, FlowyResult};
use crate::codec::{byte_views, frame_items, unframe_items};
use crate::layout::{nodes_from_bytes, nodes_to_bytes, trashes_from_bytes, trashes_to_bytes};
use crate::revision::{record_views, RecordView, RevisionRecord};
use crate::store_layout::{
    decode_store, encode_store, lemma_decode_store_encode, records_from_bytes, records_to_bytes,
    store_fits, store_tables,
};
use vstd::prelude::*;

verus! {

/// The signed-in user's identifier and token, if a user is signed in.
pub struct SessionView {
    pub user_id: Seq<char>,
    pub token: Seq<char>,
}

struct Session {
    user_id: String,
    token: String,
}

/// The provider of the session's identity.
pub struct WorkspaceUser {
    session: Option<Session>,
}

impl vstd::view::View for WorkspaceUser {
    type V = Option<SessionView>;

    closed spec fn view(&self) -> Option<SessionView> {
        match self.session {
            Some(s) => Some(SessionView { user_id: s.user_id@, token: s.token@ }),
            None => None,
        }
    }
}

impl WorkspaceUser {
    pub fn signed_in(user_id: &str, token: &str) -> (user: WorkspaceUser)
        ensures
            user@ == Some(SessionView { user_id: user_id@, token: token@ }),
    {
        WorkspaceUser {
            session: Some(Session { user_id: user_id.to_owned(), token: token.to_owned() }),
        }
    }

    pub fn signed_out() -> (user: WorkspaceUser)
        ensures
            user@ is None,
    {
        WorkspaceUser { session: None }
    }

    /// The signed-in user's identifier; `NotAuthenticated` where nobody is
    /// signed in.
    pub fn user_id(&self) -> (res: FlowyResult<String>)
        ensures
            match self@ {
                Some(s) => res is Ok && res->Ok_0@ == s.user_id,
                None => res == Err::<String, FlowyError>(FlowyError::NotAuthenticated),
            },
    {
        match &self.session {
            Some(s) => Ok(s.user_id.clone()),
            None => Err(FlowyError::NotAuthenticated),
        }
    }

    /// The signed-in user's token; `NotAuthenticated` where nobody is signed
    /// in.
    pub fn token(&self) -> (res: FlowyResult<String>)
        ensures
            match self@ {
                Some(s) => res is Ok && res->Ok_0@ == s.token,
                None => res == Err::<String, FlowyError>(FlowyError::NotAuthenticated),
            },
    {
        match &self.session {
            Some(s) => Ok(s.token.clone()),
            None => Err(FlowyError::NotAuthenticated),
        }
    }
}

pub open spec fn of_object(id: Seq<char>) -> spec_fn(RecordView) -> bool {
    |r: RecordView| r.revision.object_id == id
}

/// The records of one object, in the order in which they were appended.
pub open spec fn records_of(revisions: Seq<RecordView>, id: Seq<char>) -> Seq<RecordView> {
    revisions.filter(of_object(id))
}

/// Every record carries the checksum of its payload.
pub open spec fn all_checksums_ok(records: Seq<RecordView>) -> bool {
    forall|i: int| 0 <= i < records.len() ==> (#[trigger] records[i]).revision.checksum_ok()
}

/// The tables of the layout that had no revisions. A workspace row names
/// its owner, the user, as its parent.
pub struct LegacyView {
    pub workspaces: Seq<NodeView>,
    pub apps: Seq<NodeView>,
    pub views: Seq<NodeView>,
    pub trash: Seq<TrashView>,
}

pub struct LegacyStore {
    pub workspaces: Vec<FolderNode>,
    pub apps: Vec<FolderNode>,
    pub views: Vec<FolderNode>,
    pub trash: Vec<Trash>,
}

impl vstd::view::View for LegacyStore {
    type V = LegacyView;

    open spec fn view(&self) -> LegacyView {
        LegacyView {
            workspaces: node_views(self.workspaces@),
            apps: node_views(self.apps@),
            views: node_views(self.views@),
            trash: trash_views(self.trash@),
        }
    }
}

impl LegacyStore {
    pub fn empty() -> (store: LegacyStore)
        ensures
            store@.workspaces.len() == 0,
            store@.apps.len() == 0,
            store@.views.len() == 0,
            store@.trash.len() == 0,
    {
        LegacyStore { workspaces: Vec::new(), apps: Vec::new(), views: Vec::new(), trash: Vec::new() }
    }
}

pub struct DatabaseView {
    pub reachable: bool,
    pub revisions: Seq<RecordView>,
    pub legacy: LegacyView,
}

impl DatabaseView {
    /// The records of an object as a reader gets them: `StoreUnavailable`
    /// while the store cannot be reached, `Corruption` where one of them does
    /// not carry the checksum of its payload.
    pub open spec fn load(self, object_id: Seq<char>) -> Result<Seq<RecordView>, FlowyError> {
        if !self.reachable {
            Err(FlowyError::StoreUnavailable)
        } else if !all_checksums_ok(records_of(self.revisions, object_id)) {
            Err(FlowyError::Corruption)
        } else {
            Ok(records_of(self.revisions, object_id))
        }
    }

    /// The store after a record was appended.
    pub open spec fn appended(self, record: RecordView) -> DatabaseView {
        DatabaseView { revisions: self.revisions.push(record), ..self }
    }
}

/// The user's store. It stands for the storage engine: what is appended to
/// it is what a later reader finds.
pub struct WorkspaceDatabase {
    reachable: bool,
    revisions: Vec<RevisionRecord>,
    legacy: LegacyStore,
}

impl vstd::view::View for WorkspaceDatabase {
    type V = DatabaseView;

    closed spec fn view(&self) -> DatabaseView {
        DatabaseView {
            reachable: self.reachable,
            revisions: record_views(self.revisions@),
            legacy: self.legacy@,
        }
    }
}

impl WorkspaceDatabase {
    /// A reachable store that holds nothing.
    pub fn new() -> (db: WorkspaceDatabase)
        ensures
            db@.reachable,
            db@.revisions.len() == 0,
            db@.legacy.workspaces.len() == 0,
            db@.legacy.apps.len() == 0,
            db@.legacy.views.len() == 0,
            db@.legacy.trash.len() == 0,
    {
        WorkspaceDatabase { reachable: true, revisions: Vec::new(), legacy: LegacyStore::empty() }
    }

    /// A reachable store that holds the given records and legacy tables.
    pub fn from_parts(revisions: Vec<RevisionRecord>, legacy: LegacyStore) -> (db:
        WorkspaceDatabase)
        ensures
            db@ == (DatabaseView {
                reachable: true,
                revisions: record_views(revisions@),
                legacy: legacy@,
            }),
    {
        WorkspaceDatabase { reachable: true, revisions, legacy }
    }

    /// The byte layout of the store, for writing it to storage. Read back,
    /// it gives the store as it is, reachable.
    pub fn to_bytes(&self) -> (out: Vec<u8>)
        ensures
            out@ == encode_store(self@),
            store_fits(self@),
            decode_store(out@) == Some(DatabaseView { reachable: true, ..self@ }),
    {
        let mut tables: Vec<Vec<u8>> = Vec::new();
        tables.push(records_to_bytes(&self.revisions));
        tables.push(nodes_to_bytes(&self.legacy.workspaces));
        tables.push(nodes_to_bytes(&self.legacy.apps));
        tables.push(nodes_to_bytes(&self.legacy.views));
        tables.push(trashes_to_bytes(&self.legacy.trash));
        let out = frame_items(&tables);
        proof {
            assert(byte_views(tables@) =~= store_tables(self@)) by {
                reveal(encode_store);
            }
            assert(out@ == encode_store(self@)) by {
                reveal(encode_store);
            }
            assert(store_fits(self@)) by {
                reveal(store_fits);
            }
            lemma_decode_store_encode(self@);
        }
        out
    }

    /// The store that the bytes lay out, reachable; `Corruption` where they
    /// lay out none. No checksum is looked at: that is done when the
    /// records are loaded.
    pub fn from_bytes(bytes: &Vec<u8>) -> (res: FlowyResult<WorkspaceDatabase>)
        ensures
            match decode_store(bytes@) {
                Some(db) => res is Ok && res->Ok_0@ == db,
                None => res is Err && res->Err_0 == FlowyError::Corruption,
            },
    {
        proof {
            reveal(decode_store);
        }
        let tables = match unframe_items(bytes) {
            Some(t) => t,
            None => {
                return Err(FlowyError::Corruption);
            },
        };
        if tables.len() != 5 {
            return Err(FlowyError::Corruption);
        }
        let revisions = records_from_bytes(&tables[0]);
        let workspaces = nodes_from_bytes(&tables[1]);
        let apps = nodes_from_bytes(&tables[2]);
        let views = nodes_from_bytes(&tables[3]);
        let trash = trashes_from_bytes(&tables[4]);
        match (revisions, workspaces, apps, views, trash) {
            (Some(revisions), Some(workspaces), Some(apps), Some(views), Some(trash)) => Ok(
                WorkspaceDatabase {
                    reachable: true,
                    revisions,
                    legacy: LegacyStore { workspaces, apps, views, trash },
                },
            ),
            _ => Err(FlowyError::Corruption),
        }
    }

    /// Says whether the storage engine can be reached from now on.
    pub fn set_reachable(&mut self, reachable: bool)
        ensures
            final(self)@ == (DatabaseView { reachable, ..old(self)@ }),
    {
        self.reachable = reachable;
    }

    /// `StoreUnavailable` while the store cannot be reached.
    pub fn connect(&self) -> (res: FlowyResult<()>)
        ensures
            self@.reachable ==> res is Ok,
            !self@.reachable ==> res == Err::<(), FlowyError>(FlowyError::StoreUnavailable),
    {
        if self.reachable {
            Ok(())
        } else {
            Err(FlowyError::StoreUnavailable)
        }
    }

    /// Appends a record to the log. The record's checksum is taken as it is.
    pub fn append(&mut self, record: RevisionRecord) -> (res: FlowyResult<()>)
        ensures
            old(self)@.reachable ==> res is Ok && final(self)@ == old(self)@.appended(record@),
            !old(self)@.reachable ==> res == Err::<(), FlowyError>(FlowyError::StoreUnavailable)
                && final(self)@ == old(self)@,
    {
        if !self.reachable {
            return Err(FlowyError::StoreUnavailable);
        }
        proof {
            assert(record_views(self.revisions@.push(record)) =~= record_views(
                self.revisions@,
            ).push(record@));
        }
        self.revisions.push(record);
        Ok(())
    }

    /// The records of an object, in order, each checked against its
    /// checksum.
    pub fn load(&self, object_id: &str) -> (res: FlowyResult<Vec<RevisionRecord>>)
        ensures
            match self@.load(object_id@) {
                Ok(records) => res is Ok && record_views(res->Ok_0@) == records,
                Err(e) => res is Err && res->Err_0 == e,
            },
    {
        if !self.reachable {
            return Err(FlowyError::StoreUnavailable);
        }
        let id = object_id.to_owned();
        let ghost all = record_views(self.revisions@);
        let ghost pred = of_object(object_id@);
        let mut out: Vec<RevisionRecord> = Vec::new();
        let mut ok = true;
        let mut i: usize = 0;
        proof {
            assert(all.take(0) =~= Seq::<RecordView>::empty());
            assert(record_views(out@) =~= all.take(0).filter(pred));
        }
        while i < self.revisions.len()
            invariant
                i <= self.revisions.len(),
                all == record_views(self.revisions@),
                pred == of_object(object_id@),
                id@ == object_id@,
                record_views(out@) == all.take(i as int).filter(pred),
                ok == all_checksums_ok(record_views(out@)),
            decreases self.revisions.len() - i,
        {
            let record = &self.revisions[i];
            proof {
                assert(all.take(i + 1) =~= all.take(i as int).push(record@));
                all.take(i as int).lemma_filter_push(record@, pred);
            }
            if record.revision.object_id == id {
                let copy = record.duplicate();
                let good = copy.revision.verify();
                proof {
                    let before = record_views(out@);
                    let after = before.push(copy@);
                    assert(record_views(out@.push(copy)) =~= after);
                    if ok && good {
                        assert forall|j: int| 0 <= j < after.len() implies (
                        #[trigger] after[j]).revision.checksum_ok() by {
                            if j < before.len() {
                                assert(before[j].revision.checksum_ok());
                            }
                        }
                    } else if !good {
                        assert(!after[before.len() as int].revision.checksum_ok());
                    } else {
                        let j = choose|j: int|
                            0 <= j < before.len() && !(#[trigger] before[j]).revision.checksum_ok();
                        assert(!after[j].revision.checksum_ok());
                    }
                }
                out.push(copy);
                ok = ok && good;
            }
            i += 1;
        }
        proof {
            assert(all.take(self.revisions@.len() as int) =~= all);
        }
        if ok {
            Ok(out)
        } else {
            Err(FlowyError::Corruption)
        }
    }

    /// Whether the log holds a record of the object. No checksum is looked
    /// at.
    pub fn has_object(&self, object_id: &str) -> (res: FlowyResult<bool>)
        ensures
            self@.reachable ==> res is Ok && res->Ok_0 == (records_of(
                self@.revisions,
                object_id@,
            ).len() > 0),
            !self@.reachable ==> res == Err::<bool, FlowyError>(FlowyError::StoreUnavailable),
    {
        if !self.reachable {
            return Err(FlowyError::StoreUnavailable);
        }
        let id = object_id.to_owned();
        let ghost all = record_views(self.revisions@);
        let ghost pred = of_object(object_id@);
        let mut i: usize = 0;
        proof {
            assert(all.take(0) =~= Seq::<RecordView>::empty());
        }
        while i < self.revisions.len()
            invariant
                i <= self.revisions.len(),
                all == record_views(self.revisions@),
                pred == of_object(object_id@),
                id@ == object_id@,
                self.reachable,
                all.take(i as int).filter(pred).len() == 0,
            decreases self.revisions.len() - i,
        {
            let record = &self.revisions[i];
            proof {
                assert(all.take(i + 1) =~= all.take(i as int).push(record@));
                all.take(i as int).lemma_filter_push(record@, pred);
            }
            if record.revision.object_id == id {
                proof {
                    let rest = all.skip(i + 1);
                    assert(all =~= all.take(i + 1) + rest);
                    Seq::filter_distributes_over_add(all.take(i + 1), rest, pred);
                }
                return Ok(true);
            }
            i += 1;
        }
        proof {
            assert(all.take(self.revisions@.len() as int) =~= all);
        }
        Ok(false)
    }

    /// The legacy tables; `StoreUnavailable` while the store cannot be
    /// reached.
    pub fn legacy(&self) -> (res: FlowyResult<&LegacyStore>)
        ensures
            self@.reachable ==> res is Ok && res->Ok_0@ == self@.legacy,
            !self@.reachable ==> res is Err && res->Err_0 == FlowyError::StoreUnavailable,
    {
        if self.reachable {
            Ok(&self.legacy)
        } else {
            Err(FlowyError::StoreUnavailable)
        }
    }

    /// How many records the log holds, of every object.
    pub fn revision_count(&self) -> (n: usize)
        ensures
            n == self@.revisions.len(),
    {
        self.revisions.len()
    }

    /// A copy of the record at a place of the log, unchecked.
    pub fn revision_at(&self, index: usize) -> (res: Option<RevisionRecord>)
        ensures
            index < self@.revisions.len() ==> res is Some && res->Some_0@
                == self@.revisions[index as int],
            index >= self@.revisions.len() ==> res is None,
    {
        if index < self.revisions.len() {
            Some(self.revisions[index].duplicate())
        } else {
            None
        }
    }
}

} // verus!
