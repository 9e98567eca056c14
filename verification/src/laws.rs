//! What holds of the folder store as a whole.

use crate::controller::{
    built, default_folder, lemma_default_folder_wf, prepared, ManagerView, NotificationView,
    WorkspaceNotification,
};
use crate::database::{all_checksums_ok, of_object, records_of, DatabaseView};
use crate::editor::{all_decode, decodes, lemma_committed_wf, replay, EditorView};
use crate::errors::FlowyError;
use crate::folder_model::FolderView;
use crate::layout::{encode_folder, folder_fits, lemma_decode_folder_encode};
use crate::migration::migration_outcome;
use crate::persistence::{bootstrap_record, PersistenceView, FOLDER_ID};
use crate::revision::{checksum, well_sequenced, RecordView, RevisionView};
use vstd::prelude::*;

verus! {

/// A change of the folder: what it makes of a folder, or why it fails.
pub type Change = spec_fn(FolderView) -> Result<FolderView, FlowyError>;

/// The editor after a sequence of writes, each of which settles as a write
/// of the editor does.
pub open spec fn after_writes(e: EditorView, changes: Seq<Change>) -> EditorView
    decreases changes.len(),
{
    if changes.len() == 0 {
        e
    } else {
        let before = after_writes(e, changes.drop_last());
        before.after_write((changes.last())(before.folder))
    }
}

/// Every change makes a tree of a tree, and one that can be laid out.
pub open spec fn changes_keep_trees(changes: Seq<Change>) -> bool {
    forall|i: int, f: FolderView|
        0 <= i < changes.len() && f.wf() && (#[trigger] (changes[i])(f)) is Ok ==> (changes[i])(
            f,
        )->Ok_0.wf() && folder_fits((changes[i])(f)->Ok_0)
}

/// After any sequence of writes, replaying the records of the store from the
/// first to the last gives the folder that the editor holds.
pub proof fn law_replay_gives_the_editors_folder(e: EditorView, changes: Seq<Change>)
    requires
        e.wf(),
        changes_keep_trees(changes),
    ensures
        after_writes(e, changes).wf(),
        replay(after_writes(e, changes).records()) == Ok::<FolderView, FlowyError>(
            after_writes(e, changes).folder,
        ),
    decreases changes.len(),
{
    if changes.len() > 0 {
        let init = changes.drop_last();
        assert forall|i: int, f: FolderView|
            0 <= i < init.len() && f.wf() && (#[trigger] (init[i])(f)) is Ok implies (init[i])(
            f,
        )->Ok_0.wf() && folder_fits((init[i])(f)->Ok_0) by {
            assert(init[i] == changes[i]);
        }
        law_replay_gives_the_editors_folder(e, init);
        let before = after_writes(e, init);
        let outcome = (changes.last())(before.folder);
        if before.blocked() is None && outcome is Ok {
            assert(outcome == (changes[changes.len() - 1])(before.folder));
            lemma_committed_wf(before, outcome->Ok_0);
        }
    }
}

/// In a log that replays, the first record has the numbers 0 and 0, and
/// every later record follows by one the record that it is based on, which
/// is the record before it.
pub proof fn law_records_follow_by_one(records: Seq<RecordView>, i: int)
    requires
        replay(records) is Ok,
        0 <= i < records.len(),
    ensures
        i == 0 ==> records[i].revision.is_bootstrap(),
        i > 0 ==> records[i].revision.is_increment() && records[i].revision.base_rev_id
            == records[i - 1].revision.rev_id,
{
    if i > 0 {
        assert(records[i - 1].revision.rev_id == i - 1);
    }
}

/// The folder that a log replays to has the checksum that the last record
/// of the log carries.
pub proof fn law_replayed_folder_has_the_last_checksum(records: Seq<RecordView>)
    requires
        replay(records) is Ok,
    ensures
        checksum(encode_folder(replay(records)->Ok_0)) == records.last().revision.md5,
{
}

/// The store after one byte of a record's payload was changed.
pub open spec fn corrupted(db: DatabaseView, i: int, k: int, byte: u8) -> DatabaseView {
    let record = db.revisions[i];
    DatabaseView {
        revisions: db.revisions.update(
            i,
            RecordView {
                revision: RevisionView {
                    delta_data: record.revision.delta_data.update(k, byte),
                    ..record.revision
                },
                ..record
            },
        ),
        ..db
    }
}

/// Changing one byte of a stored payload makes reading the object's records
/// fail with `Corruption`: no folder is built from them. Two payloads with
/// one checksum cannot be told apart, so the changed payload is taken to
/// have another checksum than the record carries.
pub proof fn law_changed_byte_is_corruption(db: DatabaseView, i: int, k: int, byte: u8)
    requires
        db.reachable,
        0 <= i < db.revisions.len(),
        0 <= k < db.revisions[i].revision.delta_data.len(),
        byte != db.revisions[i].revision.delta_data[k],
        checksum(db.revisions[i].revision.delta_data.update(k, byte))
            != db.revisions[i].revision.md5,
    ensures
        corrupted(db, i, k, byte).load(db.revisions[i].revision.object_id) == Err::<
            Seq<RecordView>,
            FlowyError,
        >(FlowyError::Corruption),
{
    let after = corrupted(db, i, k, byte);
    let id = db.revisions[i].revision.object_id;
    let bad = after.revisions[i];
    after.revisions.lemma_filter_contains(of_object(id), i);
    let kept = records_of(after.revisions, id);
    let j = choose|j: int| 0 <= j < kept.len() && kept[j] == bad;
    assert(!kept[j].revision.checksum_ok());
}

/// Initializing a user's folder a second time, right after it succeeded,
/// does nothing and succeeds.
pub proof fn law_second_initialize_is_a_no_op(m: ManagerView, user_id: Seq<char>)
    requires
        m.initialized(user_id).1 is Ok,
    ensures
        m.initialized(user_id).0.initialized(user_id) == (
            m.initialized(user_id).0,
            Ok::<(), FlowyError>(()),
        ),
{
}

/// Where the store holds a record of the folder, nothing is migrated.
pub proof fn law_nothing_to_migrate_beside_a_revision(db: DatabaseView, user_id: Seq<char>)
    requires
        db.reachable,
        records_of(db.revisions, FOLDER_ID@).len() > 0,
    ensures
        migration_outcome(db, user_id) == Ok::<Option<FolderView>, FlowyError>(None),
{
}

/// A second migration, after the first was saved, migrates nothing and
/// leaves the store as it is: no second first record is written.
pub proof fn law_migration_runs_once(p: PersistenceView, user_id: Seq<char>)
    requires
        p.migrated(user_id) is Ok,
    ensures
        p.migrated(user_id)->Ok_0.migrated(user_id) == p.migrated(user_id),
        migration_outcome(p.database, user_id) is Ok && migration_outcome(
            p.database,
            user_id,
        )->Ok_0 is Some ==> migration_outcome(p.migrated(user_id)->Ok_0.database, user_id) == Ok::<
            Option<FolderView>,
            FlowyError,
        >(None),
{
    match migration_outcome(p.database, user_id) {
        Ok(Some(f)) => {
            let record = bootstrap_record(user_id, f);
            p.database.revisions.lemma_filter_push(record, of_object(FOLDER_ID@));
        },
        _ => {},
    }
}

/// A log of the one record that a saved folder leaves replays to that
/// folder.
pub proof fn law_first_record_replays(user_id: Seq<char>, f: FolderView)
    requires
        f.wf(),
        folder_fits(f),
    ensures
        replay(seq![bootstrap_record(user_id, f)]) == Ok::<FolderView, FlowyError>(f),
        all_checksums_ok(seq![bootstrap_record(user_id, f)]),
{
    let records = seq![bootstrap_record(user_id, f)];
    lemma_decode_folder_encode(f);
    assert(decodes(records[0]));
    assert(all_decode(records));
    assert(well_sequenced(records));
}

/// Initializing the store of a signed-in user whose legacy data migrates
/// writes exactly one record of the folder, the first one, and builds the
/// editor over the folder that the legacy data holds.
pub proof fn law_migration_initializes(p: PersistenceView, user_id: Seq<char>, f: FolderView)
    requires
        p.user is Some,
        migration_outcome(p.database, user_id) == Ok::<Option<FolderView>, FlowyError>(Some(f)),
        folder_fits(f),
    ensures
        p.initialized(user_id).1 is Ok,
        p.initialized(user_id).0.editor is Some,
        p.initialized(user_id).0.editor->Some_0.folder == f,
        p.initialized(user_id).0.editor->Some_0.rev_id == 0,
        records_of(p.initialized(user_id).0.database.revisions, FOLDER_ID@) == seq![
            bootstrap_record(user_id, f),
        ],
{
    let record = bootstrap_record(user_id, f);
    p.database.revisions.lemma_filter_push(record, of_object(FOLDER_ID@));
    let mid = p.migrated(user_id)->Ok_0;
    let records = records_of(mid.database.revisions, FOLDER_ID@);
    assert(records_of(p.database.revisions, FOLDER_ID@) =~= Seq::<RecordView>::empty());
    assert(records =~= seq![record]);
    law_first_record_replays(user_id, f);
}

/// A write leaves every record of the store where it is and as it is: the
/// log only grows, and by one record at most.
pub proof fn law_a_write_only_appends(e: EditorView, outcome: Result<FolderView, FlowyError>)
    ensures
        e.after_write(outcome).database.revisions == e.database.revisions || e.after_write(
            outcome,
        ).database.revisions.drop_last() == e.database.revisions,
        e.database.revisions.is_prefix_of(e.after_write(outcome).database.revisions),
{
    let after = e.after_write(outcome).database.revisions;
    if after != e.database.revisions {
        assert(after.drop_last() =~= e.database.revisions);
    }
}

/// In a log that replays, no two changes are based on the same record.
pub proof fn law_a_base_is_taken_once(records: Seq<RecordView>, i: int, j: int)
    requires
        replay(records) is Ok,
        0 < i < j < records.len(),
    ensures
        records[i].revision.base_rev_id != records[j].revision.base_rev_id,
{
}

/// The folder of an editor that is in order has the checksum that the last
/// record of the store carries for it.
pub proof fn law_the_editors_folder_has_the_last_checksum(e: EditorView)
    requires
        e.wf(),
    ensures
        checksum(encode_folder(e.folder)) == e.records().last().revision.md5,
        e.rev_id == e.records().len() - 1,
{
    assert(e.records()[e.records().len() - 1].revision.rev_id == e.records().len() - 1);
}

/// Once the facade was entered and has an editor, entering it again builds
/// nothing and notes nothing: the editor is built once, and every later
/// caller gets the one that is live.
pub proof fn law_the_editor_is_built_once(p: PersistenceView)
    requires
        p.entered().editor is Some,
    ensures
        p.entered().entered() == p.entered(),
{
}

/// Initializing the store a second time, right after it succeeded, succeeds
/// and leaves the store, the log and the editor as they are.
pub proof fn law_initializing_the_store_twice(p: PersistenceView, user_id: Seq<char>)
    requires
        p.initialized(user_id).1 is Ok,
    ensures
        p.initialized(user_id).0.wf(),
        p.initialized(user_id).0.initialized(user_id) == p.initialized(user_id),
{
    let mid = p.migrated(user_id)->Ok_0;
    let once = p.initialized(user_id).0;
    let records = records_of(mid.database.revisions, FOLDER_ID@);
    assert(records[records.len() - 1].revision.rev_id == records.len() - 1);
    law_nothing_to_migrate_beside_a_revision(once.database, user_id);
}

/// Setting up a new user, for whom the store holds no record of a folder
/// and the view's document does not exist, with controllers that start,
/// succeeds: the store gets the one
/// first record, the editor holds the default folder, exactly one event is
/// queued, and the user's flag is set, so that initializing afterwards does
/// nothing.
pub proof fn law_a_new_user_is_set_up_once(
    m: ManagerView,
    user_id: Seq<char>,
    token: Seq<char>,
    time: i64,
    workspace_id: Seq<char>,
    app_id: Seq<char>,
    view_id: Seq<char>,
)
    requires
        m.persistence.user is Some,
        m.persistence.database.reachable,
        records_of(m.persistence.database.revisions, FOLDER_ID@).len() == 0,
        !m.view_controller.has_document(view_id),
        !m.is_initialized(user_id),
        m.app_controller.fault is None,
        m.view_controller.fault is None,
        folder_fits(default_folder(time, workspace_id, app_id, view_id)),
    ensures
        ({
            let folder = default_folder(time, workspace_id, app_id, view_id);
            let b = built(
                m.persistence,
                m.view_controller,
                token,
                user_id,
                time,
                workspace_id,
                app_id,
                view_id,
            );
            let after = m.with_new_user(user_id, b).0;
            &&& m.with_new_user(user_id, b).1 is Ok
            &&& records_of(after.persistence.database.revisions, FOLDER_ID@) == seq![
                bootstrap_record(user_id, folder),
            ]
            &&& after.persistence.editor is Some
            &&& after.persistence.editor->Some_0.folder == folder
            &&& after.notifications == m.notifications.push(
                NotificationView {
                    token,
                    kind: WorkspaceNotification::UserCreateWorkspace,
                    folder,
                },
            )
            &&& after.is_initialized(user_id)
            &&& after.initialized(user_id) == (after, Ok::<(), FlowyError>(()))
        }),
{
    let folder = default_folder(time, workspace_id, app_id, view_id);
    let record = bootstrap_record(user_id, folder);
    lemma_default_folder_wf(time, workspace_id, app_id, view_id);
    law_first_record_replays(user_id, folder);
    m.persistence.database.revisions.lemma_filter_push(record, of_object(FOLDER_ID@));
    let saved = m.persistence.saved(user_id, folder)->Ok_0;
    let records = records_of(saved.database.revisions, FOLDER_ID@);
    assert(records_of(m.persistence.database.revisions, FOLDER_ID@) =~= Seq::<
        RecordView,
    >::empty());
    assert(records =~= seq![record]);
    law_nothing_to_migrate_beside_a_revision(saved.database, user_id);
}

/// Where the store initializes and a controller does not start, the
/// initializing reports the controller's error and leaves the flags as they
/// are, so that the next call tries again. After the apps' controller failed
/// the views' controller is not started.
pub proof fn law_a_failed_start_leaves_the_flag_unset(m: ManagerView, user_id: Seq<char>)
    requires
        !m.is_initialized(user_id),
        m.persistence.initialized(user_id).1 is Ok,
        m.app_controller.fault is Some || m.view_controller.fault is Some,
    ensures
        m.initialized(user_id).1 == Err::<(), FlowyError>(
            match m.app_controller.fault {
                Some(e) => e,
                None => m.view_controller.fault->Some_0,
            },
        ),
        m.initialized(user_id).0.flags == m.flags,
        !m.initialized(user_id).0.is_initialized(user_id),
        m.initialized(user_id).0.persistence == m.persistence.initialized(user_id).0,
        m.app_controller.fault is Some ==> m.initialized(user_id).0.app_controller
            == m.app_controller && m.initialized(user_id).0.view_controller == m.view_controller,
        m.app_controller.fault is None ==> m.initialized(user_id).0.app_controller.listening
            && m.initialized(user_id).0.view_controller == m.view_controller,
{
}

/// How many of the writes were recorded: those that the store could take
/// and whose change succeeded.
pub open spec fn writes_made(e: EditorView, changes: Seq<Change>) -> nat
    decreases changes.len(),
{
    if changes.len() == 0 {
        0
    } else {
        let before = after_writes(e, changes.drop_last());
        let made = writes_made(e, changes.drop_last());
        if before.blocked() is None && (changes.last())(before.folder) is Ok {
            made + 1
        } else {
            made
        }
    }
}

/// A sequence of writes makes the log grow by exactly the writes that were
/// recorded. The records that were there stay; the `j`-th new record has
/// the number that follows the `j - 1`-th, the first of them the number
/// that follows the editor's last record, and each is based on the number
/// before its own.
pub proof fn law_the_log_grows_by_the_writes(e: EditorView, changes: Seq<Change>)
    ensures
        ({
            let after = after_writes(e, changes);
            let old_len = e.database.revisions.len();
            &&& after.continues(e)
            &&& after.database.revisions.len() == old_len + writes_made(e, changes)
            &&& after.rev_id == e.rev_id + writes_made(e, changes)
            &&& forall|j: int|
                0 <= j < writes_made(e, changes) ==> {
                    let r = (#[trigger] after.database.revisions[old_len + j]).revision;
                    &&& r.object_id == FOLDER_ID@
                    &&& r.rev_id == e.rev_id + j + 1
                    &&& r.base_rev_id == e.rev_id + j
                }
        }),
    decreases changes.len(),
{
    if changes.len() > 0 {
        let init = changes.drop_last();
        law_the_log_grows_by_the_writes(e, init);
        let before = after_writes(e, init);
        let after = after_writes(e, changes);
        let old_len = e.database.revisions.len();
        let made = writes_made(e, init);
        if before.blocked() is None && (changes.last())(before.folder) is Ok {
            assert forall|j: int| 0 <= j < made + 1 implies {
                let r = (#[trigger] after.database.revisions[old_len + j]).revision;
                &&& r.object_id == FOLDER_ID@
                &&& r.rev_id == e.rev_id + j + 1
                &&& r.base_rev_id == e.rev_id + j
            } by {
                if j < made {
                    assert(after.database.revisions[old_len + j]
                        == before.database.revisions[old_len + j]);
                }
            }
        }
    }
}

/// After a logout the editor that is built again for the same user holds
/// the folder that the live editor held, at the same record.
pub proof fn law_an_editor_built_again_holds_the_same_folder(p: PersistenceView)
    requires
        p.wf(),
        p.editor is Some,
        p.user is Some,
        p.database.reachable,
    ensures
        (PersistenceView { editor: None, ..p }).created_editor() == Ok::<EditorView, FlowyError>(
            EditorView {
                user_id: p.user->Some_0.user_id,
                token: p.user->Some_0.token,
                folder: p.editor->Some_0.folder,
                rev_id: p.editor->Some_0.rev_id,
                database: p.database,
            },
        ),
{
}

/// Where one byte of a stored payload of the folder was changed, no editor
/// is built: building one, and initializing the store, fail with
/// `Corruption` and leave the facade and the store as they are. As in
/// `law_changed_byte_is_corruption`, the changed payload is taken to have
/// another checksum than the record carries.
pub proof fn law_a_changed_byte_builds_no_editor(
    p: PersistenceView,
    user_id: Seq<char>,
    i: int,
    k: int,
    byte: u8,
)
    requires
        p.user is Some,
        p.editor is None,
        p.database.reachable,
        0 <= i < p.database.revisions.len(),
        p.database.revisions[i].revision.object_id == FOLDER_ID@,
        0 <= k < p.database.revisions[i].revision.delta_data.len(),
        byte != p.database.revisions[i].revision.delta_data[k],
        checksum(p.database.revisions[i].revision.delta_data.update(k, byte))
            != p.database.revisions[i].revision.md5,
    ensures
        ({
            let q = PersistenceView { database: corrupted(p.database, i, k, byte), ..p };
            &&& q.created_editor() == Err::<EditorView, FlowyError>(FlowyError::Corruption)
            &&& q.entered().editor is None
            &&& q.entered().database == q.database
            &&& q.initialized(user_id) == (q, Err::<(), FlowyError>(FlowyError::Corruption))
        }),
{
    let q = PersistenceView { database: corrupted(p.database, i, k, byte), ..p };
    law_changed_byte_is_corruption(p.database, i, k, byte);
    q.database.revisions.lemma_filter_contains(of_object(FOLDER_ID@), i);
    law_nothing_to_migrate_beside_a_revision(q.database, user_id);
}

/// Setting a new user up in two steps, with the documents created between
/// them, comes to the same as setting the user up at once: where the first
/// step yields the folder, the second step leaves behind and reports what
/// the whole does; where the first step fails, the whole has failed with
/// its error and left behind what the first step did.
pub proof fn law_two_steps_set_a_new_user_up(
    m: ManagerView,
    user_id: Seq<char>,
    token: Seq<char>,
    time: i64,
    workspace_id: Seq<char>,
    app_id: Seq<char>,
    view_id: Seq<char>,
)
    ensures
        ({
            let step = prepared(m.view_controller, time, workspace_id, app_id, view_id);
            let after_step = ManagerView { view_controller: step.0, ..m };
            let whole = m.with_new_user(
                user_id,
                built(
                    m.persistence,
                    m.view_controller,
                    token,
                    user_id,
                    time,
                    workspace_id,
                    app_id,
                    view_id,
                ),
            );
            match step.1 {
                Ok(folder) => after_step.completed(user_id, token, folder) == whole,
                Err(e) => whole == (after_step, Err::<(), FlowyError>(e)),
            }
        }),
{
}

} // verus!
