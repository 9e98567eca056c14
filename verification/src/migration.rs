//! The one-time conversion of the legacy tables into a folder.

use crate::database::{records_of, DatabaseView, LegacyView, WorkspaceDatabase};
use crate::entities::{node_views, FolderNode, NodeView};
use crate::errors::{FlowyError, FlowyResult};
use crate::folder_model::{parent_among, parent_is, FolderView};
use crate::folder_pad::{copy_trash, select, FolderPad, Keep};
use crate::persistence::FOLDER_ID;
use vstd::prelude::*;

verus! {

/// The rows without their parents.
pub open spec fn rootless(rows: Seq<NodeView>) -> Seq<NodeView> {
    rows.map_values(|n: NodeView| NodeView { parent_id: Seq::empty(), ..n })
}

/// The folder that the legacy tables hold for a user: the workspaces that
/// name the user as their owner, the apps of those workspaces, the views of
/// those apps, and the trash.
pub open spec fn legacy_folder(legacy: LegacyView, user_id: Seq<char>) -> FolderView {
    let owned = legacy.workspaces.filter(parent_is(user_id));
    let apps = legacy.apps.filter(parent_among(owned));
    FolderView {
        workspaces: rootless(owned),
        apps,
        views: legacy.views.filter(parent_among(apps)),
        trash: legacy.trash,
    }
}

/// What the migration of a user's data yields. Nothing is migrated where the
/// store already holds a revision of the folder, or where the legacy tables
/// hold no workspace of the user. Legacy tables that form no tree are
/// `Corruption`.
pub open spec fn migration_outcome(db: DatabaseView, user_id: Seq<char>) -> Result<
    Option<FolderView>,
    FlowyError,
> {
    if !db.reachable {
        Err(FlowyError::StoreUnavailable)
    } else if records_of(db.revisions, FOLDER_ID@).len() > 0 {
        Ok(None)
    } else if db.legacy.workspaces.filter(parent_is(user_id)).len() == 0 {
        Ok(None)
    } else if legacy_folder(db.legacy, user_id).wf() {
        Ok(Some(legacy_folder(db.legacy, user_id)))
    } else {
        Err(FlowyError::Corruption)
    }
}

fn clear_parents(rows: &Vec<FolderNode>) -> (out: Vec<FolderNode>)
    ensures
        node_views(out@) == rootless(node_views(rows@)),
{
    let mut out: Vec<FolderNode> = Vec::new();
    let mut i: usize = 0;
    while i < rows.len()
        invariant
            i <= rows.len(),
            out@.len() == i,
            forall|j: int|
                0 <= j < i ==> (#[trigger] out@[j])@ == (NodeView {
                    parent_id: Seq::empty(),
                    ..rows@[j]@
                }),
        decreases rows.len() - i,
    {
        let w = rows[i].to_workspace();
        out.push(FolderNode::from_workspace(w));
        i += 1;
    }
    proof {
        assert(node_views(out@) =~= rootless(node_views(rows@)));
    }
    out
}

/// The migration of one user's data.
pub struct FolderMigration {
    user_id: String,
}

impl FolderMigration {
    pub fn new(user_id: &str) -> (m: FolderMigration)
        ensures
            m.user_id() == user_id@,
    {
        FolderMigration { user_id: user_id.to_owned() }
    }

    pub closed spec fn user_id(&self) -> Seq<char> {
        self.user_id@
    }

    /// Converts the user's legacy data into a folder, if there is any to
    /// convert. The store is only read.
    pub fn run_v1_migration(&self, database: &WorkspaceDatabase) -> (res: FlowyResult<
        Option<FolderPad>,
    >)
        ensures
            match migration_outcome(database@, self.user_id()) {
                Err(e) => res is Err && res->Err_0 == e,
                Ok(None) => res is Ok && res->Ok_0 is None,
                Ok(Some(f)) => res is Ok && res->Ok_0 is Some && res->Ok_0->Some_0@ == f
                    && res->Ok_0->Some_0.wf(),
            },
    {
        match database.has_object(FOLDER_ID) {
            Err(e) => {
                return Err(e);
            },
            Ok(true) => {
                return Ok(None);
            },
            Ok(false) => {},
        }
        let legacy = match database.legacy() {
            Err(e) => {
                return Err(e);
            },
            Ok(legacy) => legacy,
        };
        let owned = select(&legacy.workspaces, &Keep::ParentIs(&self.user_id));
        if owned.len() == 0 {
            return Ok(None);
        }
        let apps = select(&legacy.apps, &Keep::ParentAmong(&owned));
        let views = select(&legacy.views, &Keep::ParentAmong(&apps));
        let workspaces = clear_parents(&owned);
        let trash = copy_trash(&legacy.trash);
        match FolderPad::new(workspaces, apps, views, trash) {
            Ok(folder) => Ok(Some(folder)),
            Err(e) => Err(e),
        }
    }
}

} // verus!
