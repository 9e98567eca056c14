//! The folder as a mathematical value: four tables, the rule that makes them
//! a tree, and what each operation of the store does to them.

use crate::entities::{NodeChangeView, NodeView, TrashType, TrashView};
use crate::errors::FlowyError;
use vstd::prelude::*;

verus! {

/// Some row of the table has the identifier.
pub open spec fn has_id(rows: Seq<NodeView>, id: Seq<char>) -> bool {
    exists|i: int| 0 <= i < rows.len() && (#[trigger] rows[i]).id == id
}

/// No two rows of the table share an identifier.
pub open spec fn distinct_ids(rows: Seq<NodeView>) -> bool {
    forall|i: int, j: int|
        0 <= i < j < rows.len() ==> (#[trigger] rows[i]).id != (#[trigger] rows[j]).id
}

/// The row with the identifier, if the table has one.
pub open spec fn find(rows: Seq<NodeView>, id: Seq<char>) -> Option<NodeView> {
    if has_id(rows, id) {
        Some(rows[choose|i: int| 0 <= i < rows.len() && (#[trigger] rows[i]).id == id])
    } else {
        None
    }
}

pub open spec fn id_is_not(id: Seq<char>) -> spec_fn(NodeView) -> bool {
    |n: NodeView| n.id != id
}

pub open spec fn parent_is(id: Seq<char>) -> spec_fn(NodeView) -> bool {
    |n: NodeView| n.parent_id == id
}

pub open spec fn parent_is_not(id: Seq<char>) -> spec_fn(NodeView) -> bool {
    |n: NodeView| n.parent_id != id
}

pub open spec fn parent_among(parents: Seq<NodeView>) -> spec_fn(NodeView) -> bool {
    |n: NodeView| has_id(parents, n.parent_id)
}

pub open spec fn change_of(change: NodeChangeView) -> spec_fn(NodeView) -> NodeView {
    |n: NodeView|
        if n.id == change.id {
            n.updated(change)
        } else {
            n
        }
}

/// The trash holds an entry of the kind under the identifier.
pub open spec fn in_trash(trash: Seq<TrashView>, ty: TrashType, id: Seq<char>) -> bool {
    exists|i: int| 0 <= i < trash.len() && (#[trigger] trash[i]).ty == ty && trash[i].id == id
}

pub open spec fn not_in_trash(trash: Seq<TrashView>, ty: TrashType) -> spec_fn(NodeView) -> bool {
    |n: NodeView| !in_trash(trash, ty, n.id)
}

pub open spec fn trash_id_is(id: Seq<char>) -> spec_fn(TrashView) -> bool {
    |t: TrashView| t.id == id
}

pub open spec fn trash_id_not_among(ids: Seq<Seq<char>>) -> spec_fn(TrashView) -> bool {
    |t: TrashView| !ids.contains(t.id)
}

/// One user's folder: the workspaces, the apps of the workspaces, the views
/// of the apps, and the trash.
pub struct FolderView {
    pub workspaces: Seq<NodeView>,
    pub apps: Seq<NodeView>,
    pub views: Seq<NodeView>,
    pub trash: Seq<TrashView>,
}

impl FolderView {
    /// The tables form a tree: identifiers are unique within their kind, a
    /// workspace has no parent, every app belongs to one workspace of the
    /// folder and every view to one app of the folder. What is in the trash
    /// is not in the tree: no app or view of the folder has an entry of its
    /// kind in the trash.
    pub open spec fn wf(self) -> bool {
        &&& distinct_ids(self.workspaces)
        &&& distinct_ids(self.apps)
        &&& distinct_ids(self.views)
        &&& forall|i: int|
            0 <= i < self.workspaces.len() ==> (#[trigger] self.workspaces[i]).parent_id
                == Seq::<char>::empty()
        &&& forall|i: int|
            0 <= i < self.apps.len() ==> has_id(self.workspaces, (#[trigger] self.apps[i]).parent_id)
        &&& forall|i: int|
            0 <= i < self.views.len() ==> has_id(self.apps, (#[trigger] self.views[i]).parent_id)
        &&& forall|i: int|
            0 <= i < self.apps.len() ==> !in_trash(
                self.trash,
                TrashType::App,
                (#[trigger] self.apps[i]).id,
            )
        &&& forall|i: int|
            0 <= i < self.views.len() ==> !in_trash(
                self.trash,
                TrashType::View,
                (#[trigger] self.views[i]).id,
            )
    }

    pub open spec fn empty() -> FolderView {
        FolderView {
            workspaces: Seq::empty(),
            apps: Seq::empty(),
            views: Seq::empty(),
            trash: Seq::empty(),
        }
    }

    pub open spec fn create_workspace(self, w: NodeView) -> Result<FolderView, FlowyError> {
        if has_id(self.workspaces, w.id) {
            Err(FlowyError::AlreadyExists)
        } else {
            Ok(FolderView { workspaces: self.workspaces.push(w), ..self })
        }
    }

    pub open spec fn read_workspaces(self, id: Option<Seq<char>>) -> Result<
        Seq<NodeView>,
        FlowyError,
    > {
        match id {
            None => Ok(self.workspaces),
            Some(id) => match find(self.workspaces, id) {
                Some(w) => Ok(seq![w]),
                None => Err(FlowyError::NotFound),
            },
        }
    }

    pub open spec fn update_workspace(self, change: NodeChangeView) -> Result<
        FolderView,
        FlowyError,
    > {
        if has_id(self.workspaces, change.id) {
            Ok(FolderView { workspaces: self.workspaces.map_values(change_of(change)), ..self })
        } else {
            Err(FlowyError::NotFound)
        }
    }

    /// Deleting a workspace deletes its apps and their views with it.
    pub open spec fn delete_workspace(self, id: Seq<char>) -> Result<FolderView, FlowyError> {
        if has_id(self.workspaces, id) {
            let apps = self.apps.filter(parent_is_not(id));
            Ok(
                FolderView {
                    workspaces: self.workspaces.filter(id_is_not(id)),
                    apps,
                    views: self.views.filter(parent_among(apps)),
                    trash: self.trash,
                },
            )
        } else {
            Err(FlowyError::NotFound)
        }
    }

    /// An identifier that an app of the folder or of the trash has is taken.
    pub open spec fn create_app(self, a: NodeView) -> Result<FolderView, FlowyError> {
        if has_id(self.apps, a.id) || in_trash(self.trash, TrashType::App, a.id) {
            Err(FlowyError::AlreadyExists)
        } else if !has_id(self.workspaces, a.parent_id) {
            Err(FlowyError::NotFound)
        } else {
            Ok(FolderView { apps: self.apps.push(a), ..self })
        }
    }

    pub open spec fn read_app(self, id: Seq<char>) -> Result<NodeView, FlowyError> {
        match find(self.apps, id) {
            Some(a) => Ok(a),
            None => Err(FlowyError::NotFound),
        }
    }

    pub open spec fn read_workspace_apps(self, workspace_id: Seq<char>) -> Result<
        Seq<NodeView>,
        FlowyError,
    > {
        if has_id(self.workspaces, workspace_id) {
            Ok(self.apps.filter(parent_is(workspace_id)))
        } else {
            Err(FlowyError::NotFound)
        }
    }

    pub open spec fn update_app(self, change: NodeChangeView) -> Result<FolderView, FlowyError> {
        if has_id(self.apps, change.id) {
            Ok(FolderView { apps: self.apps.map_values(change_of(change)), ..self })
        } else {
            Err(FlowyError::NotFound)
        }
    }

    /// Deleting an app deletes its views with it.
    pub open spec fn delete_app(self, id: Seq<char>) -> Result<FolderView, FlowyError> {
        if has_id(self.apps, id) {
            Ok(
                FolderView {
                    apps: self.apps.filter(id_is_not(id)),
                    views: self.views.filter(parent_is_not(id)),
                    ..self
                },
            )
        } else {
            Err(FlowyError::NotFound)
        }
    }

    /// An identifier that a view of the folder or of the trash has is taken.
    pub open spec fn create_view(self, v: NodeView) -> Result<FolderView, FlowyError> {
        if has_id(self.views, v.id) || in_trash(self.trash, TrashType::View, v.id) {
            Err(FlowyError::AlreadyExists)
        } else if !has_id(self.apps, v.parent_id) {
            Err(FlowyError::NotFound)
        } else {
            Ok(FolderView { views: self.views.push(v), ..self })
        }
    }

    pub open spec fn read_view(self, id: Seq<char>) -> Result<NodeView, FlowyError> {
        match find(self.views, id) {
            Some(v) => Ok(v),
            None => Err(FlowyError::NotFound),
        }
    }

    pub open spec fn read_views(self, belong_to_id: Seq<char>) -> Result<
        Seq<NodeView>,
        FlowyError,
    > {
        if has_id(self.apps, belong_to_id) {
            Ok(self.views.filter(parent_is(belong_to_id)))
        } else {
            Err(FlowyError::NotFound)
        }
    }

    pub open spec fn update_view(self, change: NodeChangeView) -> Result<FolderView, FlowyError> {
        if has_id(self.views, change.id) {
            Ok(FolderView { views: self.views.map_values(change_of(change)), ..self })
        } else {
            Err(FlowyError::NotFound)
        }
    }

    pub open spec fn delete_view(self, id: Seq<char>) -> Result<FolderView, FlowyError> {
        if has_id(self.views, id) {
            Ok(FolderView { views: self.views.filter(id_is_not(id)), ..self })
        } else {
            Err(FlowyError::NotFound)
        }
    }

    /// The entries join the trash. An app that gets an entry leaves the
    /// folder with its views, and so does a view that gets one.
    pub open spec fn create_trash(self, items: Seq<TrashView>) -> FolderView {
        let apps = self.apps.filter(not_in_trash(items, TrashType::App));
        FolderView {
            workspaces: self.workspaces,
            apps,
            views: self.views.filter(not_in_trash(items, TrashType::View)).filter(
                parent_among(apps),
            ),
            trash: self.trash + items,
        }
    }

    pub open spec fn read_trash(self, id: Option<Seq<char>>) -> Result<Seq<TrashView>, FlowyError> {
        match id {
            None => Ok(self.trash),
            Some(id) => {
                let found = self.trash.filter(trash_id_is(id));
                if found.len() == 0 {
                    Err(FlowyError::NotFound)
                } else {
                    Ok(found)
                }
            },
        }
    }

    /// Without a list, the whole trash goes; with one, the entries it names.
    pub open spec fn delete_trash(self, ids: Option<Seq<Seq<char>>>) -> FolderView {
        match ids {
            None => FolderView { trash: Seq::empty(), ..self },
            Some(ids) => FolderView { trash: self.trash.filter(trash_id_not_among(ids)), ..self },
        }
    }
}

/// With unique identifiers, the row found under an identifier is the row that
/// carries it.
pub proof fn lemma_find_at(rows: Seq<NodeView>, i: int)
    requires
        distinct_ids(rows),
        0 <= i < rows.len(),
    ensures
        find(rows, rows[i].id) == Some(rows[i]),
{
    let id = rows[i].id;
    let k = choose|k: int| 0 <= k < rows.len() && (#[trigger] rows[k]).id == id;
    if k < i {
        assert(rows[k].id != rows[i].id);
    } else if i < k {
        assert(rows[i].id != rows[k].id);
    }
}

/// A row of the kept rows is a row of the table, and it passed the test.
pub proof fn lemma_filter_row(rows: Seq<NodeView>, pred: spec_fn(NodeView) -> bool, k: int)
    requires
        0 <= k < rows.filter(pred).len(),
    ensures
        pred(rows.filter(pred)[k]),
        exists|i: int| 0 <= i < rows.len() && #[trigger] rows[i] == rows.filter(pred)[k],
{
    let kept = rows.filter(pred);
    rows.lemma_filter_pred(pred, k);
    assert(kept.contains(kept[k]));
    rows.lemma_filter_contains_rev(pred, kept[k]);
    let i = choose|i: int| 0 <= i < rows.len() && rows[i] == kept[k];
    assert(rows[i] == rows.filter(pred)[k]);
}

/// A row that passes the test is among the kept rows.
pub proof fn lemma_filter_keeps(rows: Seq<NodeView>, pred: spec_fn(NodeView) -> bool, i: int)
    requires
        0 <= i < rows.len(),
        pred(rows[i]),
    ensures
        exists|k: int| 0 <= k < rows.filter(pred).len() && #[trigger] rows.filter(pred)[k] == rows[i],
{
    rows.lemma_filter_contains(pred, i);
    let kept = rows.filter(pred);
    let k = choose|k: int| 0 <= k < kept.len() && kept[k] == rows[i];
    assert(rows.filter(pred)[k] == rows[i]);
}

/// Keeping some rows of a table with unique identifiers leaves them unique.
pub proof fn lemma_filter_distinct(rows: Seq<NodeView>, pred: spec_fn(NodeView) -> bool)
    requires
        distinct_ids(rows),
    ensures
        distinct_ids(rows.filter(pred)),
    decreases rows.len(),
{
    reveal(Seq::filter);
    if rows.len() > 0 {
        let init = rows.drop_last();
        let last = rows.last();
        lemma_filter_distinct(init, pred);
        let kept = init.filter(pred);
        if pred(last) {
            assert forall|i: int, j: int| 0 <= i < j < kept.push(last).len() implies (
            #[trigger] kept.push(last)[i]).id != (#[trigger] kept.push(last)[j]).id by {
                if j == kept.len() {
                    lemma_filter_row(init, pred, i);
                    let k = choose|k: int| 0 <= k < init.len() && #[trigger] init[k] == kept[i];
                    assert(rows[k].id != rows[rows.len() - 1].id);
                }
            }
        }
    }
}

/// No kept row is in the trash where no row of the table is.
proof fn lemma_filter_stays_out(
    rows: Seq<NodeView>,
    pred: spec_fn(NodeView) -> bool,
    trash: Seq<TrashView>,
    ty: TrashType,
)
    requires
        forall|i: int| 0 <= i < rows.len() ==> !in_trash(trash, ty, (#[trigger] rows[i]).id),
    ensures
        forall|k: int|
            0 <= k < rows.filter(pred).len() ==> !in_trash(
                trash,
                ty,
                (#[trigger] rows.filter(pred)[k]).id,
            ),
{
    assert forall|k: int| 0 <= k < rows.filter(pred).len() implies !in_trash(
        trash,
        ty,
        (#[trigger] rows.filter(pred)[k]).id,
    ) by {
        lemma_filter_row(rows, pred, k);
    }
}

proof fn lemma_has_id_after_filter(
    rows: Seq<NodeView>,
    pred: spec_fn(NodeView) -> bool,
    id: Seq<char>,
)
    requires
        has_id(rows, id),
        forall|n: NodeView| n.id == id ==> #[trigger] pred(n),
    ensures
        has_id(rows.filter(pred), id),
{
    let i = choose|i: int| 0 <= i < rows.len() && (#[trigger] rows[i]).id == id;
    lemma_filter_keeps(rows, pred, i);
}

impl FolderView {
    pub proof fn lemma_create_workspace_wf(self, w: NodeView)
        requires
            self.wf(),
            w.parent_id == Seq::<char>::empty(),
            self.create_workspace(w) is Ok,
        ensures
            self.create_workspace(w)->Ok_0.wf(),
    {
        let next = self.create_workspace(w)->Ok_0;
        assert forall|i: int| 0 <= i < next.apps.len() implies has_id(
            next.workspaces,
            (#[trigger] next.apps[i]).parent_id,
        ) by {
            let k = choose|k: int|
                0 <= k < self.workspaces.len() && (#[trigger] self.workspaces[k]).id
                    == self.apps[i].parent_id;
            assert(next.workspaces[k].id == self.apps[i].parent_id);
        }
    }

    pub proof fn lemma_create_app_wf(self, a: NodeView)
        requires
            self.wf(),
            self.create_app(a) is Ok,
        ensures
            self.create_app(a)->Ok_0.wf(),
    {
        let next = self.create_app(a)->Ok_0;
        assert forall|i: int| 0 <= i < next.views.len() implies has_id(
            next.apps,
            (#[trigger] next.views[i]).parent_id,
        ) by {
            let k = choose|k: int|
                0 <= k < self.apps.len() && (#[trigger] self.apps[k]).id == self.views[i].parent_id;
            assert(next.apps[k].id == self.views[i].parent_id);
        }
    }

    pub proof fn lemma_create_view_wf(self, v: NodeView)
        requires
            self.wf(),
            self.create_view(v) is Ok,
        ensures
            self.create_view(v)->Ok_0.wf(),
    {
    }

    pub proof fn lemma_update_workspace_wf(self, change: NodeChangeView)
        requires
            self.wf(),
            self.update_workspace(change) is Ok,
        ensures
            self.update_workspace(change)->Ok_0.wf(),
    {
        let next = self.update_workspace(change)->Ok_0;
        assert forall|i: int| 0 <= i < next.apps.len() implies has_id(
            next.workspaces,
            (#[trigger] next.apps[i]).parent_id,
        ) by {
            let k = choose|k: int|
                0 <= k < self.workspaces.len() && (#[trigger] self.workspaces[k]).id
                    == self.apps[i].parent_id;
            assert(next.workspaces[k].id == self.apps[i].parent_id);
        }
    }

    pub proof fn lemma_update_app_wf(self, change: NodeChangeView)
        requires
            self.wf(),
            self.update_app(change) is Ok,
        ensures
            self.update_app(change)->Ok_0.wf(),
    {
        let next = self.update_app(change)->Ok_0;
        assert forall|i: int| 0 <= i < next.views.len() implies has_id(
            next.apps,
            (#[trigger] next.views[i]).parent_id,
        ) by {
            let k = choose|k: int|
                0 <= k < self.apps.len() && (#[trigger] self.apps[k]).id == self.views[i].parent_id;
            assert(next.apps[k].id == self.views[i].parent_id);
        }
    }

    pub proof fn lemma_update_view_wf(self, change: NodeChangeView)
        requires
            self.wf(),
            self.update_view(change) is Ok,
        ensures
            self.update_view(change)->Ok_0.wf(),
    {
    }

    pub proof fn lemma_delete_workspace_wf(self, id: Seq<char>)
        requires
            self.wf(),
            self.delete_workspace(id) is Ok,
        ensures
            self.delete_workspace(id)->Ok_0.wf(),
    {
        let next = self.delete_workspace(id)->Ok_0;
        lemma_filter_stays_out(self.apps, parent_is_not(id), self.trash, TrashType::App);
        lemma_filter_stays_out(self.views, parent_among(next.apps), self.trash, TrashType::View);
        lemma_filter_distinct(self.workspaces, id_is_not(id));
        lemma_filter_distinct(self.apps, parent_is_not(id));
        lemma_filter_distinct(self.views, parent_among(next.apps));
        assert forall|i: int| 0 <= i < next.workspaces.len() implies (
        #[trigger] next.workspaces[i]).parent_id == Seq::<char>::empty() by {
            lemma_filter_row(self.workspaces, id_is_not(id), i);
        }
        assert forall|i: int| 0 <= i < next.apps.len() implies has_id(
            next.workspaces,
            (#[trigger] next.apps[i]).parent_id,
        ) by {
            lemma_filter_row(self.apps, parent_is_not(id), i);
            lemma_has_id_after_filter(self.workspaces, id_is_not(id), next.apps[i].parent_id);
        }
        assert forall|i: int| 0 <= i < next.views.len() implies has_id(
            next.apps,
            (#[trigger] next.views[i]).parent_id,
        ) by {
            lemma_filter_row(self.views, parent_among(next.apps), i);
        }
    }

    pub proof fn lemma_delete_app_wf(self, id: Seq<char>)
        requires
            self.wf(),
            self.delete_app(id) is Ok,
        ensures
            self.delete_app(id)->Ok_0.wf(),
    {
        let next = self.delete_app(id)->Ok_0;
        lemma_filter_stays_out(self.apps, id_is_not(id), self.trash, TrashType::App);
        lemma_filter_stays_out(self.views, parent_is_not(id), self.trash, TrashType::View);
        lemma_filter_distinct(self.apps, id_is_not(id));
        lemma_filter_distinct(self.views, parent_is_not(id));
        assert forall|i: int| 0 <= i < next.apps.len() implies has_id(
            next.workspaces,
            (#[trigger] next.apps[i]).parent_id,
        ) by {
            lemma_filter_row(self.apps, id_is_not(id), i);
        }
        assert forall|i: int| 0 <= i < next.views.len() implies has_id(
            next.apps,
            (#[trigger] next.views[i]).parent_id,
        ) by {
            lemma_filter_row(self.views, parent_is_not(id), i);
            lemma_has_id_after_filter(self.apps, id_is_not(id), next.views[i].parent_id);
        }
    }

    pub proof fn lemma_delete_view_wf(self, id: Seq<char>)
        requires
            self.wf(),
            self.delete_view(id) is Ok,
        ensures
            self.delete_view(id)->Ok_0.wf(),
    {
        let next = self.delete_view(id)->Ok_0;
        lemma_filter_stays_out(self.views, id_is_not(id), self.trash, TrashType::View);
        lemma_filter_distinct(self.views, id_is_not(id));
        assert forall|i: int| 0 <= i < next.views.len() implies has_id(
            next.apps,
            (#[trigger] next.views[i]).parent_id,
        ) by {
            lemma_filter_row(self.views, id_is_not(id), i);
        }
    }

    pub proof fn lemma_create_trash_wf(self, items: Seq<TrashView>)
        requires
            self.wf(),
        ensures
            self.create_trash(items).wf(),
    {
        let next = self.create_trash(items);
        let kept = self.views.filter(not_in_trash(items, TrashType::View));
        lemma_filter_distinct(self.apps, not_in_trash(items, TrashType::App));
        lemma_filter_distinct(self.views, not_in_trash(items, TrashType::View));
        lemma_filter_distinct(kept, parent_among(next.apps));
        assert forall|i: int| 0 <= i < next.apps.len() implies has_id(
            next.workspaces,
            (#[trigger] next.apps[i]).parent_id,
        ) && !in_trash(next.trash, TrashType::App, next.apps[i].id) by {
            lemma_filter_row(self.apps, not_in_trash(items, TrashType::App), i);
            let id = next.apps[i].id;
            if in_trash(next.trash, TrashType::App, id) {
                let k = choose|k: int|
                    0 <= k < next.trash.len() && (#[trigger] next.trash[k]).ty == TrashType::App
                        && next.trash[k].id == id;
                if k < self.trash.len() {
                    assert(self.trash[k].id == id);
                } else {
                    assert(items[k - self.trash.len()].id == id);
                }
            }
        }
        assert forall|i: int| 0 <= i < next.views.len() implies has_id(
            next.apps,
            (#[trigger] next.views[i]).parent_id,
        ) && !in_trash(next.trash, TrashType::View, next.views[i].id) by {
            lemma_filter_row(kept, parent_among(next.apps), i);
            let a = choose|a: int| 0 <= a < kept.len() && #[trigger] kept[a] == next.views[i];
            lemma_filter_row(self.views, not_in_trash(items, TrashType::View), a);
            let id = next.views[i].id;
            if in_trash(next.trash, TrashType::View, id) {
                let k = choose|k: int|
                    0 <= k < next.trash.len() && (#[trigger] next.trash[k]).ty == TrashType::View
                        && next.trash[k].id == id;
                if k < self.trash.len() {
                    assert(self.trash[k].id == id);
                } else {
                    assert(items[k - self.trash.len()].id == id);
                }
            }
        }
    }

    pub proof fn lemma_delete_trash_wf(self, ids: Option<Seq<Seq<char>>>)
        requires
            self.wf(),
        ensures
            self.delete_trash(ids).wf(),
    {
        let next = self.delete_trash(ids);
        assert forall|ty: TrashType, id: Seq<char>| in_trash(next.trash, ty, id) implies in_trash(
            self.trash,
            ty,
            id,
        ) by {
            let k = choose|k: int|
                0 <= k < next.trash.len() && (#[trigger] next.trash[k]).ty == ty
                    && next.trash[k].id == id;
            match ids {
                Some(ids) => {
                    assert(next.trash.contains(next.trash[k]));
                    self.trash.lemma_filter_contains_rev(trash_id_not_among(ids), next.trash[k]);
                    let j = choose|j: int| 0 <= j < self.trash.len() && self.trash[j] == next.trash[k];
                    assert(self.trash[j].ty == ty && self.trash[j].id == id);
                },
                None => {},
            }
        }
    }
}

} // verus!
