//! The folder in memory: four tables of rows, kept a tree by every operation.

use crate::codec::{byte_views, frame_items, unframe_items};
use crate::entities::{
    app_views, node_views, opt_view, string_views, trash_views, view_views, workspace_views, App,
    AppChangeset, FolderNode, NodeChangeView, NodeView, Trash, TrashType, TrashView,
    ViewChangeset, ViewInfo, Workspace, WorkspaceChangeset,
};
use crate::errors::{FlowyError, FlowyResult};
use crate::folder_model::{
    change_of, distinct_ids, has_id, id_is_not, in_trash, lemma_find_at, not_in_trash,
    parent_among, parent_is, parent_is_not, trash_id_is, trash_id_not_among, FolderView,
};
use crate::layout::{
    decode_folder, encode_folder, folder_fits, folder_tables, lemma_decode_folder_encode,
    nodes_from_bytes, nodes_to_bytes,
    trashes_from_bytes, trashes_to_bytes,
};
use vstd::prelude::*;

verus! {

/// The identifiers that a list names, if there is a list.
pub open spec fn opt_ids(ids: Option<Vec<String>>) -> Option<Seq<Seq<char>>> {
    match ids {
        Some(ids) => Some(string_views(ids@)),
        None => None,
    }
}

/// What an operation that may change the folder reports and leaves behind:
/// the new folder with `Ok`, or the error with the folder as it was.
pub open spec fn settles(
    before: FolderView,
    outcome: Result<FolderView, FlowyError>,
    res: Result<(), FlowyError>,
    after: FolderView,
) -> bool {
    match outcome {
        Ok(f) => res is Ok && after == f,
        Err(e) => res == Err::<(), FlowyError>(e) && after == before,
    }
}

/// Which rows of a table a selection keeps.
pub(crate) enum Keep<'a> {
    IdIsNot(&'a String),
    ParentIs(&'a String),
    ParentIsNot(&'a String),
    ParentAmong(&'a Vec<FolderNode>),
    NotInTrash(&'a Vec<Trash>, TrashType),
}

impl<'a> Keep<'a> {
    pub(crate) open spec fn pred(self) -> spec_fn(NodeView) -> bool {
        match self {
            Keep::IdIsNot(id) => id_is_not(id@),
            Keep::ParentIs(id) => parent_is(id@),
            Keep::ParentIsNot(id) => parent_is_not(id@),
            Keep::ParentAmong(parents) => parent_among(node_views(parents@)),
            Keep::NotInTrash(trash, ty) => not_in_trash(trash_views(trash@), ty),
        }
    }

    fn test(&self, n: &FolderNode) -> (r: bool)
        ensures
            r == (self.pred())(n@),
    {
        match self {
            Keep::IdIsNot(id) => n.id != **id,
            Keep::ParentIs(id) => n.parent_id == **id,
            Keep::ParentIsNot(id) => n.parent_id != **id,
            Keep::ParentAmong(parents) => position(parents, &n.parent_id).is_some(),
            Keep::NotInTrash(trash, ty) => !trashed(trash, *ty, &n.id),
        }
    }
}

/// Where the row with the identifier stands, if the table has one.
fn position(rows: &Vec<FolderNode>, id: &String) -> (r: Option<usize>)
    ensures
        match r {
            Some(i) => i < rows@.len() && rows@[i as int]@.id == id@ && has_id(
                node_views(rows@),
                id@,
            ),
            None => !has_id(node_views(rows@), id@),
        },
{
    let mut i: usize = 0;
    while i < rows.len()
        invariant
            i <= rows.len(),
            forall|j: int| 0 <= j < i ==> (#[trigger] rows@[j])@.id != id@,
        decreases rows.len() - i,
    {
        if rows[i].id == *id {
            proof {
                assert(node_views(rows@)[i as int].id == id@);
            }
            return Some(i);
        }
        i += 1;
    }
    proof {
        assert forall|j: int| 0 <= j < node_views(rows@).len() implies (#[trigger] node_views(
            rows@,
        )[j]).id != id@ by {
            assert(rows@[j]@.id != id@);
        }
    }
    None
}

/// Whether the trash holds an entry of the kind under the identifier.
fn trashed(trash: &Vec<Trash>, ty: TrashType, id: &String) -> (r: bool)
    ensures
        r == in_trash(trash_views(trash@), ty, id@),
{
    let mut i: usize = 0;
    while i < trash.len()
        invariant
            i <= trash.len(),
            forall|j: int|
                0 <= j < i ==> !((#[trigger] trash@[j])@.ty == ty && trash@[j]@.id == id@),
        decreases trash.len() - i,
    {
        if trash[i].ty == ty && trash[i].id == *id {
            proof {
                let views = trash_views(trash@);
                assert(views[i as int].ty == ty && views[i as int].id == id@);
            }
            return true;
        }
        i += 1;
    }
    proof {
        let views = trash_views(trash@);
        assert forall|j: int| 0 <= j < views.len() implies !((#[trigger] views[j]).ty == ty
            && views[j].id == id@) by {
            assert(!(trash@[j]@.ty == ty && trash@[j]@.id == id@));
        }
    }
    false
}

/// Whether no row has an entry of the kind in the trash.
fn none_in_trash(rows: &Vec<FolderNode>, trash: &Vec<Trash>, ty: TrashType) -> (r: bool)
    ensures
        r == (forall|i: int|
            0 <= i < rows@.len() ==> !in_trash(
                trash_views(trash@),
                ty,
                (#[trigger] node_views(rows@)[i]).id,
            )),
{
    let mut i: usize = 0;
    while i < rows.len()
        invariant
            i <= rows.len(),
            forall|j: int|
                0 <= j < i ==> !in_trash(
                    trash_views(trash@),
                    ty,
                    (#[trigger] node_views(rows@)[j]).id,
                ),
        decreases rows.len() - i,
    {
        proof {
            assert(node_views(rows@)[i as int].id == rows@[i as int]@.id);
        }
        if trashed(trash, ty, &rows[i].id) {
            return false;
        }
        i += 1;
    }
    true
}

/// Copies of the rows that the selection keeps, in order.
pub(crate) fn select(rows: &Vec<FolderNode>, keep: &Keep) -> (out: Vec<FolderNode>)
    ensures
        node_views(out@) == node_views(rows@).filter(keep.pred()),
{
    let mut out: Vec<FolderNode> = Vec::new();
    let mut i: usize = 0;
    proof {
        assert(node_views(rows@).take(0) =~= Seq::<NodeView>::empty());
        assert(node_views(out@) =~= node_views(rows@).take(0).filter(keep.pred()));
    }
    while i < rows.len()
        invariant
            i <= rows.len(),
            node_views(out@) == node_views(rows@).take(i as int).filter(keep.pred()),
        decreases rows.len() - i,
    {
        proof {
            let all = node_views(rows@);
            assert(all.take(i + 1) =~= all.take(i as int).push(rows@[i as int]@));
            all.take(i as int).lemma_filter_push(rows@[i as int]@, keep.pred());
        }
        if keep.test(&rows[i]) {
            let copy = rows[i].duplicate();
            proof {
                assert(node_views(out@.push(copy)) =~= node_views(out@).push(copy@));
            }
            out.push(copy);
        }
        i += 1;
    }
    proof {
        assert(node_views(rows@).take(rows@.len() as int) =~= node_views(rows@));
    }
    out
}

/// Whether no two rows share an identifier.
fn all_distinct(rows: &Vec<FolderNode>) -> (r: bool)
    ensures
        r == distinct_ids(node_views(rows@)),
{
    let mut j: usize = 0;
    while j < rows.len()
        invariant
            j <= rows.len(),
            forall|a: int, b: int| 0 <= a < b < j ==> (#[trigger] rows@[a])@.id != (#[trigger] rows@[b])@.id,
        decreases rows.len() - j,
    {
        let mut i: usize = 0;
        while i < j
            invariant
                i <= j < rows.len(),
                forall|a: int| 0 <= a < i ==> (#[trigger] rows@[a])@.id != rows@[j as int]@.id,
            decreases j - i,
        {
            if rows[i].id == rows[j].id {
                proof {
                    let views = node_views(rows@);
                    assert(views[i as int].id == views[j as int].id);
                }
                return false;
            }
            i += 1;
        }
        j += 1;
    }
    proof {
        let views = node_views(rows@);
        assert forall|a: int, b: int| 0 <= a < b < views.len() implies (#[trigger] views[a]).id != (
        #[trigger] views[b]).id by {
            assert(rows@[a]@.id != rows@[b]@.id);
        }
    }
    true
}

/// Whether every row names a parent that the other table holds.
fn all_parents_known(rows: &Vec<FolderNode>, parents: &Vec<FolderNode>) -> (r: bool)
    ensures
        r == (forall|i: int|
            0 <= i < rows@.len() ==> has_id(
                node_views(parents@),
                (#[trigger] node_views(rows@)[i]).parent_id,
            )),
{
    let mut i: usize = 0;
    while i < rows.len()
        invariant
            i <= rows.len(),
            forall|j: int|
                0 <= j < i ==> has_id(
                    node_views(parents@),
                    (#[trigger] node_views(rows@)[j]).parent_id,
                ),
        decreases rows.len() - i,
    {
        if position(parents, &rows[i].parent_id).is_none() {
            proof {
                assert(node_views(rows@)[i as int].parent_id == rows@[i as int]@.parent_id);
            }
            return false;
        }
        proof {
            assert(node_views(rows@)[i as int].parent_id == rows@[i as int]@.parent_id);
        }
        i += 1;
    }
    true
}

/// Whether no row names a parent.
fn all_roots(rows: &Vec<FolderNode>) -> (r: bool)
    ensures
        r == (forall|i: int|
            0 <= i < rows@.len() ==> (#[trigger] node_views(rows@)[i]).parent_id == Seq::<
                char,
            >::empty()),
{
    let mut i: usize = 0;
    while i < rows.len()
        invariant
            i <= rows.len(),
            forall|j: int|
                0 <= j < i ==> (#[trigger] node_views(rows@)[j]).parent_id == Seq::<char>::empty(),
        decreases rows.len() - i,
    {
        if !rows[i].parent_id.as_str().is_empty() {
            proof {
                assert(node_views(rows@)[i as int].parent_id == rows@[i as int]@.parent_id);
                assert(node_views(rows@)[i as int].parent_id.len() != 0);
            }
            return false;
        }
        proof {
            assert(node_views(rows@)[i as int].parent_id == rows@[i as int]@.parent_id);
            assert(rows@[i as int]@.parent_id =~= Seq::<char>::empty());
        }
        i += 1;
    }
    true
}

/// Applies an update to the row that carries the identifier.
fn update_row(rows: &mut Vec<FolderNode>, id: &String, name: Option<String>, desc: Option<String>) -> (found: bool)
    requires
        distinct_ids(node_views(old(rows)@)),
    ensures
        found == has_id(node_views(old(rows)@), id@),
        found ==> node_views(final(rows)@) == node_views(old(rows)@).map_values(
            change_of(NodeChangeView { id: id@, name: opt_view(name), desc: opt_view(desc) }),
        ),
        !found ==> final(rows)@ == old(rows)@,
{
    match position(rows, id) {
        None => false,
        Some(i) => {
            let ghost before = node_views(rows@);
            let ghost change = NodeChangeView { id: id@, name: opt_view(name), desc: opt_view(desc) };
            let mut row = rows.remove(i);
            row.apply(name, desc);
            rows.insert(i, row);
            proof {
                assert(before[i as int].id == id@);
                let after = node_views(rows@);
                let expected = before.map_values(change_of(change));
                assert(after.len() == expected.len());
                assert forall|j: int| 0 <= j < after.len() implies after[j] == expected[j] by {
                    if j < i {
                        assert(before[j].id != before[i as int].id);
                    } else if j > i {
                        assert(before[i as int].id != before[j].id);
                    }
                }
                assert(after =~= expected);
            }
            true
        },
    }
}

fn contains_id(ids: &Vec<String>, id: &String) -> (r: bool)
    ensures
        r == string_views(ids@).contains(id@),
{
    let mut i: usize = 0;
    while i < ids.len()
        invariant
            i <= ids.len(),
            forall|j: int| 0 <= j < i ==> (#[trigger] ids@[j])@ != id@,
        decreases ids.len() - i,
    {
        if ids[i] == *id {
            proof {
                assert(string_views(ids@)[i as int] == id@);
            }
            return true;
        }
        i += 1;
    }
    proof {
        let views = string_views(ids@);
        assert forall|j: int| 0 <= j < views.len() implies views[j] != id@ by {
            assert(ids@[j]@ != id@);
        }
    }
    false
}

/// Which entries of the trash a selection keeps.
enum KeepTrash<'a> {
    IdIs(&'a String),
    IdNotAmong(&'a Vec<String>),
}

impl<'a> KeepTrash<'a> {
    spec fn pred(self) -> spec_fn(TrashView) -> bool {
        match self {
            KeepTrash::IdIs(id) => trash_id_is(id@),
            KeepTrash::IdNotAmong(ids) => trash_id_not_among(string_views(ids@)),
        }
    }

    fn test(&self, t: &Trash) -> (r: bool)
        ensures
            r == (self.pred())(t@),
    {
        match self {
            KeepTrash::IdIs(id) => t.id == **id,
            KeepTrash::IdNotAmong(ids) => !contains_id(ids, &t.id),
        }
    }
}

fn select_trash(rows: &Vec<Trash>, keep: &KeepTrash) -> (out: Vec<Trash>)
    ensures
        trash_views(out@) == trash_views(rows@).filter(keep.pred()),
{
    let mut out: Vec<Trash> = Vec::new();
    let mut i: usize = 0;
    proof {
        assert(trash_views(rows@).take(0) =~= Seq::<TrashView>::empty());
        assert(trash_views(out@) =~= trash_views(rows@).take(0).filter(keep.pred()));
    }
    while i < rows.len()
        invariant
            i <= rows.len(),
            trash_views(out@) == trash_views(rows@).take(i as int).filter(keep.pred()),
        decreases rows.len() - i,
    {
        proof {
            let all = trash_views(rows@);
            assert(all.take(i + 1) =~= all.take(i as int).push(rows@[i as int]@));
            all.take(i as int).lemma_filter_push(rows@[i as int]@, keep.pred());
        }
        if keep.test(&rows[i]) {
            let copy = rows[i].duplicate();
            proof {
                assert(trash_views(out@.push(copy)) =~= trash_views(out@).push(copy@));
            }
            out.push(copy);
        }
        i += 1;
    }
    proof {
        assert(trash_views(rows@).take(rows@.len() as int) =~= trash_views(rows@));
    }
    out
}

fn to_workspaces(rows: &Vec<FolderNode>) -> (out: Vec<Workspace>)
    requires
        forall|i: int|
            0 <= i < rows@.len() ==> (#[trigger] node_views(rows@)[i]).parent_id == Seq::<
                char,
            >::empty(),
    ensures
        workspace_views(out@) == node_views(rows@),
{
    let mut out: Vec<Workspace> = Vec::new();
    let mut i: usize = 0;
    while i < rows.len()
        invariant
            i <= rows.len(),
            out@.len() == i,
            forall|j: int| 0 <= j < i ==> (#[trigger] out@[j])@ == rows@[j]@,
            forall|j: int|
                0 <= j < rows@.len() ==> (#[trigger] node_views(rows@)[j]).parent_id == Seq::<
                    char,
                >::empty(),
        decreases rows.len() - i,
    {
        let w = rows[i].to_workspace();
        proof {
            assert(node_views(rows@)[i as int].parent_id == Seq::<char>::empty());
            assert(w@ == rows@[i as int]@);
        }
        out.push(w);
        i += 1;
    }
    proof {
        assert(workspace_views(out@) =~= node_views(rows@));
    }
    out
}

fn to_apps(rows: &Vec<FolderNode>) -> (out: Vec<App>)
    ensures
        app_views(out@) == node_views(rows@),
{
    let mut out: Vec<App> = Vec::new();
    let mut i: usize = 0;
    while i < rows.len()
        invariant
            i <= rows.len(),
            out@.len() == i,
            forall|j: int| 0 <= j < i ==> (#[trigger] out@[j])@ == rows@[j]@,
        decreases rows.len() - i,
    {
        out.push(rows[i].to_app());
        i += 1;
    }
    proof {
        assert(app_views(out@) =~= node_views(rows@));
    }
    out
}

fn to_views(rows: &Vec<FolderNode>) -> (out: Vec<ViewInfo>)
    ensures
        view_views(out@) == node_views(rows@),
{
    let mut out: Vec<ViewInfo> = Vec::new();
    let mut i: usize = 0;
    while i < rows.len()
        invariant
            i <= rows.len(),
            out@.len() == i,
            forall|j: int| 0 <= j < i ==> (#[trigger] out@[j])@ == rows@[j]@,
        decreases rows.len() - i,
    {
        out.push(rows[i].to_view());
        i += 1;
    }
    proof {
        assert(view_views(out@) =~= node_views(rows@));
    }
    out
}

pub(crate) fn copy_trash(rows: &Vec<Trash>) -> (out: Vec<Trash>)
    ensures
        trash_views(out@) == trash_views(rows@),
{
    let mut out: Vec<Trash> = Vec::new();
    let mut i: usize = 0;
    while i < rows.len()
        invariant
            i <= rows.len(),
            out@.len() == i,
            forall|j: int| 0 <= j < i ==> (#[trigger] out@[j])@ == rows@[j]@,
        decreases rows.len() - i,
    {
        out.push(rows[i].duplicate());
        i += 1;
    }
    proof {
        assert(trash_views(out@) =~= trash_views(rows@));
    }
    out
}

/// One user's folder in memory.
pub struct FolderPad {
    workspaces: Vec<FolderNode>,
    apps: Vec<FolderNode>,
    views: Vec<FolderNode>,
    trash: Vec<Trash>,
}

impl vstd::view::View for FolderPad {
    type V = FolderView;

    closed spec fn view(&self) -> FolderView {
        FolderView {
            workspaces: node_views(self.workspaces@),
            apps: node_views(self.apps@),
            views: node_views(self.views@),
            trash: trash_views(self.trash@),
        }
    }
}

impl FolderPad {
    /// The tables form a tree.
    pub open spec fn wf(&self) -> bool {
        self@.wf()
    }

    /// A folder of the given tables, or `Corruption` where they form no tree.
    pub fn new(
        workspaces: Vec<FolderNode>,
        apps: Vec<FolderNode>,
        views: Vec<FolderNode>,
        trash: Vec<Trash>,
    ) -> (res: FlowyResult<FolderPad>)
        ensures
            ({
                let f = FolderView {
                    workspaces: node_views(workspaces@),
                    apps: node_views(apps@),
                    views: node_views(views@),
                    trash: trash_views(trash@),
                };
                if f.wf() {
                    res is Ok && res->Ok_0@ == f && res->Ok_0.wf()
                } else {
                    res == Err::<FolderPad, FlowyError>(FlowyError::Corruption)
                }
            }),
    {
        if all_distinct(&workspaces) && all_distinct(&apps) && all_distinct(&views) && all_roots(
            &workspaces,
        ) && all_parents_known(&apps, &workspaces) && all_parents_known(&views, &apps)
            && none_in_trash(&apps, &trash, TrashType::App) && none_in_trash(
            &views,
            &trash,
            TrashType::View,
        ) {
            Ok(FolderPad { workspaces, apps, views, trash })
        } else {
            Err(FlowyError::Corruption)
        }
    }

    /// A folder of tables that are known to form a tree.
    pub(crate) fn assemble(
        workspaces: Vec<FolderNode>,
        apps: Vec<FolderNode>,
        views: Vec<FolderNode>,
        trash: Vec<Trash>,
    ) -> (pad: FolderPad)
        requires
            (FolderView {
                workspaces: node_views(workspaces@),
                apps: node_views(apps@),
                views: node_views(views@),
                trash: trash_views(trash@),
            }).wf(),
        ensures
            pad.wf(),
            pad@ == (FolderView {
                workspaces: node_views(workspaces@),
                apps: node_views(apps@),
                views: node_views(views@),
                trash: trash_views(trash@),
            }),
    {
        FolderPad { workspaces, apps, views, trash }
    }

    /// The folder that holds nothing.
    pub fn empty() -> (pad: FolderPad)
        ensures
            pad@ == FolderView::empty(),
            pad.wf(),
    {
        let pad = FolderPad {
            workspaces: Vec::new(),
            apps: Vec::new(),
            views: Vec::new(),
            trash: Vec::new(),
        };
        proof {
            assert(pad@.workspaces =~= Seq::<NodeView>::empty());
            assert(pad@.apps =~= Seq::<NodeView>::empty());
            assert(pad@.views =~= Seq::<NodeView>::empty());
            assert(pad@.trash =~= Seq::<TrashView>::empty());
        }
        pad
    }

    /// A copy of the folder.
    pub fn duplicate(&self) -> (pad: FolderPad)
        ensures
            pad@ == self@,
    {
        let mut workspaces: Vec<FolderNode> = Vec::new();
        let mut i: usize = 0;
        while i < self.workspaces.len()
            invariant
                i <= self.workspaces.len(),
                workspaces@.len() == i,
                forall|j: int| 0 <= j < i ==> (#[trigger] workspaces@[j])@ == self.workspaces@[j]@,
            decreases self.workspaces.len() - i,
        {
            workspaces.push(self.workspaces[i].duplicate());
            i += 1;
        }
        let mut apps: Vec<FolderNode> = Vec::new();
        let mut i: usize = 0;
        while i < self.apps.len()
            invariant
                i <= self.apps.len(),
                apps@.len() == i,
                forall|j: int| 0 <= j < i ==> (#[trigger] apps@[j])@ == self.apps@[j]@,
            decreases self.apps.len() - i,
        {
            apps.push(self.apps[i].duplicate());
            i += 1;
        }
        let mut views: Vec<FolderNode> = Vec::new();
        let mut i: usize = 0;
        while i < self.views.len()
            invariant
                i <= self.views.len(),
                views@.len() == i,
                forall|j: int| 0 <= j < i ==> (#[trigger] views@[j])@ == self.views@[j]@,
            decreases self.views.len() - i,
        {
            views.push(self.views[i].duplicate());
            i += 1;
        }
        let trash = copy_trash(&self.trash);
        let pad = FolderPad { workspaces, apps, views, trash };
        proof {
            assert(pad@.workspaces =~= self@.workspaces);
            assert(pad@.apps =~= self@.apps);
            assert(pad@.views =~= self@.views);
        }
        pad
    }

    /// The byte layout of the folder. Read back, it gives the folder as it
    /// is.
    pub fn to_bytes(&self) -> (out: Vec<u8>)
        ensures
            out@ == encode_folder(self@),
            folder_fits(self@),
            decode_folder(out@) == Some(self@),
    {
        let mut tables: Vec<Vec<u8>> = Vec::new();
        tables.push(nodes_to_bytes(&self.workspaces));
        tables.push(nodes_to_bytes(&self.apps));
        tables.push(nodes_to_bytes(&self.views));
        tables.push(trashes_to_bytes(&self.trash));
        let out = frame_items(&tables);
        proof {
            assert(byte_views(tables@) =~= folder_tables(self@)) by {
                reveal(encode_folder);
            }
            assert(out@ == encode_folder(self@)) by {
                reveal(encode_folder);
            }
            assert(folder_fits(self@)) by {
                reveal(folder_fits);
            }
            lemma_decode_folder_encode(self@);
        }
        out
    }

    /// The folder that the bytes lay out, or `Corruption` where they lay out
    /// none or one that is no tree.
    pub fn from_bytes(bytes: &Vec<u8>) -> (res: FlowyResult<FolderPad>)
        ensures
            match decode_folder(bytes@) {
                Some(f) => if f.wf() {
                    res is Ok && res->Ok_0@ == f && res->Ok_0.wf()
                } else {
                    res == Err::<FolderPad, FlowyError>(FlowyError::Corruption)
                },
                None => res == Err::<FolderPad, FlowyError>(FlowyError::Corruption),
            },
    {
        proof {
            reveal(decode_folder);
        }
        let tables = match unframe_items(bytes) {
            Some(t) => t,
            None => {
                return Err(FlowyError::Corruption);
            },
        };
        if tables.len() != 4 {
            return Err(FlowyError::Corruption);
        }
        let workspaces = nodes_from_bytes(&tables[0]);
        let apps = nodes_from_bytes(&tables[1]);
        let views = nodes_from_bytes(&tables[2]);
        let trash = trashes_from_bytes(&tables[3]);
        match (workspaces, apps, views, trash) {
            (Some(workspaces), Some(apps), Some(views), Some(trash)) => FolderPad::new(
                workspaces,
                apps,
                views,
                trash,
            ),
            _ => Err(FlowyError::Corruption),
        }
    }

    /// Adds a workspace under an identifier that no workspace has.
    pub fn create_workspace(&mut self, workspace: Workspace) -> (res: FlowyResult<()>)
        requires
            old(self).wf(),
        ensures
            settles(old(self)@, old(self)@.create_workspace(workspace@), res, final(self)@),
            final(self).wf(),
    {
        if position(&self.workspaces, &workspace.id).is_some() {
            return Err(FlowyError::AlreadyExists);
        }
        proof {
            self@.lemma_create_workspace_wf(workspace@);
        }
        let node = FolderNode::from_workspace(workspace);
        proof {
            assert(node_views(self.workspaces@.push(node)) =~= node_views(self.workspaces@).push(node@));
        }
        self.workspaces.push(node);
        Ok(())
    }

    /// All workspaces, or the one with the identifier.
    pub fn read_workspaces(&self, workspace_id: Option<String>) -> (res: FlowyResult<
        Vec<Workspace>,
    >)
        requires
            self.wf(),
        ensures
            match self@.read_workspaces(opt_view(workspace_id)) {
                Ok(s) => res is Ok && workspace_views(res->Ok_0@) == s,
                Err(e) => res is Err && res->Err_0 == e,
            },
    {
        match workspace_id {
            None => Ok(to_workspaces(&self.workspaces)),
            Some(id) => match position(&self.workspaces, &id) {
                None => Err(FlowyError::NotFound),
                Some(i) => {
                    let w = self.workspaces[i].to_workspace();
                    proof {
                        let rows = node_views(self.workspaces@);
                        assert(rows[i as int].id == id@);
                        assert(rows[i as int].parent_id == Seq::<char>::empty());
                        lemma_find_at(rows, i as int);
                    }
                    let mut out: Vec<Workspace> = Vec::new();
                    out.push(w);
                    proof {
                        assert(workspace_views(out@) =~= seq![w@]);
                    }
                    Ok(out)
                },
            },
        }
    }

    /// Changes the fields of a workspace that the update names.
    pub fn update_workspace(&mut self, changeset: WorkspaceChangeset) -> (res: FlowyResult<()>)
        requires
            old(self).wf(),
        ensures
            settles(old(self)@, old(self)@.update_workspace(changeset@), res, final(self)@),
            final(self).wf(),
    {
        proof {
            if self@.update_workspace(changeset@) is Ok {
                self@.lemma_update_workspace_wf(changeset@);
            }
        }
        if update_row(&mut self.workspaces, &changeset.id, changeset.name, changeset.desc) {
            Ok(())
        } else {
            Err(FlowyError::NotFound)
        }
    }

    /// Deletes a workspace with its apps and their views.
    pub fn delete_workspace(&mut self, workspace_id: &str) -> (res: FlowyResult<()>)
        requires
            old(self).wf(),
        ensures
            settles(old(self)@, old(self)@.delete_workspace(workspace_id@), res, final(self)@),
            final(self).wf(),
    {
        let id = workspace_id.to_owned();
        if position(&self.workspaces, &id).is_none() {
            return Err(FlowyError::NotFound);
        }
        proof {
            self@.lemma_delete_workspace_wf(id@);
        }
        let workspaces = select(&self.workspaces, &Keep::IdIsNot(&id));
        let apps = select(&self.apps, &Keep::ParentIsNot(&id));
        let views = select(&self.views, &Keep::ParentAmong(&apps));
        self.workspaces = workspaces;
        self.apps = apps;
        self.views = views;
        Ok(())
    }

    /// Adds an app to its workspace, under an identifier that no app of the
    /// folder or of the trash has.
    pub fn create_app(&mut self, app: App) -> (res: FlowyResult<()>)
        requires
            old(self).wf(),
        ensures
            settles(old(self)@, old(self)@.create_app(app@), res, final(self)@),
            final(self).wf(),
    {
        if position(&self.apps, &app.id).is_some() || trashed(
            &self.trash,
            TrashType::App,
            &app.id,
        ) {
            return Err(FlowyError::AlreadyExists);
        }
        if position(&self.workspaces, &app.workspace_id).is_none() {
            return Err(FlowyError::NotFound);
        }
        proof {
            self@.lemma_create_app_wf(app@);
        }
        let node = FolderNode::from_app(app);
        proof {
            assert(node_views(self.apps@.push(node)) =~= node_views(self.apps@).push(node@));
        }
        self.apps.push(node);
        Ok(())
    }

    /// The app with the identifier.
    pub fn read_app(&self, app_id: &str) -> (res: FlowyResult<App>)
        requires
            self.wf(),
        ensures
            match self@.read_app(app_id@) {
                Ok(a) => res is Ok && res->Ok_0@ == a,
                Err(e) => res is Err && res->Err_0 == e,
            },
    {
        let id = app_id.to_owned();
        match position(&self.apps, &id) {
            None => Err(FlowyError::NotFound),
            Some(i) => {
                proof {
                    let rows = node_views(self.apps@);
                    assert(rows[i as int].id == id@);
                    lemma_find_at(rows, i as int);
                }
                Ok(self.apps[i].to_app())
            },
        }
    }

    /// The apps of a workspace, in the order in which they were added.
    pub fn read_workspace_apps(&self, workspace_id: &str) -> (res: FlowyResult<Vec<App>>)
        requires
            self.wf(),
        ensures
            match self@.read_workspace_apps(workspace_id@) {
                Ok(s) => res is Ok && app_views(res->Ok_0@) == s,
                Err(e) => res is Err && res->Err_0 == e,
            },
    {
        let id = workspace_id.to_owned();
        if position(&self.workspaces, &id).is_none() {
            return Err(FlowyError::NotFound);
        }
        let rows = select(&self.apps, &Keep::ParentIs(&id));
        Ok(to_apps(&rows))
    }

    /// Changes the fields of an app that the update names.
    pub fn update_app(&mut self, changeset: AppChangeset) -> (res: FlowyResult<()>)
        requires
            old(self).wf(),
        ensures
            settles(old(self)@, old(self)@.update_app(changeset@), res, final(self)@),
            final(self).wf(),
    {
        proof {
            if self@.update_app(changeset@) is Ok {
                self@.lemma_update_app_wf(changeset@);
            }
        }
        if update_row(&mut self.apps, &changeset.id, changeset.name, changeset.desc) {
            Ok(())
        } else {
            Err(FlowyError::NotFound)
        }
    }

    /// Deletes the app and its views, and hands the app back.
    pub fn delete_app(&mut self, app_id: &str) -> (res: FlowyResult<App>)
        requires
            old(self).wf(),
        ensures
            match old(self)@.delete_app(app_id@) {
                Ok(f) => res is Ok && final(self)@ == f && Ok::<NodeView, FlowyError>(res->Ok_0@)
                    == old(self)@.read_app(app_id@),
                Err(e) => res is Err && res->Err_0 == e && final(self)@ == old(self)@,
            },
            final(self).wf(),
    {
        let id = app_id.to_owned();
        let i = match position(&self.apps, &id) {
            None => {
                return Err(FlowyError::NotFound);
            },
            Some(i) => i,
        };
        proof {
            let rows = node_views(self.apps@);
            assert(rows[i as int].id == id@);
            lemma_find_at(rows, i as int);
            self@.lemma_delete_app_wf(id@);
        }
        let app = self.apps[i].to_app();
        let apps = select(&self.apps, &Keep::IdIsNot(&id));
        let views = select(&self.views, &Keep::ParentIsNot(&id));
        self.apps = apps;
        self.views = views;
        Ok(app)
    }

    /// Adds a view to its app, under an identifier that no view of the folder
    /// or of the trash has.
    pub fn create_view(&mut self, view: ViewInfo) -> (res: FlowyResult<()>)
        requires
            old(self).wf(),
        ensures
            settles(old(self)@, old(self)@.create_view(view@), res, final(self)@),
            final(self).wf(),
    {
        if position(&self.views, &view.id).is_some() || trashed(
            &self.trash,
            TrashType::View,
            &view.id,
        ) {
            return Err(FlowyError::AlreadyExists);
        }
        if position(&self.apps, &view.belong_to_id).is_none() {
            return Err(FlowyError::NotFound);
        }
        proof {
            self@.lemma_create_view_wf(view@);
        }
        let node = FolderNode::from_view(view);
        proof {
            assert(node_views(self.views@.push(node)) =~= node_views(self.views@).push(node@));
        }
        self.views.push(node);
        Ok(())
    }

    /// The view with the identifier.
    pub fn read_view(&self, view_id: &str) -> (res: FlowyResult<ViewInfo>)
        requires
            self.wf(),
        ensures
            match self@.read_view(view_id@) {
                Ok(v) => res is Ok && res->Ok_0@ == v,
                Err(e) => res is Err && res->Err_0 == e,
            },
    {
        let id = view_id.to_owned();
        match position(&self.views, &id) {
            None => Err(FlowyError::NotFound),
            Some(i) => {
                proof {
                    let rows = node_views(self.views@);
                    assert(rows[i as int].id == id@);
                    lemma_find_at(rows, i as int);
                }
                Ok(self.views[i].to_view())
            },
        }
    }

    /// The views of an app, in the order in which they were added.
    pub fn read_views(&self, belong_to_id: &str) -> (res: FlowyResult<Vec<ViewInfo>>)
        requires
            self.wf(),
        ensures
            match self@.read_views(belong_to_id@) {
                Ok(s) => res is Ok && view_views(res->Ok_0@) == s,
                Err(e) => res is Err && res->Err_0 == e,
            },
    {
        let id = belong_to_id.to_owned();
        if position(&self.apps, &id).is_none() {
            return Err(FlowyError::NotFound);
        }
        let rows = select(&self.views, &Keep::ParentIs(&id));
        Ok(to_views(&rows))
    }

    /// Changes the fields of a view that the update names.
    pub fn update_view(&mut self, changeset: ViewChangeset) -> (res: FlowyResult<()>)
        requires
            old(self).wf(),
        ensures
            settles(old(self)@, old(self)@.update_view(changeset@), res, final(self)@),
            final(self).wf(),
    {
        proof {
            if self@.update_view(changeset@) is Ok {
                self@.lemma_update_view_wf(changeset@);
            }
        }
        if update_row(&mut self.views, &changeset.id, changeset.name, changeset.desc) {
            Ok(())
        } else {
            Err(FlowyError::NotFound)
        }
    }

    /// Deletes a view.
    pub fn delete_view(&mut self, view_id: &str) -> (res: FlowyResult<()>)
        requires
            old(self).wf(),
        ensures
            settles(old(self)@, old(self)@.delete_view(view_id@), res, final(self)@),
            final(self).wf(),
    {
        let id = view_id.to_owned();
        if position(&self.views, &id).is_none() {
            return Err(FlowyError::NotFound);
        }
        proof {
            self@.lemma_delete_view_wf(id@);
        }
        let views = select(&self.views, &Keep::IdIsNot(&id));
        self.views = views;
        Ok(())
    }

    /// Puts entries into the trash. The apps and views that they stand for
    /// leave the tree, an app with its views.
    pub fn create_trash(&mut self, trashes: Vec<Trash>)
        requires
            old(self).wf(),
        ensures
            final(self)@ == old(self)@.create_trash(trash_views(trashes@)),
            final(self).wf(),
    {
        let mut incoming = trashes;
        proof {
            self@.lemma_create_trash_wf(trash_views(incoming@));
            assert(trash_views(self.trash@ + incoming@) =~= trash_views(self.trash@) + trash_views(
                incoming@,
            ));
        }
        let apps = select(&self.apps, &Keep::NotInTrash(&incoming, TrashType::App));
        let kept = select(&self.views, &Keep::NotInTrash(&incoming, TrashType::View));
        let views = select(&kept, &Keep::ParentAmong(&apps));
        self.apps = apps;
        self.views = views;
        self.trash.append(&mut incoming);
    }

    /// The whole trash, or the entries with the identifier.
    pub fn read_trash(&self, trash_id: Option<String>) -> (res: FlowyResult<Vec<Trash>>)
        ensures
            match self@.read_trash(opt_view(trash_id)) {
                Ok(s) => res is Ok && trash_views(res->Ok_0@) == s,
                Err(e) => res is Err && res->Err_0 == e,
            },
    {
        match trash_id {
            None => Ok(copy_trash(&self.trash)),
            Some(id) => {
                let found = select_trash(&self.trash, &KeepTrash::IdIs(&id));
                if found.len() == 0 {
                    Err(FlowyError::NotFound)
                } else {
                    Ok(found)
                }
            },
        }
    }

    /// Empties the trash, or removes the entries that the list names.
    pub fn delete_trash(&mut self, trash_ids: Option<Vec<String>>)
        requires
            old(self).wf(),
        ensures
            final(self)@ == old(self)@.delete_trash(opt_ids(trash_ids)),
            final(self).wf(),
    {
        proof {
            self@.lemma_delete_trash_wf(opt_ids(trash_ids));
        }
        match trash_ids {
            None => {
                self.trash = Vec::new();
                proof {
                    assert(trash_views(self.trash@) =~= Seq::<TrashView>::empty());
                }
            },
            Some(ids) => {
                let kept = select_trash(&self.trash, &KeepTrash::IdNotAmong(&ids));
                self.trash = kept;
            },
        }
    }
}

} // verus!
