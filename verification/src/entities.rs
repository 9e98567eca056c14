use vstd::prelude::*;

verus! {

/// What the store knows of a workspace, an app or a view: who it is, whom it
/// belongs to, and what a user may change of it.
pub struct NodeView {
    pub id: Seq<char>,
    pub parent_id: Seq<char>,
    pub name: Seq<char>,
    pub desc: Seq<char>,
    pub create_time: i64,
}

/// The fields of a node that an update leaves out are `None`.
pub struct NodeChangeView {
    pub id: Seq<char>,
    pub name: Option<Seq<char>>,
    pub desc: Option<Seq<char>>,
}

impl NodeView {
    /// The node after an update: a field that the change names takes the new
    /// value, every other field stays.
    pub open spec fn updated(self, change: NodeChangeView) -> NodeView {
        NodeView {
            name: match change.name {
                Some(n) => n,
                None => self.name,
            },
            desc: match change.desc {
                Some(d) => d,
                None => self.desc,
            },
            ..self
        }
    }
}

pub open spec fn opt_view(o: Option<String>) -> Option<Seq<char>> {
    match o {
        Some(s) => Some(s@),
        None => None,
    }
}

/// The root of a tree of apps.
pub struct Workspace {
    pub id: String,
    pub name: String,
    pub desc: String,
    pub create_time: i64,
}

/// A group of views in a workspace. `workspace_id` names the workspace.
pub struct App {
    pub id: String,
    pub workspace_id: String,
    pub name: String,
    pub desc: String,
    pub create_time: i64,
}

/// A page of an app. `belong_to_id` names the app.
pub struct ViewInfo {
    pub id: String,
    pub belong_to_id: String,
    pub name: String,
    pub desc: String,
    pub create_time: i64,
}

impl vstd::view::View for Workspace {
    type V = NodeView;

    open spec fn view(&self) -> NodeView {
        NodeView {
            id: self.id@,
            parent_id: Seq::empty(),
            name: self.name@,
            desc: self.desc@,
            create_time: self.create_time,
        }
    }
}

impl vstd::view::View for App {
    type V = NodeView;

    open spec fn view(&self) -> NodeView {
        NodeView {
            id: self.id@,
            parent_id: self.workspace_id@,
            name: self.name@,
            desc: self.desc@,
            create_time: self.create_time,
        }
    }
}

impl vstd::view::View for ViewInfo {
    type V = NodeView;

    open spec fn view(&self) -> NodeView {
        NodeView {
            id: self.id@,
            parent_id: self.belong_to_id@,
            name: self.name@,
            desc: self.desc@,
            create_time: self.create_time,
        }
    }
}

/// An update of a workspace: the fields that are `None` stay as they are.
pub struct WorkspaceChangeset {
    pub id: String,
    pub name: Option<String>,
    pub desc: Option<String>,
}

/// An update of an app: the fields that are `None` stay as they are.
pub struct AppChangeset {
    pub id: String,
    pub name: Option<String>,
    pub desc: Option<String>,
}

/// An update of a view: the fields that are `None` stay as they are.
pub struct ViewChangeset {
    pub id: String,
    pub name: Option<String>,
    pub desc: Option<String>,
}

impl vstd::view::View for WorkspaceChangeset {
    type V = NodeChangeView;

    open spec fn view(&self) -> NodeChangeView {
        NodeChangeView { id: self.id@, name: opt_view(self.name), desc: opt_view(self.desc) }
    }
}

impl vstd::view::View for AppChangeset {
    type V = NodeChangeView;

    open spec fn view(&self) -> NodeChangeView {
        NodeChangeView { id: self.id@, name: opt_view(self.name), desc: opt_view(self.desc) }
    }
}

impl vstd::view::View for ViewChangeset {
    type V = NodeChangeView;

    open spec fn view(&self) -> NodeChangeView {
        NodeChangeView { id: self.id@, name: opt_view(self.name), desc: opt_view(self.desc) }
    }
}

/// What kind of item a trash entry stands for.
#[derive(Clone, Copy, Debug, PartialEq, Eq, Structural)]
pub enum TrashType {
    Unknown,
    View,
    App,
}

pub struct TrashView {
    pub id: Seq<char>,
    pub name: Seq<char>,
    pub create_time: i64,
    pub ty: TrashType,
}

/// A soft-deleted app or view, kept by its identifier.
pub struct Trash {
    pub id: String,
    pub name: String,
    pub create_time: i64,
    pub ty: TrashType,
}

impl vstd::view::View for Trash {
    type V = TrashView;

    open spec fn view(&self) -> TrashView {
        TrashView { id: self.id@, name: self.name@, create_time: self.create_time, ty: self.ty }
    }
}

/// The stored form of a workspace, an app or a view. A workspace has no
/// parent: its `parent_id` is empty.
pub struct FolderNode {
    pub id: String,
    pub parent_id: String,
    pub name: String,
    pub desc: String,
    pub create_time: i64,
}

impl vstd::view::View for FolderNode {
    type V = NodeView;

    open spec fn view(&self) -> NodeView {
        NodeView {
            id: self.id@,
            parent_id: self.parent_id@,
            name: self.name@,
            desc: self.desc@,
            create_time: self.create_time,
        }
    }
}

/// The views of a list of stored nodes, in order.
pub open spec fn node_views(nodes: Seq<FolderNode>) -> Seq<NodeView> {
    nodes.map_values(|n: FolderNode| n@)
}

pub open spec fn workspace_views(items: Seq<Workspace>) -> Seq<NodeView> {
    items.map_values(|n: Workspace| n@)
}

pub open spec fn app_views(items: Seq<App>) -> Seq<NodeView> {
    items.map_values(|n: App| n@)
}

pub open spec fn view_views(items: Seq<ViewInfo>) -> Seq<NodeView> {
    items.map_values(|n: ViewInfo| n@)
}

pub open spec fn trash_views(items: Seq<Trash>) -> Seq<TrashView> {
    items.map_values(|t: Trash| t@)
}

pub open spec fn string_views(items: Seq<String>) -> Seq<Seq<char>> {
    items.map_values(|s: String| s@)
}

impl FolderNode {
    pub fn duplicate(&self) -> (r: FolderNode)
        ensures
            r@ == self@,
    {
        FolderNode {
            id: self.id.clone(),
            parent_id: self.parent_id.clone(),
            name: self.name.clone(),
            desc: self.desc.clone(),
            create_time: self.create_time,
        }
    }

    pub fn from_workspace(w: Workspace) -> (r: FolderNode)
        ensures
            r@ == w@,
    {
        FolderNode {
            id: w.id,
            parent_id: String::new(),
            name: w.name,
            desc: w.desc,
            create_time: w.create_time,
        }
    }

    pub fn from_app(a: App) -> (r: FolderNode)
        ensures
            r@ == a@,
    {
        FolderNode {
            id: a.id,
            parent_id: a.workspace_id,
            name: a.name,
            desc: a.desc,
            create_time: a.create_time,
        }
    }

    pub fn from_view(v: ViewInfo) -> (r: FolderNode)
        ensures
            r@ == v@,
    {
        FolderNode {
            id: v.id,
            parent_id: v.belong_to_id,
            name: v.name,
            desc: v.desc,
            create_time: v.create_time,
        }
    }

    /// The workspace that this node stores; the parent is dropped.
    pub fn to_workspace(&self) -> (r: Workspace)
        ensures
            r@ == (NodeView { parent_id: Seq::empty(), ..self@ }),
    {
        Workspace {
            id: self.id.clone(),
            name: self.name.clone(),
            desc: self.desc.clone(),
            create_time: self.create_time,
        }
    }

    pub fn to_app(&self) -> (r: App)
        ensures
            r@ == self@,
    {
        App {
            id: self.id.clone(),
            workspace_id: self.parent_id.clone(),
            name: self.name.clone(),
            desc: self.desc.clone(),
            create_time: self.create_time,
        }
    }

    pub fn to_view(&self) -> (r: ViewInfo)
        ensures
            r@ == self@,
    {
        ViewInfo {
            id: self.id.clone(),
            belong_to_id: self.parent_id.clone(),
            name: self.name.clone(),
            desc: self.desc.clone(),
            create_time: self.create_time,
        }
    }

    /// Applies the fields that an update names and keeps the others.
    pub fn apply(&mut self, name: Option<String>, desc: Option<String>)
        ensures
            final(self)@ == old(self)@.updated(
                NodeChangeView { id: old(self)@.id, name: opt_view(name), desc: opt_view(desc) },
            ),
    {
        match name {
            Some(n) => {
                self.name = n;
            },
            None => {},
        }
        match desc {
            Some(d) => {
                self.desc = d;
            },
            None => {},
        }
    }
}

impl Trash {
    pub fn duplicate(&self) -> (r: Trash)
        ensures
            r@ == self@,
    {
        Trash {
            id: self.id.clone(),
            name: self.name.clone(),
            create_time: self.create_time,
            ty: self.ty,
        }
    }
}

} // verus!
