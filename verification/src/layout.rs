//! The byte layout of the rows of a folder: a node is the list of its five
//! fields, a trash entry the list of its four, a table the list of its rows.

use crate::codec::{
    byte_views, frame, frame_fits, frame_items, lemma_unframe_frame, unframe, unframe_items,
};
use crate::entities::{
    node_views, trash_views, FolderNode, NodeView, Trash, TrashType, TrashView,
};
use crate::folder_model::FolderView;
use vstd::bytes::*;
use vstd::prelude::*;
use vstd::slice::*;
use vstd::string::*;
use vstd::utf8::*;

verus! {

pub open spec fn time_bytes(t: i64) -> Seq<u8> {
    spec_u64_to_le_bytes(t as u64)
}

pub open spec fn time_from_bytes(b: Seq<u8>) -> i64 {
    spec_u64_from_le_bytes(b) as i64
}

pub open spec fn trash_type_byte(ty: TrashType) -> u8 {
    match ty {
        TrashType::Unknown => 0u8,
        TrashType::View => 1u8,
        TrashType::App => 2u8,
    }
}

pub open spec fn trash_type_from_byte(b: u8) -> Option<TrashType> {
    if b == 0 {
        Some(TrashType::Unknown)
    } else if b == 1 {
        Some(TrashType::View)
    } else if b == 2 {
        Some(TrashType::App)
    } else {
        None
    }
}

pub open spec fn node_fields(n: NodeView) -> Seq<Seq<u8>> {
    seq![
        encode_utf8(n.id),
        encode_utf8(n.parent_id),
        encode_utf8(n.name),
        encode_utf8(n.desc),
        time_bytes(n.create_time),
    ]
}

pub open spec fn node_from_fields(f: Seq<Seq<u8>>) -> Option<NodeView> {
    if f.len() == 5 && valid_utf8(f[0]) && valid_utf8(f[1]) && valid_utf8(f[2]) && valid_utf8(f[3])
        && f[4].len() == 8 {
        Some(
            NodeView {
                id: decode_utf8(f[0]),
                parent_id: decode_utf8(f[1]),
                name: decode_utf8(f[2]),
                desc: decode_utf8(f[3]),
                create_time: time_from_bytes(f[4]),
            },
        )
    } else {
        None
    }
}

pub open spec fn trash_fields(t: TrashView) -> Seq<Seq<u8>> {
    seq![encode_utf8(t.id), encode_utf8(t.name), time_bytes(t.create_time), seq![trash_type_byte(t.ty)]]
}

pub open spec fn trash_from_fields(f: Seq<Seq<u8>>) -> Option<TrashView> {
    if f.len() == 4 && valid_utf8(f[0]) && valid_utf8(f[1]) && f[2].len() == 8 && f[3].len() == 1
        && trash_type_from_byte(f[3][0]) is Some {
        Some(
            TrashView {
                id: decode_utf8(f[0]),
                name: decode_utf8(f[1]),
                create_time: time_from_bytes(f[2]),
                ty: trash_type_from_byte(f[3][0])->Some_0,
            },
        )
    } else {
        None
    }
}

pub open spec fn encode_node(n: NodeView) -> Seq<u8> {
    frame(node_fields(n))
}

pub open spec fn decode_node(b: Seq<u8>) -> Option<NodeView> {
    match unframe(b) {
        Some(f) => node_from_fields(f),
        None => None,
    }
}

pub open spec fn encode_trash(t: TrashView) -> Seq<u8> {
    frame(trash_fields(t))
}

pub open spec fn decode_trash(b: Seq<u8>) -> Option<TrashView> {
    match unframe(b) {
        Some(f) => trash_from_fields(f),
        None => None,
    }
}

pub open spec fn node_items(rows: Seq<NodeView>) -> Seq<Seq<u8>> {
    rows.map_values(|n: NodeView| encode_node(n))
}

pub open spec fn trash_items(rows: Seq<TrashView>) -> Seq<Seq<u8>> {
    rows.map_values(|t: TrashView| encode_trash(t))
}

/// The rows that the items hold, if every item holds one.
pub open spec fn nodes_from_items(items: Seq<Seq<u8>>) -> Option<Seq<NodeView>> {
    if forall|i: int| 0 <= i < items.len() ==> decode_node(#[trigger] items[i]) is Some {
        Some(items.map_values(|b: Seq<u8>| decode_node(b)->Some_0))
    } else {
        None
    }
}

pub open spec fn trashes_from_items(items: Seq<Seq<u8>>) -> Option<Seq<TrashView>> {
    if forall|i: int| 0 <= i < items.len() ==> decode_trash(#[trigger] items[i]) is Some {
        Some(items.map_values(|b: Seq<u8>| decode_trash(b)->Some_0))
    } else {
        None
    }
}

pub open spec fn encode_nodes(rows: Seq<NodeView>) -> Seq<u8> {
    frame(node_items(rows))
}

pub open spec fn decode_nodes(b: Seq<u8>) -> Option<Seq<NodeView>> {
    match unframe(b) {
        Some(items) => nodes_from_items(items),
        None => None,
    }
}

pub open spec fn encode_trashes(rows: Seq<TrashView>) -> Seq<u8> {
    frame(trash_items(rows))
}

pub open spec fn decode_trashes(b: Seq<u8>) -> Option<Seq<TrashView>> {
    match unframe(b) {
        Some(items) => trashes_from_items(items),
        None => None,
    }
}

/// Every length in the layout of the rows fits in eight bytes.
pub open spec fn nodes_fit(rows: Seq<NodeView>) -> bool {
    &&& frame_fits(node_items(rows))
    &&& forall|i: int| 0 <= i < rows.len() ==> frame_fits(node_fields(#[trigger] rows[i]))
}

pub open spec fn trashes_fit(rows: Seq<TrashView>) -> bool {
    &&& frame_fits(trash_items(rows))
    &&& forall|i: int| 0 <= i < rows.len() ==> frame_fits(trash_fields(#[trigger] rows[i]))
}

/// The four tables of a folder, each laid out by itself.
pub open spec fn folder_tables(f: FolderView) -> Seq<Seq<u8>> {
    seq![
        encode_nodes(f.workspaces),
        encode_nodes(f.apps),
        encode_nodes(f.views),
        encode_trashes(f.trash),
    ]
}

/// The byte layout of a folder.
#[verifier::opaque]
pub open spec fn encode_folder(f: FolderView) -> Seq<u8> {
    frame(folder_tables(f))
}

/// The folder that `b` lays out, if it lays out one.
#[verifier::opaque]
pub open spec fn decode_folder(b: Seq<u8>) -> Option<FolderView> {
    match unframe(b) {
        None => None,
        Some(t) => if t.len() == 4 && decode_nodes(t[0]) is Some && decode_nodes(t[1]) is Some
            && decode_nodes(t[2]) is Some && decode_trashes(t[3]) is Some {
            Some(
                FolderView {
                    workspaces: decode_nodes(t[0])->Some_0,
                    apps: decode_nodes(t[1])->Some_0,
                    views: decode_nodes(t[2])->Some_0,
                    trash: decode_trashes(t[3])->Some_0,
                },
            )
        } else {
            None
        },
    }
}

/// Every length in the layout of the folder fits in eight bytes.
#[verifier::opaque]
pub open spec fn folder_fits(f: FolderView) -> bool {
    &&& nodes_fit(f.workspaces)
    &&& nodes_fit(f.apps)
    &&& nodes_fit(f.views)
    &&& trashes_fit(f.trash)
    &&& frame_fits(folder_tables(f))
}

/// A time that was laid out is read back unchanged.
pub proof fn lemma_time_round_trip(t: i64)
    ensures
        time_bytes(t).len() == 8,
        time_from_bytes(time_bytes(t)) == t,
{
    lemma_auto_spec_u64_to_from_le_bytes();
    assert((t as u64) as i64 == t) by (bit_vector);
}

pub proof fn lemma_decode_node_encode(n: NodeView)
    requires
        frame_fits(node_fields(n)),
    ensures
        decode_node(encode_node(n)) == Some(n),
{
    broadcast use encode_utf8_valid_utf8, encode_utf8_decode_utf8;

    lemma_unframe_frame(node_fields(n));
    lemma_time_round_trip(n.create_time);
}

pub proof fn lemma_decode_trash_encode(t: TrashView)
    requires
        frame_fits(trash_fields(t)),
    ensures
        decode_trash(encode_trash(t)) == Some(t),
{
    broadcast use encode_utf8_valid_utf8, encode_utf8_decode_utf8;

    lemma_unframe_frame(trash_fields(t));
    lemma_time_round_trip(t.create_time);
}

/// A table that was laid out is read back unchanged.
pub proof fn lemma_decode_nodes_encode(rows: Seq<NodeView>)
    requires
        nodes_fit(rows),
    ensures
        decode_nodes(encode_nodes(rows)) == Some(rows),
{
    let items = node_items(rows);
    lemma_unframe_frame(items);
    assert forall|i: int| 0 <= i < items.len() implies decode_node(#[trigger] items[i]) == Some(
        rows[i],
    ) by {
        lemma_decode_node_encode(rows[i]);
    }
    assert(items.map_values(|b: Seq<u8>| decode_node(b)->Some_0) =~= rows);
}

pub proof fn lemma_decode_trashes_encode(rows: Seq<TrashView>)
    requires
        trashes_fit(rows),
    ensures
        decode_trashes(encode_trashes(rows)) == Some(rows),
{
    let items = trash_items(rows);
    lemma_unframe_frame(items);
    assert forall|i: int| 0 <= i < items.len() implies decode_trash(#[trigger] items[i]) == Some(
        rows[i],
    ) by {
        lemma_decode_trash_encode(rows[i]);
    }
    assert(items.map_values(|b: Seq<u8>| decode_trash(b)->Some_0) =~= rows);
}

/// A folder that was laid out is read back unchanged.
pub proof fn lemma_decode_folder_encode(f: FolderView)
    requires
        folder_fits(f),
    ensures
        decode_folder(encode_folder(f)) == Some(f),
{
    reveal(encode_folder);
    reveal(decode_folder);
    reveal(folder_fits);
    lemma_unframe_frame(folder_tables(f));
    lemma_decode_nodes_encode(f.workspaces);
    lemma_decode_nodes_encode(f.apps);
    lemma_decode_nodes_encode(f.views);
    lemma_decode_trashes_encode(f.trash);
}

/// `String::from_utf8` of std: the text that the bytes encode, or `None`
/// where they are not UTF-8.
#[verifier::external_body]
pub(crate) fn string_from_utf8(bytes: Vec<u8>) -> (out: Option<String>)
    ensures
        valid_utf8(bytes@) ==> out is Some && out->Some_0@ == decode_utf8(bytes@),
        !valid_utf8(bytes@) ==> out is None,
{
    match String::from_utf8(bytes) {
        Ok(s) => Some(s),
        Err(_) => None,
    }
}

pub(crate) fn time_to_vec(t: i64) -> (out: Vec<u8>)
    ensures
        out@ == time_bytes(t),
        out@.len() == 8,
{
    u64_to_le_bytes(#[verifier::truncate] (t as u64))
}

pub(crate) fn time_from_vec(b: &Vec<u8>) -> (t: i64)
    requires
        b@.len() == 8,
    ensures
        t == time_from_bytes(b@),
{
    let raw = u64_from_le_bytes(b.as_slice());
    #[verifier::truncate]
    (raw as i64)
}

fn trash_type_to_byte(ty: TrashType) -> (b: u8)
    ensures
        b == trash_type_byte(ty),
{
    match ty {
        TrashType::Unknown => 0,
        TrashType::View => 1,
        TrashType::App => 2,
    }
}

fn trash_type_of_byte(b: u8) -> (ty: Option<TrashType>)
    ensures
        ty == trash_type_from_byte(b),
{
    if b == 0 {
        Some(TrashType::Unknown)
    } else if b == 1 {
        Some(TrashType::View)
    } else if b == 2 {
        Some(TrashType::App)
    } else {
        None
    }
}

/// Lays out one node.
pub fn node_to_bytes(n: &FolderNode) -> (out: Vec<u8>)
    ensures
        out@ == encode_node(n@),
        frame_fits(node_fields(n@)),
{
    let mut fields: Vec<Vec<u8>> = Vec::new();
    fields.push(n.id.as_str().as_bytes_vec());
    fields.push(n.parent_id.as_str().as_bytes_vec());
    fields.push(n.name.as_str().as_bytes_vec());
    fields.push(n.desc.as_str().as_bytes_vec());
    fields.push(time_to_vec(n.create_time));
    proof {
        assert(byte_views(fields@) =~= node_fields(n@));
    }
    frame_items(&fields)
}

/// Reads one node back; `None` where the bytes lay out none.
pub fn node_from_bytes(b: &Vec<u8>) -> (out: Option<FolderNode>)
    ensures
        match decode_node(b@) {
            Some(n) => out is Some && out->Some_0@ == n,
            None => out is None,
        },
{
    let mut fields = match unframe_items(b) {
        Some(f) => f,
        None => {
            return None;
        },
    };
    let ghost f = byte_views(fields@);
    if fields.len() != 5 {
        return None;
    }
    if fields[4].len() != 8 {
        return None;
    }
    let create_time = time_from_vec(&fields[4]);
    let _ = fields.pop();
    let desc = string_from_utf8(fields.pop().unwrap());
    let name = string_from_utf8(fields.pop().unwrap());
    let parent_id = string_from_utf8(fields.pop().unwrap());
    let id = string_from_utf8(fields.pop().unwrap());
    match (id, parent_id, name, desc) {
        (Some(id), Some(parent_id), Some(name), Some(desc)) => Some(
            FolderNode { id, parent_id, name, desc, create_time },
        ),
        _ => None,
    }
}

/// Lays out one trash entry.
pub fn trash_to_bytes(t: &Trash) -> (out: Vec<u8>)
    ensures
        out@ == encode_trash(t@),
        frame_fits(trash_fields(t@)),
{
    let mut fields: Vec<Vec<u8>> = Vec::new();
    fields.push(t.id.as_str().as_bytes_vec());
    fields.push(t.name.as_str().as_bytes_vec());
    fields.push(time_to_vec(t.create_time));
    let mut kind: Vec<u8> = Vec::new();
    kind.push(trash_type_to_byte(t.ty));
    fields.push(kind);
    proof {
        assert(kind@ =~= seq![trash_type_byte(t.ty)]);
        assert(byte_views(fields@) =~= trash_fields(t@));
    }
    frame_items(&fields)
}

/// Reads one trash entry back; `None` where the bytes lay out none.
pub fn trash_from_bytes(b: &Vec<u8>) -> (out: Option<Trash>)
    ensures
        match decode_trash(b@) {
            Some(t) => out is Some && out->Some_0@ == t,
            None => out is None,
        },
{
    let mut fields = match unframe_items(b) {
        Some(f) => f,
        None => {
            return None;
        },
    };
    if fields.len() != 4 {
        return None;
    }
    if fields[3].len() != 1 || fields[2].len() != 8 {
        return None;
    }
    let ty = match trash_type_of_byte(fields[3][0]) {
        Some(ty) => ty,
        None => {
            return None;
        },
    };
    let create_time = time_from_vec(&fields[2]);
    let _ = fields.pop();
    let _ = fields.pop();
    let name = string_from_utf8(fields.pop().unwrap());
    let id = string_from_utf8(fields.pop().unwrap());
    match (id, name) {
        (Some(id), Some(name)) => Some(Trash { id, name, create_time, ty }),
        _ => None,
    }
}

/// Lays out a table of nodes.
pub fn nodes_to_bytes(rows: &Vec<FolderNode>) -> (out: Vec<u8>)
    ensures
        out@ == encode_nodes(node_views(rows@)),
        nodes_fit(node_views(rows@)),
{
    let mut items: Vec<Vec<u8>> = Vec::new();
    let mut i: usize = 0;
    while i < rows.len()
        invariant
            i <= rows.len(),
            items@.len() == i,
            forall|j: int| 0 <= j < i ==> (#[trigger] items@[j])@ == encode_node(rows@[j]@),
            forall|j: int| 0 <= j < i ==> frame_fits(node_fields(#[trigger] rows@[j]@)),
        decreases rows.len() - i,
    {
        items.push(node_to_bytes(&rows[i]));
        i += 1;
    }
    proof {
        assert(byte_views(items@) =~= node_items(node_views(rows@)));
    }
    frame_items(&items)
}

/// Reads a table of nodes back; `None` where the bytes lay out none.
pub fn nodes_from_bytes(b: &Vec<u8>) -> (out: Option<Vec<FolderNode>>)
    ensures
        match decode_nodes(b@) {
            Some(rows) => out is Some && node_views(out->Some_0@) == rows,
            None => out is None,
        },
{
    let items = match unframe_items(b) {
        Some(items) => items,
        None => {
            return None;
        },
    };
    let ghost views = byte_views(items@);
    let mut rows: Vec<FolderNode> = Vec::new();
    let mut i: usize = 0;
    while i < items.len()
        invariant
            i <= items.len(),
            views == byte_views(items@),
            unframe(b@) == Some(views),
            rows@.len() == i,
            forall|j: int| 0 <= j < i ==> decode_node(#[trigger] views[j]) == Some(rows@[j]@),
        decreases items.len() - i,
    {
        match node_from_bytes(&items[i]) {
            Some(n) => {
                rows.push(n);
            },
            None => {
                proof {
                    assert(views[i as int] == items@[i as int]@);
                    assert(decode_node(views[i as int]) is None);
                }
                return None;
            },
        }
        i += 1;
    }
    proof {
        assert(node_views(rows@) =~= views.map_values(|b: Seq<u8>| decode_node(b)->Some_0));
    }
    Some(rows)
}

/// Lays out the trash.
pub fn trashes_to_bytes(rows: &Vec<Trash>) -> (out: Vec<u8>)
    ensures
        out@ == encode_trashes(trash_views(rows@)),
        trashes_fit(trash_views(rows@)),
{
    let mut items: Vec<Vec<u8>> = Vec::new();
    let mut i: usize = 0;
    while i < rows.len()
        invariant
            i <= rows.len(),
            items@.len() == i,
            forall|j: int| 0 <= j < i ==> (#[trigger] items@[j])@ == encode_trash(rows@[j]@),
            forall|j: int| 0 <= j < i ==> frame_fits(trash_fields(#[trigger] rows@[j]@)),
        decreases rows.len() - i,
    {
        items.push(trash_to_bytes(&rows[i]));
        i += 1;
    }
    proof {
        assert(byte_views(items@) =~= trash_items(trash_views(rows@)));
    }
    frame_items(&items)
}

/// Reads the trash back; `None` where the bytes lay out none.
pub fn trashes_from_bytes(b: &Vec<u8>) -> (out: Option<Vec<Trash>>)
    ensures
        match decode_trashes(b@) {
            Some(rows) => out is Some && trash_views(out->Some_0@) == rows,
            None => out is None,
        },
{
    let items = match unframe_items(b) {
        Some(items) => items,
        None => {
            return None;
        },
    };
    let ghost views = byte_views(items@);
    let mut rows: Vec<Trash> = Vec::new();
    let mut i: usize = 0;
    while i < items.len()
        invariant
            i <= items.len(),
            views == byte_views(items@),
            unframe(b@) == Some(views),
            rows@.len() == i,
            forall|j: int| 0 <= j < i ==> decode_trash(#[trigger] views[j]) == Some(rows@[j]@),
        decreases items.len() - i,
    {
        match trash_from_bytes(&items[i]) {
            Some(t) => {
                rows.push(t);
            },
            None => {
                proof {
                    assert(views[i as int] == items@[i as int]@);
                    assert(decode_trash(views[i as int]) is None);
                }
                return None;
            },
        }
        i += 1;
    }
    proof {
        assert(trash_views(rows@) =~= views.map_values(|b: Seq<u8>| decode_trash(b)->Some_0));
    }
    Some(rows)
}

} // verus!
