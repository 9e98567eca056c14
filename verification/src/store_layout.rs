//! The byte layout of the store: the revision log and the legacy tables. It
//! is what is written to storage and read back from it.

use crate::codec::{
    byte_views, frame, frame_fits, frame_items, lemma_unframe_frame, unframe, unframe_items,
};
use crate::database::{DatabaseView, LegacyView};
use crate::layout::{
    decode_nodes, decode_trashes, encode_nodes, encode_trashes, lemma_decode_nodes_encode,
    lemma_decode_trashes_encode, lemma_time_round_trip, nodes_fit, string_from_utf8, time_bytes,
    time_from_bytes, time_from_vec, time_to_vec, trashes_fit,
};
use crate::revision::{record_views, RecordView, Revision, RevisionRecord, RevisionState, RevisionView};
use vstd::prelude::*;
use vstd::slice::*;
use vstd::string::*;
use vstd::utf8::*;

verus! {

pub open spec fn state_byte(state: RevisionState) -> u8 {
    match state {
        RevisionState::Sync => 0u8,
        RevisionState::Ack => 1u8,
    }
}

pub open spec fn state_from_byte(b: u8) -> Option<RevisionState> {
    if b == 0 {
        Some(RevisionState::Sync)
    } else if b == 1 {
        Some(RevisionState::Ack)
    } else {
        None
    }
}

pub open spec fn flag_byte(flag: bool) -> u8 {
    if flag {
        1u8
    } else {
        0u8
    }
}

/// The eight fields of a record: the object, the two numbers, the payload,
/// the author, the checksum, the state and whether it goes to disk.
pub open spec fn record_fields(r: RecordView) -> Seq<Seq<u8>> {
    seq![
        encode_utf8(r.revision.object_id),
        time_bytes(r.revision.base_rev_id),
        time_bytes(r.revision.rev_id),
        r.revision.delta_data,
        encode_utf8(r.revision.user_id),
        encode_utf8(r.revision.md5),
        seq![state_byte(r.state)],
        seq![flag_byte(r.write_to_disk)],
    ]
}

pub open spec fn record_from_fields(f: Seq<Seq<u8>>) -> Option<RecordView> {
    if f.len() == 8 && valid_utf8(f[0]) && f[1].len() == 8 && f[2].len() == 8 && valid_utf8(f[4])
        && valid_utf8(f[5]) && f[6].len() == 1 && state_from_byte(f[6][0]) is Some && f[7].len()
        == 1 && f[7][0] <= 1 {
        Some(
            RecordView {
                revision: RevisionView {
                    base_rev_id: time_from_bytes(f[1]),
                    rev_id: time_from_bytes(f[2]),
                    delta_data: f[3],
                    md5: decode_utf8(f[5]),
                    object_id: decode_utf8(f[0]),
                    user_id: decode_utf8(f[4]),
                },
                state: state_from_byte(f[6][0])->Some_0,
                write_to_disk: f[7][0] == 1,
            },
        )
    } else {
        None
    }
}

pub open spec fn encode_record(r: RecordView) -> Seq<u8> {
    frame(record_fields(r))
}

pub open spec fn decode_record(b: Seq<u8>) -> Option<RecordView> {
    match unframe(b) {
        Some(f) => record_from_fields(f),
        None => None,
    }
}

pub open spec fn record_items(rows: Seq<RecordView>) -> Seq<Seq<u8>> {
    rows.map_values(|r: RecordView| encode_record(r))
}

/// The records that the items hold, if every item holds one.
pub open spec fn records_from_items(items: Seq<Seq<u8>>) -> Option<Seq<RecordView>> {
    if forall|i: int| 0 <= i < items.len() ==> decode_record(#[trigger] items[i]) is Some {
        Some(items.map_values(|b: Seq<u8>| decode_record(b)->Some_0))
    } else {
        None
    }
}

pub open spec fn encode_records(rows: Seq<RecordView>) -> Seq<u8> {
    frame(record_items(rows))
}

pub open spec fn decode_records(b: Seq<u8>) -> Option<Seq<RecordView>> {
    match unframe(b) {
        Some(items) => records_from_items(items),
        None => None,
    }
}

/// Every length in the layout of the records fits in eight bytes.
pub open spec fn records_fit(rows: Seq<RecordView>) -> bool {
    &&& frame_fits(record_items(rows))
    &&& forall|i: int| 0 <= i < rows.len() ==> frame_fits(record_fields(#[trigger] rows[i]))
}

/// The five tables of the store, each laid out by itself.
pub open spec fn store_tables(db: DatabaseView) -> Seq<Seq<u8>> {
    seq![
        encode_records(db.revisions),
        encode_nodes(db.legacy.workspaces),
        encode_nodes(db.legacy.apps),
        encode_nodes(db.legacy.views),
        encode_trashes(db.legacy.trash),
    ]
}

/// The byte layout of the store. Whether the store can be reached is no
/// part of it.
#[verifier::opaque]
pub open spec fn encode_store(db: DatabaseView) -> Seq<u8> {
    frame(store_tables(db))
}

/// The store that `b` lays out, if it lays out one. A store that is read
/// back can be reached.
#[verifier::opaque]
pub open spec fn decode_store(b: Seq<u8>) -> Option<DatabaseView> {
    match unframe(b) {
        None => None,
        Some(t) => if t.len() == 5 && decode_records(t[0]) is Some && decode_nodes(t[1]) is Some
            && decode_nodes(t[2]) is Some && decode_nodes(t[3]) is Some && decode_trashes(t[4])
            is Some {
            Some(
                DatabaseView {
                    reachable: true,
                    revisions: decode_records(t[0])->Some_0,
                    legacy: LegacyView {
                        workspaces: decode_nodes(t[1])->Some_0,
                        apps: decode_nodes(t[2])->Some_0,
                        views: decode_nodes(t[3])->Some_0,
                        trash: decode_trashes(t[4])->Some_0,
                    },
                },
            )
        } else {
            None
        },
    }
}

/// Every length in the layout of the store fits in eight bytes.
#[verifier::opaque]
pub open spec fn store_fits(db: DatabaseView) -> bool {
    &&& records_fit(db.revisions)
    &&& nodes_fit(db.legacy.workspaces)
    &&& nodes_fit(db.legacy.apps)
    &&& nodes_fit(db.legacy.views)
    &&& trashes_fit(db.legacy.trash)
    &&& frame_fits(store_tables(db))
}

pub proof fn lemma_decode_record_encode(r: RecordView)
    requires
        frame_fits(record_fields(r)),
    ensures
        decode_record(encode_record(r)) == Some(r),
{
    broadcast use encode_utf8_valid_utf8, encode_utf8_decode_utf8;

    lemma_unframe_frame(record_fields(r));
    lemma_time_round_trip(r.revision.base_rev_id);
    lemma_time_round_trip(r.revision.rev_id);
}

pub proof fn lemma_decode_records_encode(rows: Seq<RecordView>)
    requires
        records_fit(rows),
    ensures
        decode_records(encode_records(rows)) == Some(rows),
{
    let items = record_items(rows);
    lemma_unframe_frame(items);
    assert forall|i: int| 0 <= i < items.len() implies decode_record(#[trigger] items[i]) == Some(
        rows[i],
    ) by {
        lemma_decode_record_encode(rows[i]);
    }
    assert(items.map_values(|b: Seq<u8>| decode_record(b)->Some_0) =~= rows);
}

/// A store that was laid out is read back as it was, and reachable.
pub proof fn lemma_decode_store_encode(db: DatabaseView)
    requires
        store_fits(db),
    ensures
        decode_store(encode_store(db)) == Some(DatabaseView { reachable: true, ..db }),
{
    reveal(encode_store);
    reveal(decode_store);
    reveal(store_fits);
    lemma_unframe_frame(store_tables(db));
    lemma_decode_records_encode(db.revisions);
    lemma_decode_nodes_encode(db.legacy.workspaces);
    lemma_decode_nodes_encode(db.legacy.apps);
    lemma_decode_nodes_encode(db.legacy.views);
    lemma_decode_trashes_encode(db.legacy.trash);
}

fn state_to_byte(state: RevisionState) -> (b: u8)
    ensures
        b == state_byte(state),
{
    match state {
        RevisionState::Sync => 0,
        RevisionState::Ack => 1,
    }
}

fn state_of_byte(b: u8) -> (state: Option<RevisionState>)
    ensures
        state == state_from_byte(b),
{
    if b == 0 {
        Some(RevisionState::Sync)
    } else if b == 1 {
        Some(RevisionState::Ack)
    } else {
        None
    }
}

fn one_byte(b: u8) -> (out: Vec<u8>)
    ensures
        out@ == seq![b],
{
    let mut out: Vec<u8> = Vec::new();
    out.push(b);
    proof {
        assert(out@ =~= seq![b]);
    }
    out
}

/// Lays out one record.
pub fn record_to_bytes(r: &RevisionRecord) -> (out: Vec<u8>)
    ensures
        out@ == encode_record(r@),
        frame_fits(record_fields(r@)),
{
    let mut fields: Vec<Vec<u8>> = Vec::new();
    fields.push(r.revision.object_id.as_str().as_bytes_vec());
    fields.push(time_to_vec(r.revision.base_rev_id));
    fields.push(time_to_vec(r.revision.rev_id));
    fields.push(slice_to_vec(r.revision.delta_data.as_slice()));
    fields.push(r.revision.user_id.as_str().as_bytes_vec());
    fields.push(r.revision.md5.as_str().as_bytes_vec());
    fields.push(one_byte(state_to_byte(r.state)));
    fields.push(one_byte(if r.write_to_disk { 1 } else { 0 }));
    proof {
        assert(byte_views(fields@) =~= record_fields(r@));
    }
    frame_items(&fields)
}

/// Reads one record back; `None` where the bytes lay out none.
pub fn record_from_bytes(b: &Vec<u8>) -> (out: Option<RevisionRecord>)
    ensures
        match decode_record(b@) {
            Some(r) => out is Some && out->Some_0@ == r,
            None => out is None,
        },
{
    let mut fields = match unframe_items(b) {
        Some(f) => f,
        None => {
            return None;
        },
    };
    if fields.len() != 8 {
        return None;
    }
    if fields[1].len() != 8 || fields[2].len() != 8 || fields[6].len() != 1 || fields[7].len()
        != 1 {
        return None;
    }
    if fields[7][0] > 1 {
        return None;
    }
    let write_to_disk = fields[7][0] == 1;
    let state = match state_of_byte(fields[6][0]) {
        Some(state) => state,
        None => {
            return None;
        },
    };
    let base_rev_id = time_from_vec(&fields[1]);
    let rev_id = time_from_vec(&fields[2]);
    let _ = fields.pop();
    let _ = fields.pop();
    let md5 = string_from_utf8(fields.pop().unwrap());
    let user_id = string_from_utf8(fields.pop().unwrap());
    let delta_data = fields.pop().unwrap();
    let _ = fields.pop();
    let _ = fields.pop();
    let object_id = string_from_utf8(fields.pop().unwrap());
    match (object_id, user_id, md5) {
        (Some(object_id), Some(user_id), Some(md5)) => Some(
            RevisionRecord {
                revision: Revision { base_rev_id, rev_id, delta_data, md5, object_id, user_id },
                state,
                write_to_disk,
            },
        ),
        _ => None,
    }
}

/// Lays out a log.
pub fn records_to_bytes(rows: &Vec<RevisionRecord>) -> (out: Vec<u8>)
    ensures
        out@ == encode_records(record_views(rows@)),
        records_fit(record_views(rows@)),
{
    let mut items: Vec<Vec<u8>> = Vec::new();
    let mut i: usize = 0;
    while i < rows.len()
        invariant
            i <= rows.len(),
            items@.len() == i,
            forall|j: int| 0 <= j < i ==> (#[trigger] items@[j])@ == encode_record(rows@[j]@),
            forall|j: int| 0 <= j < i ==> frame_fits(record_fields(#[trigger] rows@[j]@)),
        decreases rows.len() - i,
    {
        items.push(record_to_bytes(&rows[i]));
        i += 1;
    }
    proof {
        assert(byte_views(items@) =~= record_items(record_views(rows@)));
    }
    frame_items(&items)
}

/// Reads a log back; `None` where the bytes lay out none.
pub fn records_from_bytes(b: &Vec<u8>) -> (out: Option<Vec<RevisionRecord>>)
    ensures
        match decode_records(b@) {
            Some(rows) => out is Some && record_views(out->Some_0@) == rows,
            None => out is None,
        },
{
    let items = match unframe_items(b) {
        Some(items) => items,
        None => {
            return None;
        },
    };
    let ghost views = byte_views(items@);
    let mut rows: Vec<RevisionRecord> = Vec::new();
    let mut i: usize = 0;
    while i < items.len()
        invariant
            i <= items.len(),
            views == byte_views(items@),
            unframe(b@) == Some(views),
            rows@.len() == i,
            forall|j: int| 0 <= j < i ==> decode_record(#[trigger] views[j]) == Some(rows@[j]@),
        decreases items.len() - i,
    {
        match record_from_bytes(&items[i]) {
            Some(r) => {
                rows.push(r);
            },
            None => {
                proof {
                    assert(views[i as int] == items@[i as int]@);
                    assert(decode_record(views[i as int]) is None);
                }
                return None;
            },
        }
        i += 1;
    }
    proof {
        assert(record_views(rows@) =~= views.map_values(|b: Seq<u8>| decode_record(b)->Some_0));
    }
    Some(rows)
}

} // verus!
