//! The byte layout of a list of byte strings: the number of items, then each
//! item behind its length, every number as eight little-endian bytes.

use vstd::bytes::*;
use vstd::prelude::*;
use vstd::slice::*;

verus! {

/// The byte strings that a list of vectors holds, in order.
pub open spec fn byte_views(items: Seq<Vec<u8>>) -> Seq<Seq<u8>> {
    items.map_values(|v: Vec<u8>| v@)
}

/// An item behind its length.
pub open spec fn frame_one(item: Seq<u8>) -> Seq<u8> {
    spec_u64_to_le_bytes(item.len() as u64) + item
}

/// The items, each behind its length, one after the other.
pub open spec fn frame_all(items: Seq<Seq<u8>>) -> Seq<u8>
    decreases items.len(),
{
    if items.len() == 0 {
        Seq::empty()
    } else {
        frame_all(items.drop_last()) + frame_one(items.last())
    }
}

/// The layout of a list of byte strings.
pub open spec fn frame(items: Seq<Seq<u8>>) -> Seq<u8> {
    spec_u64_to_le_bytes(items.len() as u64) + frame_all(items)
}

/// Every length that the layout of `items` writes down fits in eight bytes.
pub open spec fn frame_fits(items: Seq<Seq<u8>>) -> bool {
    &&& items.len() <= u64::MAX
    &&& forall|i: int| 0 <= i < items.len() ==> (#[trigger] items[i]).len() <= u64::MAX
}

/// The first `count` items that follow the eight bytes of the header, and the
/// place where the next item would begin; `None` where the bytes end early.
pub open spec fn parse_n(bytes: Seq<u8>, count: nat) -> Option<(Seq<Seq<u8>>, int)>
    decreases count,
{
    if count == 0 {
        Some((Seq::empty(), 8int))
    } else {
        match parse_n(bytes, (count - 1) as nat) {
            None => None,
            Some((items, pos)) => {
                if pos + 8 > bytes.len() {
                    None
                } else {
                    let len = spec_u64_from_le_bytes(bytes.subrange(pos, pos + 8)) as int;
                    if pos + 8 + len > bytes.len() {
                        None
                    } else {
                        Some((items.push(bytes.subrange(pos + 8, pos + 8 + len)), pos + 8 + len))
                    }
                }
            },
        }
    }
}

/// The list that `bytes` lays out, if they lay out one and nothing follows it.
pub open spec fn unframe(bytes: Seq<u8>) -> Option<Seq<Seq<u8>>> {
    if bytes.len() < 8 {
        None
    } else {
        let count = spec_u64_from_le_bytes(bytes.subrange(0, 8)) as nat;
        match parse_n(bytes, count) {
            None => None,
            Some((items, end)) => if end == bytes.len() {
                Some(items)
            } else {
                None
            },
        }
    }
}

pub proof fn lemma_frame_all_concat(a: Seq<Seq<u8>>, b: Seq<Seq<u8>>)
    ensures
        frame_all(a + b) == frame_all(a) + frame_all(b),
    decreases b.len(),
{
    if b.len() == 0 {
        assert(a + b =~= a);
        assert(frame_all(a) + frame_all(b) =~= frame_all(a));
    } else {
        lemma_frame_all_concat(a, b.drop_last());
        assert((a + b).drop_last() =~= a + b.drop_last());
        assert((a + b).last() == b.last());
        assert(frame_all(a + b) =~= frame_all(a) + frame_all(b));
    }
}

proof fn lemma_parse_stays_failed(bytes: Seq<u8>, failed: nat, count: nat)
    requires
        parse_n(bytes, failed) is None,
        failed <= count,
    ensures
        parse_n(bytes, count) is None,
    decreases count,
{
    if count > failed {
        lemma_parse_stays_failed(bytes, failed, (count - 1) as nat);
    }
}

proof fn lemma_parse_frame(head: Seq<u8>, items: Seq<Seq<u8>>, k: nat)
    requires
        head.len() == 8,
        k <= items.len(),
        frame_fits(items),
    ensures
        parse_n(head + frame_all(items), k) == Some(
            (items.take(k as int), 8 + frame_all(items.take(k as int)).len() as int),
        ),
    decreases k,
{
    let bytes = head + frame_all(items);
    if k == 0 {
        assert(items.take(0) =~= Seq::<Seq<u8>>::empty());
    } else {
        lemma_parse_frame(head, items, (k - 1) as nat);
        let pre = items.take(k - 1);
        let item = items[k - 1];
        let post = items.skip(k as int);
        let upto = items.take(k as int);
        assert(upto.drop_last() =~= pre);
        assert(upto.last() == item);
        assert(items =~= upto + post);
        lemma_frame_all_concat(upto, post);
        lemma_auto_spec_u64_to_from_le_bytes();
        let pos: int = 8 + frame_all(pre).len() as int;
        let len_bytes = spec_u64_to_le_bytes(item.len() as u64);
        assert(frame_all(upto) == frame_all(pre) + (len_bytes + item));
        assert(bytes.subrange(pos, pos + 8) =~= len_bytes);
        assert(spec_u64_from_le_bytes(len_bytes) as int == item.len());
        assert(bytes.subrange(pos + 8, pos + 8 + item.len()) =~= item);
        assert(pre.push(item) =~= upto);
    }
}

/// What was laid out is read back unchanged.
pub proof fn lemma_unframe_frame(items: Seq<Seq<u8>>)
    requires
        frame_fits(items),
    ensures
        unframe(frame(items)) == Some(items),
{
    lemma_auto_spec_u64_to_from_le_bytes();
    let head = spec_u64_to_le_bytes(items.len() as u64);
    lemma_parse_frame(head, items, items.len());
    assert(items.take(items.len() as int) =~= items);
    assert(frame(items).subrange(0, 8) =~= head);
}

/// Lays out a list of byte strings.
pub fn frame_items(items: &Vec<Vec<u8>>) -> (out: Vec<u8>)
    ensures
        out@ == frame(byte_views(items@)),
        frame_fits(byte_views(items@)),
{
    let ghost views = byte_views(items@);
    let mut out = u64_to_le_bytes(items.len() as u64);
    let mut i: usize = 0;
    proof {
        assert(views.take(0) =~= Seq::<Seq<u8>>::empty());
        assert(out@ =~= spec_u64_to_le_bytes(views.len() as u64) + frame_all(views.take(0)));
    }
    while i < items.len()
        invariant
            i <= items.len(),
            views == byte_views(items@),
            out@ == spec_u64_to_le_bytes(views.len() as u64) + frame_all(views.take(i as int)),
        decreases items.len() - i,
    {
        let item = &items[i];
        let mut len_bytes = u64_to_le_bytes(item.len() as u64);
        let mut body = slice_to_vec(item.as_slice());
        out.append(&mut len_bytes);
        out.append(&mut body);
        proof {
            let upto = views.take(i + 1);
            assert(upto.drop_last() =~= views.take(i as int));
            assert(upto.last() == item@);
            assert(out@ =~= spec_u64_to_le_bytes(views.len() as u64) + frame_all(upto));
        }
        i += 1;
    }
    proof {
        assert(views.take(items.len() as int) =~= views);
        assert forall|j: int| 0 <= j < views.len() implies (#[trigger] views[j]).len()
            <= u64::MAX by {
            assert(views[j].len() == items@[j].len());
        }
    }
    out
}

/// Reads back a list of byte strings; `None` where `bytes` lay out none.
pub fn unframe_items(bytes: &Vec<u8>) -> (out: Option<Vec<Vec<u8>>>)
    ensures
        match unframe(bytes@) {
            Some(items) => out is Some && byte_views(out->Some_0@) == items,
            None => out is None,
        },
{
    if bytes.len() < 8 {
        return None;
    }
    let count = u64_from_le_bytes(slice_subrange(bytes.as_slice(), 0, 8));
    let mut items: Vec<Vec<u8>> = Vec::new();
    let mut pos: usize = 8;
    let mut i: u64 = 0;
    proof {
        assert(byte_views(items@) =~= Seq::<Seq<u8>>::empty());
    }
    while i < count
        invariant
            i <= count,
            8 <= pos <= bytes.len(),
            count == spec_u64_from_le_bytes(bytes@.subrange(0, 8)),
            parse_n(bytes@, i as nat) == Some((byte_views(items@), pos as int)),
        decreases count - i,
    {
        if bytes.len() - pos < 8 {
            proof {
                lemma_parse_stays_failed(bytes@, (i + 1) as nat, count as nat);
            }
            return None;
        }
        let len = u64_from_le_bytes(slice_subrange(bytes.as_slice(), pos, pos + 8));
        if len > (bytes.len() - pos - 8) as u64 {
            proof {
                lemma_parse_stays_failed(bytes@, (i + 1) as nat, count as nat);
            }
            return None;
        }
        let start: usize = pos + 8;
        let end: usize = start + len as usize;
        let item = slice_to_vec(slice_subrange(bytes.as_slice(), start, end));
        proof {
            assert(byte_views(items@.push(item)) =~= byte_views(items@).push(item@));
        }
        items.push(item);
        pos = end;
        i += 1;
    }
    if pos == bytes.len() {
        Some(items)
    } else {
        None
    }
}

} // verus!
