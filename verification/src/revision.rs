//! Revisions: the immutable, checksummed, numbered records of a folder's
//! states.

use vstd::prelude::*;
use vstd::slice::*;
use vstd::string::*;

verus! {

/// The sixteen bytes of the MD5 digest of `data`, as `md5::compute` gives them.
pub uninterp spec fn md5_digest(data: Seq<u8>) -> Seq<u8>;

/// `md5::compute` of the `md5` crate: the digest of `data`, which is
/// `md5_digest` of its bytes.
#[verifier::external_body]
fn md5_compute(data: &Vec<u8>) -> (digest: [u8; 16])
    ensures
        digest@ == md5_digest(data@),
{
    md5::compute(data).0
}

pub open spec fn hex_digit(n: int) -> char {
    if n == 0 {
        '0'
    } else if n == 1 {
        '1'
    } else if n == 2 {
        '2'
    } else if n == 3 {
        '3'
    } else if n == 4 {
        '4'
    } else if n == 5 {
        '5'
    } else if n == 6 {
        '6'
    } else if n == 7 {
        '7'
    } else if n == 8 {
        '8'
    } else if n == 9 {
        '9'
    } else if n == 10 {
        'a'
    } else if n == 11 {
        'b'
    } else if n == 12 {
        'c'
    } else if n == 13 {
        'd'
    } else if n == 14 {
        'e'
    } else {
        'f'
    }
}

/// The bytes in lower-case hexadecimal, two digits each.
pub open spec fn hex_of(bytes: Seq<u8>) -> Seq<char>
    decreases bytes.len(),
{
    if bytes.len() == 0 {
        Seq::empty()
    } else {
        hex_of(bytes.drop_last()) + seq![
            hex_digit(bytes.last() as int / 16),
            hex_digit(bytes.last() as int % 16),
        ]
    }
}

/// The checksum of a payload: its MD5 digest in hexadecimal.
pub open spec fn checksum(data: Seq<u8>) -> Seq<char> {
    hex_of(md5_digest(data))
}

fn hex_str(n: u8) -> (r: &'static str)
    requires
        n < 16,
    ensures
        r@ == seq![hex_digit(n as int)],
{
    proof {
        reveal_strlit("0");
        reveal_strlit("1");
        reveal_strlit("2");
        reveal_strlit("3");
        reveal_strlit("4");
        reveal_strlit("5");
        reveal_strlit("6");
        reveal_strlit("7");
        reveal_strlit("8");
        reveal_strlit("9");
        reveal_strlit("a");
        reveal_strlit("b");
        reveal_strlit("c");
        reveal_strlit("d");
        reveal_strlit("e");
        reveal_strlit("f");
    }
    let r = if n == 0 {
        "0"
    } else if n == 1 {
        "1"
    } else if n == 2 {
        "2"
    } else if n == 3 {
        "3"
    } else if n == 4 {
        "4"
    } else if n == 5 {
        "5"
    } else if n == 6 {
        "6"
    } else if n == 7 {
        "7"
    } else if n == 8 {
        "8"
    } else if n == 9 {
        "9"
    } else if n == 10 {
        "a"
    } else if n == 11 {
        "b"
    } else if n == 12 {
        "c"
    } else if n == 13 {
        "d"
    } else if n == 14 {
        "e"
    } else {
        "f"
    };
    proof {
        assert(r@ =~= seq![hex_digit(n as int)]);
    }
    r
}

/// The bytes in lower-case hexadecimal.
pub fn to_hex(bytes: &[u8]) -> (out: String)
    ensures
        out@ == hex_of(bytes@),
{
    let mut out = String::new();
    let mut i: usize = 0;
    proof {
        assert(bytes@.take(0) =~= Seq::<u8>::empty());
    }
    while i < bytes.len()
        invariant
            i <= bytes.len(),
            out@ == hex_of(bytes@.take(i as int)),
        decreases bytes.len() - i,
    {
        let b = bytes[i];
        out.append(hex_str(b / 16));
        out.append(hex_str(b % 16));
        proof {
            let upto = bytes@.take(i + 1);
            assert(upto.drop_last() =~= bytes@.take(i as int));
            assert(upto.last() == b);
            assert(out@ =~= hex_of(upto));
        }
        i += 1;
    }
    proof {
        assert(bytes@.take(bytes@.len() as int) =~= bytes@);
    }
    out
}

/// The checksum of a payload.
pub fn md5(data: &Vec<u8>) -> (out: String)
    ensures
        out@ == checksum(data@),
{
    let digest = md5_compute(data);
    to_hex(digest.as_slice())
}

/// Whether a revision still waits to be synchronized with the remote, or has
/// been acknowledged by it. It says nothing of the local disk.
#[derive(Clone, Copy, Debug, PartialEq, Eq, Structural)]
pub enum RevisionState {
    Sync,
    Ack,
}

pub struct RevisionView {
    pub base_rev_id: i64,
    pub rev_id: i64,
    pub delta_data: Seq<u8>,
    pub md5: Seq<char>,
    pub object_id: Seq<char>,
    pub user_id: Seq<char>,
}

impl RevisionView {
    /// The first revision of an object.
    pub open spec fn is_bootstrap(self) -> bool {
        self.base_rev_id == 0 && self.rev_id == 0
    }

    /// A revision that follows the one it is based on.
    pub open spec fn is_increment(self) -> bool {
        self.rev_id == self.base_rev_id + 1
    }

    /// The stored checksum is that of the payload.
    pub open spec fn checksum_ok(self) -> bool {
        self.md5 == checksum(self.delta_data)
    }
}

/// One persisted change of an object: where it stands in the sequence, the
/// payload, who wrote it, and the checksum of the payload.
pub struct Revision {
    pub base_rev_id: i64,
    pub rev_id: i64,
    pub delta_data: Vec<u8>,
    pub md5: String,
    pub object_id: String,
    pub user_id: String,
}

impl vstd::view::View for Revision {
    type V = RevisionView;

    open spec fn view(&self) -> RevisionView {
        RevisionView {
            base_rev_id: self.base_rev_id,
            rev_id: self.rev_id,
            delta_data: self.delta_data@,
            md5: self.md5@,
            object_id: self.object_id@,
            user_id: self.user_id@,
        }
    }
}

impl Revision {
    pub fn new(
        object_id: &str,
        base_rev_id: i64,
        rev_id: i64,
        delta_data: Vec<u8>,
        user_id: &str,
        md5: String,
    ) -> (r: Revision)
        ensures
            r@ == (RevisionView {
                base_rev_id,
                rev_id,
                delta_data: delta_data@,
                md5: md5@,
                object_id: object_id@,
                user_id: user_id@,
            }),
    {
        Revision {
            base_rev_id,
            rev_id,
            delta_data,
            md5,
            object_id: object_id.to_owned(),
            user_id: user_id.to_owned(),
        }
    }

    pub fn duplicate(&self) -> (r: Revision)
        ensures
            r@ == self@,
    {
        Revision {
            base_rev_id: self.base_rev_id,
            rev_id: self.rev_id,
            delta_data: slice_to_vec(self.delta_data.as_slice()),
            md5: self.md5.clone(),
            object_id: self.object_id.clone(),
            user_id: self.user_id.clone(),
        }
    }

    /// Whether the stored checksum is that of the payload.
    pub fn verify(&self) -> (ok: bool)
        ensures
            ok == self@.checksum_ok(),
    {
        let expected = md5(&self.delta_data);
        self.md5 == expected
    }
}

pub struct RecordView {
    pub revision: RevisionView,
    pub state: RevisionState,
    pub write_to_disk: bool,
}

/// A revision as the log keeps it.
pub struct RevisionRecord {
    pub revision: Revision,
    pub state: RevisionState,
    pub write_to_disk: bool,
}

impl vstd::view::View for RevisionRecord {
    type V = RecordView;

    open spec fn view(&self) -> RecordView {
        RecordView {
            revision: self.revision@,
            state: self.state,
            write_to_disk: self.write_to_disk,
        }
    }
}

impl RevisionRecord {
    pub fn duplicate(&self) -> (r: RevisionRecord)
        ensures
            r@ == self@,
    {
        RevisionRecord {
            revision: self.revision.duplicate(),
            state: self.state,
            write_to_disk: self.write_to_disk,
        }
    }
}

pub open spec fn record_views(records: Seq<RevisionRecord>) -> Seq<RecordView> {
    records.map_values(|r: RevisionRecord| r@)
}

/// The records stand in sequence: a record's number is its place, and it is
/// based on the record before it; the first is based on itself.
pub open spec fn well_sequenced(records: Seq<RecordView>) -> bool {
    forall|i: int|
        0 <= i < records.len() ==> {
            &&& (#[trigger] records[i]).revision.rev_id == i
            &&& records[i].revision.base_rev_id == if i == 0 {
                0
            } else {
                i - 1
            }
        }
}

} // verus!
