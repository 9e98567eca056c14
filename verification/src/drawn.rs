//! What is drawn from the machine: the time and fresh identifiers.

use crate::revision::hex_of;
use vstd::prelude::*;

verus! {

/// `SystemTime::elapsed` of std, on `UNIX_EPOCH`: how long ago 1970 began by
/// the machine's clock, as whole seconds and the nanoseconds beyond them, or
/// `None` where the clock stands before 1970. Nothing is claimed of the
/// numbers.
#[verifier::external_body]
fn since_epoch() -> (elapsed: Option<(u64, u32)>) {
    std::time::UNIX_EPOCH.elapsed().ok().map(|d| (d.as_secs(), d.subsec_nanos()))
}

/// `chrono::DateTime::from_timestamp` with `DateTime::timestamp`: the
/// seconds come back as they went in, where chrono has a date and time for
/// them and the nanoseconds; `None` where it has none.
#[verifier::external_body]
fn timestamp_of(secs: i64, nanos: u32) -> (t: Option<i64>)
    ensures
        t is Some ==> t->Some_0 == secs,
{
    chrono::DateTime::from_timestamp(secs, nanos).map(|t| t.timestamp())
}

/// The seconds since 1970 on the machine's clock, or `None` where the clock
/// stands before 1970 or so far off that there is no date for it.
pub fn now_timestamp() -> (t: Option<i64>)
    ensures
        t is Some ==> t->Some_0 >= 0,
{
    match since_epoch() {
        None => None,
        Some((secs, nanos)) => {
            if secs > i64::MAX as u64 {
                None
            } else {
                timestamp_of(secs as i64, nanos)
            }
        },
    }
}

/// The sixteen bytes of a random identifier: the random bytes with the
/// marks of the version 4 and of the variant of RFC 4122 set.
pub open spec fn identifier_bytes(random: Seq<u8>) -> Seq<u8> {
    random.update(8, (random[8] & 0x3f) | 0x80).update(6, (random[6] & 0x0f) | 0x40)
}

/// Sixteen bytes in lower-case hexadecimal, in groups of 8, 4, 4, 4 and 12
/// digits with hyphens between them.
pub open spec fn hyphenated(bytes: Seq<u8>) -> Seq<char> {
    hex_of(bytes.subrange(0, 4)) + seq!['-'] + hex_of(bytes.subrange(4, 6)) + seq!['-'] + hex_of(
        bytes.subrange(6, 8),
    ) + seq!['-'] + hex_of(bytes.subrange(8, 10)) + seq!['-'] + hex_of(bytes.subrange(10, 16))
}

/// The text of the identifier that is made of sixteen random bytes.
pub open spec fn identifier_text(random: Seq<u8>) -> Seq<char> {
    hyphenated(identifier_bytes(random))
}

/// The text is that of an identifier made of some sixteen bytes.
pub open spec fn is_identifier(id: Seq<char>) -> bool {
    exists|random: Seq<u8>| random.len() == 16 && id == #[trigger] identifier_text(random)
}

/// `getrandom::fill`: sixteen bytes of the operating system's random
/// source, or `None` where it gives none. Nothing is claimed of the bytes.
#[verifier::external_body]
fn random_bytes() -> (bytes: Option<[u8; 16]>) {
    let mut bytes = [0u8; 16];
    getrandom::fill(&mut bytes).ok()?;
    Some(bytes)
}

/// `uuid::Builder::from_random_bytes` with `Builder::into_uuid`, written
/// out by the identifier's `Display`: the bytes with the marks of version
/// and variant set, in hyphenated lower-case hexadecimal.
#[verifier::external_body]
fn uuid_text(bytes: [u8; 16]) -> (id: String)
    ensures
        id@ == identifier_text(bytes@),
{
    uuid::Builder::from_random_bytes(bytes).into_uuid().to_string()
}

/// The identifier that is made of the given random bytes.
pub fn identifier_from(random: [u8; 16]) -> (id: String)
    ensures
        id@ == identifier_text(random@),
        is_identifier(id@),
{
    uuid_text(random)
}

/// A fresh random identifier, or `None` where the operating system gives no
/// random bytes.
pub fn new_identifier() -> (id: Option<String>)
    ensures
        id is Some ==> is_identifier(id->Some_0@),
{
    match random_bytes() {
        None => None,
        Some(random) => Some(identifier_from(random)),
    }
}

} // verus!
