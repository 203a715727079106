//! The serialized form of a span table.
use crate::span::{SpanKey, SpanRecord, key_of};
use vstd::arithmetic::power2::pow2;
use vstd::prelude::*;

verus! {

#[verifier::external_type_specification]
#[verifier::external_body]
pub struct ExBincodeErrorKind(bincode::ErrorKind);

/// The eight bytes of `x`, least significant first.
pub open spec fn u64_le(x: u64) -> Seq<u8> {
    Seq::new(8, |i: int| ((x as nat / pow2(8 * i as nat)) % 256) as u8)
}

/// The UTF-8 encoding of one character.
pub open spec fn utf8_char(c: char) -> Seq<u8> {
    let v = c as u32 as int;
    if v < 0x80 {
        seq![v as u8]
    } else if v < 0x800 {
        seq![(0xc0 + v / 64) as u8, (0x80 + v % 64) as u8]
    } else if v < 0x10000 {
        seq![(0xe0 + v / 4096) as u8, (0x80 + (v / 64) % 64) as u8, (0x80 + v % 64) as u8]
    } else {
        seq![
            (0xf0 + v / 262144) as u8,
            (0x80 + (v / 4096) % 64) as u8,
            (0x80 + (v / 64) % 64) as u8,
            (0x80 + v % 64) as u8,
        ]
    }
}

/// The UTF-8 encoding of a string.
pub open spec fn utf8(s: Seq<char>) -> Seq<u8> {
    s.map_values(|c: char| utf8_char(c)).flatten()
}

/// One record: the path's byte length and bytes, then the two offsets,
/// each integer as eight little-endian bytes.
pub open spec fn record_encoding(k: SpanKey) -> Seq<u8> {
    u64_le(utf8(k.0).len() as u64) + utf8(k.0) + u64_le(k.1) + u64_le(k.2)
}

/// The span table file: the number of records as eight little-endian
/// bytes, then each record in index order.
pub open spec fn span_table_encoding(records: Seq<SpanKey>) -> Seq<u8> {
    u64_le(records.len() as u64) + records.map_values(|k: SpanKey| record_encoding(k)).flatten()
}

pub open spec fn records_view(v: Seq<SpanRecord>) -> Seq<SpanKey> {
    v.map_values(|r: SpanRecord| key_of(r))
}

/// Relies on `bincode::serialize` (default options: fixed-width
/// little-endian integers, lengths as `u64`, strings as their UTF-8 bytes,
/// tuples field by field): the bytes are `span_table_encoding` of the
/// records, and it cannot fail on them. The default options set
/// no size limit, a `Vec` reports its length, and writing strings and `u64`
/// values into a `Vec<u8>` does not fail.
#[verifier::external_body]
pub(crate) fn encode_span_records(records: &Vec<SpanRecord>) -> (r: Result<Vec<u8>, Box<bincode::ErrorKind>>)
    ensures
        r is Ok,
        r is Ok ==> r->Ok_0@ == span_table_encoding(records_view(records@)),
{
    bincode::serialize(records)
}

} // verus!
