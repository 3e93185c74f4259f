//! The fixed-size header of a record and its byte layout.
//!
//! | offset | size | field          |
//! |--------|------|----------------|
//! | 0      | 1    | `filename_len` |
//! | 1      | 4    | `line`         |
//! | 5      | 4    | `column`       |
//! | 9      | 2    | `message_len`  |
//! | 11     | 1    | `xor`          |
//!
//! Multi-byte fields are stored least significant byte first.

use vstd::prelude::*;

verus! {

/// Number of bytes that the header occupies at the start of the region.
pub const HEADER_SIZE: usize = 12;

/// Offset of the checksum byte within the header.
pub const XOR_OFFSET: usize = 11;

/// Longest file name, in bytes, that a record can hold.
pub const MAX_FILENAME_LEN: usize = 255;

/// Header of a panic record. The region holds it first, then `filename_len`
/// bytes of file name, then `message_len` bytes of message.
#[derive(Debug, Copy, Clone, PartialEq, Eq, Structural)]
pub struct PanicInfoMeta {
    pub filename_len: u8,
    pub line: u32,
    pub column: u32,
    pub message_len: u16,
    pub xor: u8,
}

/// The header whose fields are all zero.
pub open spec fn zero_meta() -> PanicInfoMeta {
    PanicInfoMeta { filename_len: 0, line: 0, column: 0, message_len: 0, xor: 0 }
}

impl Default for PanicInfoMeta {
    fn default() -> (meta: PanicInfoMeta)
        ensures
            meta == zero_meta(),
    {
        PanicInfoMeta { filename_len: 0, line: 0, column: 0, message_len: 0, xor: 0 }
    }
}

/// The two bytes that store `x`, least significant first.
pub open spec fn u16_le_bytes(x: u16) -> Seq<u8> {
    seq![(x % 256) as u8, (x / 256) as u8]
}

/// The four bytes that store `x`, least significant first.
pub open spec fn u32_le_bytes(x: u32) -> Seq<u8> {
    seq![
        (x % 256) as u8,
        (x / 256 % 256) as u8,
        (x / 65536 % 256) as u8,
        (x / 16777216) as u8,
    ]
}

/// The number stored in the two bytes of `bytes` that start at `at`.
pub open spec fn u16_le_at(bytes: Seq<u8>, at: int) -> u16 {
    (bytes[at] + 256 * bytes[at + 1]) as u16
}

/// The number stored in the four bytes of `bytes` that start at `at`.
pub open spec fn u32_le_at(bytes: Seq<u8>, at: int) -> u32 {
    (bytes[at] + 256 * bytes[at + 1] + 65536 * bytes[at + 2] + 16777216 * bytes[at + 3]) as u32
}

/// The twelve bytes that store `meta`.
pub open spec fn header_bytes(meta: PanicInfoMeta) -> Seq<u8> {
    seq![meta.filename_len] + u32_le_bytes(meta.line) + u32_le_bytes(meta.column) + u16_le_bytes(
        meta.message_len,
    ) + seq![meta.xor]
}

/// The header that the first twelve bytes of `region` store.
pub open spec fn parse_header(region: Seq<u8>) -> PanicInfoMeta
    recommends
        region.len() >= HEADER_SIZE,
{
    PanicInfoMeta {
        filename_len: region[0],
        line: u32_le_at(region, 1),
        column: u32_le_at(region, 5),
        message_len: u16_le_at(region, 9),
        xor: region[11],
    }
}

/// The part of `region` behind the header: file name, message and whatever
/// follows them up to the region's end.
pub open spec fn payload(region: Seq<u8>) -> Seq<u8>
    recommends
        region.len() >= HEADER_SIZE,
{
    region.subrange(HEADER_SIZE as int, region.len() as int)
}

/// The bytes of a 16-bit number store that number.
pub proof fn lemma_u16_le_value(x: u16)
    ensures
        u16_le_bytes(x).len() == 2,
        u16_le_at(u16_le_bytes(x), 0) == x,
{
}

/// The bytes of a 32-bit number store that number.
pub proof fn lemma_u32_le_value(x: u32)
    ensures
        u32_le_bytes(x).len() == 4,
        u32_le_at(u32_le_bytes(x), 0) == x,
{
    let v = x as int;
    let b0 = v % 256;
    let b1 = v / 256 % 256;
    let b2 = v / 65536 % 256;
    let b3 = v / 16777216;
    assert(b0 + 256 * b1 + 65536 * b2 + 16777216 * b3 == v);
}

/// Two bytes are the bytes of the number that they store.
pub proof fn lemma_u16_le_digits(b0: u8, b1: u8)
    ensures
        u16_le_bytes((b0 + 256 * b1) as u16) == seq![b0, b1],
{
    let v: int = b0 + 256 * b1;
    assert(v % 256 == b0);
    assert(v / 256 == b1);
    assert(u16_le_bytes(v as u16) =~= seq![b0, b1]);
}

/// Four bytes are the bytes of the number that they store.
pub proof fn lemma_u32_le_digits(b0: u8, b1: u8, b2: u8, b3: u8)
    ensures
        u32_le_bytes((b0 + 256 * b1 + 65536 * b2 + 16777216 * b3) as u32) == seq![b0, b1, b2, b3],
{
    let v: int = b0 + 256 * b1 + 65536 * b2 + 16777216 * b3;
    assert(v % 256 == b0);
    assert(v / 256 == b1 + 256 * b2 + 65536 * b3);
    assert(v / 256 % 256 == b1);
    assert(v / 65536 == b2 + 256 * b3);
    assert(v / 65536 % 256 == b2);
    assert(v / 16777216 == b3);
    assert(u32_le_bytes(v as u32) =~= seq![b0, b1, b2, b3]);
}

/// A header has exactly twelve bytes.
pub proof fn lemma_header_bytes_len(meta: PanicInfoMeta)
    ensures
        header_bytes(meta).len() == HEADER_SIZE,
{
}

/// Parsing the bytes of a header gives the header back, whatever follows them.
pub proof fn lemma_parse_header_bytes(meta: PanicInfoMeta, rest: Seq<u8>)
    ensures
        parse_header(header_bytes(meta) + rest) == meta,
{
    let stored = header_bytes(meta) + rest;
    let line = u32_le_bytes(meta.line);
    let column = u32_le_bytes(meta.column);
    let message_len = u16_le_bytes(meta.message_len);
    lemma_u32_le_value(meta.line);
    lemma_u32_le_value(meta.column);
    lemma_u16_le_value(meta.message_len);
    assert(stored[0] == meta.filename_len);
    assert(stored[1] == line[0] && stored[2] == line[1] && stored[3] == line[2] && stored[4]
        == line[3]);
    assert(stored[5] == column[0] && stored[6] == column[1] && stored[7] == column[2] && stored[8]
        == column[3]);
    assert(stored[9] == message_len[0] && stored[10] == message_len[1]);
    assert(stored[11] == meta.xor);
    assert(u32_le_at(stored, 1) == u32_le_at(line, 0));
    assert(u32_le_at(stored, 5) == u32_le_at(column, 0));
    assert(u16_le_at(stored, 9) == u16_le_at(message_len, 0));
}

/// Storing the header that a region's first twelve bytes parse to gives those
/// twelve bytes back.
pub proof fn lemma_header_bytes_parse(region: Seq<u8>)
    requires
        region.len() >= HEADER_SIZE,
    ensures
        header_bytes(parse_header(region)) == region.subrange(0, HEADER_SIZE as int),
{
    let meta = parse_header(region);
    lemma_u32_le_digits(region[1], region[2], region[3], region[4]);
    lemma_u32_le_digits(region[5], region[6], region[7], region[8]);
    lemma_u16_le_digits(region[9], region[10]);
    assert(u32_le_bytes(meta.line) == seq![region[1], region[2], region[3], region[4]]);
    assert(u32_le_bytes(meta.column) == seq![region[5], region[6], region[7], region[8]]);
    assert(u16_le_bytes(meta.message_len) == seq![region[9], region[10]]);
    assert(header_bytes(meta) =~= region.subrange(0, HEADER_SIZE as int));
}

/// Reads the number stored in the two bytes of `bytes` that start at `at`.
fn read_u16_le(bytes: &[u8], at: usize) -> (x: u16)
    requires
        at + 2 <= bytes@.len(),
    ensures
        x == u16_le_at(bytes@, at as int),
{
    let low: u16 = bytes[at] as u16;
    let high: u16 = bytes[at + 1] as u16;
    low + 256 * high
}

/// Reads the number stored in the four bytes of `bytes` that start at `at`.
fn read_u32_le(bytes: &[u8], at: usize) -> (x: u32)
    requires
        at + 4 <= bytes@.len(),
    ensures
        x == u32_le_at(bytes@, at as int),
{
    let b0: u32 = bytes[at] as u32;
    let b1: u32 = bytes[at + 1] as u32;
    let b2: u32 = bytes[at + 2] as u32;
    let b3: u32 = bytes[at + 3] as u32;
    b0 + 256 * b1 + 65536 * b2 + 16777216 * b3
}

/// Reads the header that the first twelve bytes of `region` store.
pub fn read_header(region: &[u8]) -> (meta: PanicInfoMeta)
    requires
        region@.len() >= HEADER_SIZE,
    ensures
        meta == parse_header(region@),
{
    PanicInfoMeta {
        filename_len: region[0],
        line: read_u32_le(region, 1),
        column: read_u32_le(region, 5),
        message_len: read_u16_le(region, 9),
        xor: region[11],
    }
}

/// Stores `meta` in the first twelve bytes of `region` and leaves the rest of
/// the region as it is.
pub fn write_header(region: &mut [u8], meta: PanicInfoMeta)
    requires
        old(region)@.len() >= HEADER_SIZE,
    ensures
        final(region)@ == header_bytes(meta) + payload(old(region)@),
{
    region[0] = meta.filename_len;
    region[1] = (meta.line % 256) as u8;
    region[2] = (meta.line / 256 % 256) as u8;
    region[3] = (meta.line / 65536 % 256) as u8;
    region[4] = (meta.line / 16777216) as u8;
    region[5] = (meta.column % 256) as u8;
    region[6] = (meta.column / 256 % 256) as u8;
    region[7] = (meta.column / 65536 % 256) as u8;
    region[8] = (meta.column / 16777216) as u8;
    region[9] = (meta.message_len % 256) as u8;
    region[10] = (meta.message_len / 256) as u8;
    region[11] = meta.xor;
    assert(region@ =~= header_bytes(meta) + payload(old(region)@));
}

} // verus!
