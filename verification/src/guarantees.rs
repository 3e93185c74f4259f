//! What holds of writing and detecting records, proved from the definitions.

use vstd::prelude::*;
use vstd::string::StringSliceAdditionalSpecFns;
use vstd::utf8::{encode_utf8_decode_utf8, encode_utf8_valid_utf8, valid_utf8};
use crate::capture::{
    encoded, encoded_meta, room_behind, stored_filename_len, with_filename, with_text,
    written_message_len,
};
use crate::checksum::{lemma_xor_fold_update, lemma_xor_fold_zeros, xor_fold};
use crate::cursor::{min_len, overlay};
use crate::header::{
    header_bytes, lemma_header_bytes_len, lemma_parse_header_bytes, parse_header, payload, zero_meta, PanicInfoMeta,
    HEADER_SIZE, MAX_FILENAME_LEN, XOR_OFFSET,
};
use crate::record::{detected, erased, holds_record, span};

verus! {

/// `byte` with the bit of index `bit` inverted.
pub open spec fn flip_bit(byte: u8, bit: u8) -> u8
    recommends
        bit < 8,
{
    byte ^ (1u8 << bit)
}

/// Header, file name and message of a written record lie within the region:
/// the stored file name has at most 255 bytes, the stored message length
/// never exceeds the room behind the file name, and writing changes neither
/// the region's length nor a byte behind the text.
pub proof fn lemma_record_fits(
    region: Seq<u8>,
    file: Seq<u8>,
    line: u32,
    column: u32,
    message: Seq<u8>,
)
    requires
        region.len() >= HEADER_SIZE,
    ensures
        ({
            let meta = encoded_meta(region, file, line, column, message);
            let stored = encoded(region, file, line, column, message);
            let written = written_message_len(
                message.len() as int,
                meta.filename_len as int,
                region.len() as int,
            );
            &&& stored.len() == region.len()
            &&& meta.filename_len <= MAX_FILENAME_LEN
            &&& meta.filename_len == stored_filename_len(file.len() as int, region.len() as int)
            &&& 0 <= written <= room_behind(meta.filename_len as int, region.len() as int)
            &&& meta.message_len <= written
            &&& HEADER_SIZE + meta.filename_len + meta.message_len <= region.len()
            &&& forall|i: int|
                HEADER_SIZE + meta.filename_len + written <= i < region.len() ==> stored[i]
                    == region[i]
        }),
{
    let meta = encoded_meta(region, file, line, column, message);
    lemma_text_layout(region, file, message);
    lemma_header_bytes_len(meta);
    lemma_behind_header(
        header_bytes(meta),
        with_text(region, file, message),
        HEADER_SIZE as int,
        HEADER_SIZE as int,
    );
}

/// A message that is longer than the room behind the file name is cut to
/// exactly that room; a shorter one is written whole.
pub proof fn lemma_message_truncation(message_len: int, filename_len: int, region_len: int)
    requires
        0 <= message_len,
    ensures
        ({
            let room = room_behind(filename_len, region_len);
            let written = written_message_len(message_len, filename_len, region_len);
            &&& written <= room
            &&& message_len >= room ==> written == room
            &&& message_len <= room ==> written == message_len
        }),
{
}

/// A file name longer than 255 bytes is stored as exactly its first 255
/// bytes where the region has room for them, and a stored file name never
/// reaches beyond the region.
pub proof fn lemma_filename_clamping(region: Seq<u8>, file: Seq<u8>)
    requires
        region.len() >= HEADER_SIZE,
    ensures
        ({
            let filename_len = stored_filename_len(file.len() as int, region.len() as int);
            let stored = with_filename(region, file);
            &&& 0 <= filename_len <= MAX_FILENAME_LEN
            &&& HEADER_SIZE + filename_len <= region.len()
            &&& file.len() > MAX_FILENAME_LEN && region.len() >= HEADER_SIZE + MAX_FILENAME_LEN
                ==> filename_len == MAX_FILENAME_LEN
            &&& stored.len() == region.len()
            &&& stored.subrange(HEADER_SIZE as int, HEADER_SIZE + filename_len) == file.take(
                filename_len,
            )
            &&& forall|i: int|
                0 <= i < region.len() && !(HEADER_SIZE <= i < HEADER_SIZE + filename_len)
                    ==> stored[i] == region[i]
        }),
{
    let filename_len = stored_filename_len(file.len() as int, region.len() as int);
    let stored = with_filename(region, file);
    assert(stored.subrange(HEADER_SIZE as int, HEADER_SIZE + filename_len) =~= file.take(
        filename_len,
    ));
}

/// Where file name and message lie once they have been copied into the
/// region, and that the bytes behind them are untouched.
pub proof fn lemma_text_layout(region: Seq<u8>, file: Seq<u8>, message: Seq<u8>)
    requires
        region.len() >= HEADER_SIZE,
    ensures
        ({
            let filename_len = stored_filename_len(file.len() as int, region.len() as int);
            let written = written_message_len(
                message.len() as int,
                filename_len,
                region.len() as int,
            );
            let text = with_text(region, file, message);
            &&& text.len() == region.len()
            &&& 0 <= filename_len <= MAX_FILENAME_LEN
            &&& 0 <= written
            &&& HEADER_SIZE + filename_len + written <= region.len()
            &&& text.subrange(HEADER_SIZE as int, HEADER_SIZE + filename_len) == file.take(
                filename_len,
            )
            &&& text.subrange(HEADER_SIZE + filename_len, HEADER_SIZE + filename_len + written)
                == message.take(written)
            &&& forall|i: int|
                HEADER_SIZE + filename_len + written <= i < region.len() ==> text[i] == region[i]
        }),
{
    let filename_len = stored_filename_len(file.len() as int, region.len() as int);
    let written = written_message_len(message.len() as int, filename_len, region.len() as int);
    let text = with_text(region, file, message);
    assert(text.subrange(HEADER_SIZE as int, HEADER_SIZE + filename_len) =~= file.take(
        filename_len,
    ));
    assert(text.subrange(HEADER_SIZE + filename_len, HEADER_SIZE + filename_len + written)
        =~= message.take(written));
}

/// Behind a header of twelve bytes a region reads as it did before the
/// header was stored.
pub proof fn lemma_behind_header(head: Seq<u8>, region: Seq<u8>, from: int, to: int)
    requires
        head.len() == HEADER_SIZE,
        HEADER_SIZE <= from <= to <= region.len(),
    ensures
        (head + payload(region)).len() == region.len(),
        payload(head + payload(region)) == payload(region),
        (head + payload(region)).subrange(from, to) == region.subrange(from, to),
{
    assert(payload(head + payload(region)) =~= payload(region));
    assert((head + payload(region)).subrange(from, to) =~= region.subrange(from, to));
}

/// Writing a record and then looking for one finds it: the header is the
/// one that was written, with the given line and column, and the file name
/// and the message that it describes are the given ones as far as they were
/// stored.
pub proof fn lemma_round_trip(
    region: Seq<u8>,
    file: Seq<u8>,
    line: u32,
    column: u32,
    message: Seq<u8>,
)
    requires
        region.len() >= HEADER_SIZE,
    ensures
        ({
            let meta = encoded_meta(region, file, line, column, message);
            let stored = encoded(region, file, line, column, message);
            &&& detected(stored) == Some(meta)
            &&& meta.line == line
            &&& meta.column == column
            &&& meta.filename_span(stored) == file.take(meta.filename_len as int)
            &&& meta.message_span(stored) == message.take(meta.message_len as int)
        }),
{
    let meta = encoded_meta(region, file, line, column, message);
    let head = header_bytes(meta);
    let text = with_text(region, file, message);
    let stored = head + payload(text);
    let filename_len = stored_filename_len(file.len() as int, region.len() as int);
    let written = written_message_len(message.len() as int, filename_len, region.len() as int);
    let message_len = written % 65536;
    let start = HEADER_SIZE + filename_len;
    lemma_text_layout(region, file, message);
    lemma_header_bytes_len(meta);
    lemma_parse_header_bytes(meta, payload(text));
    assert(meta.filename_len == filename_len);
    assert(meta.message_len == message_len);
    assert(0 <= message_len <= written);
    lemma_behind_header(head, text, HEADER_SIZE as int, start);
    lemma_behind_header(head, text, start, start + message_len);
    assert(holds_record(stored));
    assert(meta.filename_span(stored) == stored.subrange(HEADER_SIZE as int, start));
    assert(meta.message_span(stored) == stored.subrange(start, start + message_len));
    assert(text.subrange(start, start + message_len) =~= text.subrange(
        start,
        start + written,
    ).take(message_len));
    assert(message.take(written).take(message_len) =~= message.take(message_len));
}

/// A file name of at most 255 bytes and a message of fewer than 65536 bytes
/// that both fit in the region come back whole.
pub proof fn lemma_round_trip_whole(
    region: Seq<u8>,
    file: Seq<u8>,
    line: u32,
    column: u32,
    message: Seq<u8>,
)
    requires
        file.len() <= MAX_FILENAME_LEN,
        message.len() < 65536,
        HEADER_SIZE + file.len() + message.len() <= region.len(),
    ensures
        ({
            let meta = encoded_meta(region, file, line, column, message);
            let stored = encoded(region, file, line, column, message);
            &&& detected(stored) == Some(meta)
            &&& meta.filename_len == file.len()
            &&& meta.message_len == message.len()
            &&& meta.filename_span(stored) == file
            &&& meta.message_span(stored) == message
        }),
{
    let meta = encoded_meta(region, file, line, column, message);
    let filename_len = stored_filename_len(file.len() as int, region.len() as int);
    let written = written_message_len(message.len() as int, filename_len, region.len() as int);
    assert(filename_len == file.len());
    assert(written == message.len());
    assert(meta.filename_len == file.len());
    assert(meta.message_len == message.len());
    assert(file.take(file.len() as int) =~= file);
    assert(message.take(message.len() as int) =~= message);
    lemma_round_trip(region, file, line, column, message);
}

/// File name and message that were given as text and stored whole are text
/// again when they are read: their bytes are UTF-8, so the text may be read
/// unvalidated, and any text with these bytes is the text that was given.
pub proof fn lemma_round_trip_text(
    region: Seq<u8>,
    file: &str,
    line: u32,
    column: u32,
    message: &str,
)
    requires
        file.spec_bytes().len() <= MAX_FILENAME_LEN,
        message.spec_bytes().len() < 65536,
        HEADER_SIZE + file.spec_bytes().len() + message.spec_bytes().len() <= region.len(),
    ensures
        ({
            let meta = encoded_meta(
                region,
                file.spec_bytes(),
                line,
                column,
                message.spec_bytes(),
            );
            let stored = encoded(region, file.spec_bytes(), line, column, message.spec_bytes());
            &&& valid_utf8(meta.filename_span(stored))
            &&& valid_utf8(meta.message_span(stored))
            &&& forall|read: &str|
                read.spec_bytes() == meta.filename_span(stored) ==> #[trigger] read@ == file@
            &&& forall|read: &str|
                read.spec_bytes() == meta.message_span(stored) ==> #[trigger] read@ == message@
        }),
{
    lemma_round_trip_whole(region, file.spec_bytes(), line, column, message.spec_bytes());
    encode_utf8_valid_utf8(file@);
    encode_utf8_valid_utf8(message@);
    assert forall|read: &str, given: &str| read.spec_bytes() == given.spec_bytes() implies read@
        == given@ by {
        lemma_same_bytes_same_text(read, given);
    }
}

/// Two texts with the same bytes are the same text. So text that is read
/// from a record equals the text that was stored wherever the bytes are
/// equal, and reading twice gives the same text.
pub proof fn lemma_same_bytes_same_text(first: &str, second: &str)
    requires
        first.spec_bytes() == second.spec_bytes(),
    ensures
        first@ == second@,
{
    encode_utf8_decode_utf8(first@);
    encode_utf8_decode_utf8(second@);
}

/// Erasing the header leaves file name and message readable: a header that
/// was handed out describes the same bytes before and after.
pub proof fn lemma_text_survives_erasure(meta: PanicInfoMeta, region: Seq<u8>)
    requires
        region.len() >= HEADER_SIZE,
    ensures
        meta.filename_span(erased(region)) == meta.filename_span(region),
        meta.message_span(erased(region)) == meta.message_span(region),
        payload(erased(region)) == payload(region),
{
    assert(meta.filename_span(erased(region)) =~= meta.filename_span(region));
    assert(meta.message_span(erased(region)) =~= meta.message_span(region));
    assert(payload(erased(region)) =~= payload(region));
}

/// A record is found once. After its header has been erased, a second look
/// finds nothing, unless the bytes behind the header XOR to zero: then the
/// erased region reads as a record whose fields are all zero.
pub proof fn lemma_detected_once(region: Seq<u8>)
    requires
        region.len() >= HEADER_SIZE,
    ensures
        xor_fold(payload(region)) != 0 ==> detected(erased(region)) is None,
        xor_fold(payload(region)) == 0 ==> detected(erased(region)) == Some(zero_meta()),
{
    lemma_erased_is_zero_header(region);
    lemma_parse_header_bytes(zero_meta(), payload(region));
    assert(payload(erased(region)) =~= payload(region));
}

/// Erasing stores the header whose fields are all zero.
pub proof fn lemma_erased_is_zero_header(region: Seq<u8>)
    requires
        region.len() >= HEADER_SIZE,
    ensures
        erased(region) == header_bytes(zero_meta()) + payload(region),
{
    assert(erased(region) =~= header_bytes(zero_meta()) + payload(region));
}

/// A region of zero bytes reads as a record whose fields are all zero, and
/// erasing its header changes nothing.
pub proof fn lemma_zero_region(region: Seq<u8>)
    requires
        region.len() >= HEADER_SIZE,
        forall|i: int| 0 <= i < region.len() ==> region[i] == 0u8,
    ensures
        detected(region) == Some(zero_meta()),
        erased(region) == region,
        zero_meta().filename_span(region) == Seq::<u8>::empty(),
        zero_meta().message_span(region) == Seq::<u8>::empty(),
{
    lemma_xor_fold_zeros(payload(region));
    assert(erased(region) =~= region);
    assert(zero_meta().filename_span(region) =~= Seq::<u8>::empty());
    assert(zero_meta().message_span(region) =~= Seq::<u8>::empty());
}

/// Once a region holds a record, changing the checksum byte or any one byte
/// behind the header makes the record vanish.
pub proof fn lemma_changed_byte_detected(region: Seq<u8>, at: int, value: u8)
    requires
        region.len() >= HEADER_SIZE,
        holds_record(region),
        XOR_OFFSET <= at < region.len(),
        value != region[at],
    ensures
        detected(region.update(at, value)) is None,
{
    let changed = region.update(at, value);
    let sum = xor_fold(payload(region));
    if at == XOR_OFFSET {
        assert(payload(changed) =~= payload(region));
    } else {
        let before = region[at];
        assert(payload(changed) =~= payload(region).update(at - HEADER_SIZE, value));
        lemma_xor_fold_update(payload(region), at - HEADER_SIZE, value);
        assert(sum ^ before ^ value != sum) by (bit_vector)
            requires
                value != before,
        ;
    }
}

/// Once a region holds a record, inverting the checksum byte's or any later
/// byte's single bit makes the record vanish.
pub proof fn lemma_flipped_bit_detected(region: Seq<u8>, at: int, bit: u8)
    requires
        region.len() >= HEADER_SIZE,
        holds_record(region),
        XOR_OFFSET <= at < region.len(),
        bit < 8,
    ensures
        detected(region.update(at, flip_bit(region[at], bit))) is None,
{
    let before = region[at];
    assert(before ^ (1u8 << bit) != before) by (bit_vector)
        requires
            bit < 8,
    ;
    lemma_changed_byte_detected(region, at, flip_bit(before, bit));
}

/// The checksum does not cover the header's fields: after a change to one of
/// the first eleven bytes the region still reads as a record, with the
/// header that the changed bytes store.
pub proof fn lemma_header_change_unnoticed(region: Seq<u8>, at: int, value: u8)
    requires
        region.len() >= HEADER_SIZE,
        holds_record(region),
        0 <= at < XOR_OFFSET,
    ensures
        detected(region.update(at, value)) == Some(parse_header(region.update(at, value))),
{
    assert(payload(region.update(at, value)) =~= payload(region));
}

} // verus!
