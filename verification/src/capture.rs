//! Writing a record at fault time.
//!
//! A record is written in one forward pass: the file name goes behind the
//! header, the message behind the file name, then the checksum is taken over
//! everything behind the header and the header is stored. Nothing here can
//! fail: text that does not fit is cut.

use vstd::prelude::*;
use vstd::string::StringSliceAdditionalSpecFns;
use crate::checksum::{xor_fold, xor_from};
use crate::cursor::{copy_bytes, min_len, overlay, DumbCursor};
use crate::header::{
    header_bytes, payload, write_header, PanicInfoMeta, HEADER_SIZE, MAX_FILENAME_LEN,
};

verus! {

/// Where in the source a fault was raised.
#[derive(Debug, Copy, Clone)]
pub struct Location<'a> {
    pub file: &'a str,
    pub line: u32,
    pub column: u32,
}

/// How much of a fault is recorded.
#[derive(Debug, Copy, Clone, PartialEq, Eq, Structural)]
pub enum Detail {
    /// File name, line, column and the message.
    Full,
    /// File name, line and column only; no message is written.
    Minimal,
}

/// The bytes of the file name of `location`; none where there is no location.
pub open spec fn file_of(location: Option<Location<'_>>) -> Seq<u8> {
    match location {
        Some(l) => l.file.spec_bytes(),
        None => Seq::empty(),
    }
}

/// The line of `location`; zero where there is no location.
pub open spec fn line_of(location: Option<Location<'_>>) -> u32 {
    match location {
        Some(l) => l.line,
        None => 0,
    }
}

/// The column of `location`; zero where there is no location.
pub open spec fn column_of(location: Option<Location<'_>>) -> u32 {
    match location {
        Some(l) => l.column,
        None => 0,
    }
}

/// The bytes of the message that `detail` lets through.
pub open spec fn message_of(detail: Detail, message: &str) -> Seq<u8> {
    match detail {
        Detail::Full => message.spec_bytes(),
        Detail::Minimal => Seq::empty(),
    }
}

/// Number of bytes of a file name of `file_len` bytes that a region of
/// `region_len` bytes stores: at most 255, and no more than fit behind the
/// header.
pub open spec fn stored_filename_len(file_len: int, region_len: int) -> int {
    min_len(min_len(file_len, MAX_FILENAME_LEN as int), region_len - HEADER_SIZE)
}

/// Number of bytes that a region of `region_len` bytes has behind the header
/// and a file name of `filename_len` bytes; zero where these do not fit.
pub open spec fn room_behind(filename_len: int, region_len: int) -> int {
    if HEADER_SIZE + filename_len <= region_len {
        region_len - HEADER_SIZE - filename_len
    } else {
        0
    }
}

/// Number of bytes of a message of `message_len` bytes that are written
/// behind a file name of `filename_len` bytes: as many as fit in the region.
pub open spec fn written_message_len(message_len: int, filename_len: int, region_len: int) -> int {
    min_len(message_len, room_behind(filename_len, region_len))
}

/// The header after the location has been recorded: the stored length of
/// the file name, line and column; message length and checksum still zero.
pub open spec fn located_meta(region_len: int, file: Seq<u8>, line: u32, column: u32)
    -> PanicInfoMeta {
    PanicInfoMeta {
        filename_len: stored_filename_len(file.len() as int, region_len) as u8,
        line,
        column,
        message_len: 0,
        xor: 0,
    }
}

/// The region after the file name has been copied behind the header.
pub open spec fn with_filename(region: Seq<u8>, file: Seq<u8>) -> Seq<u8> {
    overlay(
        region,
        HEADER_SIZE as int,
        file.take(stored_filename_len(file.len() as int, region.len() as int)),
    )
}

/// The region after file name and message have been copied behind the header.
pub open spec fn with_text(region: Seq<u8>, file: Seq<u8>, message: Seq<u8>) -> Seq<u8> {
    let filename_len = stored_filename_len(file.len() as int, region.len() as int);
    overlay(
        with_filename(region, file),
        HEADER_SIZE + filename_len,
        message.take(written_message_len(message.len() as int, filename_len, region.len() as int)),
    )
}

/// The header of the record that is written for the given fault into
/// `region`. The message length is the number of bytes written, reduced
/// modulo 65536 to fit its field.
pub open spec fn encoded_meta(
    region: Seq<u8>,
    file: Seq<u8>,
    line: u32,
    column: u32,
    message: Seq<u8>,
) -> PanicInfoMeta {
    let filename_len = stored_filename_len(file.len() as int, region.len() as int);
    let written = written_message_len(message.len() as int, filename_len, region.len() as int);
    PanicInfoMeta {
        filename_len: filename_len as u8,
        line,
        column,
        message_len: (written % 65536) as u16,
        xor: xor_fold(payload(with_text(region, file, message))),
    }
}

/// The region after the record for the given fault has been written into it.
pub open spec fn encoded(region: Seq<u8>, file: Seq<u8>, line: u32, column: u32, message: Seq<u8>)
    -> Seq<u8> {
    header_bytes(encoded_meta(region, file, line, column, message)) + payload(
        with_text(region, file, message),
    )
}

/// Records where the fault was raised: copies the file name behind the
/// header, cut to 255 bytes and to the room that the region has, and returns
/// a header with its length, the line and the column. Without a location
/// the region stays as it is and these fields are zero.
pub fn record_location(region: &mut [u8], location: Option<Location<'_>>) -> (meta: PanicInfoMeta)
    requires
        old(region)@.len() >= HEADER_SIZE,
    ensures
        meta == located_meta(
            old(region)@.len() as int,
            file_of(location),
            line_of(location),
            column_of(location),
        ),
        final(region)@ == with_filename(old(region)@, file_of(location)),
{
    match location {
        Some(l) => {
            let file = l.file.as_bytes();
            let room: usize = region.len() - HEADER_SIZE;
            let clamped: usize = if file.len() > MAX_FILENAME_LEN {
                MAX_FILENAME_LEN
            } else {
                file.len()
            };
            let filename_len: usize = if clamped > room {
                room
            } else {
                clamped
            };
            copy_bytes(region, HEADER_SIZE, file, filename_len);
            PanicInfoMeta {
                filename_len: filename_len as u8,
                line: l.line,
                column: l.column,
                message_len: 0,
                xor: 0,
            }
        },
        None => {
            assert(region@ =~= with_filename(region@, Seq::empty()));
            PanicInfoMeta { filename_len: 0, line: 0, column: 0, message_len: 0, xor: 0 }
        },
    }
}

/// Writes `message` behind the file name that `meta` describes, as much of
/// it as fits in the region, and returns the number of bytes written.
pub fn record_message(region: &mut [u8], meta: &PanicInfoMeta, message: &str) -> (written: usize)
    ensures
        written == written_message_len(
            message.spec_bytes().len() as int,
            meta.filename_len as int,
            old(region)@.len() as int,
        ),
        final(region)@ == overlay(
            old(region)@,
            HEADER_SIZE + meta.filename_len,
            message.spec_bytes().take(written as int),
        ),
{
    let start: usize = HEADER_SIZE + meta.filename_len as usize;
    let mut cursor = DumbCursor { buf: region, idx: start };
    cursor.write_str(message);
    cursor.idx - start
}

/// Completes a record: takes the checksum over everything behind the header,
/// puts it into `meta` and stores the header at the start of the region.
/// Returns the header as stored.
pub fn seal(region: &mut [u8], meta: PanicInfoMeta) -> (sealed: PanicInfoMeta)
    requires
        old(region)@.len() >= HEADER_SIZE,
    ensures
        sealed == (PanicInfoMeta { xor: xor_fold(payload(old(region)@)), ..meta }),
        final(region)@ == header_bytes(sealed) + payload(old(region)@),
{
    let sealed = PanicInfoMeta {
        filename_len: meta.filename_len,
        line: meta.line,
        column: meta.column,
        message_len: meta.message_len,
        xor: xor_from(region, HEADER_SIZE),
    };
    write_header(region, sealed);
    sealed
}

/// Writes the record of a fault into `region` and returns its header.
///
/// The file name is cut to 255 bytes and to the room behind the header, the
/// message to the room behind the file name; with `Detail::Minimal` no
/// message is written. Bytes of the region behind the text keep their value
/// and count for the checksum. The region must be long enough to hold a
/// header.
pub fn encode(region: &mut [u8], location: Option<Location<'_>>, message: &str, detail: Detail)
    -> (meta: PanicInfoMeta)
    requires
        old(region)@.len() >= HEADER_SIZE,
    ensures
        meta == encoded_meta(
            old(region)@,
            file_of(location),
            line_of(location),
            column_of(location),
            message_of(detail, message),
        ),
        final(region)@ == encoded(
            old(region)@,
            file_of(location),
            line_of(location),
            column_of(location),
            message_of(detail, message),
        ),
{
    let mut meta = record_location(region, location);
    match detail {
        Detail::Full => {
            let written = record_message(region, &meta, message);
            let message_len: u16 = #[verifier::truncate]
            (written as u16);
            assert(message_len == written % 65536) by (bit_vector)
                requires
                    message_len == written as u16,
            ;
            meta.message_len = message_len;
        },
        Detail::Minimal => {
            assert(region@ =~= with_text(old(region)@, file_of(location), Seq::empty()));
        },
    }
    seal(region, meta)
}

} // verus!
