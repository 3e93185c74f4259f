//! Detecting a record after the reset, and reading its text.

use vstd::prelude::*;
use vstd::slice::slice_subrange;
use vstd::string::StringSliceAdditionalSpecFns;
use vstd::utf8::valid_utf8;
use crate::checksum::{xor_fold, xor_from};
use crate::cursor::min_len;
use crate::header::{
    header_bytes, parse_header, payload, read_header, write_header, zero_meta, PanicInfoMeta,
    HEADER_SIZE,
};

verus! {

/// Whether `region` holds a record: the checksum that its header stores is
/// the XOR of all the bytes behind the header.
pub open spec fn holds_record(region: Seq<u8>) -> bool
    recommends
        region.len() >= HEADER_SIZE,
{
    parse_header(region).xor == xor_fold(payload(region))
}

/// The record that `region` holds, if it holds one.
pub open spec fn detected(region: Seq<u8>) -> Option<PanicInfoMeta>
    recommends
        region.len() >= HEADER_SIZE,
{
    if holds_record(region) {
        Some(parse_header(region))
    } else {
        None
    }
}

/// `region` with the twelve bytes of its header set to zero.
pub open spec fn erased(region: Seq<u8>) -> Seq<u8>
    recommends
        region.len() >= HEADER_SIZE,
{
    Seq::new(
        region.len(),
        |i: int|
            if i < HEADER_SIZE {
                0u8
            } else {
                region[i]
            },
    )
}

/// The part of `region` between the offsets `from` and `to`, both cut down to
/// the region's length.
pub open spec fn span(region: Seq<u8>, from: int, to: int) -> Seq<u8>
    recommends
        0 <= from <= to,
{
    region.subrange(min_len(from, region.len() as int), min_len(to, region.len() as int))
}

/// The error with which `core::str::from_utf8` rejects bytes that are not UTF-8.
#[verifier::external_type_specification]
#[verifier::external_body]
pub struct ExUtf8Error(core::str::Utf8Error);

/// Calls `core::str::from_utf8`. Trusted: the call succeeds exactly on well-formed
/// UTF-8, and the text that it returns consists of the bytes given.
#[verifier::external_body]
fn text_of<'a>(bytes: &'a [u8]) -> (text: Result<&'a str, core::str::Utf8Error>)
    ensures
        text is Ok <==> valid_utf8(bytes@),
        text matches Ok(s) ==> s.spec_bytes() == bytes@,
{
    core::str::from_utf8(bytes)
}

impl PanicInfoMeta {
    /// The bytes of the file name that this header describes in `region`:
    /// `filename_len` bytes behind the header, as far as the region reaches.
    pub open spec fn filename_span(&self, region: Seq<u8>) -> Seq<u8> {
        span(region, HEADER_SIZE as int, HEADER_SIZE + self.filename_len)
    }

    /// The bytes of the message that this header describes in `region`:
    /// `message_len` bytes behind the file name, as far as the region reaches.
    pub open spec fn message_span(&self, region: Seq<u8>) -> Seq<u8> {
        span(
            region,
            HEADER_SIZE + self.filename_len,
            HEADER_SIZE + self.filename_len + self.message_len,
        )
    }

    /// Looks for a record in `region`. If the stored checksum matches the
    /// bytes behind the header, the header is returned and its bytes in the
    /// region are set to zero, so that the record is found only once.
    /// Otherwise nothing is returned and the region stays as it is.
    /// The region must be long enough to hold a header.
    pub fn detect_and_reset(region: &mut [u8]) -> (found: Option<PanicInfoMeta>)
        requires
            old(region)@.len() >= HEADER_SIZE,
        ensures
            found == detected(old(region)@),
            found is Some ==> final(region)@ == erased(old(region)@),
            found is None ==> final(region)@ == old(region)@,
    {
        let meta = read_header(region);
        let xor: u8 = xor_from(region, HEADER_SIZE);
        if xor == meta.xor {
            write_header(region, PanicInfoMeta::default());
            assert(region@ =~= erased(old(region)@));
            Some(meta)
        } else {
            None
        }
    }

    /// The bytes of the file name, read from `region`.
    pub fn filename_bytes<'a>(&self, region: &'a [u8]) -> (bytes: &'a [u8])
        ensures
            bytes@ == self.filename_span(region@),
    {
        let from: usize = clamp(HEADER_SIZE, region.len());
        let to: usize = clamp(HEADER_SIZE + self.filename_len as usize, region.len());
        slice_subrange(region, from, to)
    }

    /// The bytes of the message, read from `region`.
    pub fn message_bytes<'a>(&self, region: &'a [u8]) -> (bytes: &'a [u8])
        ensures
            bytes@ == self.message_span(region@),
    {
        let start: usize = HEADER_SIZE + self.filename_len as usize;
        let from: usize = clamp(start, region.len());
        let to: usize = clamp(start + self.message_len as usize, region.len());
        slice_subrange(region, from, to)
    }

    /// The file name as text, or nothing where its bytes are not UTF-8.
    pub fn filename_checked<'a>(&self, region: &'a [u8]) -> (text: Option<&'a str>)
        ensures
            text is Some <==> valid_utf8(self.filename_span(region@)),
            text matches Some(s) ==> s.spec_bytes() == self.filename_span(region@),
    {
        match text_of(self.filename_bytes(region)) {
            Ok(s) => Some(s),
            Err(_) => None,
        }
    }

    /// The message as text, or nothing where its bytes are not UTF-8.
    pub fn message_checked<'a>(&self, region: &'a [u8]) -> (text: Option<&'a str>)
        ensures
            text is Some <==> valid_utf8(self.message_span(region@)),
            text matches Some(s) ==> s.spec_bytes() == self.message_span(region@),
    {
        match text_of(self.message_bytes(region)) {
            Ok(s) => Some(s),
            Err(_) => None,
        }
    }

    /// The file name as text. The caller vouches that the bytes are UTF-8,
    /// as they are when a record was written whole from text.
    pub fn filename<'a>(&self, region: &'a [u8]) -> (text: &'a str)
        requires
            valid_utf8(self.filename_span(region@)),
        ensures
            text.spec_bytes() == self.filename_span(region@),
    {
        match self.filename_checked(region) {
            Some(s) => s,
            None => "",
        }
    }

    /// The message as text. The caller vouches that the bytes are UTF-8,
    /// as they are when a record was written whole from text.
    pub fn message<'a>(&self, region: &'a [u8]) -> (text: &'a str)
        requires
            valid_utf8(self.message_span(region@)),
        ensures
            text.spec_bytes() == self.message_span(region@),
    {
        match self.message_checked(region) {
            Some(s) => s,
            None => "",
        }
    }
}

/// The smaller of an offset and a length.
fn clamp(offset: usize, len: usize) -> (r: usize)
    ensures
        r == min_len(offset as int, len as int),
{
    if offset <= len {
        offset
    } else {
        len
    }
}

} // verus!
