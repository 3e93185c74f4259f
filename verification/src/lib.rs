//! Panic records kept in a RAM region that survives a warm reset.
//!
//! At fault time a record is written into the region: a fixed header, the
//! file name of the fault's location and the fault's message, guarded by an
//! XOR checksum. After the reset the record is detected, handed out once and
//! its header erased.
//!
//! The library works on the region as a byte slice that the caller resolves;
//! it never allocates and none of its functions can fail.

pub mod capture;
pub mod checksum;
pub mod cursor;
pub mod guarantees;
pub mod header;
pub mod record;

pub use capture::{encode, record_location, record_message, seal, Detail, Location};
pub use checksum::xor_from;
pub use cursor::{copy_bytes, DumbCursor};
pub use header::{
    read_header, write_header, PanicInfoMeta, HEADER_SIZE, MAX_FILENAME_LEN, XOR_OFFSET,
};
