use panic_ramlog::capture::{encode, Detail, Location};
use panic_ramlog::header::PanicInfoMeta;

#[test]
fn repeated_reads_give_the_same_text() {
    let mut region = [0u8; 64];
    let file = "src/main.rs";
    encode(&mut region, Some(Location { file, line: 1, column: 1 }), "index out of bounds", Detail::Full);
    let found = PanicInfoMeta::detect_and_reset(&mut region).expect("a record was written");
    let first = (found.filename(&region), found.message(&region));
    let second = (found.filename(&region), found.message(&region));
    assert_eq!(first, ("src/main.rs", "index out of bounds"));
    assert_eq!(first, second);
    assert_eq!(found.filename_bytes(&region), found.filename_bytes(&region));
    assert_eq!(found.message_checked(&region), found.message_checked(&region));
}

#[test]
fn text_reads_the_same_before_and_after_detection() {
    let mut region = [0u8; 64];
    let meta = encode(
        &mut region,
        Some(Location { file: "a/b.rs", line: 9, column: 9 }),
        "overflow",
        Detail::Full,
    );
    assert_eq!(meta.filename(&region), "a/b.rs");
    assert_eq!(meta.message(&region), "overflow");
    let found = PanicInfoMeta::detect_and_reset(&mut region).expect("a record was written");
    assert_eq!(found.filename(&region), "a/b.rs");
    assert_eq!(found.message(&region), "overflow");
}

#[test]
fn bytes_are_read_from_behind_the_header() {
    let mut region = [0u8; 24];
    for (i, byte) in region.iter_mut().enumerate() {
        *byte = i as u8;
    }
    let meta = PanicInfoMeta { filename_len: 3, line: 0, column: 0, message_len: 4, xor: 0 };
    assert_eq!(meta.filename_bytes(&region), [12, 13, 14]);
    assert_eq!(meta.message_bytes(&region), [15, 16, 17, 18]);
}

#[test]
fn bytes_are_cut_to_the_region() {
    let region = [1u8, 2, 3, 4, 5, 6, 7, 8, 9, 10, 11, 12, 13, 14, 15, 16];
    let meta = PanicInfoMeta { filename_len: 3, line: 0, column: 0, message_len: 40, xor: 0 };
    assert_eq!(meta.filename_bytes(&region), [13, 14, 15]);
    assert_eq!(meta.message_bytes(&region), [16]);
    let long = PanicInfoMeta { filename_len: 200, line: 0, column: 0, message_len: 40, xor: 0 };
    assert_eq!(long.filename_bytes(&region), [13, 14, 15, 16]);
    assert_eq!(long.message_bytes(&region), []);
    assert_eq!(long.filename_bytes(&region[..5]), []);
    assert_eq!(long.message_bytes(&region[..5]), []);
}

#[test]
fn checked_text_accepts_utf8() {
    let mut region = [0u8; 64];
    let meta = encode(
        &mut region,
        Some(Location { file: "caf\u{e9}.rs", line: 1, column: 2 }),
        "na\u{ef}ve \u{2713}",
        Detail::Full,
    );
    assert_eq!(meta.filename_len, 8);
    assert_eq!(meta.message_len, 10);
    assert_eq!(meta.filename_checked(&region), Some("caf\u{e9}.rs"));
    assert_eq!(meta.message_checked(&region), Some("na\u{ef}ve \u{2713}"));
    assert_eq!(meta.filename(&region), "caf\u{e9}.rs");
    assert_eq!(meta.message(&region), "na\u{ef}ve \u{2713}");
}

#[test]
fn checked_text_rejects_a_character_cut_in_two() {
    let mut region = [0u8; 12 + 4 + 2];
    let meta = encode(
        &mut region,
        Some(Location { file: "x.rs", line: 1, column: 2 }),
        "h\u{e9}llo",
        Detail::Full,
    );
    assert_eq!(meta.message_len, 2);
    assert_eq!(meta.message_bytes(&region), [b'h', 0xc3]);
    assert_eq!(meta.message_checked(&region), None);
    assert_eq!(meta.filename_checked(&region), Some("x.rs"));
}

#[test]
fn checked_text_rejects_bytes_that_are_not_utf8() {
    let mut region = [0u8; 20];
    region[12] = 0xff;
    region[13] = b'a';
    region[14] = 0x80;
    let meta = PanicInfoMeta { filename_len: 2, line: 0, column: 0, message_len: 1, xor: 0 };
    assert_eq!(meta.filename_checked(&region), None);
    assert_eq!(meta.message_checked(&region), None);
    let ascii = PanicInfoMeta { filename_len: 0, line: 0, column: 0, message_len: 0, xor: 0 };
    assert_eq!(ascii.filename_checked(&region), Some(""));
}
