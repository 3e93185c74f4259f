use panic_ramlog::capture::{encode, record_location, record_message, seal, Detail, Location};
use panic_ramlog::header::{read_header, PanicInfoMeta, HEADER_SIZE};

fn location<'a>(file: &'a str, line: u32, column: u32) -> Option<Location<'a>> {
    Some(Location { file, line, column })
}

#[test]
fn round_trip_returns_the_fields_once() {
    let mut region = [0u8; 64];
    let written = encode(&mut region, location("x.rs", 12, 5), "boom", Detail::Full);
    let found = PanicInfoMeta::detect_and_reset(&mut region).expect("a record was written");
    assert_eq!(found, written);
    assert_eq!(found.filename_len, 4);
    assert_eq!(found.line, 12);
    assert_eq!(found.column, 5);
    assert_eq!(found.message_len, 4);
    assert_eq!(found.xor, 0x58);
    assert_eq!(found.filename(&region), "x.rs");
    assert_eq!(found.message(&region), "boom");
    assert_eq!(PanicInfoMeta::detect_and_reset(&mut region), None);
}

#[test]
fn encode_lays_out_header_file_name_and_message() {
    let mut region = [0u8; 24];
    encode(&mut region, location("x.rs", 12, 5), "boom", Detail::Full);
    let mut expected = [0u8; 24];
    expected[..12].copy_from_slice(&[4, 12, 0, 0, 0, 5, 0, 0, 0, 4, 0, 0x58]);
    expected[12..16].copy_from_slice(b"x.rs");
    expected[16..20].copy_from_slice(b"boom");
    assert_eq!(region, expected);
}

#[test]
fn detection_erases_only_the_header() {
    let mut region = [0u8; 24];
    encode(&mut region, location("x.rs", 12, 5), "boom", Detail::Full);
    let before = region;
    assert!(PanicInfoMeta::detect_and_reset(&mut region).is_some());
    assert_eq!(region[..12], [0u8; 12]);
    assert_eq!(region[12..], before[12..]);
}

#[test]
fn failed_detection_leaves_the_region_alone() {
    let mut region = [0u8; 20];
    region[15] = 1;
    let before = region;
    assert_eq!(PanicInfoMeta::detect_and_reset(&mut region), None);
    assert_eq!(region, before);
}

#[test]
fn message_is_cut_to_the_room_that_is_left() {
    let mut region = [0u8; 12 + 4 + 3];
    let meta = encode(&mut region, location("x.rs", 1, 2), "boom boom", Detail::Full);
    assert_eq!(meta.filename_len, 4);
    assert_eq!(meta.message_len, 3);
    assert_eq!(&region[16..], b"boo");
    let found = PanicInfoMeta::detect_and_reset(&mut region).expect("a record was written");
    assert_eq!(found.message(&region), "boo");
    assert_eq!(found.filename(&region), "x.rs");
}

#[test]
fn message_with_no_room_is_dropped() {
    let mut region = [0u8; 16];
    let meta = encode(&mut region, location("x.rs", 1, 2), "boom", Detail::Full);
    assert_eq!(meta.message_len, 0);
    let found = PanicInfoMeta::detect_and_reset(&mut region).expect("a record was written");
    assert_eq!(found.message(&region), "");
    assert_eq!(found.filename(&region), "x.rs");
}

#[test]
fn message_length_is_stored_modulo_65536() {
    let mut region = vec![0u8; 12 + 2 + 70_000];
    let message = "m".repeat(70_000);
    let meta = encode(&mut region, location("a", 1, 1), &message, Detail::Full);
    assert_eq!(meta.filename_len, 1);
    assert_eq!(meta.message_len, 4464);
    assert!(region[13..13 + 70_000].iter().all(|b| *b == b'm'));
    assert_eq!(region[13 + 70_000], 0);
    let found = PanicInfoMeta::detect_and_reset(&mut region).expect("a record was written");
    assert_eq!(found.message(&region).len(), 4464);
}

#[test]
fn long_file_name_is_cut_to_255_bytes() {
    let file = "f".repeat(300);
    let mut region = vec![0xaau8; 12 + 255 + 8];
    let meta = encode(&mut region, location(&file, 7, 9), "boom", Detail::Full);
    assert_eq!(meta.filename_len, 255);
    assert_eq!(meta.message_len, 4);
    assert!(region[12..267].iter().all(|b| *b == b'f'));
    assert_eq!(&region[267..271], b"boom");
    assert_eq!(&region[271..], [0xaa; 4]);
    let found = PanicInfoMeta::detect_and_reset(&mut region).expect("a record was written");
    assert_eq!(found.filename(&region), &file[..255]);
    assert_eq!(found.message(&region), "boom");
}

#[test]
fn file_name_of_255_bytes_is_kept_whole() {
    let file = "g".repeat(255);
    let mut region = vec![0u8; 300];
    let meta = encode(&mut region, location(&file, 7, 9), "", Detail::Full);
    assert_eq!(meta.filename_len, 255);
    assert_eq!(meta.filename(&region), file);
}

#[test]
fn file_name_is_cut_to_the_region() {
    let mut region = [0u8; 15];
    let meta = encode(&mut region, location("main.rs", 3, 4), "boom", Detail::Full);
    assert_eq!(meta.filename_len, 3);
    assert_eq!(meta.message_len, 0);
    assert_eq!(&region[12..], b"mai");
    let found = PanicInfoMeta::detect_and_reset(&mut region).expect("a record was written");
    assert_eq!(found.filename(&region), "mai");
}

#[test]
fn region_of_header_size_holds_an_empty_record() {
    let mut region = [0x11u8; 12];
    let meta = encode(&mut region, location("main.rs", 3, 4), "boom", Detail::Full);
    assert_eq!(
        meta,
        PanicInfoMeta { filename_len: 0, line: 3, column: 4, message_len: 0, xor: 0 }
    );
    assert_eq!(PanicInfoMeta::detect_and_reset(&mut region), Some(meta));
    assert_eq!(region, [0u8; 12]);
}

#[test]
fn without_location_the_message_follows_the_header() {
    let mut region = [0u8; 32];
    let meta = encode(&mut region, None, "boom", Detail::Full);
    assert_eq!(
        meta,
        PanicInfoMeta { filename_len: 0, line: 0, column: 0, message_len: 4, xor: 0x0f }
    );
    assert_eq!(&region[12..16], b"boom");
    let found = PanicInfoMeta::detect_and_reset(&mut region).expect("a record was written");
    assert_eq!(found.filename(&region), "");
    assert_eq!(found.message(&region), "boom");
}

#[test]
fn minimal_detail_writes_no_message() {
    let mut region = [0u8; 32];
    let meta = encode(&mut region, location("x.rs", 12, 5), "boom", Detail::Minimal);
    assert_eq!(
        meta,
        PanicInfoMeta { filename_len: 4, line: 12, column: 5, message_len: 0, xor: 0x57 }
    );
    assert_eq!(region[16..], [0u8; 16]);
    let found = PanicInfoMeta::detect_and_reset(&mut region).expect("a record was written");
    assert_eq!(found.filename(&region), "x.rs");
    assert_eq!(found.message(&region), "");
}

#[test]
fn stale_bytes_behind_the_text_count_for_the_checksum() {
    let mut region = [0u8; 24];
    region[22] = 0x80;
    region[23] = 0x01;
    let meta = encode(&mut region, location("x.rs", 12, 5), "boom", Detail::Full);
    assert_eq!(meta.xor, 0x58 ^ 0x81);
    assert_eq!(region[22], 0x80);
    assert_eq!(region[23], 0x01);
    assert_eq!(PanicInfoMeta::detect_and_reset(&mut region), Some(meta));
}

#[test]
fn a_new_record_overwrites_an_old_one() {
    let mut region = [0u8; 40];
    encode(&mut region, location("first.rs", 1, 1), "a long first message", Detail::Full);
    let meta = encode(&mut region, location("b.rs", 2, 3), "short", Detail::Full);
    let found = PanicInfoMeta::detect_and_reset(&mut region).expect("a record was written");
    assert_eq!(found, meta);
    assert_eq!(found.filename(&region), "b.rs");
    assert_eq!(found.message(&region), "short");
}

#[test]
fn flipping_any_bit_from_the_checksum_on_hides_the_record() {
    let mut region = [0u8; 28];
    region[26] = 0x3c;
    encode(&mut region, location("x.rs", 12, 5), "boom", Detail::Full);
    for at in 11..region.len() {
        for bit in 0..8 {
            let mut damaged = region;
            damaged[at] ^= 1 << bit;
            assert_eq!(PanicInfoMeta::detect_and_reset(&mut damaged), None);
        }
    }
}

#[test]
fn changing_any_byte_from_the_checksum_on_hides_the_record() {
    let mut region = [0u8; 20];
    encode(&mut region, location("x.rs", 12, 5), "boom", Detail::Full);
    for at in 11..region.len() {
        for delta in 1..=255u8 {
            let mut damaged = region;
            damaged[at] = damaged[at].wrapping_add(delta);
            assert_eq!(PanicInfoMeta::detect_and_reset(&mut damaged), None);
        }
    }
}

#[test]
fn a_changed_header_field_is_not_noticed() {
    let mut region = [0u8; 28];
    let meta = encode(&mut region, location("x.rs", 12, 5), "boom", Detail::Full);
    region[1] ^= 0x01;
    let found = PanicInfoMeta::detect_and_reset(&mut region).expect("the checksum still matches");
    assert_eq!(found, PanicInfoMeta { line: 13, ..meta });
}

#[test]
fn all_zero_region_reads_as_an_empty_record() {
    let mut region = [0u8; 48];
    let found = PanicInfoMeta::detect_and_reset(&mut region).expect("zeros match");
    assert_eq!(found, PanicInfoMeta::default());
    assert_eq!(found.filename(&region), "");
    assert_eq!(found.message(&region), "");
    assert_eq!(region, [0u8; 48]);
    assert_eq!(PanicInfoMeta::detect_and_reset(&mut region), Some(PanicInfoMeta::default()));
}

#[test]
fn record_whose_text_folds_to_zero_is_found_again_as_empty() {
    let mut region = [0u8; 20];
    let meta = encode(&mut region, location("aa", 3, 4), "", Detail::Full);
    assert_eq!(meta.xor, 0);
    assert_eq!(PanicInfoMeta::detect_and_reset(&mut region), Some(meta));
    assert_eq!(PanicInfoMeta::detect_and_reset(&mut region), Some(PanicInfoMeta::default()));
}

#[test]
fn record_location_copies_the_file_name() {
    let mut region = [0u8; 20];
    let meta = record_location(&mut region, location("lib.rs", 40, 2));
    assert_eq!(
        meta,
        PanicInfoMeta { filename_len: 6, line: 40, column: 2, message_len: 0, xor: 0 }
    );
    assert_eq!(region[..12], [0u8; 12]);
    assert_eq!(&region[12..18], b"lib.rs");
    assert_eq!(region[18..], [0, 0]);
}

#[test]
fn record_location_without_location_changes_nothing() {
    let mut region = [9u8; 20];
    let meta = record_location(&mut region, None);
    assert_eq!(meta, PanicInfoMeta::default());
    assert_eq!(region, [9u8; 20]);
}

#[test]
fn record_message_writes_behind_the_file_name() {
    let mut region = [0u8; 20];
    let meta = PanicInfoMeta { filename_len: 3, ..PanicInfoMeta::default() };
    assert_eq!(record_message(&mut region, &meta, "hi"), 2);
    assert_eq!(&region[15..17], b"hi");
    assert_eq!(record_message(&mut region, &meta, "overflowing"), 5);
    assert_eq!(&region[15..], b"overf");
}

#[test]
fn record_message_behind_a_file_name_that_does_not_fit_writes_nothing() {
    let mut region = [0u8; 14];
    let meta = PanicInfoMeta { filename_len: 200, ..PanicInfoMeta::default() };
    assert_eq!(record_message(&mut region, &meta, "hi"), 0);
    assert_eq!(region, [0u8; 14]);
}

#[test]
fn seal_stores_header_with_checksum() {
    let mut region = [0u8; 16];
    region[12..].copy_from_slice(&[1, 2, 4, 8]);
    let meta = PanicInfoMeta { filename_len: 2, line: 1, column: 2, message_len: 2, xor: 0x77 };
    let sealed = seal(&mut region, meta);
    assert_eq!(sealed, PanicInfoMeta { xor: 0x0f, ..meta });
    assert_eq!(read_header(&region), sealed);
    assert_eq!(region[12..], [1, 2, 4, 8]);
    assert_eq!(region.len(), HEADER_SIZE + 4);
}

#[test]
fn staged_writing_gives_the_same_record_as_encode() {
    let mut staged = [0x42u8; 40];
    let mut meta = record_location(&mut staged, location("x.rs", 12, 5));
    meta.message_len = record_message(&mut staged, &meta, "boom") as u16;
    let sealed = seal(&mut staged, meta);
    let mut whole = [0x42u8; 40];
    let encoded = encode(&mut whole, location("x.rs", 12, 5), "boom", Detail::Full);
    assert_eq!(sealed, encoded);
    assert_eq!(staged, whole);
}
