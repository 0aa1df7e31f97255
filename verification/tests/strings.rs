use brave_flea::bytes::{be_i32, be_u16, be_u32};
use brave_flea::header::DBHeader;
use brave_flea::odb_error::ODBError;
use brave_flea::string_utils::{mac_roman_char, read_fixed_string, read_pascal_string};
use brave_flea::table::{classic_mac_to_unix_seconds, DiskHeader, DiskSymbolRecord};
use brave_flea::window_info::WindowInfo;

#[test]
fn decode_fixed_covers_all_bytes_injectively() {
    let all: Vec<u8> = (0u8..=255).collect();
    let decoded = read_fixed_string(&all);
    let chars: Vec<char> = decoded.chars().collect();
    assert_eq!(chars.len(), 256);
    for i in 0..256 {
        for j in 0..i {
            assert_ne!(chars[i], chars[j]);
        }
    }
}

#[test]
fn decode_fixed_known_glyphs() {
    assert_eq!(mac_roman_char(0x41), 'A');
    assert_eq!(mac_roman_char(0x11), '\u{2318}');
    assert_eq!(mac_roman_char(0x12), '\u{21E7}');
    assert_eq!(mac_roman_char(0x13), '\u{2325}');
    assert_eq!(mac_roman_char(0x14), '\u{2303}');
    assert_eq!(mac_roman_char(0x8E), 'é');
    assert_eq!(mac_roman_char(0xAD), '\u{2260}');
    assert_eq!(mac_roman_char(0xCE), '\u{0152}');
    assert_eq!(mac_roman_char(0xD7), '\u{25CA}');
    assert_eq!(mac_roman_char(0xDB), '\u{20AC}');
    assert_eq!(mac_roman_char(0xF0), '\u{F8FF}');
}

#[test]
fn decode_length_prefixed_equals_fixed_prefix() {
    let bytes = [3u8, b'a', b'b', b'c', b'x', b'y'];
    assert_eq!(read_pascal_string(&bytes), read_fixed_string(&bytes[1..4]));
    assert_eq!(read_pascal_string(&bytes), "abc");
    let empty = [0u8, b'z'];
    assert_eq!(read_pascal_string(&empty), "");
}

#[test]
fn decode_fixed_legacy_accents() {
    // "péché" in the legacy codepage
    let bytes = [b'p', 0x8E, b'c', b'h', 0x8E];
    assert_eq!(read_fixed_string(&bytes), "péché");
}

#[test]
fn classic_mac_epoch_conversion() {
    assert_eq!(classic_mac_to_unix_seconds(2082844800), 0);
    assert_eq!(classic_mac_to_unix_seconds(0), -2082844800);
    // 2082844800 + 86400 is 1970-01-02T00:00:00Z
    assert_eq!(classic_mac_to_unix_seconds(2082931200), 86400);
}

#[test]
fn big_endian_readers() {
    let bytes = [0x12u8, 0x34, 0x56, 0x78, 0xFF, 0xFF, 0xFF, 0xFF];
    assert_eq!(be_u16(&bytes, 0), 0x1234);
    assert_eq!(be_u32(&bytes, 0), 0x12345678);
    assert_eq!(be_i32(&bytes, 0), 0x12345678);
    assert_eq!(be_i32(&bytes, 4), -1);
    assert_eq!(be_u32(&bytes, 4), 0xFFFF_FFFF);
}

#[test]
fn db_header_decodes_free_bit_size_and_variance() {
    let mut bytes = Vec::new();
    bytes.extend_from_slice(&(0x8000_0010u32).to_be_bytes());
    bytes.extend_from_slice(&4u32.to_be_bytes());
    let h = DBHeader::new(&bytes).unwrap();
    assert!(h.is_free);
    assert_eq!(h.size, 0x10);
    assert_eq!(h.variance, 4);

    let mut live = Vec::new();
    live.extend_from_slice(&24u32.to_be_bytes());
    live.extend_from_slice(&0u32.to_be_bytes());
    let h = DBHeader::new(&live).unwrap();
    assert!(!h.is_free);
    assert_eq!(h.size, 24);
}

#[test]
fn disk_header_decodes_fields() {
    let mut bytes = Vec::new();
    bytes.extend_from_slice(&3u16.to_be_bytes());
    bytes.extend_from_slice(&1u16.to_be_bytes());
    bytes.extend_from_slice(&1000u32.to_be_bytes());
    bytes.extend_from_slice(&2000u32.to_be_bytes());
    bytes.extend_from_slice(&7u32.to_be_bytes());
    let h = DiskHeader::new(&bytes).unwrap();
    assert_eq!(h.version, 3);
    assert_eq!(h.sort_order, 1);
    assert_eq!(h.time_created, 1000);
    assert_eq!(h.time_last_saved, 2000);
    assert_eq!(h.flags, 7);
}

#[test]
fn disk_symbol_record_decodes_fields() {
    let mut bytes = Vec::new();
    bytes.extend_from_slice(&5u32.to_be_bytes());
    bytes.push(3); // value type
    bytes.push(0x20); // packed value version
    bytes.extend_from_slice(&42u32.to_be_bytes());
    let rec = DiskSymbolRecord::new(&bytes).unwrap();
    assert_eq!(rec.index_key, 5);
    assert_eq!(rec.value_type, 3);
    assert_eq!(rec.version, 0x20);
    assert_eq!(rec.data, vec![0, 0, 0, 42]);

    assert!(DiskSymbolRecord::new(&bytes[0..6]).is_err());
}

#[test]
fn window_info_decodes_record() {
    let mut bytes = vec![0u8; 62];
    bytes[0..2].copy_from_slice(&10u16.to_be_bytes()); // top
    bytes[2..4].copy_from_slice(&20u16.to_be_bytes()); // left
    bytes[4..6].copy_from_slice(&300u16.to_be_bytes()); // bottom
    bytes[6..8].copy_from_slice(&400u16.to_be_bytes()); // right
    bytes[8] = 6;
    bytes[9..15].copy_from_slice(b"Geneva");
    bytes[44..46].copy_from_slice(&12u16.to_be_bytes()); // font size
    bytes[46..48].copy_from_slice(&1u16.to_be_bytes()); // font style
    bytes[52] = 1; // hidden
    let w = WindowInfo::new(&bytes).unwrap();
    assert_eq!(w.window_rect.top, 10);
    assert_eq!(w.window_rect.left, 20);
    assert_eq!(w.window_rect.bottom, 300);
    assert_eq!(w.window_rect.right, 400);
    assert_eq!(w.font_string, "Geneva");
    assert_eq!(w.font_size, 12);
    assert_eq!(w.font_style, 1);
    assert!(w.is_hidden);
    assert!(!w.is_unused);
}

#[test]
fn window_info_rejects_overlong_name() {
    let mut bytes = vec![0u8; 62];
    bytes[8] = 33; // a 33-byte name cannot fit the 33-byte field
    assert!(WindowInfo::new(&bytes).is_err());
}

#[test]
fn odb_error_message() {
    assert_eq!(
        ODBError::BadDatabaseVersion.as_str(),
        "The version number of this database file is not recognized by this version of Brave Flea."
    );
}
