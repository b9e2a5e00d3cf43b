use xdbf::container::{decode_header, decode_xdbf, Xdbf, XdbfEntry};
use xdbf::sections::XdbfEntryData;
use xdbf::XdbfError;

fn push_u16(v: &mut Vec<u8>, x: u16, big: bool) {
    if big {
        v.extend_from_slice(&x.to_be_bytes());
    } else {
        v.extend_from_slice(&x.to_le_bytes());
    }
}

fn push_u32(v: &mut Vec<u8>, x: u32, big: bool) {
    if big {
        v.extend_from_slice(&x.to_be_bytes());
    } else {
        v.extend_from_slice(&x.to_le_bytes());
    }
}

fn push_u64(v: &mut Vec<u8>, x: u64, big: bool) {
    if big {
        v.extend_from_slice(&x.to_be_bytes());
    } else {
        v.extend_from_slice(&x.to_le_bytes());
    }
}

/// A container whose data segment is given verbatim; entries are
/// (namespace, id, relative_offset, length).
fn build_container(
    big: bool,
    entry_table_length: u32,
    entries: &[(u16, u64, u32, u32)],
    free_space_table_length: u32,
    data_segment: &[u8],
) -> Vec<u8> {
    let mut v = Vec::new();
    if big {
        v.extend_from_slice(&0x58444246u32.to_be_bytes());
    } else {
        // Any probe word that does not read as the magic in big-endian.
        v.extend_from_slice(&[0u8, 0, 0, 0]);
    }
    push_u32(&mut v, 1, big); // version
    push_u32(&mut v, entry_table_length, big);
    push_u32(&mut v, entries.len() as u32, big);
    push_u32(&mut v, free_space_table_length, big);
    push_u32(&mut v, 0, big); // free-space entries in use
    for &(ns, id, off, len) in entries {
        push_u16(&mut v, ns, big);
        push_u64(&mut v, id, big);
        push_u32(&mut v, off, big);
        push_u32(&mut v, len, big);
    }
    let pad_entries = (entry_table_length as usize - entries.len()) * 18;
    v.extend(std::iter::repeat(0u8).take(pad_entries));
    v.extend(std::iter::repeat(0u8).take(free_space_table_length as usize * 8));
    v.extend_from_slice(data_segment);
    v
}

#[test]
fn empty_container_big_endian() {
    let bytes = build_container(true, 0, &[], 0, &[]);
    let x: Xdbf = decode_xdbf(&bytes).expect("empty container must decode");
    assert!(x.big_endian);
    assert_eq!(x.header.entry_count, 0);
    assert!(x.entry_table.is_empty());
}

#[test]
fn empty_container_little_endian() {
    let bytes = build_container(false, 0, &[], 0, &[]);
    let x: Xdbf = decode_xdbf(&bytes).expect("empty container must decode");
    assert!(!x.big_endian);
    assert!(x.entry_table.is_empty());
}

#[test]
fn empty_container_with_padded_tables() {
    // Declared table space without live entries is skip-padding.
    let bytes = build_container(true, 3, &[], 2, &[]);
    let x: Xdbf = decode_xdbf(&bytes).expect("padded empty container must decode");
    assert_eq!(x.header.entry_table_length, 3);
    assert_eq!(x.header.free_space_table_length, 2);
    assert!(x.entry_table.is_empty());
}

#[test]
fn header_fields_big_endian() {
    let bytes = build_container(true, 2, &[], 1, &[]);
    let (big, h) = decode_header(&bytes).expect("header must decode");
    assert!(big);
    assert_eq!(h.version, 1);
    assert_eq!(h.entry_table_length, 2);
    assert_eq!(h.entry_count, 0);
    assert_eq!(h.free_space_table_length, 1);
    assert_eq!(h.free_space_table_entry_count, 0);
}

#[test]
fn header_fields_little_endian() {
    // Hand-written header: probe fails the big-endian magic check, so
    // every later field must be read little-endian.
    let mut v = vec![0x46, 0x42, 0x44, 0x58]; // "XDBF" reversed: not the magic in BE
    v.extend_from_slice(&7u32.to_le_bytes()); // version
    v.extend_from_slice(&0u32.to_le_bytes()); // entry table length
    v.extend_from_slice(&0u32.to_le_bytes()); // entry count
    v.extend_from_slice(&0u32.to_le_bytes()); // free space length
    v.extend_from_slice(&0u32.to_le_bytes()); // free space count
    let (big, h) = decode_header(&v).expect("header must decode");
    assert!(!big);
    assert_eq!(h.version, 7);
    let x = decode_xdbf(&v).expect("container must decode");
    assert!(!x.big_endian);
    assert_eq!(x.header.version, 7);
}

#[test]
fn short_header_is_malformed() {
    let bytes = vec![0x58, 0x44, 0x42, 0x46, 0, 0, 0];
    assert_eq!(decode_header(&bytes), Err(XdbfError::MalformedHeader));
    assert_eq!(decode_xdbf(&bytes), Err(XdbfError::MalformedHeader));
}

#[test]
fn entry_count_over_table_length_is_malformed() {
    // One live entry but a declared table length of zero.
    let mut bytes = build_container(true, 1, &[(9, 1, 0, 0)], 0, &[]);
    // Rewrite entry_table_length to 0 while entry_count stays 1.
    bytes[8..12].copy_from_slice(&0u32.to_be_bytes());
    assert_eq!(decode_xdbf(&bytes), Err(XdbfError::MalformedHeader));
}

#[test]
fn directory_past_buffer_is_malformed() {
    // Tables claim more room than the buffer holds.
    let mut v = Vec::new();
    v.extend_from_slice(&0x58444246u32.to_be_bytes());
    for field in [1u32, 100, 0, 0, 0] {
        v.extend_from_slice(&field.to_be_bytes());
    }
    assert_eq!(decode_xdbf(&v), Err(XdbfError::MalformedHeader));
}

#[test]
fn entry_range_past_buffer_is_truncated_data() {
    // Descriptor length runs past the end of the data segment.
    let bytes = build_container(true, 1, &[(9, 1, 0, 10)], 0, &[1, 2, 3]);
    assert_eq!(decode_xdbf(&bytes), Err(XdbfError::TruncatedData));
}

#[test]
fn entry_huge_offset_is_truncated_data() {
    let bytes = build_container(true, 1, &[(9, 1, u32::MAX, 1)], 0, &[1, 2, 3]);
    assert_eq!(decode_xdbf(&bytes), Err(XdbfError::TruncatedData));
}

#[test]
fn offsets_select_exact_ranges() {
    // One entry at the very start of the data segment and one at its
    // far end, with dead bytes between: each descriptor must select
    // exactly the range written for it.
    let mut data = vec![0u8; 104];
    data[0] = 0x11;
    data[1] = 0x22;
    data[2] = 0x33;
    data[100] = 0xAA;
    data[101] = 0xBB;
    data[102] = 0xCC;
    data[103] = 0xDD;
    let entries = [(9u16, 1u64, 0u32, 3u32), (9, 2, 100, 4)];
    let bytes = build_container(true, 5, &entries, 2, &data);
    let x = decode_xdbf(&bytes).expect("container must decode");
    assert_eq!(x.entry_table.len(), 2);
    let first: &XdbfEntry = &x.entry_table[0];
    let second: &XdbfEntry = &x.entry_table[1];
    assert_eq!(first.namespace, 9);
    assert_eq!(first.id, 1);
    assert_eq!(first.offset_specifier, 0);
    assert_eq!(first.length, 3);
    assert_eq!(first.data, XdbfEntryData::Bin(vec![0x11, 0x22, 0x33]));
    assert_eq!(second.offset_specifier, 100);
    assert_eq!(second.data, XdbfEntryData::Bin(vec![0xAA, 0xBB, 0xCC, 0xDD]));
}

#[test]
fn end_to_end_structured_and_opaque_entries() {
    // Entry one: an achievement section with a single row. Entry two:
    // image bytes with no recognized tag.
    let mut xach = Vec::new();
    xach.extend_from_slice(b"XACH");
    xach.extend_from_slice(&1u32.to_be_bytes()); // section format version
    xach.extend_from_slice(&0u32.to_be_bytes()); // declared size
    xach.extend_from_slice(&1u16.to_be_bytes()); // one row
    xach.extend_from_slice(&7u16.to_be_bytes()); // achievement id
    xach.extend_from_slice(&1u16.to_be_bytes());
    xach.extend_from_slice(&2u16.to_be_bytes());
    xach.extend_from_slice(&3u16.to_be_bytes());
    xach.extend_from_slice(&9u32.to_be_bytes()); // image id
    xach.extend_from_slice(&25u16.to_be_bytes()); // gamerscore
    xach.extend_from_slice(&[0; 2]);
    xach.extend_from_slice(&4u32.to_be_bytes()); // flags
    xach.extend_from_slice(&[0; 10]);
    let png = [0x89u8, 0x50, 0x4E, 0x47, 0x0D, 0x0A];
    let mut data = xach.clone();
    data.extend_from_slice(&png);
    let entries = [
        (1u16, u64::from_be_bytes(*b"\0\0\0\0ACH1"), 0u32, xach.len() as u32),
        (2, 32, xach.len() as u32, png.len() as u32),
    ];
    let bytes = build_container(true, 2, &entries, 0, &data);
    let x = decode_xdbf(&bytes).expect("container must decode");
    assert_eq!(x.entry_table.len(), 2);
    match &x.entry_table[0].data {
        XdbfEntryData::XdbfEntryStructuredData(
            xdbf::sections::XdbfEntryStructuredData::Xach(a),
        ) => {
            assert_eq!(a.achievements.len(), 1);
            assert_eq!(a.achievements[0].achievement_id, 7);
            assert_eq!(a.achievements[0].gamerscore, 25);
        }
        other => panic!("expected an achievement section, got {:?}", other),
    }
    assert_eq!(x.entry_table[1].data, XdbfEntryData::Bin(png.to_vec()));
    assert_eq!(xdbf::ident::id_to_pathbuf(&x.entry_table[0]), "1.ACH1.json");
    assert_eq!(xdbf::ident::id_to_pathbuf(&x.entry_table[1]), "2.32.png");
}

#[test]
fn little_endian_container_with_entry() {
    let data = vec![5u8, 6, 7];
    let bytes = build_container(false, 1, &[(4, 0x1234, 0, 3)], 0, &data);
    let x = decode_xdbf(&bytes).expect("container must decode");
    assert!(!x.big_endian);
    assert_eq!(x.entry_table[0].namespace, 4);
    assert_eq!(x.entry_table[0].id, 0x1234);
    assert_eq!(x.entry_table[0].data, XdbfEntryData::Bin(vec![5, 6, 7]));
}
