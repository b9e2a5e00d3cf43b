use xdbf::sections::{
    decode_entry_data, decode_pbm_at, decode_xach, decode_xcxt, decode_xitb, decode_xmat,
    decode_xprp, decode_xrpt, decode_xsrc, decode_xstc, decode_xstr, decode_xthd, decode_xvc2,
    TitleType, XdbfEntryData,
};
use xdbf::XdbfError;

fn be16(v: &mut Vec<u8>, x: u16) {
    v.extend_from_slice(&x.to_be_bytes());
}

fn be32(v: &mut Vec<u8>, x: u32) {
    v.extend_from_slice(&x.to_be_bytes());
}

fn be64(v: &mut Vec<u8>, x: u64) {
    v.extend_from_slice(&x.to_be_bytes());
}

/// Tag plus the eight-byte sub-header every section starts with.
fn section(tag: &[u8; 4]) -> Vec<u8> {
    let mut v = tag.to_vec();
    be32(&mut v, 1); // format version, ignored
    be32(&mut v, 0); // declared size, ignored
    v
}

/// A property-bag-metadata block with the given ids.
fn pbm_block(contexts: &[u32], properties: &[u32]) -> Vec<u8> {
    let mut v = section(b"XPBM");
    be32(&mut v, contexts.len() as u32);
    be32(&mut v, properties.len() as u32);
    for &c in contexts {
        be32(&mut v, c);
    }
    for &p in properties {
        be32(&mut v, p);
    }
    v
}

const GZIP_HELLO: [u8; 30] = [
    31, 139, 8, 0, 0, 0, 0, 0, 2, 255, 203, 72, 205, 201, 201, 87, 168, 72, 73, 74, 3, 0, 48,
    207, 48, 214, 10, 0, 0, 0,
];

#[test]
fn achievements_two_rows_exact_fields() {
    let mut v = section(b"XACH");
    be16(&mut v, 2);
    // Row layout: four 16-bit ids, 32-bit image id, gamerscore, two
    // padding bytes, 32-bit flags, ten padding bytes — 30 bytes. The
    // padding is written as 0xAA to show it is skipped, not read.
    be16(&mut v, 1);
    be16(&mut v, 2);
    be16(&mut v, 3);
    be16(&mut v, 4);
    be32(&mut v, 0x01020304);
    be16(&mut v, 50);
    v.extend_from_slice(&[0xAA, 0xAA]);
    be32(&mut v, 7);
    v.extend_from_slice(&[0xAA; 10]);
    be16(&mut v, 5);
    be16(&mut v, 6);
    be16(&mut v, 7);
    be16(&mut v, 8);
    be32(&mut v, 0x0A0B0C0D);
    be16(&mut v, 100);
    v.extend_from_slice(&[0xAA, 0xAA]);
    be32(&mut v, 0xFF);
    v.extend_from_slice(&[0xAA; 10]);
    let x = decode_xach(&v, true).expect("achievement section must decode");
    assert_eq!(x.achievements.len(), 2);
    let a = &x.achievements[0];
    assert_eq!(a.achievement_id, 1);
    assert_eq!(a.title_string_id, 2);
    assert_eq!(a.unlocked_description_id, 3);
    assert_eq!(a.locked_description_id, 4);
    assert_eq!(a.image_id, 0x01020304);
    assert_eq!(a.gamerscore, 50);
    assert_eq!(a.flags, 7);
    let b = &x.achievements[1];
    assert_eq!(b.achievement_id, 5);
    assert_eq!(b.gamerscore, 100);
    assert_eq!(b.flags, 0xFF);
}

#[test]
fn achievements_short_rows_are_malformed() {
    let mut v = section(b"XACH");
    be16(&mut v, 5); // claims five rows, provides none
    assert_eq!(decode_xach(&v, true), Err(XdbfError::MalformedSection));
}

#[test]
fn unknown_tag_falls_back_to_opaque() {
    let data = vec![0x5A, 0x5A, 0x5A, 0x5A, 1, 2, 3];
    let r = decode_entry_data(&data, true).expect("unknown tag is not an error");
    assert_eq!(r, XdbfEntryData::Bin(data));
}

#[test]
fn short_slice_falls_back_to_opaque() {
    let data = vec![0x58, 0x41];
    let r = decode_entry_data(&data, true).expect("short slice is not an error");
    assert_eq!(r, XdbfEntryData::Bin(data));
}

#[test]
fn known_tag_with_malformed_body_is_an_error() {
    let mut v = section(b"XACH");
    be16(&mut v, 9);
    assert_eq!(decode_entry_data(&v, true), Err(XdbfError::MalformedSection));
}

#[test]
fn context_values_roundtrip() {
    let mut v = section(b"XCXT");
    be32(&mut v, 1);
    be32(&mut v, 10);
    be32(&mut v, 20);
    be32(&mut v, 30);
    be32(&mut v, 40);
    let x = decode_xcxt(&v, true).expect("context section must decode");
    assert_eq!(x.records.len(), 1);
    assert_eq!(x.records[0].unknown0, 10);
    assert_eq!(x.records[0].unknown3, 40);
}

#[test]
fn properties_rows() {
    let mut v = section(b"XPRP");
    be16(&mut v, 2);
    be64(&mut v, 0x1122334455667788);
    be64(&mut v, 42);
    let x = decode_xprp(&v, true).expect("property section must decode");
    assert_eq!(x.records.len(), 2);
    assert_eq!(x.records[0].unknown0, 0x1122334455667788);
    assert_eq!(x.records[1].unknown0, 42);
}

#[test]
fn static_context_value() {
    let mut v = section(b"XSTC");
    be32(&mut v, 0xDEADBEEF);
    let x = decode_xstc(&v, true).expect("static context must decode");
    assert_eq!(x.unknown0, 0xDEADBEEF);
}

#[test]
fn title_header_fields() {
    let mut v = section(b"XTHD");
    be32(&mut v, 0x415A0001); // title id
    be32(&mut v, 1); // full title
    be16(&mut v, 2);
    be16(&mut v, 5);
    be16(&mut v, 100);
    be16(&mut v, 7);
    v.extend_from_slice(&[0; 16]);
    let x = decode_xthd(&v, true).expect("title header must decode");
    assert_eq!(x.title_id, 0x415A0001);
    assert_eq!(x.title_type, TitleType::Full);
    assert_eq!(x.project_version_major, 2);
    assert_eq!(x.project_version_minor, 5);
    assert_eq!(x.project_version_build, 100);
    assert_eq!(x.project_version_revision, 7);
}

#[test]
fn title_header_bad_type_is_malformed() {
    let mut v = section(b"XTHD");
    be32(&mut v, 1);
    be32(&mut v, 9); // not a defined title type
    be16(&mut v, 0);
    be16(&mut v, 0);
    be16(&mut v, 0);
    be16(&mut v, 0);
    v.extend_from_slice(&[0; 16]);
    assert_eq!(decode_xthd(&v, true), Err(XdbfError::MalformedSection));
}

#[test]
fn image_table_names() {
    let mut v = section(b"XITB");
    be32(&mut v, 2);
    be32(&mut v, 11);
    be32(&mut v, 3);
    v.extend_from_slice(b"abc");
    be32(&mut v, 12);
    be32(&mut v, 6);
    v.extend_from_slice("héllo".as_bytes()); // two-byte UTF-8 in the middle
    let x = decode_xitb(&v, true).expect("image table must decode");
    assert_eq!(x.images.len(), 2);
    assert_eq!(x.images[0].image_id, 11);
    assert_eq!(x.images[0].image_path, "abc");
    assert_eq!(x.images[1].image_path, "héllo");
}

#[test]
fn image_table_bad_utf8_is_invalid_text() {
    let mut v = section(b"XITB");
    be32(&mut v, 1);
    be32(&mut v, 11);
    be32(&mut v, 2);
    v.extend_from_slice(&[0xFF, 0xFE]);
    assert_eq!(decode_xitb(&v, true), Err(XdbfError::InvalidText));
}

#[test]
fn string_table_rows() {
    let mut v = section(b"XSTR");
    be16(&mut v, 2);
    be16(&mut v, 1000);
    be16(&mut v, 5);
    v.extend_from_slice(b"Score");
    be16(&mut v, 1001);
    be16(&mut v, 0);
    let x = decode_xstr(&v, true).expect("string table must decode");
    assert_eq!(x.strings.len(), 2);
    assert_eq!(x.strings[0].string_id, 1000);
    assert_eq!(x.strings[0].string, "Score");
    assert_eq!(x.strings[1].string_id, 1001);
    assert_eq!(x.strings[1].string, "");
}

#[test]
fn string_table_bad_utf8_is_invalid_text() {
    let mut v = section(b"XSTR");
    be16(&mut v, 1);
    be16(&mut v, 1);
    be16(&mut v, 1);
    v.push(0x80); // lone continuation byte
    assert_eq!(decode_xstr(&v, true), Err(XdbfError::InvalidText));
}

#[test]
fn property_bag_block() {
    let v = pbm_block(&[1, 2, 3], &[9]);
    let (p, end) = decode_pbm_at(&v, true, 0).expect("property bag must decode");
    assert_eq!(end, v.len());
    assert_eq!(p.context_count, 3);
    assert_eq!(p.property_count, 1);
    assert_eq!(p.contexts, vec![1, 2, 3]);
    assert_eq!(p.properties, vec![9]);
}

#[test]
fn material_wraps_property_bag() {
    let mut v = section(b"XMAT");
    v.extend_from_slice(&pbm_block(&[5], &[6, 7]));
    let x = decode_xmat(&v, true).expect("material section must decode");
    assert_eq!(x.property_bag_metadata.contexts, vec![5]);
    assert_eq!(x.property_bag_metadata.properties, vec![6, 7]);
}

#[test]
fn report_with_extra_bags() {
    let mut v = section(b"XRPT");
    v.extend_from_slice(&pbm_block(&[1], &[]));
    be16(&mut v, 2);
    v.extend_from_slice(&pbm_block(&[2], &[3]));
    v.extend_from_slice(&pbm_block(&[], &[4]));
    let x = decode_xrpt(&v, true).expect("report section must decode");
    assert_eq!(x.property_bag_metadata.contexts, vec![1]);
    assert_eq!(x.property_bag_metadatas.len(), 2);
    assert_eq!(x.property_bag_metadatas[0].contexts, vec![2]);
    assert_eq!(x.property_bag_metadatas[1].properties, vec![4]);
}

#[test]
fn report_missing_bags_is_malformed() {
    let mut v = section(b"XRPT");
    v.extend_from_slice(&pbm_block(&[1], &[]));
    be16(&mut v, 3); // claims three more blocks, provides none
    assert_eq!(decode_xrpt(&v, true), Err(XdbfError::MalformedSection));
}

#[test]
fn stats_view_table() {
    let mut v = section(b"XVC2");
    be16(&mut v, 1); // one shared view
    be16(&mut v, 1); // one column
    be16(&mut v, 0); // no rows
    v.extend_from_slice(&[0; 8]); // padding after the counts
    // One 20-byte field descriptor.
    be32(&mut v, 4); // size
    be32(&mut v, 77); // property id
    be32(&mut v, 1); // flags
    be16(&mut v, 10); // attribute id
    be16(&mut v, 11); // string id
    be16(&mut v, 2); // aggregation type
    v.push(1); // ordinal
    v.push(3); // field type
    v.extend_from_slice(&pbm_block(&[8], &[9]));
    be16(&mut v, 1); // one view row
    be32(&mut v, 500); // id
    be32(&mut v, 2); // flags
    be16(&mut v, 0); // shared index
    be16(&mut v, 12); // string id
    let x = decode_xvc2(&v, true).expect("stats view table must decode");
    assert_eq!(x.shared_views.len(), 1);
    let sv = &x.shared_views[0];
    assert_eq!(sv.column_count, 1);
    assert_eq!(sv.row_count, 0);
    assert_eq!(sv.column_entries.len(), 1);
    assert_eq!(sv.column_entries[0].property_id, 77);
    assert_eq!(sv.column_entries[0].field_type, 3);
    assert_eq!(sv.property_bag_metadata.contexts, vec![8]);
    assert_eq!(x.views.len(), 1);
    assert_eq!(x.views[0].id, 500);
    assert_eq!(x.views[0].string_id, 12);
}

#[test]
fn embedded_file_decompresses() {
    let mut v = section(b"XSRC");
    be32(&mut v, 8);
    v.extend_from_slice(b"test.txt");
    be32(&mut v, 10); // uncompressed size, informational
    be32(&mut v, GZIP_HELLO.len() as u32); // compressed size, informational
    v.extend_from_slice(&GZIP_HELLO);
    let x = decode_xsrc(&v, true).expect("embedded file must decode");
    assert_eq!(x.filename, "test.txt");
    assert_eq!(x.gzip_file, b"hello xdbf");
}

#[test]
fn embedded_file_bad_stream_is_decompression_error() {
    let mut v = section(b"XSRC");
    be32(&mut v, 1);
    v.push(b'f');
    be32(&mut v, 0);
    be32(&mut v, 3);
    v.extend_from_slice(&[1, 2, 3]); // not a gzip stream
    assert_eq!(decode_xsrc(&v, true), Err(XdbfError::DecompressionError));
}

#[test]
fn structured_entry_inside_container_dispatch() {
    let mut v = section(b"XSTC");
    be32(&mut v, 99);
    let r = decode_entry_data(&v, true).expect("static context entry must decode");
    match r {
        XdbfEntryData::XdbfEntryStructuredData(
            xdbf::sections::XdbfEntryStructuredData::Xstc(x),
        ) => assert_eq!(x.unknown0, 99),
        other => panic!("expected a static context record, got {:?}", other),
    }
}

#[test]
fn little_endian_section_fields() {
    // The tag is always read big-endian; the counts and fields follow
    // the container's little-endian order.
    let mut v = section(b"XSTC");
    v.extend_from_slice(&0xDEADBEEFu32.to_le_bytes());
    let x = decode_xstc(&v, false).expect("static context must decode");
    assert_eq!(x.unknown0, 0xDEADBEEF);
    let mut w = section(b"XACH");
    w.extend_from_slice(&1u16.to_le_bytes());
    w.extend_from_slice(&9u16.to_le_bytes()); // achievement id
    w.extend_from_slice(&[0; 28]);
    let a = decode_xach(&w, false).expect("achievement section must decode");
    assert_eq!(a.achievements[0].achievement_id, 9);
}
