use xdbf::container::XdbfEntry;
use xdbf::ident::{id_to_pathbuf, u64_to_string};
use xdbf::sections::{XdbfEntryData, XdbfEntryStructuredData, Xstc};

fn opaque_entry(namespace: u16, id: u64) -> XdbfEntry {
    XdbfEntry {
        namespace,
        id,
        offset_specifier: 0,
        length: 0,
        data: XdbfEntryData::Bin(Vec::new()),
    }
}

fn structured_entry(namespace: u16, id: u64) -> XdbfEntry {
    XdbfEntry {
        namespace,
        id,
        offset_specifier: 0,
        length: 0,
        data: XdbfEntryData::XdbfEntryStructuredData(XdbfEntryStructuredData::Xstc(Xstc {
            unknown0: 0,
        })),
    }
}

#[test]
fn decimal_rendering_exact() {
    assert_eq!(u64_to_string(0), "0");
    assert_eq!(u64_to_string(7), "7");
    assert_eq!(u64_to_string(12345), "12345");
    assert_eq!(u64_to_string(u64::MAX), "18446744073709551615");
}

#[test]
fn string_keyed_ascii_id() {
    // Id bytes 00 00 00 00 41 43 48 31: "ACH1" right-aligned.
    let e = opaque_entry(1, 0x41434831);
    assert_eq!(id_to_pathbuf(&e), "1.ACH1.bin");
}

#[test]
fn string_keyed_nonprintable_id_falls_back_to_decimal() {
    let e = opaque_entry(1, 0);
    assert_eq!(id_to_pathbuf(&e), "1.0.bin");
    // A byte below the printable range forces the decimal fallback too.
    let e2 = opaque_entry(1, 0x41434801);
    assert_eq!(id_to_pathbuf(&e2), format!("1.{}.bin", 0x41434801u64));
}

#[test]
fn string_keyed_full_width_id() {
    let e = opaque_entry(1, u64::from_be_bytes(*b"SPASPASP"));
    assert_eq!(id_to_pathbuf(&e), "1.SPASPASP.bin");
}

#[test]
fn language_id_mapped_through_locale_table() {
    assert_eq!(id_to_pathbuf(&opaque_entry(3, 3)), "3.de-DE.bin");
    assert_eq!(id_to_pathbuf(&opaque_entry(3, 1)), "3.en-US.bin");
    assert_eq!(id_to_pathbuf(&opaque_entry(3, 12)), "3.ru-RU.bin");
}

#[test]
fn language_id_unmapped_falls_back_to_decimal() {
    assert_eq!(id_to_pathbuf(&opaque_entry(3, 99)), "3.99.bin");
}

#[test]
fn other_namespace_uses_decimal_id() {
    assert_eq!(id_to_pathbuf(&opaque_entry(4, 123)), "4.123.bin");
}

#[test]
fn structured_entries_get_json_extension() {
    assert_eq!(id_to_pathbuf(&structured_entry(1, 0x41434831)), "1.ACH1.json");
    assert_eq!(id_to_pathbuf(&structured_entry(5, 7)), "5.7.json");
}

#[test]
fn image_namespace_gets_png_extension() {
    assert_eq!(id_to_pathbuf(&opaque_entry(2, 32)), "2.32.png");
    // A structured record wins over the image namespace.
    assert_eq!(id_to_pathbuf(&structured_entry(2, 32)), "2.32.json");
}
