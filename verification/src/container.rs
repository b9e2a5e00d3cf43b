//! The container itself: endianness detection, the header, the entry
//! directory, and the data segment that every descriptor's relative
//! offset points into.
use crate::sections::spec_entry_data;
use crate::sections::XdbfEntryData;
use crate::sections::XdbfEntryDataView;
use crate::sections::decode_entry_data;
use crate::words::read_u16;
use crate::words::read_u32;
use crate::words::read_u64;
use crate::words::word16;
use crate::words::word32;
use crate::words::word64;
use crate::XdbfError;
use vstd::prelude::*;
use vstd::slice::slice_subrange;

verus! {

/// The probe word that marks a big-endian container.
pub const XDBF_MAGIC: u32 = 0x58444246;

/// The fixed size of the probe word plus the five header fields.
pub const HEADER_SIZE: usize = 24;

/// The fixed size of one entry descriptor.
pub const ENTRY_SIZE: usize = 18;

/// The fixed size of one free-space-table pair.
pub const FREE_SPACE_ENTRY_SIZE: usize = 8;

/// A container is big-endian exactly when its first four bytes, read
/// big-endian, equal the magic; anything else selects little-endian.
pub open spec fn spec_big_endian(s: Seq<u8>) -> bool {
    word32(s, 0, true) == XDBF_MAGIC
}

/// The five header fields following the probe word.
#[derive(Clone, Copy, Debug, PartialEq, Eq, Structural)]
pub struct XdbfHeader {
    pub version: u32,
    pub entry_table_length: u32,
    pub entry_count: u32,
    pub free_space_table_length: u32,
    pub free_space_table_entry_count: u32,
}

pub open spec fn spec_header(s: Seq<u8>, big: bool) -> XdbfHeader {
    XdbfHeader {
        version: word32(s, 4, big),
        entry_table_length: word32(s, 8, big),
        entry_count: word32(s, 12, big),
        free_space_table_length: word32(s, 16, big),
        free_space_table_entry_count: word32(s, 20, big),
    }
}

/// The absolute byte origin of the data segment, computed once per
/// container: header, full entry table, full free-space table.
pub open spec fn spec_data_origin(h: XdbfHeader) -> int {
    24 + h.entry_table_length * 18 + h.free_space_table_length * 8
}

/// A well-formed header: the buffer covers the fixed header, each count
/// fits in its declared table, and the directory and free-space regions
/// lie inside the buffer.
pub open spec fn header_wf(s: Seq<u8>) -> bool {
    let h = spec_header(s, spec_big_endian(s));
    &&& s.len() >= 24
    &&& h.entry_count <= h.entry_table_length
    &&& h.free_space_table_entry_count <= h.free_space_table_length
    &&& spec_data_origin(h) <= s.len()
}

/// One 18-byte directory row: namespace, 64-bit id, offset relative to
/// the data-segment origin, and payload length.
#[derive(Clone, Copy, Debug, PartialEq, Eq, Structural)]
pub struct XdbfEntryDescriptor {
    pub namespace: u16,
    pub id: u64,
    pub offset_specifier: u32,
    pub length: u32,
}

pub open spec fn spec_descriptor(s: Seq<u8>, big: bool, i: int) -> XdbfEntryDescriptor {
    XdbfEntryDescriptor {
        namespace: word16(s, 24 + i * 18, big),
        id: word64(s, 24 + i * 18 + 2, big),
        offset_specifier: word32(s, 24 + i * 18 + 10, big),
        length: word32(s, 24 + i * 18 + 14, big),
    }
}

/// Detect the byte order from the probe word.
pub fn detect_big_endian(s: &[u8]) -> (r: bool)
    requires
        s@.len() >= 4,
    ensures
        r == spec_big_endian(s@),
{
    read_u32(s, 0, true) == XDBF_MAGIC
}

/// Decode the header alone. A buffer shorter than the fixed header size
/// is a malformed header; otherwise the byte order is detected from the
/// probe word and every field is read in that order.
pub fn decode_header(s: &[u8]) -> (r: Result<(bool, XdbfHeader), XdbfError>)
    ensures
        s@.len() < 24 ==> r == Err::<(bool, XdbfHeader), XdbfError>(XdbfError::MalformedHeader),
        s@.len() >= 24 ==> r == Ok::<(bool, XdbfHeader), XdbfError>(
            (spec_big_endian(s@), spec_header(s@, spec_big_endian(s@))),
        ),
{
    if s.len() < 24 {
        return Err(XdbfError::MalformedHeader);
    }
    let big = detect_big_endian(s);
    Ok(
        (
            big,
            XdbfHeader {
                version: read_u32(s, 4, big),
                entry_table_length: read_u32(s, 8, big),
                entry_count: read_u32(s, 12, big),
                free_space_table_length: read_u32(s, 16, big),
                free_space_table_entry_count: read_u32(s, 20, big),
            },
        ),
    )
}

/// The data-segment origin as a machine value; it always fits far below
/// the 64-bit bound.
pub fn data_segment_origin(h: &XdbfHeader) -> (r: u64)
    ensures
        r == spec_data_origin(*h),
{
    24 + (h.entry_table_length as u64) * 18 + (h.free_space_table_length as u64) * 8
}

/// Decode the header and the entry directory. Fails with
/// `MalformedHeader` exactly when the header is not well formed; on
/// success it returns the detected byte order, the header, and the
/// `entry_count` descriptors in directory order.
pub fn decode_directory(s: &[u8]) -> (r: Result<
    (bool, XdbfHeader, Vec<XdbfEntryDescriptor>),
    XdbfError,
>)
    ensures
        (match r {
            Ok(v) => {
                &&& header_wf(s@)
                &&& v.0 == spec_big_endian(s@)
                &&& v.1 == spec_header(s@, spec_big_endian(s@))
                &&& v.2@ == Seq::new(
                    v.1.entry_count as nat,
                    |i: int| spec_descriptor(s@, spec_big_endian(s@), i),
                )
            },
            Err(e) => !header_wf(s@) && e == XdbfError::MalformedHeader,
        }),
{
    let slen = s.len();
    let (big, header) = match decode_header(s) {
        Ok(v) => v,
        Err(e) => {
            return Err(e);
        },
    };
    if header.entry_count > header.entry_table_length {
        return Err(XdbfError::MalformedHeader);
    }
    if header.free_space_table_entry_count > header.free_space_table_length {
        return Err(XdbfError::MalformedHeader);
    }
    let origin = data_segment_origin(&header);
    if origin > slen as u64 {
        return Err(XdbfError::MalformedHeader);
    }
    let n = header.entry_count as usize;
    let mut descriptors: Vec<XdbfEntryDescriptor> = Vec::new();
    let mut i: usize = 0;
    while i < n
        invariant
            n == spec_header(s@, big).entry_count,
            big == spec_big_endian(s@),
            24 + n * 18 <= s@.len(),
            s@.len() <= usize::MAX,
            i <= n,
            descriptors@.len() == i as int,
            forall|j: int| 0 <= j < i ==> descriptors@[j] == spec_descriptor(s@, big, j),
        decreases n - i,
    {
        let base = 24 + i * 18;
        descriptors.push(XdbfEntryDescriptor {
            namespace: read_u16(s, base, big),
            id: read_u64(s, base + 2, big),
            offset_specifier: read_u32(s, base + 10, big),
            length: read_u32(s, base + 14, big),
        });
        i = i + 1;
    }
    proof {
        assert(descriptors@ =~= Seq::new(n as nat, |j: int| spec_descriptor(s@, big, j)));
    }
    Ok((big, header, descriptors))
}

/// The byte range that descriptor `d` selects out of `s`: exactly
/// `length` bytes starting at the data-segment origin plus the
/// descriptor's relative offset.
pub open spec fn spec_selected_range(s: Seq<u8>, origin: int, d: XdbfEntryDescriptor) -> Seq<u8> {
    s.subrange(origin + d.offset_specifier, origin + d.offset_specifier + d.length)
}

/// True when that range lies inside the buffer.
pub open spec fn spec_entry_in_bounds(s: Seq<u8>, origin: int, d: XdbfEntryDescriptor) -> bool {
    origin + d.offset_specifier + d.length <= s.len()
}

/// Resolve one descriptor against the data segment and decode the
/// selected bytes. The absolute offset is `origin + offset_specifier`;
/// a range past the buffer end is `TruncatedData`, checked before any
/// read since the length field is tool- or attacker-supplied.
pub fn decode_entry_payload(s: &[u8], origin: u64, big: bool, d: &XdbfEntryDescriptor) -> (r:
    Result<XdbfEntryData, XdbfError>)
    ensures
        (match r {
            Ok(v) => spec_entry_in_bounds(s@, origin as int, *d) && spec_entry_data(
                spec_selected_range(s@, origin as int, *d),
                big,
            ) == Ok::<XdbfEntryDataView, XdbfError>(v@),
            Err(e) => {
                if !spec_entry_in_bounds(s@, origin as int, *d) {
                    e == XdbfError::TruncatedData
                } else {
                    spec_entry_data(spec_selected_range(s@, origin as int, *d), big) == Err::<
                        XdbfEntryDataView,
                        XdbfError,
                    >(e)
                }
            },
        }),
{
    let slen = s.len();
    if (origin as u128) + (d.offset_specifier as u128) + (d.length as u128) > slen as u128 {
        return Err(XdbfError::TruncatedData);
    }
    let start = (origin + (d.offset_specifier as u64)) as usize;
    let end = start + (d.length as usize);
    let slice = slice_subrange(s, start, end);
    decode_entry_data(slice, big)
}

/// One directory entry together with its decoded payload.
#[derive(Clone, Debug, PartialEq, Eq)]
pub struct XdbfEntry {
    pub namespace: u16,
    pub id: u64,
    pub offset_specifier: u32,
    pub length: u32,
    pub data: XdbfEntryData,
}

pub ghost struct XdbfEntryView {
    pub namespace: u16,
    pub id: u64,
    pub offset_specifier: u32,
    pub length: u32,
    pub data: XdbfEntryDataView,
}

impl View for XdbfEntry {
    type V = XdbfEntryView;

    open spec fn view(&self) -> XdbfEntryView {
        XdbfEntryView {
            namespace: self.namespace,
            id: self.id,
            offset_specifier: self.offset_specifier,
            length: self.length,
            data: self.data@,
        }
    }
}

/// A fully decoded container.
#[derive(Clone, Debug, PartialEq, Eq)]
pub struct Xdbf {
    pub big_endian: bool,
    pub header: XdbfHeader,
    pub entry_table: Vec<XdbfEntry>,
}

pub ghost struct XdbfView {
    pub big_endian: bool,
    pub header: XdbfHeader,
    pub entry_table: Seq<XdbfEntryView>,
}

impl View for Xdbf {
    type V = XdbfView;

    open spec fn view(&self) -> XdbfView {
        XdbfView {
            big_endian: self.big_endian,
            header: self.header,
            entry_table: self.entry_table@.map_values(|e: XdbfEntry| e@),
        }
    }
}

pub open spec fn entry_datas_view(v: Seq<XdbfEntry>) -> Seq<XdbfEntryDataView> {
    v.map_values(|e: XdbfEntry| e.data@)
}

/// The payloads of entries `k` and onward, in directory order, or the
/// error of the first entry that fails.
pub open spec fn spec_entries_from(s: Seq<u8>, k: nat) -> Result<Seq<XdbfEntryDataView>, XdbfError>
    decreases spec_header(s, spec_big_endian(s)).entry_count - k,
{
    let big = spec_big_endian(s);
    let h = spec_header(s, big);
    let origin = spec_data_origin(h);
    if k >= h.entry_count {
        Ok(Seq::empty())
    } else {
        let d = spec_descriptor(s, big, k as int);
        if !spec_entry_in_bounds(s, origin, d) {
            Err(XdbfError::TruncatedData)
        } else {
            match spec_entry_data(spec_selected_range(s, origin, d), big) {
                Err(e) => Err(e),
                Ok(v) => match spec_entries_from(s, k + 1) {
                    Err(e) => Err(e),
                    Ok(rest) => Ok(seq![v] + rest),
                },
            }
        }
    }
}

/// What a whole buffer decodes to: the header must be well formed, and
/// every entry must resolve and decode; the first failure is the
/// container's failure.
pub open spec fn spec_xdbf(s: Seq<u8>) -> Result<XdbfView, XdbfError> {
    if !header_wf(s) {
        Err(XdbfError::MalformedHeader)
    } else {
        let big = spec_big_endian(s);
        let h = spec_header(s, big);
        match spec_entries_from(s, 0) {
            Err(e) => Err(e),
            Ok(datas) => Ok(
                XdbfView {
                    big_endian: big,
                    header: h,
                    entry_table: Seq::new(
                        h.entry_count as nat,
                        |i: int| XdbfEntryView {
                            namespace: spec_descriptor(s, big, i).namespace,
                            id: spec_descriptor(s, big, i).id,
                            offset_specifier: spec_descriptor(s, big, i).offset_specifier,
                            length: spec_descriptor(s, big, i).length,
                            data: datas[i],
                        },
                    ),
                },
            ),
        }
    }
}

proof fn lemma_entries_from_index(s: Seq<u8>, k: nat, i: int)
    requires
        spec_entries_from(s, k) is Ok,
        k <= i < spec_header(s, spec_big_endian(s)).entry_count,
    ensures
        ({
            let big = spec_big_endian(s);
            let h = spec_header(s, big);
            let origin = spec_data_origin(h);
            let d = spec_descriptor(s, big, i);
            &&& spec_entries_from(s, k)->Ok_0.len() == h.entry_count - k
            &&& spec_entry_in_bounds(s, origin, d)
            &&& spec_entry_data(spec_selected_range(s, origin, d), big) is Ok
            &&& spec_entries_from(s, k)->Ok_0[i - k] == spec_entry_data(
                spec_selected_range(s, origin, d),
                big,
            )->Ok_0
        }),
    decreases spec_header(s, spec_big_endian(s)).entry_count - k,
{
    let big = spec_big_endian(s);
    let h = spec_header(s, big);
    let origin = spec_data_origin(h);
    let dk = spec_descriptor(s, big, k as int);
    let head = spec_entry_data(spec_selected_range(s, origin, dk), big);
    let tail = spec_entries_from(s, k + 1);
    assert(spec_entries_from(s, k) == (match spec_entry_data(
        spec_selected_range(s, origin, dk),
        big,
    ) {
        Err(e) => Err::<Seq<XdbfEntryDataView>, XdbfError>(e),
        Ok(v) => match tail {
            Err(e) => Err(e),
            Ok(rest) => Ok(seq![v] + rest),
        },
    }));
    assert(head is Ok && tail is Ok);
    assert(spec_entries_from(s, k)->Ok_0 == seq![head->Ok_0] + tail->Ok_0);
    if i > k {
        lemma_entries_from_index(s, k + 1, i);
        assert((seq![head->Ok_0] + tail->Ok_0)[i - k] == tail->Ok_0[i - k - 1]);
    } else {
        if h.entry_count - k - 1 > 0 {
            lemma_entries_from_index(s, k + 1, k as int + 1);
        }
        assert((seq![head->Ok_0] + tail->Ok_0)[0] == head->Ok_0);
    }
}

/// In a container that decodes, each entry's payload is the decode of
/// exactly the byte range that its descriptor selects: `length` bytes
/// starting at the data-segment origin plus the descriptor's relative
/// offset.
pub proof fn lemma_entry_selects_exact_range(s: Seq<u8>, i: int)
    requires
        spec_xdbf(s) is Ok,
        0 <= i < spec_xdbf(s)->Ok_0.entry_table.len(),
    ensures
        ({
            let big = spec_big_endian(s);
            let origin = spec_data_origin(spec_header(s, big));
            let d = spec_descriptor(s, big, i);
            &&& spec_entry_in_bounds(s, origin, d)
            &&& spec_entry_data(spec_selected_range(s, origin, d), big) is Ok
            &&& spec_xdbf(s)->Ok_0.entry_table[i].data == spec_entry_data(
                spec_selected_range(s, origin, d),
                big,
            )->Ok_0
        }),
{
    lemma_entries_from_index(s, 0, i);
}

/// Every valid container that declares zero entries decodes
/// successfully, to an empty entry sequence: only the header and the
/// empty directory are consulted.
pub proof fn lemma_empty_container_decodes(s: Seq<u8>)
    requires
        header_wf(s),
        spec_header(s, spec_big_endian(s)).entry_count == 0,
    ensures
        spec_xdbf(s) == Ok::<XdbfView, XdbfError>(
            XdbfView {
                big_endian: spec_big_endian(s),
                header: spec_header(s, spec_big_endian(s)),
                entry_table: Seq::empty(),
            },
        ),
{
    assert(spec_entries_from(s, 0) == Ok::<Seq<XdbfEntryDataView>, XdbfError>(Seq::empty()));
    assert(Seq::new(0, |i: int| XdbfEntryView {
        namespace: spec_descriptor(s, spec_big_endian(s), i).namespace,
        id: spec_descriptor(s, spec_big_endian(s), i).id,
        offset_specifier: spec_descriptor(s, spec_big_endian(s), i).offset_specifier,
        length: spec_descriptor(s, spec_big_endian(s), i).length,
        data: spec_entries_from(s, 0)->Ok_0[i],
    }) =~= Seq::<XdbfEntryView>::empty());
}

/// Decode a whole container: header, directory, then every entry's
/// payload in directory order.
#[verifier::rlimit(100)]
#[verifier::spinoff_prover]
pub fn decode_xdbf(s: &[u8]) -> (r: Result<Xdbf, XdbfError>)
    ensures
        (match r {
            Ok(v) => spec_xdbf(s@) == Ok::<XdbfView, XdbfError>(v@),
            Err(e) => spec_xdbf(s@) == Err::<XdbfView, XdbfError>(e),
        }),
{
    let (big, header, descriptors) = match decode_directory(s) {
        Ok(v) => v,
        Err(e) => {
            return Err(e);
        },
    };
    let origin = data_segment_origin(&header);
    let n = descriptors.len();
    let mut entry_table: Vec<XdbfEntry> = Vec::new();
    let mut i: usize = 0;
    while i < n
        invariant
            header_wf(s@),
            big == spec_big_endian(s@),
            header == spec_header(s@, big),
            origin == spec_data_origin(header),
            n == header.entry_count,
            descriptors@ == Seq::new(n as nat, |j: int| spec_descriptor(s@, big, j)),
            i <= n,
            entry_table@.len() == i as int,
            forall|j: int| 0 <= j < i ==> #[trigger] entry_table@[j] == (XdbfEntry {
                namespace: spec_descriptor(s@, big, j).namespace,
                id: spec_descriptor(s@, big, j).id,
                offset_specifier: spec_descriptor(s@, big, j).offset_specifier,
                length: spec_descriptor(s@, big, j).length,
                data: entry_table@[j].data,
            }),
            (match spec_entries_from(s@, i as nat) {
                Ok(rest) => spec_entries_from(s@, 0) == Ok::<Seq<XdbfEntryDataView>, XdbfError>(
                    entry_datas_view(entry_table@) + rest,
                ),
                Err(e) => spec_entries_from(s@, 0) == Err::<Seq<XdbfEntryDataView>, XdbfError>(e),
            }),
        decreases n - i,
    {
        let ghost k = i as nat;
        let d = descriptors[i];
        match decode_entry_payload(s, origin, big, &d) {
            Err(e) => {
                proof {
                    assert(spec_entries_from(s@, k) == Err::<Seq<XdbfEntryDataView>, XdbfError>(e));
                }
                return Err(e);
            },
            Ok(data) => {
                let entry = XdbfEntry {
                    namespace: d.namespace,
                    id: d.id,
                    offset_specifier: d.offset_specifier,
                    length: d.length,
                    data,
                };
                proof {
                    let tail = spec_entries_from(s@, k + 1);
                    match tail {
                        Err(e) => {
                            assert(spec_entries_from(s@, k) == Err::<
                                Seq<XdbfEntryDataView>,
                                XdbfError,
                            >(e));
                        },
                        Ok(rest) => {
                            assert(spec_entries_from(s@, k) == Ok::<
                                Seq<XdbfEntryDataView>,
                                XdbfError,
                            >(seq![entry.data@] + rest));
                            assert(entry_datas_view(entry_table@) + (seq![entry.data@] + rest)
                                =~= entry_datas_view(entry_table@.push(entry)) + rest);
                        },
                    }
                }
                entry_table.push(entry);
                i = i + 1;
            },
        }
    }
    proof {
        assert(entry_datas_view(entry_table@) + Seq::<XdbfEntryDataView>::empty()
            =~= entry_datas_view(entry_table@));
        let datas = entry_datas_view(entry_table@);
        assert(spec_entries_from(s@, 0) == Ok::<Seq<XdbfEntryDataView>, XdbfError>(datas));
        assert(entry_table@.map_values(|e: XdbfEntry| e@) =~= Seq::new(
            header.entry_count as nat,
            |j: int| XdbfEntryView {
                namespace: spec_descriptor(s@, big, j).namespace,
                id: spec_descriptor(s@, big, j).id,
                offset_specifier: spec_descriptor(s@, big, j).offset_specifier,
                length: spec_descriptor(s@, big, j).length,
                data: datas[j],
            },
        ));
    }
    Ok(Xdbf { big_endian: big, header, entry_table })
}

} // verus!
