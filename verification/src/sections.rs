//! The twelve structured section kinds, each with its byte layout stated
//! over [`crate::words`] and a decoder proved against that statement.
//!
//! Every section begins with a four-byte tag, always read big-endian,
//! followed by an eight-byte sub-header (format version and declared
//! size, both ignored). All other multi-byte fields follow the
//! container's byte order.
use crate::gzip::gunzip;
use crate::gzip::gunzip_of;
use crate::text::utf8_to_string;
use crate::words::read_u16;
use crate::words::read_u32;
use crate::words::read_u64;
use crate::words::word16;
use crate::words::word32;
use crate::words::word64;
use crate::XdbfError;
use vstd::prelude::*;
use vstd::slice::slice_subrange;
use vstd::utf8::decode_utf8;
use vstd::utf8::valid_utf8;

verus! {

pub const TAG_XACH: u32 = 0x58414348;

pub const TAG_XCXT: u32 = 0x58435854;

pub const TAG_XITB: u32 = 0x58495442;

pub const TAG_XMAT: u32 = 0x584D4154;

pub const TAG_XPBM: u32 = 0x5850424D;

pub const TAG_XPRP: u32 = 0x58505250;

pub const TAG_XRPT: u32 = 0x58525054;

pub const TAG_XSRC: u32 = 0x58535243;

pub const TAG_XSTC: u32 = 0x58535443;

pub const TAG_XTHD: u32 = 0x58544844;

pub const TAG_XVC2: u32 = 0x58564332;

pub const TAG_XSTR: u32 = 0x58535452;

/// The section body starts after the tag and the eight-byte sub-header.
pub const SECTION_BODY: usize = 12;

/// True when `s` is long enough for a tag and sub-header and carries the
/// given tag.
pub open spec fn section_prologue(s: Seq<u8>, tag: u32) -> bool {
    s.len() >= 12 && word32(s, 0, true) == tag
}

pub fn check_prologue(s: &[u8], tag: u32) -> (r: bool)
    ensures
        r == section_prologue(s@, tag),
{
    s.len() >= 12 && read_u32(s, 0, true) == tag
}

// ---------------------------------------------------------------------
// Achievements
// ---------------------------------------------------------------------
/// One fixed 30-byte achievement row: two bytes of padding follow the
/// gamerscore and ten bytes of padding follow the flags.
#[derive(Clone, Copy, Debug, PartialEq, Eq, Structural)]
pub struct XachAchievement {
    pub achievement_id: u16,
    pub title_string_id: u16,
    pub unlocked_description_id: u16,
    pub locked_description_id: u16,
    pub image_id: u32,
    pub gamerscore: u16,
    pub flags: u32,
}

#[derive(Clone, Debug, PartialEq, Eq)]
pub struct Xach {
    pub achievements: Vec<XachAchievement>,
}

pub open spec fn spec_xach_row(s: Seq<u8>, base: int, big: bool) -> XachAchievement {
    XachAchievement {
        achievement_id: word16(s, base, big),
        title_string_id: word16(s, base + 2, big),
        unlocked_description_id: word16(s, base + 4, big),
        locked_description_id: word16(s, base + 6, big),
        image_id: word32(s, base + 8, big),
        gamerscore: word16(s, base + 12, big),
        flags: word32(s, base + 16, big),
    }
}

/// An achievement section: a 16-bit row count at the body start, then
/// that many 30-byte rows.
pub open spec fn spec_xach(s: Seq<u8>, big: bool) -> Result<Seq<XachAchievement>, XdbfError> {
    if !section_prologue(s, TAG_XACH) || s.len() < 14 {
        Err(XdbfError::MalformedSection)
    } else {
        let n = word16(s, 12, big) as int;
        if 14 + n * 30 > s.len() {
            Err(XdbfError::MalformedSection)
        } else {
            Ok(Seq::new(n as nat, |i: int| spec_xach_row(s, 14 + i * 30, big)))
        }
    }
}

fn read_xach_row(s: &[u8], base: usize, big: bool) -> (r: XachAchievement)
    requires
        base + 30 <= s@.len(),
    ensures
        r == spec_xach_row(s@, base as int, big),
{
    // The call to len brings the slice's length bound on `base` into scope.
    let slen = s.len();
    XachAchievement {
        achievement_id: read_u16(s, base, big),
        title_string_id: read_u16(s, base + 2, big),
        unlocked_description_id: read_u16(s, base + 4, big),
        locked_description_id: read_u16(s, base + 6, big),
        image_id: read_u32(s, base + 8, big),
        gamerscore: read_u16(s, base + 12, big),
        flags: read_u32(s, base + 16, big),
    }
}

pub fn decode_xach(s: &[u8], big: bool) -> (r: Result<Xach, XdbfError>)
    ensures
        (match r {
            Ok(v) => spec_xach(s@, big) == Ok::<Seq<XachAchievement>, XdbfError>(v.achievements@),
            Err(e) => spec_xach(s@, big) == Err::<Seq<XachAchievement>, XdbfError>(e),
        }),
{
    if !check_prologue(s, TAG_XACH) || s.len() < 14 {
        return Err(XdbfError::MalformedSection);
    }
    let count = read_u16(s, 12, big);
    if 14u64 + (count as u64) * 30 > s.len() as u64 {
        return Err(XdbfError::MalformedSection);
    }
    let n = count as usize;
    let mut out: Vec<XachAchievement> = Vec::new();
    let mut i: usize = 0;
    while i < n
        invariant
            n == word16(s@, 12, big),
            14 + n * 30 <= s@.len(),
            s@.len() <= usize::MAX,
            i <= n,
            out@.len() == i as int,
            forall|j: int| 0 <= j < i ==> out@[j] == spec_xach_row(s@, 14 + j * 30, big),
        decreases n - i,
    {
        out.push(read_xach_row(s, 14 + i * 30, big));
        i = i + 1;
    }
    proof {
        assert(out@ =~= Seq::new(n as nat, |j: int| spec_xach_row(s@, 14 + j * 30, big)));
    }
    Ok(Xach { achievements: out })
}

// ---------------------------------------------------------------------
// Context values
// ---------------------------------------------------------------------
/// One fixed 16-byte context-value row of four opaque 32-bit fields.
#[derive(Clone, Copy, Debug, PartialEq, Eq, Structural)]
pub struct XcxtRecord {
    pub unknown0: u32,
    pub unknown1: u32,
    pub unknown2: u32,
    pub unknown3: u32,
}

#[derive(Clone, Debug, PartialEq, Eq)]
pub struct Xcxt {
    pub records: Vec<XcxtRecord>,
}

pub open spec fn spec_xcxt_row(s: Seq<u8>, base: int, big: bool) -> XcxtRecord {
    XcxtRecord {
        unknown0: word32(s, base, big),
        unknown1: word32(s, base + 4, big),
        unknown2: word32(s, base + 8, big),
        unknown3: word32(s, base + 12, big),
    }
}

/// A context-value section: a 32-bit row count, then that many 16-byte
/// rows, preserved opaquely.
pub open spec fn spec_xcxt(s: Seq<u8>, big: bool) -> Result<Seq<XcxtRecord>, XdbfError> {
    if !section_prologue(s, TAG_XCXT) || s.len() < 16 {
        Err(XdbfError::MalformedSection)
    } else {
        let n = word32(s, 12, big) as int;
        if 16 + n * 16 > s.len() {
            Err(XdbfError::MalformedSection)
        } else {
            Ok(Seq::new(n as nat, |i: int| spec_xcxt_row(s, 16 + i * 16, big)))
        }
    }
}

pub fn decode_xcxt(s: &[u8], big: bool) -> (r: Result<Xcxt, XdbfError>)
    ensures
        (match r {
            Ok(v) => spec_xcxt(s@, big) == Ok::<Seq<XcxtRecord>, XdbfError>(v.records@),
            Err(e) => spec_xcxt(s@, big) == Err::<Seq<XcxtRecord>, XdbfError>(e),
        }),
{
    if !check_prologue(s, TAG_XCXT) || s.len() < 16 {
        return Err(XdbfError::MalformedSection);
    }
    let count = read_u32(s, 12, big);
    if 16u64 + (count as u64) * 16 > s.len() as u64 {
        return Err(XdbfError::MalformedSection);
    }
    let n = count as usize;
    let mut out: Vec<XcxtRecord> = Vec::new();
    let mut i: usize = 0;
    while i < n
        invariant
            n == word32(s@, 12, big),
            16 + n * 16 <= s@.len(),
            s@.len() <= usize::MAX,
            i <= n,
            out@.len() == i as int,
            forall|j: int| 0 <= j < i ==> out@[j] == spec_xcxt_row(s@, 16 + j * 16, big),
        decreases n - i,
    {
        let base = 16 + i * 16;
        out.push(XcxtRecord {
            unknown0: read_u32(s, base, big),
            unknown1: read_u32(s, base + 4, big),
            unknown2: read_u32(s, base + 8, big),
            unknown3: read_u32(s, base + 12, big),
        });
        i = i + 1;
    }
    proof {
        assert(out@ =~= Seq::new(n as nat, |j: int| spec_xcxt_row(s@, 16 + j * 16, big)));
    }
    Ok(Xcxt { records: out })
}

// ---------------------------------------------------------------------
// Properties
// ---------------------------------------------------------------------
/// One fixed 8-byte property row holding an opaque 64-bit value.
#[derive(Clone, Copy, Debug, PartialEq, Eq, Structural)]
pub struct XprpRecord {
    pub unknown0: u64,
}

#[derive(Clone, Debug, PartialEq, Eq)]
pub struct Xprp {
    pub records: Vec<XprpRecord>,
}

/// A property section: a 16-bit row count, then that many 8-byte rows.
pub open spec fn spec_xprp(s: Seq<u8>, big: bool) -> Result<Seq<XprpRecord>, XdbfError> {
    if !section_prologue(s, TAG_XPRP) || s.len() < 14 {
        Err(XdbfError::MalformedSection)
    } else {
        let n = word16(s, 12, big) as int;
        if 14 + n * 8 > s.len() {
            Err(XdbfError::MalformedSection)
        } else {
            Ok(Seq::new(n as nat, |i: int| XprpRecord { unknown0: word64(s, 14 + i * 8, big) }))
        }
    }
}

pub fn decode_xprp(s: &[u8], big: bool) -> (r: Result<Xprp, XdbfError>)
    ensures
        (match r {
            Ok(v) => spec_xprp(s@, big) == Ok::<Seq<XprpRecord>, XdbfError>(v.records@),
            Err(e) => spec_xprp(s@, big) == Err::<Seq<XprpRecord>, XdbfError>(e),
        }),
{
    if !check_prologue(s, TAG_XPRP) || s.len() < 14 {
        return Err(XdbfError::MalformedSection);
    }
    let count = read_u16(s, 12, big);
    if 14u64 + (count as u64) * 8 > s.len() as u64 {
        return Err(XdbfError::MalformedSection);
    }
    let n = count as usize;
    let mut out: Vec<XprpRecord> = Vec::new();
    let mut i: usize = 0;
    while i < n
        invariant
            n == word16(s@, 12, big),
            14 + n * 8 <= s@.len(),
            s@.len() <= usize::MAX,
            i <= n,
            out@.len() == i as int,
            forall|j: int| 0 <= j < i ==> out@[j] == (XprpRecord {
                unknown0: word64(s@, 14 + j * 8, big),
            }),
        decreases n - i,
    {
        out.push(XprpRecord { unknown0: read_u64(s, 14 + i * 8, big) });
        i = i + 1;
    }
    proof {
        assert(out@ =~= Seq::new(
            n as nat,
            |j: int| XprpRecord { unknown0: word64(s@, 14 + j * 8, big) },
        ));
    }
    Ok(Xprp { records: out })
}

// ---------------------------------------------------------------------
// Image table
// ---------------------------------------------------------------------
/// One image row: a 32-bit image id, then a 32-bit byte length and that
/// many UTF-8 bytes naming the image.
#[derive(Clone, Debug, PartialEq, Eq)]
pub struct XitbImage {
    pub image_id: u32,
    pub image_path: String,
}

pub ghost struct XitbImageView {
    pub image_id: u32,
    pub image_path: Seq<char>,
}

impl View for XitbImage {
    type V = XitbImageView;

    open spec fn view(&self) -> XitbImageView {
        XitbImageView { image_id: self.image_id, image_path: self.image_path@ }
    }
}

#[derive(Clone, Debug, PartialEq, Eq)]
pub struct Xitb {
    pub images: Vec<XitbImage>,
}

pub open spec fn imgs_view(v: Seq<XitbImage>) -> Seq<XitbImageView> {
    v.map_values(|x: XitbImage| x@)
}

/// `n` consecutive image rows starting at `pos`, with the offset after
/// the last one. A row whose bytes run out is a malformed section; a
/// name that is not UTF-8 is invalid text.
pub open spec fn spec_xitb_rows(s: Seq<u8>, big: bool, pos: int, n: nat) -> Result<
    (Seq<XitbImageView>, int),
    XdbfError,
>
    decreases n,
{
    if n == 0 {
        Ok((Seq::empty(), pos))
    } else if pos + 8 > s.len() {
        Err(XdbfError::MalformedSection)
    } else {
        let l = word32(s, pos + 4, big) as int;
        if pos + 8 + l > s.len() {
            Err(XdbfError::MalformedSection)
        } else {
            let name = s.subrange(pos + 8, pos + 8 + l);
            if !valid_utf8(name) {
                Err(XdbfError::InvalidText)
            } else {
                match spec_xitb_rows(s, big, pos + 8 + l, (n - 1) as nat) {
                    Err(e) => Err(e),
                    Ok((rest, fin)) => Ok(
                        (
                            seq![
                                XitbImageView {
                                    image_id: word32(s, pos, big),
                                    image_path: decode_utf8(name),
                                },
                            ] + rest,
                            fin,
                        ),
                    ),
                }
            }
        }
    }
}

/// An image-table section: a 32-bit row count, then that many image rows.
pub open spec fn spec_xitb(s: Seq<u8>, big: bool) -> Result<Seq<XitbImageView>, XdbfError> {
    if !section_prologue(s, TAG_XITB) || s.len() < 16 {
        Err(XdbfError::MalformedSection)
    } else {
        match spec_xitb_rows(s, big, 16, word32(s, 12, big) as nat) {
            Err(e) => Err(e),
            Ok((rows, _)) => Ok(rows),
        }
    }
}

#[verifier::rlimit(50)]
pub fn decode_xitb(s: &[u8], big: bool) -> (r: Result<Xitb, XdbfError>)
    ensures
        (match r {
            Ok(v) => spec_xitb(s@, big) == Ok::<Seq<XitbImageView>, XdbfError>(imgs_view(v.images@)),
            Err(e) => spec_xitb(s@, big) == Err::<Seq<XitbImageView>, XdbfError>(e),
        }),
{
    let slen = s.len();
    if !check_prologue(s, TAG_XITB) || slen < 16 {
        return Err(XdbfError::MalformedSection);
    }
    let count = read_u32(s, 12, big);
    let n = count as usize;
    let mut out: Vec<XitbImage> = Vec::new();
    let mut pos: usize = 16;
    let mut i: usize = 0;
    while i < n
        invariant
            section_prologue(s@, TAG_XITB),
            s@.len() == slen,
            slen >= 16,
            n == word32(s@, 12, big),
            i <= n,
            pos <= slen,
            out@.len() == i as int,
            (match spec_xitb_rows(s@, big, pos as int, (n - i) as nat) {
                Ok(v) => spec_xitb_rows(s@, big, 16, n as nat) == Ok::<
                    (Seq<XitbImageView>, int),
                    XdbfError,
                >((imgs_view(out@) + v.0, v.1)),
                Err(e) => spec_xitb_rows(s@, big, 16, n as nat) == Err::<
                    (Seq<XitbImageView>, int),
                    XdbfError,
                >(e),
            }),
        decreases n - i,
    {
        let ghost m = (n - i) as nat;
        let ghost oldpos = pos as int;
        if slen < 8 || pos > slen - 8 {
            return Err(XdbfError::MalformedSection);
        }
        let image_id = read_u32(s, pos, big);
        let l = read_u32(s, pos + 4, big);
        let rem = slen - pos - 8;
        if (l as u64) > rem as u64 {
            return Err(XdbfError::MalformedSection);
        }
        let ln = l as usize;
        let name_bytes = vstd::slice::slice_to_vec(slice_subrange(s, pos + 8, pos + 8 + ln));
        let ghost name = s@.subrange(oldpos + 8, oldpos + 8 + l as int);
        let image_path = match utf8_to_string(name_bytes) {
            None => {
                proof {
                    assert(spec_xitb_rows(s@, big, oldpos, m) == Err::<
                        (Seq<XitbImageView>, int),
                        XdbfError,
                    >(XdbfError::InvalidText));
                }
                return Err(XdbfError::InvalidText);
            },
            Some(t) => t,
        };
        let row = XitbImage { image_id, image_path };
        proof {
            let tail = spec_xitb_rows(s@, big, oldpos + 8 + l as int, (m - 1) as nat);
            match tail {
                Err(e) => {
                    assert(spec_xitb_rows(s@, big, oldpos, m) == Err::<
                        (Seq<XitbImageView>, int),
                        XdbfError,
                    >(e));
                },
                Ok((rest, fin)) => {
                    assert(spec_xitb_rows(s@, big, oldpos, m) == Ok::<
                        (Seq<XitbImageView>, int),
                        XdbfError,
                    >((seq![row@] + rest, fin)));
                    assert(imgs_view(out@) + (seq![row@] + rest) =~= imgs_view(out@.push(row))
                        + rest);
                },
            }
        }
        out.push(row);
        pos = pos + 8 + ln;
        i = i + 1;
    }
    proof {
        assert(imgs_view(out@) + Seq::<XitbImageView>::empty() =~= imgs_view(out@));
    }
    Ok(Xitb { images: out })
}

// ---------------------------------------------------------------------
// Localized string table
// ---------------------------------------------------------------------
/// One string row: a 16-bit string id, then a 16-bit byte length and
/// that many UTF-8 bytes.
#[derive(Clone, Debug, PartialEq, Eq)]
pub struct XstrString {
    pub string_id: u16,
    pub string: String,
}

pub ghost struct XstrStringView {
    pub string_id: u16,
    pub string: Seq<char>,
}

impl View for XstrString {
    type V = XstrStringView;

    open spec fn view(&self) -> XstrStringView {
        XstrStringView { string_id: self.string_id, string: self.string@ }
    }
}

#[derive(Clone, Debug, PartialEq, Eq)]
pub struct Xstr {
    pub strings: Vec<XstrString>,
}

pub open spec fn strs_view(v: Seq<XstrString>) -> Seq<XstrStringView> {
    v.map_values(|x: XstrString| x@)
}

/// `n` consecutive string rows starting at `pos`, with the offset after
/// the last one.
pub open spec fn spec_xstr_rows(s: Seq<u8>, big: bool, pos: int, n: nat) -> Result<
    (Seq<XstrStringView>, int),
    XdbfError,
>
    decreases n,
{
    if n == 0 {
        Ok((Seq::empty(), pos))
    } else if pos + 4 > s.len() {
        Err(XdbfError::MalformedSection)
    } else {
        let l = word16(s, pos + 2, big) as int;
        if pos + 4 + l > s.len() {
            Err(XdbfError::MalformedSection)
        } else {
            let bytes = s.subrange(pos + 4, pos + 4 + l);
            if !valid_utf8(bytes) {
                Err(XdbfError::InvalidText)
            } else {
                match spec_xstr_rows(s, big, pos + 4 + l, (n - 1) as nat) {
                    Err(e) => Err(e),
                    Ok((rest, fin)) => Ok(
                        (
                            seq![
                                XstrStringView {
                                    string_id: word16(s, pos, big),
                                    string: decode_utf8(bytes),
                                },
                            ] + rest,
                            fin,
                        ),
                    ),
                }
            }
        }
    }
}

/// A localized string table: a 16-bit string count, then that many
/// string rows.
pub open spec fn spec_xstr(s: Seq<u8>, big: bool) -> Result<Seq<XstrStringView>, XdbfError> {
    if !section_prologue(s, TAG_XSTR) || s.len() < 14 {
        Err(XdbfError::MalformedSection)
    } else {
        match spec_xstr_rows(s, big, 14, word16(s, 12, big) as nat) {
            Err(e) => Err(e),
            Ok((rows, _)) => Ok(rows),
        }
    }
}

#[verifier::rlimit(50)]
pub fn decode_xstr(s: &[u8], big: bool) -> (r: Result<Xstr, XdbfError>)
    ensures
        (match r {
            Ok(v) => spec_xstr(s@, big) == Ok::<Seq<XstrStringView>, XdbfError>(
                strs_view(v.strings@),
            ),
            Err(e) => spec_xstr(s@, big) == Err::<Seq<XstrStringView>, XdbfError>(e),
        }),
{
    let slen = s.len();
    if !check_prologue(s, TAG_XSTR) || slen < 14 {
        return Err(XdbfError::MalformedSection);
    }
    let count = read_u16(s, 12, big);
    let n = count as usize;
    let mut out: Vec<XstrString> = Vec::new();
    let mut pos: usize = 14;
    let mut i: usize = 0;
    while i < n
        invariant
            section_prologue(s@, TAG_XSTR),
            s@.len() == slen,
            slen >= 14,
            n == word16(s@, 12, big),
            i <= n,
            pos <= slen,
            out@.len() == i as int,
            (match spec_xstr_rows(s@, big, pos as int, (n - i) as nat) {
                Ok(v) => spec_xstr_rows(s@, big, 14, n as nat) == Ok::<
                    (Seq<XstrStringView>, int),
                    XdbfError,
                >((strs_view(out@) + v.0, v.1)),
                Err(e) => spec_xstr_rows(s@, big, 14, n as nat) == Err::<
                    (Seq<XstrStringView>, int),
                    XdbfError,
                >(e),
            }),
        decreases n - i,
    {
        let ghost m = (n - i) as nat;
        let ghost oldpos = pos as int;
        if slen < 4 || pos > slen - 4 {
            return Err(XdbfError::MalformedSection);
        }
        let string_id = read_u16(s, pos, big);
        let l = read_u16(s, pos + 2, big);
        let rem = slen - pos - 4;
        if (l as u64) > rem as u64 {
            return Err(XdbfError::MalformedSection);
        }
        let ln = l as usize;
        let str_bytes = vstd::slice::slice_to_vec(slice_subrange(s, pos + 4, pos + 4 + ln));
        let string = match utf8_to_string(str_bytes) {
            None => {
                proof {
                    assert(spec_xstr_rows(s@, big, oldpos, m) == Err::<
                        (Seq<XstrStringView>, int),
                        XdbfError,
                    >(XdbfError::InvalidText));
                }
                return Err(XdbfError::InvalidText);
            },
            Some(t) => t,
        };
        let row = XstrString { string_id, string };
        proof {
            let tail = spec_xstr_rows(s@, big, oldpos + 4 + l as int, (m - 1) as nat);
            match tail {
                Err(e) => {
                    assert(spec_xstr_rows(s@, big, oldpos, m) == Err::<
                        (Seq<XstrStringView>, int),
                        XdbfError,
                    >(e));
                },
                Ok((rest, fin)) => {
                    assert(spec_xstr_rows(s@, big, oldpos, m) == Ok::<
                        (Seq<XstrStringView>, int),
                        XdbfError,
                    >((seq![row@] + rest, fin)));
                    assert(strs_view(out@) + (seq![row@] + rest) =~= strs_view(out@.push(row))
                        + rest);
                },
            }
        }
        out.push(row);
        pos = pos + 4 + ln;
        i = i + 1;
    }
    proof {
        assert(strs_view(out@) + Seq::<XstrStringView>::empty() =~= strs_view(out@));
    }
    Ok(Xstr { strings: out })
}

// ---------------------------------------------------------------------
// Embedded compressed file
// ---------------------------------------------------------------------
/// An embedded source file: a length-prefixed UTF-8 filename, two size
/// fields kept for information only, then a gzip stream running to the
/// end of the section, stored decompressed.
#[derive(Clone, Debug, PartialEq, Eq)]
pub struct Xsrc {
    pub filename: String,
    pub gzip_file: Vec<u8>,
}

pub ghost struct XsrcView {
    pub filename: Seq<char>,
    pub gzip_file: Seq<u8>,
}

impl View for Xsrc {
    type V = XsrcView;

    open spec fn view(&self) -> XsrcView {
        XsrcView { filename: self.filename@, gzip_file: self.gzip_file@ }
    }
}

pub open spec fn spec_xsrc(s: Seq<u8>, big: bool) -> Result<XsrcView, XdbfError> {
    if !section_prologue(s, TAG_XSRC) || s.len() < 16 {
        Err(XdbfError::MalformedSection)
    } else {
        let l = word32(s, 12, big) as int;
        if 16 + l + 8 > s.len() {
            Err(XdbfError::MalformedSection)
        } else {
            let name = s.subrange(16, 16 + l);
            if !valid_utf8(name) {
                Err(XdbfError::InvalidText)
            } else {
                match gunzip_of(s.subrange(24 + l, s.len() as int)) {
                    None => Err(XdbfError::DecompressionError),
                    Some(data) => Ok(XsrcView { filename: decode_utf8(name), gzip_file: data }),
                }
            }
        }
    }
}

pub fn decode_xsrc(s: &[u8], big: bool) -> (r: Result<Xsrc, XdbfError>)
    ensures
        (match r {
            Ok(v) => spec_xsrc(s@, big) == Ok::<XsrcView, XdbfError>(v@),
            Err(e) => spec_xsrc(s@, big) == Err::<XsrcView, XdbfError>(e),
        }),
{
    let slen = s.len();
    if !check_prologue(s, TAG_XSRC) || slen < 16 {
        return Err(XdbfError::MalformedSection);
    }
    let l = read_u32(s, 12, big);
    let rem = slen - 16;
    if (l as u64) + 8 > rem as u64 {
        return Err(XdbfError::MalformedSection);
    }
    let ln = l as usize;
    let name_bytes = vstd::slice::slice_to_vec(slice_subrange(s, 16, 16 + ln));
    let filename = match utf8_to_string(name_bytes) {
        None => {
            return Err(XdbfError::InvalidText);
        },
        Some(t) => t,
    };
    let gz = slice_subrange(s, 24 + ln, slen);
    let gzip_file = match gunzip(gz) {
        Err(e) => {
            return Err(e);
        },
        Ok(d) => d,
    };
    Ok(Xsrc { filename, gzip_file })
}

// ---------------------------------------------------------------------
// Property-bag metadata
// ---------------------------------------------------------------------
/// The recurring property-bag-metadata block: its own tag and sub-header,
/// a context count, a property count, then that many 32-bit context ids
/// and property ids.
#[derive(Clone, Debug, PartialEq, Eq)]
pub struct Xpbm {
    pub context_count: u32,
    pub property_count: u32,
    pub contexts: Vec<u32>,
    pub properties: Vec<u32>,
}

pub ghost struct XpbmView {
    pub context_count: u32,
    pub property_count: u32,
    pub contexts: Seq<u32>,
    pub properties: Seq<u32>,
}

impl View for Xpbm {
    type V = XpbmView;

    open spec fn view(&self) -> XpbmView {
        XpbmView {
            context_count: self.context_count,
            property_count: self.property_count,
            contexts: self.contexts@,
            properties: self.properties@,
        }
    }
}

/// The property-bag-metadata block starting at byte offset `pos` of `s`,
/// together with the offset of the first byte after it. Kept opaque so
/// that proofs about block sequences do not unfold it; `reveal` it where
/// the field layout itself matters.
#[verifier::opaque]
pub open spec fn spec_pbm_at(s: Seq<u8>, big: bool, pos: int) -> Result<
    (XpbmView, int),
    XdbfError,
> {
    if pos + 20 > s.len() || word32(s, pos, true) != TAG_XPBM {
        Err(XdbfError::MalformedSection)
    } else {
        let cc = word32(s, pos + 12, big) as int;
        let pc = word32(s, pos + 16, big) as int;
        let end = pos + 20 + cc * 4 + pc * 4;
        if end > s.len() {
            Err(XdbfError::MalformedSection)
        } else {
            Ok(
                (
                    XpbmView {
                        context_count: word32(s, pos + 12, big),
                        property_count: word32(s, pos + 16, big),
                        contexts: Seq::new(cc as nat, |i: int| word32(s, pos + 20 + i * 4, big)),
                        properties: Seq::new(
                            pc as nat,
                            |i: int| word32(s, pos + 20 + cc * 4 + i * 4, big),
                        ),
                    },
                    end,
                ),
            )
        }
    }
}

pub fn decode_pbm_at(s: &[u8], big: bool, pos: usize) -> (r: Result<(Xpbm, usize), XdbfError>)
    ensures
        (match r {
            Ok(v) => spec_pbm_at(s@, big, pos as int) == Ok::<(XpbmView, int), XdbfError>(
                (v.0@, v.1 as int),
            ) && pos <= v.1 <= s@.len(),
            Err(e) => spec_pbm_at(s@, big, pos as int) == Err::<(XpbmView, int), XdbfError>(e),
        }),
{
    proof {
        reveal(spec_pbm_at);
    }
    let slen = s.len();
    if slen < 20 || pos > slen - 20 || read_u32(s, pos, true) != TAG_XPBM {
        return Err(XdbfError::MalformedSection);
    }
    let cc = read_u32(s, pos + 12, big);
    let pc = read_u32(s, pos + 16, big);
    let room = slen - pos - 20;
    if (cc as u64) * 4 + (pc as u64) * 4 > room as u64 {
        return Err(XdbfError::MalformedSection);
    }
    let ccn = cc as usize;
    let pcn = pc as usize;
    let ctx_base = pos + 20;
    let prop_base = ctx_base + ccn * 4;
    let end = prop_base + pcn * 4;
    let mut contexts: Vec<u32> = Vec::new();
    let mut i: usize = 0;
    while i < ccn
        invariant
            ccn == word32(s@, pos as int + 12, big),
            ctx_base == pos + 20,
            ctx_base + ccn * 4 <= s@.len(),
            s@.len() <= usize::MAX,
            i <= ccn,
            contexts@.len() == i as int,
            forall|j: int| 0 <= j < i ==> contexts@[j] == word32(s@, pos + 20 + j * 4, big),
        decreases ccn - i,
    {
        contexts.push(read_u32(s, ctx_base + i * 4, big));
        i = i + 1;
    }
    let mut properties: Vec<u32> = Vec::new();
    let mut k: usize = 0;
    while k < pcn
        invariant
            pcn == word32(s@, pos as int + 16, big),
            prop_base == pos + 20 + ccn * 4,
            prop_base + pcn * 4 <= s@.len(),
            s@.len() <= usize::MAX,
            k <= pcn,
            properties@.len() == k as int,
            forall|j: int| 0 <= j < k ==> properties@[j] == word32(
                s@,
                pos + 20 + ccn * 4 + j * 4,
                big,
            ),
        decreases pcn - k,
    {
        properties.push(read_u32(s, prop_base + k * 4, big));
        k = k + 1;
    }
    proof {
        assert(contexts@ =~= Seq::new(ccn as nat, |j: int| word32(s@, pos + 20 + j * 4, big)));
        assert(properties@ =~= Seq::new(
            pcn as nat,
            |j: int| word32(s@, pos + 20 + ccn * 4 + j * 4, big),
        ));
    }
    Ok((Xpbm { context_count: cc, property_count: pc, contexts, properties }, end))
}

// ---------------------------------------------------------------------
// Material / property-bag wrapper
// ---------------------------------------------------------------------
#[derive(Clone, Debug, PartialEq, Eq)]
pub struct Xmat {
    pub property_bag_metadata: Xpbm,
}

/// A material section: the section prologue, then one nested
/// property-bag-metadata block.
pub open spec fn spec_xmat(s: Seq<u8>, big: bool) -> Result<XpbmView, XdbfError> {
    if !section_prologue(s, TAG_XMAT) {
        Err(XdbfError::MalformedSection)
    } else {
        match spec_pbm_at(s, big, 12) {
            Ok(v) => Ok(v.0),
            Err(e) => Err(e),
        }
    }
}

pub fn decode_xmat(s: &[u8], big: bool) -> (r: Result<Xmat, XdbfError>)
    ensures
        (match r {
            Ok(v) => spec_xmat(s@, big) == Ok::<XpbmView, XdbfError>(v.property_bag_metadata@),
            Err(e) => spec_xmat(s@, big) == Err::<XpbmView, XdbfError>(e),
        }),
{
    if !check_prologue(s, TAG_XMAT) {
        return Err(XdbfError::MalformedSection);
    }
    match decode_pbm_at(s, big, 12) {
        Ok((p, _)) => Ok(Xmat { property_bag_metadata: p }),
        Err(e) => Err(e),
    }
}

// ---------------------------------------------------------------------
// Report
// ---------------------------------------------------------------------
#[derive(Clone, Debug, PartialEq, Eq)]
pub struct Xrpt {
    pub property_bag_metadata: Xpbm,
    pub property_bag_metadatas: Vec<Xpbm>,
}

pub ghost struct XrptView {
    pub property_bag_metadata: XpbmView,
    pub property_bag_metadatas: Seq<XpbmView>,
}

pub open spec fn pbms_view(v: Seq<Xpbm>) -> Seq<XpbmView> {
    v.map_values(|p: Xpbm| p@)
}

/// `n` consecutive property-bag-metadata blocks starting at `pos`,
/// together with the offset after the last one.
pub open spec fn spec_pbm_seq(s: Seq<u8>, big: bool, pos: int, n: nat) -> Result<
    (Seq<XpbmView>, int),
    XdbfError,
>
    decreases n,
{
    if n == 0 {
        Ok((Seq::empty(), pos))
    } else {
        match spec_pbm_at(s, big, pos) {
            Err(e) => Err(e),
            Ok((p, end)) => match spec_pbm_seq(s, big, end, (n - 1) as nat) {
                Err(e) => Err(e),
                Ok((rest, fin)) => Ok((seq![p] + rest, fin)),
            },
        }
    }
}

/// A report section: one property-bag-metadata block, then a 16-bit count
/// of further blocks, then that many blocks.
pub open spec fn spec_xrpt(s: Seq<u8>, big: bool) -> Result<XrptView, XdbfError> {
    if !section_prologue(s, TAG_XRPT) {
        Err(XdbfError::MalformedSection)
    } else {
        match spec_pbm_at(s, big, 12) {
            Err(e) => Err(e),
            Ok((first, end)) => {
                if end + 2 > s.len() {
                    Err(XdbfError::MalformedSection)
                } else {
                    match spec_pbm_seq(s, big, end + 2, word16(s, end, big) as nat) {
                        Err(e) => Err(e),
                        Ok((rest, _)) => Ok(
                            XrptView {
                                property_bag_metadata: first,
                                property_bag_metadatas: rest,
                            },
                        ),
                    }
                }
            },
        }
    }
}

#[verifier::rlimit(50)]
pub fn decode_xrpt(s: &[u8], big: bool) -> (r: Result<Xrpt, XdbfError>)
    ensures
        (match r {
            Ok(v) => spec_xrpt(s@, big) == Ok::<XrptView, XdbfError>(
                XrptView {
                    property_bag_metadata: v.property_bag_metadata@,
                    property_bag_metadatas: pbms_view(v.property_bag_metadatas@),
                },
            ),
            Err(e) => spec_xrpt(s@, big) == Err::<XrptView, XdbfError>(e),
        }),
{
    let slen = s.len();
    if !check_prologue(s, TAG_XRPT) {
        return Err(XdbfError::MalformedSection);
    }
    let (first, end) = match decode_pbm_at(s, big, 12) {
        Ok(v) => v,
        Err(e) => {
            return Err(e);
        },
    };
    if slen < 2 || end > slen - 2 {
        return Err(XdbfError::MalformedSection);
    }
    let count = read_u16(s, end, big);
    let n = count as usize;
    let start = end + 2;
    let mut out: Vec<Xpbm> = Vec::new();
    let mut pos: usize = start;
    let mut i: usize = 0;
    while i < n
        invariant
            section_prologue(s@, TAG_XRPT),
            2 <= start <= s@.len(),
            spec_pbm_at(s@, big, 12) == Ok::<(XpbmView, int), XdbfError>((first@, start - 2)),
            n == word16(s@, start - 2, big),
            i <= n,
            out@.len() == i as int,
            (match spec_pbm_seq(s@, big, pos as int, (n - i) as nat) {
                Ok(v) => spec_pbm_seq(s@, big, start as int, n as nat) == Ok::<
                    (Seq<XpbmView>, int),
                    XdbfError,
                >((pbms_view(out@) + v.0, v.1)),
                Err(e) => spec_pbm_seq(s@, big, start as int, n as nat) == Err::<
                    (Seq<XpbmView>, int),
                    XdbfError,
                >(e),
            }),
        decreases n - i,
    {
        let ghost m = (n - i) as nat;
        let ghost oldpos = pos as int;
        match decode_pbm_at(s, big, pos) {
            Err(e) => {
                proof {
                    assert(spec_pbm_seq(s@, big, oldpos, m) == Err::<
                        (Seq<XpbmView>, int),
                        XdbfError,
                    >(e));
                }
                return Err(e);
            },
            Ok((p, next)) => {
                proof {
                    let tail = spec_pbm_seq(s@, big, next as int, (m - 1) as nat);
                    match tail {
                        Err(e) => {
                            assert(spec_pbm_seq(s@, big, oldpos, m) == Err::<
                                (Seq<XpbmView>, int),
                                XdbfError,
                            >(e));
                        },
                        Ok((rest, fin)) => {
                            assert(spec_pbm_seq(s@, big, oldpos, m) == Ok::<
                                (Seq<XpbmView>, int),
                                XdbfError,
                            >((seq![p@] + rest, fin)));
                            assert(pbms_view(out@) + (seq![p@] + rest) =~= pbms_view(
                                out@.push(p),
                            ) + rest);
                        },
                    }
                }
                out.push(p);
                pos = next;
                i = i + 1;
            },
        }
    }
    proof {
        assert(pbms_view(out@) + Seq::<XpbmView>::empty() =~= pbms_view(out@));
    }
    Ok(Xrpt { property_bag_metadata: first, property_bag_metadatas: out })
}

// ---------------------------------------------------------------------
// Stats view table
// ---------------------------------------------------------------------
/// One fixed 20-byte field-descriptor row of a shared stats view.
#[derive(Clone, Copy, Debug, PartialEq, Eq, Structural)]
pub struct Xvc2ViewFieldEntry {
    pub size: u32,
    pub property_id: u32,
    pub flags: u32,
    pub attribute_id: u16,
    pub string_id: u16,
    pub aggregation_type: u16,
    pub ordinal: u8,
    pub field_type: u8,
}

pub open spec fn spec_xvc2_field(s: Seq<u8>, base: int, big: bool) -> Xvc2ViewFieldEntry {
    Xvc2ViewFieldEntry {
        size: word32(s, base, big),
        property_id: word32(s, base + 4, big),
        flags: word32(s, base + 8, big),
        attribute_id: word16(s, base + 12, big),
        string_id: word16(s, base + 14, big),
        aggregation_type: word16(s, base + 16, big),
        ordinal: s[base + 18],
        field_type: s[base + 19],
    }
}

/// One fixed 12-byte view-table row.
#[derive(Clone, Copy, Debug, PartialEq, Eq, Structural)]
pub struct Xvc2StatsViewTableEntry {
    pub id: u32,
    pub flags: u32,
    pub shared_index: u16,
    pub string_id: u16,
}

pub open spec fn spec_xvc2_view_row(s: Seq<u8>, base: int, big: bool) -> Xvc2StatsViewTableEntry {
    Xvc2StatsViewTableEntry {
        id: word32(s, base, big),
        flags: word32(s, base + 4, big),
        shared_index: word16(s, base + 8, big),
        string_id: word16(s, base + 10, big),
    }
}

/// One shared view: a column count and a row count (followed by eight
/// bytes of padding), that many 20-byte column and row field descriptors,
/// then a property-bag-metadata block.
#[derive(Clone, Debug, PartialEq, Eq)]
pub struct Xvc2SharedView {
    pub column_count: u16,
    pub row_count: u16,
    pub column_entries: Vec<Xvc2ViewFieldEntry>,
    pub row_entries: Vec<Xvc2ViewFieldEntry>,
    pub property_bag_metadata: Xpbm,
}

pub ghost struct Xvc2SharedViewView {
    pub column_count: u16,
    pub row_count: u16,
    pub column_entries: Seq<Xvc2ViewFieldEntry>,
    pub row_entries: Seq<Xvc2ViewFieldEntry>,
    pub property_bag_metadata: XpbmView,
}

impl View for Xvc2SharedView {
    type V = Xvc2SharedViewView;

    open spec fn view(&self) -> Xvc2SharedViewView {
        Xvc2SharedViewView {
            column_count: self.column_count,
            row_count: self.row_count,
            column_entries: self.column_entries@,
            row_entries: self.row_entries@,
            property_bag_metadata: self.property_bag_metadata@,
        }
    }
}

#[derive(Clone, Debug, PartialEq, Eq)]
pub struct Xvc2 {
    pub shared_views: Vec<Xvc2SharedView>,
    pub views: Vec<Xvc2StatsViewTableEntry>,
}

pub ghost struct Xvc2View {
    pub shared_views: Seq<Xvc2SharedViewView>,
    pub views: Seq<Xvc2StatsViewTableEntry>,
}

pub open spec fn svs_view(v: Seq<Xvc2SharedView>) -> Seq<Xvc2SharedViewView> {
    v.map_values(|x: Xvc2SharedView| x@)
}

/// The shared view starting at byte offset `pos`, with the offset after
/// its property-bag-metadata block.
pub open spec fn spec_shared_view_at(s: Seq<u8>, big: bool, pos: int) -> Result<
    (Xvc2SharedViewView, int),
    XdbfError,
> {
    if pos + 12 > s.len() {
        Err(XdbfError::MalformedSection)
    } else {
        let cc = word16(s, pos, big) as int;
        let rc = word16(s, pos + 2, big) as int;
        let ents = pos + 12;
        if ents + cc * 20 + rc * 20 > s.len() {
            Err(XdbfError::MalformedSection)
        } else {
            match spec_pbm_at(s, big, ents + cc * 20 + rc * 20) {
                Err(e) => Err(e),
                Ok((p, end)) => Ok(
                    (
                        Xvc2SharedViewView {
                            column_count: word16(s, pos, big),
                            row_count: word16(s, pos + 2, big),
                            column_entries: Seq::new(
                                cc as nat,
                                |i: int| spec_xvc2_field(s, ents + i * 20, big),
                            ),
                            row_entries: Seq::new(
                                rc as nat,
                                |i: int| spec_xvc2_field(s, ents + cc * 20 + i * 20, big),
                            ),
                            property_bag_metadata: p,
                        },
                        end,
                    ),
                ),
            }
        }
    }
}

/// `n` consecutive shared views starting at `pos`.
pub open spec fn spec_shared_views(s: Seq<u8>, big: bool, pos: int, n: nat) -> Result<
    (Seq<Xvc2SharedViewView>, int),
    XdbfError,
>
    decreases n,
{
    if n == 0 {
        Ok((Seq::empty(), pos))
    } else {
        match spec_shared_view_at(s, big, pos) {
            Err(e) => Err(e),
            Ok((v, end)) => match spec_shared_views(s, big, end, (n - 1) as nat) {
                Err(e) => Err(e),
                Ok((rest, fin)) => Ok((seq![v] + rest, fin)),
            },
        }
    }
}

/// A stats-view-table section: a 16-bit shared-view count and that many
/// shared views, then a 16-bit view count and that many 12-byte rows.
pub open spec fn spec_xvc2(s: Seq<u8>, big: bool) -> Result<Xvc2View, XdbfError> {
    if !section_prologue(s, TAG_XVC2) || s.len() < 14 {
        Err(XdbfError::MalformedSection)
    } else {
        match spec_shared_views(s, big, 14, word16(s, 12, big) as nat) {
            Err(e) => Err(e),
            Ok((svs, end)) => {
                if end + 2 > s.len() {
                    Err(XdbfError::MalformedSection)
                } else {
                    let vn = word16(s, end, big) as int;
                    if end + 2 + vn * 12 > s.len() {
                        Err(XdbfError::MalformedSection)
                    } else {
                        Ok(
                            Xvc2View {
                                shared_views: svs,
                                views: Seq::new(
                                    vn as nat,
                                    |i: int| spec_xvc2_view_row(s, end + 2 + i * 12, big),
                                ),
                            },
                        )
                    }
                }
            },
        }
    }
}

fn read_xvc2_field(s: &[u8], base: usize, big: bool) -> (r: Xvc2ViewFieldEntry)
    requires
        base + 20 <= s@.len(),
    ensures
        r == spec_xvc2_field(s@, base as int, big),
{
    // The call to len brings the slice's length bound on `base` into scope.
    let slen = s.len();
    Xvc2ViewFieldEntry {
        size: read_u32(s, base, big),
        property_id: read_u32(s, base + 4, big),
        flags: read_u32(s, base + 8, big),
        attribute_id: read_u16(s, base + 12, big),
        string_id: read_u16(s, base + 14, big),
        aggregation_type: read_u16(s, base + 16, big),
        ordinal: s[base + 18],
        field_type: s[base + 19],
    }
}

#[verifier::rlimit(50)]
fn decode_shared_view_at(s: &[u8], big: bool, pos: usize) -> (r: Result<
    (Xvc2SharedView, usize),
    XdbfError,
>)
    ensures
        (match r {
            Ok(v) => spec_shared_view_at(s@, big, pos as int) == Ok::<
                (Xvc2SharedViewView, int),
                XdbfError,
            >((v.0@, v.1 as int)) && pos <= v.1 <= s@.len(),
            Err(e) => spec_shared_view_at(s@, big, pos as int) == Err::<
                (Xvc2SharedViewView, int),
                XdbfError,
            >(e),
        }),
{
    let slen = s.len();
    if slen < 12 || pos > slen - 12 {
        return Err(XdbfError::MalformedSection);
    }
    let cc = read_u16(s, pos, big);
    let rc = read_u16(s, pos + 2, big);
    let ents = pos + 12;
    let room = slen - ents;
    if (cc as u64) * 20 + (rc as u64) * 20 > room as u64 {
        return Err(XdbfError::MalformedSection);
    }
    let ccn = cc as usize;
    let rcn = rc as usize;
    let mut column_entries: Vec<Xvc2ViewFieldEntry> = Vec::new();
    let mut i: usize = 0;
    while i < ccn
        invariant
            ents + ccn * 20 + rcn * 20 <= s@.len(),
            s@.len() <= usize::MAX,
            i <= ccn,
            column_entries@.len() == i as int,
            forall|j: int| 0 <= j < i ==> column_entries@[j] == spec_xvc2_field(
                s@,
                ents + j * 20,
                big,
            ),
        decreases ccn - i,
    {
        column_entries.push(read_xvc2_field(s, ents + i * 20, big));
        i = i + 1;
    }
    let row_base = ents + ccn * 20;
    let mut row_entries: Vec<Xvc2ViewFieldEntry> = Vec::new();
    let mut k: usize = 0;
    while k < rcn
        invariant
            row_base == ents + ccn * 20,
            row_base + rcn * 20 <= s@.len(),
            s@.len() <= usize::MAX,
            k <= rcn,
            row_entries@.len() == k as int,
            forall|j: int| 0 <= j < k ==> row_entries@[j] == spec_xvc2_field(
                s@,
                row_base + j * 20,
                big,
            ),
        decreases rcn - k,
    {
        row_entries.push(read_xvc2_field(s, row_base + k * 20, big));
        k = k + 1;
    }
    let (pbm, end) = match decode_pbm_at(s, big, row_base + rcn * 20) {
        Err(e) => {
            return Err(e);
        },
        Ok(v) => v,
    };
    proof {
        assert(column_entries@ =~= Seq::new(
            ccn as nat,
            |j: int| spec_xvc2_field(s@, pos + 12 + j * 20, big),
        ));
        assert(row_entries@ =~= Seq::new(
            rcn as nat,
            |j: int| spec_xvc2_field(s@, pos + 12 + ccn * 20 + j * 20, big),
        ));
    }
    Ok(
        (
            Xvc2SharedView {
                column_count: cc,
                row_count: rc,
                column_entries,
                row_entries,
                property_bag_metadata: pbm,
            },
            end,
        ),
    )
}

#[verifier::rlimit(50)]
pub fn decode_xvc2(s: &[u8], big: bool) -> (r: Result<Xvc2, XdbfError>)
    ensures
        (match r {
            Ok(v) => spec_xvc2(s@, big) == Ok::<Xvc2View, XdbfError>(
                Xvc2View { shared_views: svs_view(v.shared_views@), views: v.views@ },
            ),
            Err(e) => spec_xvc2(s@, big) == Err::<Xvc2View, XdbfError>(e),
        }),
{
    let slen = s.len();
    if !check_prologue(s, TAG_XVC2) || slen < 14 {
        return Err(XdbfError::MalformedSection);
    }
    let count = read_u16(s, 12, big);
    let n = count as usize;
    let mut shared_views: Vec<Xvc2SharedView> = Vec::new();
    let mut pos: usize = 14;
    let mut i: usize = 0;
    while i < n
        invariant
            section_prologue(s@, TAG_XVC2),
            s@.len() == slen,
            slen >= 14,
            n == word16(s@, 12, big),
            i <= n,
            pos <= slen,
            shared_views@.len() == i as int,
            (match spec_shared_views(s@, big, pos as int, (n - i) as nat) {
                Ok(v) => spec_shared_views(s@, big, 14, n as nat) == Ok::<
                    (Seq<Xvc2SharedViewView>, int),
                    XdbfError,
                >((svs_view(shared_views@) + v.0, v.1)),
                Err(e) => spec_shared_views(s@, big, 14, n as nat) == Err::<
                    (Seq<Xvc2SharedViewView>, int),
                    XdbfError,
                >(e),
            }),
        decreases n - i,
    {
        let ghost m = (n - i) as nat;
        let ghost oldpos = pos as int;
        match decode_shared_view_at(s, big, pos) {
            Err(e) => {
                proof {
                    assert(spec_shared_views(s@, big, oldpos, m) == Err::<
                        (Seq<Xvc2SharedViewView>, int),
                        XdbfError,
                    >(e));
                }
                return Err(e);
            },
            Ok((v, next)) => {
                proof {
                    let tail = spec_shared_views(s@, big, next as int, (m - 1) as nat);
                    match tail {
                        Err(e) => {
                            assert(spec_shared_views(s@, big, oldpos, m) == Err::<
                                (Seq<Xvc2SharedViewView>, int),
                                XdbfError,
                            >(e));
                        },
                        Ok((rest, fin)) => {
                            assert(spec_shared_views(s@, big, oldpos, m) == Ok::<
                                (Seq<Xvc2SharedViewView>, int),
                                XdbfError,
                            >((seq![v@] + rest, fin)));
                            assert(svs_view(shared_views@) + (seq![v@] + rest) =~= svs_view(
                                shared_views@.push(v),
                            ) + rest);
                        },
                    }
                }
                shared_views.push(v);
                pos = next;
                i = i + 1;
            },
        }
    }
    proof {
        assert(svs_view(shared_views@) + Seq::<Xvc2SharedViewView>::empty() =~= svs_view(
            shared_views@,
        ));
    }
    if slen < 2 || pos > slen - 2 {
        return Err(XdbfError::MalformedSection);
    }
    let vcount = read_u16(s, pos, big);
    let vrem = slen - pos - 2;
    if (vcount as u64) * 12 > vrem as u64 {
        return Err(XdbfError::MalformedSection);
    }
    let vn = vcount as usize;
    let vbase = pos + 2;
    let mut views: Vec<Xvc2StatsViewTableEntry> = Vec::new();
    let mut k: usize = 0;
    while k < vn
        invariant
            vbase + vn * 12 <= s@.len(),
            s@.len() <= usize::MAX,
            k <= vn,
            views@.len() == k as int,
            forall|j: int| 0 <= j < k ==> views@[j] == spec_xvc2_view_row(s@, vbase + j * 12, big),
        decreases vn - k,
    {
        let base = vbase + k * 12;
        views.push(Xvc2StatsViewTableEntry {
            id: read_u32(s, base, big),
            flags: read_u32(s, base + 4, big),
            shared_index: read_u16(s, base + 8, big),
            string_id: read_u16(s, base + 10, big),
        });
        k = k + 1;
    }
    proof {
        assert(views@ =~= Seq::new(vn as nat, |j: int| spec_xvc2_view_row(s@, vbase + j * 12, big)));
    }
    Ok(Xvc2 { shared_views, views })
}

// ---------------------------------------------------------------------
// Static context
// ---------------------------------------------------------------------
#[derive(Clone, Copy, Debug, PartialEq, Eq, Structural)]
pub struct Xstc {
    pub unknown0: u32,
}

/// A static-context section: a single opaque 32-bit value.
pub open spec fn spec_xstc(s: Seq<u8>, big: bool) -> Result<Xstc, XdbfError> {
    if !section_prologue(s, TAG_XSTC) || s.len() < 16 {
        Err(XdbfError::MalformedSection)
    } else {
        Ok(Xstc { unknown0: word32(s, 12, big) })
    }
}

pub fn decode_xstc(s: &[u8], big: bool) -> (r: Result<Xstc, XdbfError>)
    ensures
        r == spec_xstc(s@, big),
{
    if !check_prologue(s, TAG_XSTC) || s.len() < 16 {
        return Err(XdbfError::MalformedSection);
    }
    Ok(Xstc { unknown0: read_u32(s, 12, big) })
}

// ---------------------------------------------------------------------
// Title header
// ---------------------------------------------------------------------
#[derive(Clone, Copy, Debug, PartialEq, Eq, Structural)]
pub enum TitleType {
    System,
    Full,
    Demo,
    Download,
}

/// The enumerated title type; any value past the four defined ones is a
/// decode error.
pub open spec fn spec_title_type(v: u32) -> Option<TitleType> {
    if v == 0 {
        Some(TitleType::System)
    } else if v == 1 {
        Some(TitleType::Full)
    } else if v == 2 {
        Some(TitleType::Demo)
    } else if v == 3 {
        Some(TitleType::Download)
    } else {
        None
    }
}

/// A title header: title id, title type, three version components and a
/// revision, followed by sixteen bytes of defined padding.
#[derive(Clone, Copy, Debug, PartialEq, Eq, Structural)]
pub struct Xthd {
    pub title_id: u32,
    pub title_type: TitleType,
    pub project_version_major: u16,
    pub project_version_minor: u16,
    pub project_version_build: u16,
    pub project_version_revision: u16,
}

pub open spec fn spec_xthd(s: Seq<u8>, big: bool) -> Result<Xthd, XdbfError> {
    if !section_prologue(s, TAG_XTHD) || s.len() < 44 {
        Err(XdbfError::MalformedSection)
    } else {
        match spec_title_type(word32(s, 16, big)) {
            Some(tt) => Ok(
                Xthd {
                    title_id: word32(s, 12, big),
                    title_type: tt,
                    project_version_major: word16(s, 20, big),
                    project_version_minor: word16(s, 22, big),
                    project_version_build: word16(s, 24, big),
                    project_version_revision: word16(s, 26, big),
                },
            ),
            None => Err(XdbfError::MalformedSection),
        }
    }
}

pub fn decode_xthd(s: &[u8], big: bool) -> (r: Result<Xthd, XdbfError>)
    ensures
        r == spec_xthd(s@, big),
{
    if !check_prologue(s, TAG_XTHD) || s.len() < 44 {
        return Err(XdbfError::MalformedSection);
    }
    let raw_type = read_u32(s, 16, big);
    let tt = if raw_type == 0 {
        TitleType::System
    } else if raw_type == 1 {
        TitleType::Full
    } else if raw_type == 2 {
        TitleType::Demo
    } else if raw_type == 3 {
        TitleType::Download
    } else {
        return Err(XdbfError::MalformedSection);
    };
    Ok(Xthd {
        title_id: read_u32(s, 12, big),
        title_type: tt,
        project_version_major: read_u16(s, 20, big),
        project_version_minor: read_u16(s, 22, big),
        project_version_build: read_u16(s, 24, big),
        project_version_revision: read_u16(s, 26, big),
    })
}

// ---------------------------------------------------------------------
// Section type dispatch
// ---------------------------------------------------------------------
/// A decoded structured section, one variant per recognized tag.
#[derive(Clone, Debug, PartialEq, Eq)]
pub enum XdbfEntryStructuredData {
    Xach(Xach),
    Xcxt(Xcxt),
    Xitb(Xitb),
    Xmat(Xmat),
    Xpbm(Xpbm),
    Xprp(Xprp),
    Xrpt(Xrpt),
    Xsrc(Xsrc),
    Xstc(Xstc),
    Xthd(Xthd),
    Xvc2(Xvc2),
    Xstr(Xstr),
}

/// An entry's decoded payload: a structured section when the slice leads
/// with a recognized tag, the raw bytes otherwise.
#[derive(Clone, Debug, PartialEq, Eq)]
pub enum XdbfEntryData {
    XdbfEntryStructuredData(XdbfEntryStructuredData),
    Bin(Vec<u8>),
}

pub ghost enum XdbfEntryDataView {
    Xach(Seq<XachAchievement>),
    Xcxt(Seq<XcxtRecord>),
    Xitb(Seq<XitbImageView>),
    Xmat(XpbmView),
    Xpbm(XpbmView),
    Xprp(Seq<XprpRecord>),
    Xrpt(XrptView),
    Xsrc(XsrcView),
    Xstc(Xstc),
    Xthd(Xthd),
    Xvc2(Xvc2View),
    Xstr(Seq<XstrStringView>),
    Bin(Seq<u8>),
}

impl View for XdbfEntryData {
    type V = XdbfEntryDataView;

    open spec fn view(&self) -> XdbfEntryDataView {
        match self {
            XdbfEntryData::XdbfEntryStructuredData(d) => match d {
                XdbfEntryStructuredData::Xach(v) => XdbfEntryDataView::Xach(v.achievements@),
                XdbfEntryStructuredData::Xcxt(v) => XdbfEntryDataView::Xcxt(v.records@),
                XdbfEntryStructuredData::Xitb(v) => XdbfEntryDataView::Xitb(imgs_view(v.images@)),
                XdbfEntryStructuredData::Xmat(v) => XdbfEntryDataView::Xmat(
                    v.property_bag_metadata@,
                ),
                XdbfEntryStructuredData::Xpbm(v) => XdbfEntryDataView::Xpbm(v@),
                XdbfEntryStructuredData::Xprp(v) => XdbfEntryDataView::Xprp(v.records@),
                XdbfEntryStructuredData::Xrpt(v) => XdbfEntryDataView::Xrpt(
                    XrptView {
                        property_bag_metadata: v.property_bag_metadata@,
                        property_bag_metadatas: pbms_view(v.property_bag_metadatas@),
                    },
                ),
                XdbfEntryStructuredData::Xsrc(v) => XdbfEntryDataView::Xsrc(v@),
                XdbfEntryStructuredData::Xstc(v) => XdbfEntryDataView::Xstc(*v),
                XdbfEntryStructuredData::Xthd(v) => XdbfEntryDataView::Xthd(*v),
                XdbfEntryStructuredData::Xvc2(v) => XdbfEntryDataView::Xvc2(
                    Xvc2View { shared_views: svs_view(v.shared_views@), views: v.views@ },
                ),
                XdbfEntryStructuredData::Xstr(v) => XdbfEntryDataView::Xstr(strs_view(v.strings@)),
            },
            XdbfEntryData::Bin(b) => XdbfEntryDataView::Bin(b@),
        }
    }
}

/// True when the four bytes name one of the twelve structured kinds.
pub open spec fn known_tag(t: u32) -> bool {
    ||| t == TAG_XACH
    ||| t == TAG_XCXT
    ||| t == TAG_XITB
    ||| t == TAG_XMAT
    ||| t == TAG_XPBM
    ||| t == TAG_XPRP
    ||| t == TAG_XRPT
    ||| t == TAG_XSRC
    ||| t == TAG_XSTC
    ||| t == TAG_XTHD
    ||| t == TAG_XVC2
    ||| t == TAG_XSTR
}

/// What an entry's data slice decodes to. A slice too short for a tag,
/// or whose leading four bytes (read big-endian) match no structured
/// kind, is the slice itself, opaquely; that is the designed fallback,
/// not an error. A recognized tag routes to that kind's decoder, whose
/// failure is reported rather than masked.
pub open spec fn spec_entry_data(s: Seq<u8>, big: bool) -> Result<XdbfEntryDataView, XdbfError> {
    if s.len() < 4 || !known_tag(word32(s, 0, true)) {
        Ok(XdbfEntryDataView::Bin(s))
    } else {
        let t = word32(s, 0, true);
        if t == TAG_XACH {
            match spec_xach(s, big) {
                Ok(v) => Ok(XdbfEntryDataView::Xach(v)),
                Err(e) => Err(e),
            }
        } else if t == TAG_XCXT {
            match spec_xcxt(s, big) {
                Ok(v) => Ok(XdbfEntryDataView::Xcxt(v)),
                Err(e) => Err(e),
            }
        } else if t == TAG_XITB {
            match spec_xitb(s, big) {
                Ok(v) => Ok(XdbfEntryDataView::Xitb(v)),
                Err(e) => Err(e),
            }
        } else if t == TAG_XMAT {
            match spec_xmat(s, big) {
                Ok(v) => Ok(XdbfEntryDataView::Xmat(v)),
                Err(e) => Err(e),
            }
        } else if t == TAG_XPBM {
            match spec_pbm_at(s, big, 0) {
                Ok(v) => Ok(XdbfEntryDataView::Xpbm(v.0)),
                Err(e) => Err(e),
            }
        } else if t == TAG_XPRP {
            match spec_xprp(s, big) {
                Ok(v) => Ok(XdbfEntryDataView::Xprp(v)),
                Err(e) => Err(e),
            }
        } else if t == TAG_XRPT {
            match spec_xrpt(s, big) {
                Ok(v) => Ok(XdbfEntryDataView::Xrpt(v)),
                Err(e) => Err(e),
            }
        } else if t == TAG_XSRC {
            match spec_xsrc(s, big) {
                Ok(v) => Ok(XdbfEntryDataView::Xsrc(v)),
                Err(e) => Err(e),
            }
        } else if t == TAG_XSTC {
            match spec_xstc(s, big) {
                Ok(v) => Ok(XdbfEntryDataView::Xstc(v)),
                Err(e) => Err(e),
            }
        } else if t == TAG_XTHD {
            match spec_xthd(s, big) {
                Ok(v) => Ok(XdbfEntryDataView::Xthd(v)),
                Err(e) => Err(e),
            }
        } else if t == TAG_XVC2 {
            match spec_xvc2(s, big) {
                Ok(v) => Ok(XdbfEntryDataView::Xvc2(v)),
                Err(e) => Err(e),
            }
        } else {
            match spec_xstr(s, big) {
                Ok(v) => Ok(XdbfEntryDataView::Xstr(v)),
                Err(e) => Err(e),
            }
        }
    }
}

/// A data slice too short for a tag, or led by an unrecognized tag, is
/// always classified as opaque binary — never an error.
pub proof fn lemma_unknown_tag_opaque(s: Seq<u8>, big: bool)
    requires
        s.len() < 4 || !known_tag(word32(s, 0, true)),
    ensures
        spec_entry_data(s, big) == Ok::<XdbfEntryDataView, XdbfError>(XdbfEntryDataView::Bin(s)),
{
}

/// Decode one entry's data slice: a recognized four-byte tag selects the
/// structured decoder for that kind, anything else passes the bytes
/// through opaquely.
#[verifier::rlimit(100)]
#[verifier::spinoff_prover]
pub fn decode_entry_data(s: &[u8], big: bool) -> (r: Result<XdbfEntryData, XdbfError>)
    ensures
        (match r {
            Ok(v) => spec_entry_data(s@, big) == Ok::<XdbfEntryDataView, XdbfError>(v@),
            Err(e) => spec_entry_data(s@, big) == Err::<XdbfEntryDataView, XdbfError>(e),
        }),
{
    if s.len() < 4 {
        return Ok(XdbfEntryData::Bin(vstd::slice::slice_to_vec(s)));
    }
    let t = read_u32(s, 0, true);
    let d = if t == TAG_XACH {
        match decode_xach(s, big) {
            Ok(v) => XdbfEntryStructuredData::Xach(v),
            Err(e) => {
                return Err(e);
            },
        }
    } else if t == TAG_XCXT {
        match decode_xcxt(s, big) {
            Ok(v) => XdbfEntryStructuredData::Xcxt(v),
            Err(e) => {
                return Err(e);
            },
        }
    } else if t == TAG_XITB {
        match decode_xitb(s, big) {
            Ok(v) => XdbfEntryStructuredData::Xitb(v),
            Err(e) => {
                return Err(e);
            },
        }
    } else if t == TAG_XMAT {
        match decode_xmat(s, big) {
            Ok(v) => XdbfEntryStructuredData::Xmat(v),
            Err(e) => {
                return Err(e);
            },
        }
    } else if t == TAG_XPBM {
        match decode_pbm_at(s, big, 0) {
            Ok(v) => XdbfEntryStructuredData::Xpbm(v.0),
            Err(e) => {
                return Err(e);
            },
        }
    } else if t == TAG_XPRP {
        match decode_xprp(s, big) {
            Ok(v) => XdbfEntryStructuredData::Xprp(v),
            Err(e) => {
                return Err(e);
            },
        }
    } else if t == TAG_XRPT {
        match decode_xrpt(s, big) {
            Ok(v) => XdbfEntryStructuredData::Xrpt(v),
            Err(e) => {
                return Err(e);
            },
        }
    } else if t == TAG_XSRC {
        match decode_xsrc(s, big) {
            Ok(v) => XdbfEntryStructuredData::Xsrc(v),
            Err(e) => {
                return Err(e);
            },
        }
    } else if t == TAG_XSTC {
        match decode_xstc(s, big) {
            Ok(v) => XdbfEntryStructuredData::Xstc(v),
            Err(e) => {
                return Err(e);
            },
        }
    } else if t == TAG_XTHD {
        match decode_xthd(s, big) {
            Ok(v) => XdbfEntryStructuredData::Xthd(v),
            Err(e) => {
                return Err(e);
            },
        }
    } else if t == TAG_XVC2 {
        match decode_xvc2(s, big) {
            Ok(v) => XdbfEntryStructuredData::Xvc2(v),
            Err(e) => {
                return Err(e);
            },
        }
    } else if t == TAG_XSTR {
        match decode_xstr(s, big) {
            Ok(v) => XdbfEntryStructuredData::Xstr(v),
            Err(e) => {
                return Err(e);
            },
        }
    } else {
        return Ok(XdbfEntryData::Bin(vstd::slice::slice_to_vec(s)));
    };
    Ok(XdbfEntryData::XdbfEntryStructuredData(d))
}

} // verus!
