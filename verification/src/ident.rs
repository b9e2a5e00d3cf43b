//! Output names for entries: `"<namespace>.<disambiguator>.<extension>"`,
//! computed from the descriptor and the decoded data kind, never from
//! the payload bytes.
use crate::container::XdbfEntry;
use crate::sections::XdbfEntryData;
use crate::text::lemma_ascii_bytes_utf8;
use crate::text::utf8_to_string;
use vstd::prelude::*;
use vstd::string::StringExecFns;

verus! {

/// The ASCII character for one decimal digit.
pub open spec fn digit_char(d: int) -> char
    recommends
        0 <= d < 10,
{
    ((48 + d) as u8) as char
}

/// The decimal expansion of `n`, most significant digit first, with no
/// leading zeros (zero itself is the single digit `0`).
pub open spec fn dec_chars(n: nat) -> Seq<char>
    decreases n,
{
    if n < 10 {
        seq![digit_char(n as int)]
    } else {
        dec_chars(n / 10) + seq![digit_char((n % 10) as int)]
    }
}

pub open spec fn chars_of_bytes(bs: Seq<u8>) -> Seq<char> {
    bs.map_values(|b: u8| b as char)
}

/// Render an unsigned value in decimal.
pub fn u64_to_string(n: u64) -> (r: String)
    ensures
        r@ == dec_chars(n as nat),
{
    let mut digits: Vec<u8> = Vec::new();
    let mut m: u64 = n;
    while m >= 10
        invariant
            dec_chars(n as nat) == dec_chars(m as nat) + chars_of_bytes(digits@.reverse()),
            forall|j: int| 0 <= j < digits@.len() ==> 48 <= #[trigger] digits@[j] <= 57,
        decreases m,
    {
        let d: u8 = 48 + (m % 10) as u8;
        proof {
            let ghost old_digits = digits@;
            assert(old_digits.push(d).reverse() =~= seq![d] + old_digits.reverse());
            assert(chars_of_bytes(seq![d] + old_digits.reverse()) =~= seq![d as char]
                + chars_of_bytes(old_digits.reverse()));
            assert(dec_chars(m as nat) == dec_chars((m as nat) / 10) + seq![
                digit_char(((m as nat) % 10) as int),
            ]);
            assert(dec_chars((m as nat) / 10) + (seq![d as char] + chars_of_bytes(
                old_digits.reverse(),
            )) =~= (dec_chars((m as nat) / 10) + seq![d as char]) + chars_of_bytes(
                old_digits.reverse(),
            ));
        }
        digits.push(d);
        m = m / 10;
    }
    let d: u8 = 48 + m as u8;
    proof {
        let ghost old_digits = digits@;
        assert(old_digits.push(d).reverse() =~= seq![d] + old_digits.reverse());
        assert(chars_of_bytes(seq![d] + old_digits.reverse()) =~= seq![d as char] + chars_of_bytes(
            old_digits.reverse(),
        ));
        assert(dec_chars(m as nat) == seq![digit_char(m as int)]);
    }
    digits.push(d);
    let mut out_bytes: Vec<u8> = Vec::new();
    let mut j: usize = digits.len();
    while j > 0
        invariant
            j <= digits@.len(),
            out_bytes@.len() == digits@.len() - j,
            forall|k: int| 0 <= k < out_bytes@.len() ==> out_bytes@[k] == digits@[digits@.len() - 1
                - k],
        decreases j,
    {
        j = j - 1;
        out_bytes.push(digits[j]);
    }
    proof {
        assert(out_bytes@ =~= digits@.reverse());
        assert(forall|k: int|
            0 <= k < out_bytes@.len() ==> #[trigger] out_bytes@[k] < 0x80 && 48 <= out_bytes@[k]
                <= 57);
        lemma_ascii_bytes_utf8(out_bytes@);
    }
    match utf8_to_string(out_bytes) {
        Some(t) => {
            proof {
                assert(t@ =~= dec_chars(n as nat));
            }
            t
        },
        None => {
            proof {
                assert(false);
            }
            String::new()
        },
    }
}

/// The eight bytes of a 64-bit id, most significant first.
pub open spec fn spec_u64_be_bytes(id: u64) -> Seq<u8> {
    seq![
        (id >> 56) as u8,
        (id >> 48) as u8,
        (id >> 40) as u8,
        (id >> 32) as u8,
        (id >> 24) as u8,
        (id >> 16) as u8,
        (id >> 8) as u8,
        id as u8,
    ]
}

pub fn u64_be_bytes(id: u64) -> (r: Vec<u8>)
    ensures
        r@ == spec_u64_be_bytes(id),
{
    let mut r: Vec<u8> = Vec::new();
    r.push((id >> 56) as u8);
    r.push((id >> 48) as u8);
    r.push((id >> 40) as u8);
    r.push((id >> 32) as u8);
    r.push((id >> 24) as u8);
    r.push((id >> 16) as u8);
    r.push((id >> 8) as u8);
    r.push(id as u8);
    proof {
        assert(r@ =~= spec_u64_be_bytes(id));
    }
    r
}

/// How many zero bytes lead the sequence.
pub open spec fn leading_zeros(bs: Seq<u8>) -> int
    decreases bs.len(),
{
    if bs.len() == 0 {
        0
    } else if bs[0] != 0 {
        0
    } else {
        1 + leading_zeros(bs.subrange(1, bs.len() as int))
    }
}

proof fn lemma_leading_zeros_at(bs: Seq<u8>, i: int)
    requires
        0 <= i <= bs.len(),
        forall|j: int| 0 <= j < i ==> bs[j] == 0,
        i == bs.len() || bs[i] != 0,
    ensures
        leading_zeros(bs) == i,
    decreases bs.len(),
{
    if i == 0 {
    } else {
        let tail = bs.subrange(1, bs.len() as int);
        assert(forall|j: int| 0 <= j < i - 1 ==> tail[j] == bs[j + 1] && tail[j] == 0);
        assert(i - 1 == tail.len() || tail[i - 1] != 0);
        lemma_leading_zeros_at(tail, i - 1);
    }
}

/// A printable ASCII byte, space excluded.
pub open spec fn is_graphic(b: u8) -> bool {
    0x21 <= b <= 0x7e
}

pub open spec fn all_graphic(bs: Seq<u8>) -> bool {
    forall|i: int| 0 <= i < bs.len() ==> is_graphic(#[trigger] bs[i])
}

/// The fixed locale table for language-keyed entries.
pub open spec fn spec_locale(id: u64) -> Option<Seq<char>> {
    if id == 1 {
        Some("en-US"@)
    } else if id == 2 {
        Some("ja-JP"@)
    } else if id == 3 {
        Some("de-DE"@)
    } else if id == 4 {
        Some("fr-FR"@)
    } else if id == 5 {
        Some("es-ES"@)
    } else if id == 6 {
        Some("it-IT"@)
    } else if id == 7 {
        Some("ko-KR"@)
    } else if id == 8 {
        Some("zh-CHT"@)
    } else if id == 9 {
        Some("pt-PT"@)
    } else if id == 10 {
        Some("zh-CHS"@)
    } else if id == 11 {
        Some("pl-PL"@)
    } else if id == 12 {
        Some("ru-RU"@)
    } else {
        None
    }
}

fn locale_name(id: u64) -> (r: Option<String>)
    ensures
        (match r {
            Some(t) => spec_locale(id) == Some(t@),
            None => spec_locale(id) is None,
        }),
{
    if id == 1 {
        Some(String::from_str("en-US"))
    } else if id == 2 {
        Some(String::from_str("ja-JP"))
    } else if id == 3 {
        Some(String::from_str("de-DE"))
    } else if id == 4 {
        Some(String::from_str("fr-FR"))
    } else if id == 5 {
        Some(String::from_str("es-ES"))
    } else if id == 6 {
        Some(String::from_str("it-IT"))
    } else if id == 7 {
        Some(String::from_str("ko-KR"))
    } else if id == 8 {
        Some(String::from_str("zh-CHT"))
    } else if id == 9 {
        Some(String::from_str("pt-PT"))
    } else if id == 10 {
        Some(String::from_str("zh-CHS"))
    } else if id == 11 {
        Some(String::from_str("pl-PL"))
    } else if id == 12 {
        Some(String::from_str("ru-RU"))
    } else {
        None
    }
}

/// The middle part of an output name. A string-keyed namespace tries the
/// id's bytes, leading zeros stripped, as printable ASCII; a language
/// namespace tries the locale table; everything else, and every
/// fallback, is the decimal id.
pub open spec fn spec_disambiguator(ns: u16, id: u64) -> Seq<char> {
    if ns == 1 {
        let bs = spec_u64_be_bytes(id);
        let t = bs.subrange(leading_zeros(bs), bs.len() as int);
        if t.len() > 0 && all_graphic(t) {
            chars_of_bytes(t)
        } else {
            dec_chars(id as nat)
        }
    } else if ns == 3 {
        match spec_locale(id) {
            Some(l) => l,
            None => dec_chars(id as nat),
        }
    } else {
        dec_chars(id as nat)
    }
}

fn disambiguator(ns: u16, id: u64) -> (r: String)
    ensures
        r@ == spec_disambiguator(ns, id),
{
    if ns == 1 {
        let bytes = u64_be_bytes(id);
        let mut i: usize = 0;
        while i < 8 && bytes[i] == 0
            invariant
                bytes@ == spec_u64_be_bytes(id),
                bytes@.len() == 8,
                i <= 8,
                forall|j: int| 0 <= j < i ==> bytes@[j] == 0,
            decreases 8 - i,
        {
            i = i + 1;
        }
        proof {
            lemma_leading_zeros_at(bytes@, i as int);
        }
        let mut trimmed: Vec<u8> = Vec::new();
        let mut k: usize = i;
        while k < 8
            invariant
                bytes@.len() == 8,
                i <= k <= 8,
                trimmed@.len() == k - i,
                forall|j: int| 0 <= j < trimmed@.len() ==> trimmed@[j] == bytes@[i + j],
            decreases 8 - k,
        {
            trimmed.push(bytes[k]);
            k = k + 1;
        }
        proof {
            assert(trimmed@ =~= bytes@.subrange(i as int, 8));
        }
        let mut graphic = trimmed.len() > 0;
        let mut g: usize = 0;
        while g < trimmed.len()
            invariant
                g <= trimmed@.len(),
                graphic == (trimmed@.len() > 0 && (forall|j: int|
                    0 <= j < g ==> is_graphic(#[trigger] trimmed@[j]))),
            decreases trimmed@.len() - g,
        {
            if !(0x21 <= trimmed[g] && trimmed[g] <= 0x7e) {
                graphic = false;
            }
            g = g + 1;
        }
        if graphic {
            proof {
                assert(all_graphic(trimmed@));
                assert(forall|j: int| 0 <= j < trimmed@.len() ==> #[trigger] trimmed@[j] < 0x80);
                lemma_ascii_bytes_utf8(trimmed@);
            }
            let ghost tv = trimmed@;
            match utf8_to_string(trimmed) {
                Some(t) => {
                    proof {
                        assert(t@ =~= chars_of_bytes(tv));
                    }
                    t
                },
                None => {
                    proof {
                        assert(false);
                    }
                    String::new()
                },
            }
        } else {
            u64_to_string(id)
        }
    } else if ns == 3 {
        match locale_name(id) {
            Some(l) => l,
            None => u64_to_string(id),
        }
    } else {
        u64_to_string(id)
    }
}

/// The extension: structured records become JSON, image-namespace blobs
/// keep a PNG extension, everything else is raw binary.
pub open spec fn spec_extension(ns: u16, structured: bool) -> Seq<char> {
    if structured {
        "json"@
    } else if ns == 2 {
        "png"@
    } else {
        "bin"@
    }
}

pub open spec fn spec_is_structured(d: XdbfEntryData) -> bool {
    d is XdbfEntryStructuredData
}

/// The full output name for one entry.
pub open spec fn spec_identifier(ns: u16, id: u64, structured: bool) -> Seq<char> {
    dec_chars(ns as nat) + "."@ + spec_disambiguator(ns, id) + "."@ + spec_extension(
        ns,
        structured,
    )
}

/// The output name of an entry:
/// `"<namespace>.<disambiguator>.<extension>"`.
pub fn id_to_pathbuf(entry: &XdbfEntry) -> (r: String)
    ensures
        r@ == spec_identifier(entry.namespace, entry.id, spec_is_structured(entry.data)),
{
    let structured = match &entry.data {
        XdbfEntryData::XdbfEntryStructuredData(_) => true,
        XdbfEntryData::Bin(_) => false,
    };
    let mut out = u64_to_string(entry.namespace as u64);
    out.append(".");
    let disambig = disambiguator(entry.namespace, entry.id);
    out.append(disambig.as_str());
    out.append(".");
    let ext: &str = if structured {
        "json"
    } else if entry.namespace == 2 {
        "png"
    } else {
        "bin"
    };
    out.append(ext);
    out
}

} // verus!
