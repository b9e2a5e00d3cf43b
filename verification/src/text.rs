//! Length-prefixed text fields: byte sequences turned into strings, with
//! the UTF-8 validity rules of `vstd::utf8` as the specification.
use vstd::prelude::*;
use vstd::utf8::decode_first_scalar;
use vstd::utf8::decode_utf8;
use vstd::utf8::is_leading_byte_width_1;
use vstd::utf8::length_of_first_scalar;
use vstd::utf8::pop_first_scalar;
use vstd::utf8::valid_first_scalar;
use vstd::utf8::valid_utf8;

verus! {

/// Relies on `String::from_utf8`: it succeeds exactly on valid UTF-8
/// input, and the resulting string's characters are the decoding of
/// the input bytes.
#[verifier::external_body]
pub(crate) fn utf8_to_string(b: Vec<u8>) -> (r: Option<String>)
    ensures
        r is Some <==> valid_utf8(b@),
        r matches Some(t) ==> t@ == decode_utf8(b@),
{
    String::from_utf8(b).ok()
}

/// A sequence of ASCII bytes is valid UTF-8 and decodes to the same
/// values read as characters.
pub proof fn lemma_ascii_bytes_utf8(b: Seq<u8>)
    requires
        forall|i: int| 0 <= i < b.len() ==> b[i] < 0x80,
    ensures
        valid_utf8(b),
        decode_utf8(b) == b.map(|i: int, x: u8| x as char),
    decreases b.len(),
{
    if b.len() == 0 {
        assert(decode_utf8(b) =~= b.map(|i: int, x: u8| x as char));
    } else {
        assert(is_leading_byte_width_1(b[0]));
        assert(valid_first_scalar(b));
        assert(length_of_first_scalar(b) == 1);
        assert(pop_first_scalar(b) =~= b.subrange(1, b.len() as int));
        lemma_ascii_bytes_utf8(b.subrange(1, b.len() as int));
        let b0 = b[0];
        assert(b0 & 0x7F == b0) by (bit_vector)
            requires
                b0 < 0x80,
        ;
        assert(decode_first_scalar(b) == b[0] as u32);
        assert(decode_utf8(b) =~= b.map(|i: int, x: u8| x as char));
    }
}

} // verus!
