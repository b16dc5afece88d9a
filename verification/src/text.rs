//! Shared text plumbing: reading strings back from bytes.

use vstd::prelude::*;
use vstd::utf8::{decode_utf8, encode_utf8, encode_utf8_decode_utf8, is_ascii_chars,
    is_ascii_chars_encode_utf8, valid_utf8};

verus! {

/// Relies on String::from_utf8: it succeeds exactly on valid UTF-8 input,
/// and the string it returns reads as those bytes.
#[verifier::external_body]
fn string_from_utf8(v: Vec<u8>) -> (r: Option<String>)
    ensures
        r is Some <==> valid_utf8(v@),
        r matches Some(s) ==> encode_utf8(s@) == v@,
{
    String::from_utf8(v).ok()
}

/// Reads a string's characters back from its owned UTF-8 bytes.
pub(crate) fn bytes_to_string(v: Vec<u8>) -> (r: Option<String>)
    ensures
        r is Some <==> valid_utf8(v@),
        r matches Some(s) ==> s@ == decode_utf8(v@),
{
    let ghost bytes = v@;
    let r = string_from_utf8(v);
    proof {
        if r is Some {
            encode_utf8_decode_utf8(r.unwrap()@);
        }
    }
    r
}

/// A buffer of ASCII bytes is valid UTF-8 and decodes byte for byte.
pub(crate) proof fn lemma_ascii_bytes_utf8(b: Seq<u8>)
    requires
        forall|i: int| 0 <= i < b.len() ==> b[i] < 128,
    ensures
        valid_utf8(b),
        decode_utf8(b) == Seq::new(b.len(), |i: int| b[i] as char),
{
    let chars = Seq::new(b.len(), |i: int| b[i] as char);
    assert forall|i: int| 0 <= i < chars.len() implies '\0' <= #[trigger] chars[i] <= '\u{7f}' by {
        assert(b[i] < 128);
        assert(chars[i] == b[i] as char);
    }
    assert(is_ascii_chars(chars));
    is_ascii_chars_encode_utf8(chars);
    assert(encode_utf8(chars) =~= b);
    vstd::utf8::encode_utf8_valid_utf8(chars);
    encode_utf8_decode_utf8(chars);
}

/// Turns a buffer of ASCII bytes into the string reading them byte for
/// byte.
pub(crate) fn ascii_to_string(v: Vec<u8>) -> (r: String)
    requires
        forall|i: int| 0 <= i < v@.len() ==> v@[i] < 128,
    ensures
        r@ == Seq::new(v@.len(), |i: int| v@[i] as char),
{
    proof {
        lemma_ascii_bytes_utf8(v@);
    }
    let ghost bytes = v@;
    match bytes_to_string(v) {
        Some(s) => s,
        None => {
            proof {
                assert(valid_utf8(bytes));
                assert(false);
            }
            String::new()
        },
    }
}

} // verus!
