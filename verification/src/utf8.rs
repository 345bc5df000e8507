//! Conversions between bytes and text.

use vstd::prelude::*;
use vstd::string::*;
use vstd::utf8::{decode_utf8, encode_utf8, valid_utf8, is_ascii_chars, is_ascii_chars_encode_utf8,
    encode_utf8_valid_utf8, encode_utf8_decode_utf8};

verus! {

/// `std::string::String::from_utf8`: the documentation states that it succeeds exactly
/// when the bytes are valid UTF-8, and then gives the string they encode.
#[verifier::external_body]
pub(crate) fn string_from_utf8(bytes: Vec<u8>) -> (r: Option<String>)
    ensures
        r is Some <==> valid_utf8(bytes@),
        r matches Some(s) ==> s@ == decode_utf8(bytes@),
{
    String::from_utf8(bytes).ok()
}

/// The text of the `Utf8Error` that `std::str::from_utf8` gives for bytes that are
/// not valid UTF-8: where the invalid sequence starts and how long it is, which
/// depend on the bytes alone.
pub uninterp spec fn utf8_error_text(bytes: Seq<u8>) -> Seq<char>;

/// `std::str::from_utf8`: the documentation states that it succeeds exactly when the
/// bytes are valid UTF-8, and then views them as the string they encode; a failure
/// is given as the text of its `Utf8Error`.
#[verifier::external_body]
pub(crate) fn str_from_utf8(bytes: &[u8]) -> (r: Result<&str, String>)
    ensures
        r is Ok <==> valid_utf8(bytes@),
        r matches Ok(s) ==> s@ == decode_utf8(bytes@),
        r matches Err(e) ==> e@ == utf8_error_text(bytes@),
{
    std::str::from_utf8(bytes).map_err(|e| e.to_string())
}

/// The characters that a sequence of ASCII bytes stands for.
pub open spec fn ascii_chars(bytes: Seq<u8>) -> Seq<char> {
    bytes.map_values(|b: u8| b as char)
}

/// Every byte is below 128.
pub open spec fn all_ascii(bytes: Seq<u8>) -> bool {
    forall|i: int| 0 <= i < bytes.len() ==> #[trigger] bytes[i] < 128
}

/// ASCII bytes read as characters encode back to the same bytes, and are valid UTF-8.
pub proof fn lemma_ascii_chars_encode(bytes: Seq<u8>)
    requires
        all_ascii(bytes),
    ensures
        encode_utf8(ascii_chars(bytes)) == bytes,
        valid_utf8(bytes),
        decode_utf8(bytes) == ascii_chars(bytes),
{
    let chars = ascii_chars(bytes);
    assert forall|i: int| 0 <= i < chars.len() implies '\0' <= #[trigger] chars[i] <= '\u{7f}' by {
        assert(bytes[i] < 128);
    }
    assert(is_ascii_chars(chars));
    is_ascii_chars_encode_utf8(chars);
    assert forall|i: int| 0 <= i < chars.len() implies encode_utf8(chars)[i] == bytes[i] by {
        assert(bytes[i] < 128);
        assert((bytes[i] as char) as u8 == bytes[i]);
    }
    assert(encode_utf8(chars) =~= bytes);
    encode_utf8_valid_utf8(chars);
    encode_utf8_decode_utf8(chars);
}

/// Turns ASCII bytes into the string of the same characters.
pub fn ascii_bytes_to_string(bytes: Vec<u8>) -> (r: String)
    requires
        all_ascii(bytes@),
    ensures
        r@ == ascii_chars(bytes@),
{
    proof {
        lemma_ascii_chars_encode(bytes@);
    }
    match string_from_utf8(bytes) {
        Some(s) => s,
        None => {
            proof { assert(false); }
            String::new()
        },
    }
}


/// An owned copy of a byte buffer.
pub fn upgrade_bytes_ref(buf: &[u8]) -> (r: Vec<u8>)
    ensures
        r@ == buf@,
{
    vstd::slice::slice_to_vec(buf)
}

} // verus!
