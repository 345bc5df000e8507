//! Percent-encoding of URI components the way Android's `Uri.encode` does it.

use vstd::prelude::*;
use vstd::string::*;
use crate::utf8::{all_ascii, ascii_chars, ascii_bytes_to_string};

verus! {

/// Bytes left as they are: ASCII letters and digits and `_ - ! . ~ ' ( ) *`.
pub open spec fn is_unreserved(b: u8) -> bool {
    ||| 48 <= b <= 57
    ||| 65 <= b <= 90
    ||| 97 <= b <= 122
    ||| b == 95 || b == 45 || b == 33 || b == 46 || b == 126
    ||| b == 39 || b == 40 || b == 41 || b == 42
}

/// The upper-case hexadecimal digit of a value below 16.
pub open spec fn hex_digit(n: u8) -> u8 {
    if n < 10 { (48 + n) as u8 } else { (55 + n) as u8 }
}

/// The encoding of one byte: the byte itself, or `%` and two upper-case hex digits.
pub open spec fn encode_byte(b: u8) -> Seq<u8> {
    if is_unreserved(b) {
        seq![b]
    } else {
        seq![37u8, hex_digit(b / 16), hex_digit(b % 16)]
    }
}

/// The encoding of a byte sequence, byte by byte.
pub open spec fn encode_bytes(bs: Seq<u8>) -> Seq<u8>
    decreases bs.len(),
{
    if bs.len() == 0 {
        seq![]
    } else {
        encode_bytes(bs.drop_last()) + encode_byte(bs.last())
    }
}

fn hex_digit_exec(n: u8) -> (r: u8)
    requires
        n < 16,
    ensures
        r == hex_digit(n),
        r < 128,
{
    if n < 10 { 48 + n } else { 55 + n }
}

fn is_unreserved_exec(b: u8) -> (r: bool)
    ensures
        r == is_unreserved(b),
{
    (48 <= b && b <= 57) || (65 <= b && b <= 90) || (97 <= b && b <= 122) || b == 95 || b == 45
        || b == 33 || b == 46 || b == 126 || b == 39 || b == 40 || b == 41 || b == 42
}

/// Percent-encodes the UTF-8 bytes of `input`, leaving ASCII letters, digits and
/// `_ - ! . ~ ' ( ) *` as they are.
pub fn encode_android_uri_component(input: &str) -> (r: String)
    ensures
        r@ == ascii_chars(encode_bytes(input.spec_bytes())),
{
    let bytes = input.as_bytes();
    let n = bytes.len();
    let mut out: Vec<u8> = Vec::new();
    let mut i: usize = 0;
    while i < n
        invariant
            n == bytes@.len(),
            i <= n,
            out@ == encode_bytes(bytes@.take(i as int)),
            all_ascii(out@),
        decreases n - i,
    {
        let b = bytes[i];
        let ghost before = out@;
        if is_unreserved_exec(b) {
            out.push(b);
        } else {
            out.push(37u8);
            out.push(hex_digit_exec(b / 16));
            out.push(hex_digit_exec(b % 16));
        }
        assert(bytes@.take(i + 1).drop_last() =~= bytes@.take(i as int));
        assert(out@ =~= before + encode_byte(b));
        i = i + 1;
    }
    assert(bytes@.take(n as int) =~= bytes@);
    ascii_bytes_to_string(out)
}

/// Percent-encodes a document id for a content URI; the same encoding as
/// `encode_android_uri_component`.
pub fn encode_document_id(input: &str) -> (r: String)
    ensures
        r@ == ascii_chars(encode_bytes(input.spec_bytes())),
{
    encode_android_uri_component(input)
}


/// Each byte is encoded as Android's `Uri.encode` does it: an ASCII letter or
/// digit or one of `_ - ! . ~ ' ( ) *` stands for itself, and every other byte
/// (`#`, `/`, space, `%`, and every non-ASCII byte among them) is written as `%`
/// and the two upper-case hexadecimal digits of its value.
pub proof fn law_encoding_escapes_all_but_unreserved(b: u8)
    ensures
        (48 <= b <= 57 || 65 <= b <= 90 || 97 <= b <= 122 || b == 95 || b == 45 || b == 33 || b == 46
            || b == 126 || b == 39 || b == 40 || b == 41 || b == 42) ==> encode_byte(b) == seq![b],
        !(48 <= b <= 57 || 65 <= b <= 90 || 97 <= b <= 122 || b == 95 || b == 45 || b == 33 || b == 46
            || b == 126 || b == 39 || b == 40 || b == 41 || b == 42) ==> encode_byte(b) == seq![
            37u8,
            (if b / 16 < 10 { 48 + b / 16 } else { 55 + b / 16 }) as u8,
            (if b % 16 < 10 { 48 + b % 16 } else { 55 + b % 16 }) as u8,
        ],
{
}

/// An encoded component holds only ASCII letters, digits, `_ - ! . ~ ' ( ) *`
/// and `%`: no `#`, `?`, `/`, space or other byte that would end or split a URI
/// path segment is ever left in it.
pub proof fn law_encoded_component_alphabet(bs: Seq<u8>)
    ensures
        forall|i: int| 0 <= i < encode_bytes(bs).len() ==> {
            let c = #[trigger] encode_bytes(bs)[i];
            48 <= c <= 57 || 65 <= c <= 90 || 97 <= c <= 122 || c == 95 || c == 45 || c == 33 || c == 46
                || c == 126 || c == 39 || c == 40 || c == 41 || c == 42 || c == 37
        },
    decreases bs.len(),
{
    if bs.len() > 0 {
        let init = bs.drop_last();
        let b = bs.last();
        law_encoded_component_alphabet(init);
        law_encoding_escapes_all_but_unreserved(b);
        let e = encode_byte(b);
        let whole = encode_bytes(init) + e;
        assert forall|i: int| 0 <= i < whole.len() implies {
            let c = #[trigger] whole[i];
            48 <= c <= 57 || 65 <= c <= 90 || 97 <= c <= 122 || c == 95 || c == 45 || c == 33 || c == 46
                || c == 126 || c == 39 || c == 40 || c == 41 || c == 42 || c == 37
        } by {
            if i < encode_bytes(init).len() {
                assert(whole[i] == encode_bytes(init)[i]);
            } else {
                assert(whole[i] == e[i - encode_bytes(init).len()]);
                assert(b / 16 < 16 && b % 16 < 16);
            }
        }
    }
}

} // verus!
