//! Decimal text of integers, as `Display` writes them.

use vstd::prelude::*;
use crate::utf8::{all_ascii, ascii_chars, ascii_bytes_to_string};

verus! {

/// The ASCII decimal digits of a natural number, without leading zeros.
pub open spec fn decimal_bytes(n: nat) -> Seq<u8>
    decreases n,
{
    if n < 10 {
        seq![(48 + n) as u8]
    } else {
        decimal_bytes(n / 10).push((48 + n % 10) as u8)
    }
}

/// The decimal text of an integer, with a leading `-` when it is negative.
pub open spec fn decimal_text(n: int) -> Seq<char> {
    if n < 0 {
        seq!['-'] + ascii_chars(decimal_bytes((-n) as nat))
    } else {
        ascii_chars(decimal_bytes(n as nat))
    }
}

fn push_decimal(n: u64, out: &mut Vec<u8>)
    requires
        all_ascii(old(out)@),
    ensures
        final(out)@ == old(out)@ + decimal_bytes(n as nat),
        all_ascii(final(out)@),
    decreases n,
{
    if n >= 10 {
        push_decimal(n / 10, out);
    }
    let ghost before = out@;
    out.push(48 + (n % 10) as u8);
    proof {
        if n >= 10 {
            assert(out@ =~= old(out)@ + decimal_bytes(n as nat));
        } else {
            assert(out@ =~= old(out)@ + decimal_bytes(n as nat));
        }
    }
}

/// The decimal text of an unsigned integer.
pub fn u64_to_decimal(n: u64) -> (r: String)
    ensures
        r@ == decimal_text(n as int),
{
    let mut out: Vec<u8> = Vec::new();
    push_decimal(n, &mut out);
    assert(out@ =~= decimal_bytes(n as nat));
    ascii_bytes_to_string(out)
}

/// The decimal text of a signed integer.
pub fn i64_to_decimal(n: i64) -> (r: String)
    ensures
        r@ == decimal_text(n as int),
{
    let mut out: Vec<u8> = Vec::new();
    if n < 0 {
        out.push(45u8);
        let m: u64 = if n == i64::MIN { 0x8000_0000_0000_0000u64 } else { (-n) as u64 };
        push_decimal(m, &mut out);
        assert(out@ =~= seq![45u8] + decimal_bytes((-n) as nat));
        let s = ascii_bytes_to_string(out);
        assert(ascii_chars(seq![45u8] + decimal_bytes((-n) as nat)) =~= seq!['-'] + ascii_chars(decimal_bytes((-n) as nat)));
        s
    } else {
        push_decimal(n as u64, &mut out);
        assert(out@ =~= decimal_bytes(n as nat));
        ascii_bytes_to_string(out)
    }
}

} // verus!
