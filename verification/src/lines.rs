//! Framing of text lines read from a file: each line is sent as its byte
//! length (eight bytes, big-endian) followed by its bytes without the line ending.

use vstd::prelude::*;
use vstd::utf8::valid_utf8;
use crate::error::Error;
use crate::utf8::{str_from_utf8, utf8_error_text};

verus! {

/// A line without its ending: a final `\n` is removed, and then a final `\r`.
pub open spec fn strip_line_ending(line: Seq<u8>) -> Seq<u8> {
    if line.len() > 0 && line.last() == 10u8 {
        let l = line.drop_last();
        if l.len() > 0 && l.last() == 13u8 { l.drop_last() } else { l }
    } else {
        line
    }
}

/// Stripping a line's ending removes exactly a final `\r\n` or, failing that,
/// a final `\n`, and nothing else: the line is what is kept followed by what
/// was removed.
pub proof fn law_line_ending_removed(line: Seq<u8>)
    ensures
        ({
            let kept = strip_line_ending(line);
            let n = line.len();
            if n >= 2 && line[n - 2] == 13u8 && line[n - 1] == 10u8 {
                kept == line.take(n - 2)
            } else if n >= 1 && line[n - 1] == 10u8 {
                kept == line.take(n - 1)
            } else {
                kept == line
            }
        }),
{
    let n = line.len();
    if n >= 1 && line[n - 1] == 10u8 {
        assert(line.drop_last() =~= line.take(n - 1));
        if n >= 2 && line[n - 2] == 13u8 {
            assert(line.drop_last().last() == line[n - 2]);
            assert(line.drop_last().drop_last() =~= line.take(n - 2));
        }
    }
}

/// The eight big-endian bytes of `n`.
pub open spec fn be_u64(n: u64) -> Seq<u8> {
    seq![
        (n / 0x100000000000000) as u8,
        ((n / 0x1000000000000) % 256) as u8,
        ((n / 0x10000000000) % 256) as u8,
        ((n / 0x100000000) % 256) as u8,
        ((n / 0x1000000) % 256) as u8,
        ((n / 0x10000) % 256) as u8,
        ((n / 0x100) % 256) as u8,
        (n % 256) as u8,
    ]
}

/// The record of one line: its length followed by its bytes.
pub open spec fn line_record(line: Seq<u8>) -> Seq<u8> {
    be_u64(line.len() as u64) + line
}

/// Whether to read another line after a record has been appended.
#[derive(Debug, Clone, Copy, PartialEq, Eq)]
pub enum LineStep {
    /// Read and append the next line.
    Continue,
    /// The buffer is ready to be sent.
    Done,
}

/// How many bytes to read at most for one line: unlimited when the maximum
/// line length is zero, and otherwise the maximum plus room for `\r\n`.
pub fn line_read_limit(max_line_byte_length: u64) -> (r: Option<u64>)
    ensures
        max_line_byte_length == 0 ==> r is None,
        max_line_byte_length > 0 ==> r == Some(
            if max_line_byte_length + 2 > u64::MAX { u64::MAX } else { (max_line_byte_length + 2) as u64 },
        ),
{
    if max_line_byte_length == 0 {
        None
    } else {
        Some(max_line_byte_length.saturating_add(2))
    }
}

fn push_be_u64(buf: &mut Vec<u8>, n: u64)
    ensures
        final(buf)@ == old(buf)@ + be_u64(n),
{
    buf.push((n / 0x100000000000000) as u8);
    buf.push(((n / 0x1000000000000) % 256) as u8);
    buf.push(((n / 0x10000000000) % 256) as u8);
    buf.push(((n / 0x100000000) % 256) as u8);
    buf.push(((n / 0x1000000) % 256) as u8);
    buf.push(((n / 0x10000) % 256) as u8);
    buf.push(((n / 0x100) % 256) as u8);
    buf.push((n % 256) as u8);
    assert(final(buf)@ =~= old(buf)@ + be_u64(n));
}

/// Appends the record of one line read from the file (with its ending, as read).
/// An empty read means the end of the file: nothing is appended and the buffer is done.
/// A line longer than a non-zero maximum is refused, and so, when `fatal`, is a line
/// that is not valid UTF-8. After appending, the buffer is done once it holds at least
/// `threshold` bytes.
pub fn push_line_record(
    buf: &mut Vec<u8>,
    line: &[u8],
    max_line_byte_length: u64,
    fatal: bool,
    threshold: u64,
) -> (r: Result<LineStep, Error>)
    ensures
        line@.len() == 0 ==> r == Ok::<LineStep, Error>(LineStep::Done) && final(buf)@ == old(buf)@,
        line@.len() > 0 ==> {
            let s = strip_line_ending(line@);
            if max_line_byte_length > 0 && max_line_byte_length < s.len() {
                &&& r matches Err(e) && e@ == "Line too long"@
                &&& final(buf)@ == old(buf)@
            } else if fatal && !valid_utf8(s) {
                &&& r matches Err(e) && e@ == utf8_error_text(s)
                &&& final(buf)@ == old(buf)@
            } else {
                &&& final(buf)@ == old(buf)@ + line_record(s)
                &&& r == Ok::<LineStep, Error>(
                    if threshold <= final(buf)@.len() { LineStep::Done } else { LineStep::Continue },
                )
            }
        },
{
    let n = line.len();
    if n == 0 {
        return Ok(LineStep::Done);
    }
    let mut end = n;
    if line[end - 1] == 10u8 {
        end = end - 1;
        if end > 0 && line[end - 1] == 13u8 {
            end = end - 1;
        }
    }
    let stripped = &line[0..end];
    assert(stripped@ =~= strip_line_ending(line@));
    if max_line_byte_length > 0 && max_line_byte_length < end as u64 {
        return Err(Error::with("Line too long"));
    }
    if fatal {
        if let Err(msg) = str_from_utf8(stripped) {
            return Err(Error::from_message(msg));
        }
    }
    push_be_u64(buf, end as u64);
    buf.extend_from_slice(stripped);
    if threshold <= buf.len() as u64 {
        Ok(LineStep::Done)
    } else {
        Ok(LineStep::Continue)
    }
}


/// How many bytes to reserve for a read of `len` bytes: at most 10 MiB.
pub fn read_chunk_capacity(len: u32) -> (r: usize)
    ensures
        r as int == (if len < 10485760 { len as int } else { 10485760int }),
{
    if len < 10 * 1024 * 1024 { len as usize } else { 10 * 1024 * 1024 }
}


/// The number that eight big-endian bytes stand for.
pub open spec fn be_value(b: Seq<u8>) -> int {
    ((((((b[0] as int * 256 + b[1] as int) * 256 + b[2] as int) * 256 + b[3] as int) * 256
        + b[4] as int) * 256 + b[5] as int) * 256 + b[6] as int) * 256 + b[7] as int
}

/// The records of several lines, one after the other.
pub open spec fn line_records(lines: Seq<Seq<u8>>) -> Seq<u8>
    decreases lines.len(),
{
    if lines.len() == 0 {
        seq![]
    } else {
        line_records(lines.drop_last()) + line_record(lines.last())
    }
}

/// How a reader splits a buffer into the lines of its records: `None` when the
/// buffer is not a sequence of whole records.
pub open spec fn split_records(buf: Seq<u8>) -> Option<Seq<Seq<u8>>>
    decreases buf.len(),
{
    if buf.len() == 0 {
        Some(seq![])
    } else if buf.len() < 8 {
        None
    } else {
        let n = be_value(buf.take(8));
        if n < 0 || buf.len() < 8 + n {
            None
        } else {
            match split_records(buf.skip(8 + n)) {
                Some(rest) => Some(seq![buf.subrange(8, 8 + n)] + rest),
                None => None,
            }
        }
    }
}

proof fn lemma_be_value(n: u64)
    ensures
        be_value(be_u64(n)) == n,
{
    let b = be_u64(n);
    let b0: u64 = n / 0x100000000000000;
    let b1: u64 = (n / 0x1000000000000) % 256;
    let b2: u64 = (n / 0x10000000000) % 256;
    let b3: u64 = (n / 0x100000000) % 256;
    let b4: u64 = (n / 0x1000000) % 256;
    let b5: u64 = (n / 0x10000) % 256;
    let b6: u64 = (n / 0x100) % 256;
    let b7: u64 = n % 256;
    assert(b0 < 256) by (bit_vector)
        requires
            b0 == n / 0x100000000000000,
    ;
    assert(b[0] as int == b0 && b[1] as int == b1 && b[2] as int == b2 && b[3] as int == b3);
    assert(b[4] as int == b4 && b[5] as int == b5 && b[6] as int == b6 && b[7] as int == b7);
    assert(((((((b0 * 256 + b1) * 256 + b2) * 256 + b3) * 256 + b4) * 256 + b5) * 256 + b6) * 256 + b7 == n)
        by (bit_vector)
        requires
            b0 == n / 0x100000000000000,
            b1 == (n / 0x1000000000000) % 256,
            b2 == (n / 0x10000000000) % 256,
            b3 == (n / 0x100000000) % 256,
            b4 == (n / 0x1000000) % 256,
            b5 == (n / 0x10000) % 256,
            b6 == (n / 0x100) % 256,
            b7 == n % 256,
    ;
}

proof fn lemma_line_records_cons(first: Seq<u8>, rest: Seq<Seq<u8>>)
    ensures
        line_records(seq![first] + rest) == line_record(first) + line_records(rest),
    decreases rest.len(),
{
    if rest.len() == 0 {
        assert(seq![first] + rest =~= seq![first]);
        assert((seq![first] + rest).drop_last() =~= Seq::<Seq<u8>>::empty());
        assert(line_record(first) + line_records(rest) =~= line_record(first));
        assert(line_records(seq![first]) =~= line_records(Seq::<Seq<u8>>::empty()) + line_record(first));
    } else {
        let whole = seq![first] + rest;
        assert(whole.drop_last() =~= seq![first] + rest.drop_last());
        assert(whole.last() == rest.last());
        lemma_line_records_cons(first, rest.drop_last());
        assert(line_records(whole) == line_records(whole.drop_last()) + line_record(whole.last()));
        assert(line_record(first) + line_records(rest) =~= line_record(first) + line_records(rest.drop_last()) + line_record(rest.last()));
    }
}

proof fn lemma_split_first_record(first: Seq<u8>, tail: Seq<u8>)
    requires
        first.len() <= u64::MAX,
    ensures
        split_records(line_record(first) + tail) == (match split_records(tail) {
            Some(rest) => Some(seq![first] + rest),
            None => None::<Seq<Seq<u8>>>,
        }),
{
    let len = first.len() as u64;
    let buf = line_record(first) + tail;
    assert(buf.take(8) =~= be_u64(len));
    lemma_be_value(len);
    let n = first.len() as int;
    assert(buf.skip(8 + n) =~= tail);
    assert(buf.subrange(8, 8 + n) =~= first);
}

/// A reader that splits a buffer of line records gets back exactly the lines
/// whose records were appended, in order.
pub proof fn law_line_records_read_back(lines: Seq<Seq<u8>>)
    requires
        forall|i: int| 0 <= i < lines.len() ==> #[trigger] lines[i].len() <= u64::MAX,
    ensures
        split_records(line_records(lines)) == Some(lines),
    decreases lines.len(),
{
    if lines.len() == 0 {
        assert(line_records(lines) =~= Seq::<u8>::empty());
        assert(lines =~= Seq::<Seq<u8>>::empty());
    } else {
        let first = lines[0];
        let rest = lines.drop_first();
        assert(lines =~= seq![first] + rest);
        lemma_line_records_cons(first, rest);
        assert forall|i: int| 0 <= i < rest.len() implies #[trigger] rest[i].len() <= u64::MAX by {
            assert(rest[i] == lines[i + 1]);
        }
        law_line_records_read_back(rest);
        lemma_split_first_record(first, line_records(rest));
    }
}

} // verus!
