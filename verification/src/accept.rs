//! Choosing the best supported MIME type for an HTTP `Accept` header.
//!
//! Quality values are compared through keys: the bit patterns of the `f32`
//! values that the header's `q=` parameters parse to. For non-negative
//! floats the bit pattern orders exactly as the value does, which is the only
//! property of the values that the choice depends on.

use vstd::prelude::*;
use vstd::string::*;
use vstd::utf8::{decode_utf8, valid_utf8};
use crate::text::{has_prefix, has_suffix, split_on, split_str, split_bytes, str_views, slice_views,
    lemma_split_on_nonempty, trim, trim_ws, starts_with};
use crate::convert::{ascii_lowercase, ascii_lower};
use crate::utf8::str_from_utf8;

verus! {

/// One item of an `Accept` header: its media range and the text of each `q=` parameter.
#[derive(Debug)]
pub struct AcceptEntry {
    pub mime: String,
    pub q_params: Vec<String>,
}

/// The text of an entry.
pub open spec fn entry_view(e: AcceptEntry) -> (Seq<char>, Seq<Seq<char>>) {
    (e.mime@, e.q_params@.map_values(|s: String| s@))
}

/// The text of each entry.
pub open spec fn entry_views(v: Seq<AcceptEntry>) -> Seq<(Seq<char>, Seq<Seq<char>>)> {
    v.map_values(|e: AcceptEntry| entry_view(e))
}

/// The values of the parameters that start with `q=`, in order.
pub open spec fn q_params_of(parts: Seq<Seq<char>>) -> Seq<Seq<char>>
    decreases parts.len(),
{
    if parts.len() == 0 {
        seq![]
    } else {
        let rest = q_params_of(parts.drop_last());
        let p = parts.last();
        if has_prefix(p, "q="@) { rest.push(p.subrange(2, p.len() as int)) } else { rest }
    }
}

/// The trimmed `;`-separated parts of an item.
pub open spec fn trimmed_parts(item: Seq<char>) -> Seq<Seq<char>> {
    split_on(item, ';').map_values(|p: Seq<char>| trim_ws(p))
}

/// The media range (the first part) and the `q=` values of an item.
pub open spec fn entry_of_item(item: Seq<char>) -> (Seq<char>, Seq<Seq<char>>) {
    let parts = trimmed_parts(item);
    (parts[0], q_params_of(parts.drop_first()))
}

/// The entries of the items that are valid UTF-8, in order.
pub open spec fn accept_entries(items: Seq<Seq<u8>>) -> Seq<(Seq<char>, Seq<Seq<char>>)>
    decreases items.len(),
{
    if items.len() == 0 {
        seq![]
    } else {
        let rest = accept_entries(items.drop_last());
        if valid_utf8(items.last()) {
            rest.push(entry_of_item(decode_utf8(items.last())))
        } else {
            rest
        }
    }
}

/// The entries of the first 64 comma-separated items of a header value.
pub open spec fn spec_parse_accept_header(value: Seq<u8>) -> Seq<(Seq<char>, Seq<Seq<char>>)> {
    let items = split_on(value, 44u8);
    accept_entries(items.take(if items.len() < 64 { items.len() as int } else { 64 }))
}

fn entry_from_item(item: &str) -> (r: AcceptEntry)
    ensures
        entry_view(r) == entry_of_item(item@),
{
    let parts = split_str(item, ';');
    proof { lemma_split_on_nonempty(item@, ';'); }
    let ghost tp = trimmed_parts(item@);
    assert(tp.len() == parts@.len());
    assert(parts@[0]@ == split_on(item@, ';')[0]);
    let mime = String::from_str(trim(parts[0]));
    let n = parts.len();
    let mut qs: Vec<String> = Vec::new();
    let mut j: usize = 1;
    while j < n
        invariant
            n == parts@.len(),
            n == tp.len(),
            str_views(parts@) == split_on(item@, ';'),
            tp == trimmed_parts(item@),
            1 <= j <= n,
            qs@.map_values(|s: String| s@) == q_params_of(tp.drop_first().take(j - 1)),
        decreases n - j,
    {
        let p = trim(parts[j]);
        assert(parts@[j as int]@ == split_on(item@, ';')[j as int]);
        assert(p@ == tp[j as int]);
        let ghost t = tp.drop_first().take(j as int);
        assert(t.drop_last() =~= tp.drop_first().take(j - 1));
        assert(t.last() == tp[j as int]);
        let ghost before = qs@.map_values(|s: String| s@);
        if starts_with(p, "q=") {
            proof { reveal_strlit("q="); }
            let v = String::from_str(p.substring_char(2, p.unicode_len()));
            qs.push(v);
            assert(qs@.map_values(|s: String| s@) =~= before.push(v@));
        } else {
            assert(qs@.map_values(|s: String| s@) =~= before);
        }
        j = j + 1;
    }
    assert(tp.drop_first().take(n - 1) =~= tp.drop_first());
    AcceptEntry { mime, q_params: qs }
}

/// Splits an `Accept` header value into its first 64 items and reads the media
/// range and `q=` values of each item that is valid UTF-8.
pub fn parse_accept_header(value: &[u8]) -> (r: Vec<AcceptEntry>)
    ensures
        entry_views(r@) == spec_parse_accept_header(value@),
{
    let items = split_bytes(value, 44u8);
    let ghost iv = slice_views(items@);
    let k: usize = if items.len() < 64 { items.len() } else { 64 };
    let mut out: Vec<AcceptEntry> = Vec::new();
    let mut i: usize = 0;
    while i < k
        invariant
            iv == slice_views(items@),
            iv == split_on(value@, 44u8),
            k <= items@.len(),
            k == (if iv.len() < 64 { iv.len() as int } else { 64 }),
            i <= k,
            entry_views(out@) == accept_entries(iv.take(i as int)),
        decreases k - i,
    {
        let ghost t = iv.take(i + 1);
        assert(t.drop_last() =~= iv.take(i as int));
        assert(t.last() == items@[i as int]@);
        let ghost before = entry_views(out@);
        match str_from_utf8(items[i]) {
            Ok(st) => {
                let e = entry_from_item(st);
                out.push(e);
                assert(entry_views(out@) =~= before.push(entry_view(e)));
            },
            Err(_) => {
                assert(entry_views(out@) =~= before);
            },
        }
        i = i + 1;
    }
    out
}


/// An entry whose `q=` values have been parsed to `f32` bit patterns
/// (`None` where a value does not parse).
#[derive(Debug)]
pub struct RankedAcceptEntry {
    pub mime: String,
    pub q_keys: Vec<Option<u32>>,
}

/// The text and keys of each ranked entry.
pub open spec fn ranked_views(v: Seq<RankedAcceptEntry>) -> Seq<(Seq<char>, Seq<Option<u32>>)> {
    v.map_values(|e: RankedAcceptEntry| (e.mime@, e.q_keys@))
}

/// The key of quality 1.0.
pub open spec fn q_key_one() -> u32 {
    0x3F80_0000
}

/// A key of a finite quality between 0.0 and 1.0 inclusive (including -0.0).
pub open spec fn q_key_valid(k: u32) -> bool {
    k <= 0x3F80_0000 || k == 0x8000_0000
}

/// The key with -0.0 taken as 0.0.
pub open spec fn q_key_normal(k: u32) -> u32 {
    if k == 0x8000_0000 { 0 } else { k }
}

/// The quality of an entry: its last valid `q=` value, or 1.0 when it has none.
pub open spec fn effective_q(keys: Seq<Option<u32>>) -> u32
    decreases keys.len(),
{
    if keys.len() == 0 {
        q_key_one()
    } else {
        match keys.last() {
            Some(k) => if q_key_valid(k) { q_key_normal(k) } else { effective_q(keys.drop_last()) },
            None => effective_q(keys.drop_last()),
        }
    }
}

/// ASCII-case-insensitive equality.
pub open spec fn eq_ic(a: Seq<char>, b: Seq<char>) -> bool {
    ascii_lowercase(a) == ascii_lowercase(b)
}

/// How specifically a media range names the type `s`: 3 for the type itself,
/// 2 for a `type/*` range whose `type/` starts `s`, 0 otherwise (a `*/*` range
/// ends in `/*` and so gets 2 or 0 by that rule).
pub open spec fn specificity(mime: Seq<char>, s: Seq<char>) -> int {
    if eq_ic(mime, s) {
        3
    } else if has_suffix(mime, "/*"@) {
        let prefix = mime.drop_last();
        if prefix.len() <= s.len() && eq_ic(s.take(prefix.len() as int), prefix) { 2 } else { 0 }
    } else if mime == "*/*"@ {
        1
    } else {
        0
    }
}

/// The highest specificity among the entries for `s`, and the quality of the
/// first entry that reached it (0 and quality 0.0 when none names `s`).
pub open spec fn scan_entries(entries: Seq<(Seq<char>, Seq<Option<u32>>)>, s: Seq<char>) -> (int, u32)
    decreases entries.len(),
{
    if entries.len() == 0 {
        (0, 0)
    } else {
        let prev = scan_entries(entries.drop_last(), s);
        let sp = specificity(entries.last().0, s);
        if prev.0 < sp { (sp, effective_q(entries.last().1)) } else { prev }
    }
}

/// The index of the first supported type with the highest positive quality, and that quality.
pub open spec fn best_supported(entries: Seq<(Seq<char>, Seq<Option<u32>>)>, supported: Seq<Seq<char>>) -> (Option<int>, u32)
    decreases supported.len(),
{
    if supported.len() == 0 {
        (None, 0)
    } else {
        let prev = best_supported(entries, supported.drop_last());
        let q = scan_entries(entries, supported.last()).1;
        if 0 < q && prev.1 < q { (Some(supported.len() - 1), q) } else { prev }
    }
}

/// ASCII-case-insensitive equality of two strings.
pub fn eq_ignore_ascii_case(a: &str, b: &str) -> (r: bool)
    ensures
        r == eq_ic(a@, b@),
{
    let n = a.unicode_len();
    if n != b.unicode_len() {
        assert(ascii_lowercase(a@).len() != ascii_lowercase(b@).len());
        return false;
    }
    let mut i: usize = 0;
    while i < n
        invariant
            n == a@.len(),
            n == b@.len(),
            i <= n,
            forall|j: int| 0 <= j < i ==> ascii_lower(a@[j]) == ascii_lower(b@[j]),
        decreases n - i,
    {
        if crate::convert::ascii_lower_char(a.get_char(i)) != crate::convert::ascii_lower_char(b.get_char(i)) {
            assert(ascii_lowercase(a@)[i as int] != ascii_lowercase(b@)[i as int]);
            return false;
        }
        i = i + 1;
    }
    assert(ascii_lowercase(a@) =~= ascii_lowercase(b@));
    true
}

fn specificity_exec(mime: &str, s: &str) -> (r: u8)
    ensures
        r as int == specificity(mime@, s@),
{
    proof { reveal_strlit("/*"); }
    if eq_ignore_ascii_case(mime, s) {
        return 3;
    }
    let m = mime.unicode_len();
    if m >= 2 && crate::text::occurs_at_exec(mime, m - 2, "/*") {
        let prefix = mime.substring_char(0, m - 1);
        assert(prefix@ =~= mime@.drop_last());
        let pl = m - 1;
        if pl <= s.unicode_len() {
            let head = s.substring_char(0, pl);
            assert(head@ =~= s@.take(pl as int));
            if eq_ignore_ascii_case(head, prefix) {
                return 2;
            }
        }
        return 0;
    }
    assert(!has_suffix(mime@, "/*"@));
    if crate::text::str_eq(mime, "*/*") {
        1
    } else {
        0
    }
}

fn effective_q_exec(keys: &[Option<u32>]) -> (r: u32)
    ensures
        r == effective_q(keys@),
{
    let n = keys.len();
    let mut q: u32 = 0x3F80_0000;
    let mut i: usize = 0;
    while i < n
        invariant
            n == keys@.len(),
            i <= n,
            q == effective_q(keys@.take(i as int)),
        decreases n - i,
    {
        assert(keys@.take(i + 1).drop_last() =~= keys@.take(i as int));
        if let Some(k) = keys[i] {
            if k <= 0x3F80_0000 || k == 0x8000_0000 {
                q = if k == 0x8000_0000 { 0 } else { k };
            }
        }
        i = i + 1;
    }
    assert(keys@.take(n as int) =~= keys@);
    q
}

fn scan_entries_exec(entries: &[RankedAcceptEntry], s: &str) -> (r: (u8, u32))
    ensures
        (r.0 as int, r.1) == scan_entries(ranked_views(entries@), s@),
{
    let ghost ev = ranked_views(entries@);
    let n = entries.len();
    let mut h: u8 = 0;
    let mut q: u32 = 0;
    let mut i: usize = 0;
    while i < n
        invariant
            n == entries@.len(),
            ev == ranked_views(entries@),
            i <= n,
            (h as int, q) == scan_entries(ev.take(i as int), s@),
        decreases n - i,
    {
        assert(ev.take(i + 1).drop_last() =~= ev.take(i as int));
        assert(ev.take(i + 1).last() == (entries@[i as int].mime@, entries@[i as int].q_keys@));
        let sp = specificity_exec(entries[i].mime.as_str(), s);
        if h < sp {
            h = sp;
            q = effective_q_exec(entries[i].q_keys.as_slice());
        }
        i = i + 1;
    }
    assert(ev.take(n as int) =~= ev);
    (h, q)
}

/// The supported type that the header prefers: the first one with the highest
/// positive quality, where each type takes the quality of the first entry of
/// the highest specificity for it.
pub fn get_best_mime_type_from_accept_header<'a>(
    entries: &[RankedAcceptEntry],
    supported: &[&'a str],
) -> (r: Option<&'a str>)
    ensures
        match best_supported(ranked_views(entries@), str_views(supported@)).0 {
            Some(i) => r == Some(supported@[i]),
            None => r is None,
        },
{
    let ghost ev = ranked_views(entries@);
    let ghost sv = str_views(supported@);
    let n = supported.len();
    let mut best: Option<usize> = None;
    let mut best_q: u32 = 0;
    let mut t: usize = 0;
    while t < n
        invariant
            n == supported@.len(),
            ev == ranked_views(entries@),
            sv == str_views(supported@),
            t <= n,
            best_q == best_supported(ev, sv.take(t as int)).1,
            match best_supported(ev, sv.take(t as int)).0 {
                Some(i) => best == Some(i as usize) && 0 <= i < t,
                None => best is None,
            },
        decreases n - t,
    {
        assert(sv.take(t + 1).drop_last() =~= sv.take(t as int));
        assert(sv.take(t + 1).last() == supported@[t as int]@);
        let (_, q) = scan_entries_exec(entries, supported[t]);
        if 0 < q && best_q < q {
            best_q = q;
            best = Some(t);
        }
        t = t + 1;
    }
    assert(sv.take(n as int) =~= sv);
    match best {
        Some(i) => Some(supported[i]),
        None => None,
    }
}


/// The quality that the entries give the supported type at index `j`.
pub open spec fn quality_of(entries: Seq<(Seq<char>, Seq<Option<u32>>)>, supported: Seq<Seq<char>>, j: int) -> u32 {
    scan_entries(entries, supported[j]).1
}

/// The type chosen from an Accept header has a positive quality, no supported type
/// has a higher one, and every type before it has a lower one; nothing is chosen
/// exactly when no supported type has a positive quality.
pub proof fn law_best_type_is_preferred(entries: Seq<(Seq<char>, Seq<Option<u32>>)>, supported: Seq<Seq<char>>)
    ensures
        match best_supported(entries, supported).0 {
            Some(i) => {
                &&& 0 <= i < supported.len()
                &&& best_supported(entries, supported).1 == quality_of(entries, supported, i)
                &&& 0 < quality_of(entries, supported, i)
                &&& forall|j: int| 0 <= j < supported.len() ==> #[trigger] quality_of(entries, supported, j) <= quality_of(entries, supported, i)
                &&& forall|j: int| 0 <= j < i ==> #[trigger] quality_of(entries, supported, j) < quality_of(entries, supported, i)
            },
            None => {
                &&& best_supported(entries, supported).1 == 0
                &&& forall|j: int| 0 <= j < supported.len() ==> #[trigger] quality_of(entries, supported, j) == 0
            },
        },
    decreases supported.len(),
{
    if supported.len() > 0 {
        let init = supported.drop_last();
        law_best_type_is_preferred(entries, init);
        assert forall|j: int| 0 <= j < init.len() implies #[trigger] quality_of(entries, init, j) == quality_of(entries, supported, j) by {
            assert(init[j] == supported[j]);
        }
        let last = supported.len() - 1;
        assert(supported.last() == supported[last]);
        let q = quality_of(entries, supported, last);
        assert(scan_entries(entries, supported.last()).1 == q);
        match best_supported(entries, init).0 {
            Some(i) => {
                assert(quality_of(entries, init, i) == quality_of(entries, supported, i));
                let bq = best_supported(entries, init).1;
                if 0 < q && bq < q {
                    assert(best_supported(entries, supported) == (Some(last), q));
                    assert forall|j: int| 0 <= j < supported.len() implies #[trigger] quality_of(entries, supported, j) <= q by {
                        if j < last {
                            assert(quality_of(entries, init, j) <= bq);
                        }
                    }
                    assert forall|j: int| 0 <= j < last implies #[trigger] quality_of(entries, supported, j) < q by {
                        assert(quality_of(entries, init, j) <= bq);
                    }
                } else {
                    assert(best_supported(entries, supported) == best_supported(entries, init));
                    assert forall|j: int| 0 <= j < supported.len() implies #[trigger] quality_of(entries, supported, j) <= bq by {
                        if j < last {
                            assert(quality_of(entries, init, j) <= bq);
                        }
                    }
                    assert forall|j: int| 0 <= j < i implies #[trigger] quality_of(entries, supported, j) < bq by {
                        assert(quality_of(entries, init, j) < bq);
                    }
                }
            },
            None => {
                if 0 < q {
                    assert(best_supported(entries, supported) == (Some(last), q));
                    assert forall|j: int| 0 <= j < supported.len() implies #[trigger] quality_of(entries, supported, j) <= q by {
                        if j < last {
                            assert(quality_of(entries, init, j) == 0);
                        }
                    }
                    assert forall|j: int| 0 <= j < last implies #[trigger] quality_of(entries, supported, j) < q by {
                        assert(quality_of(entries, init, j) == 0);
                    }
                } else {
                    assert(best_supported(entries, supported) == best_supported(entries, init));
                    assert forall|j: int| 0 <= j < supported.len() implies #[trigger] quality_of(entries, supported, j) == 0 by {
                        if j < last {
                            assert(quality_of(entries, init, j) == 0);
                        }
                    }
                }
            },
        }
    }
}


/// An entry naming the type itself (case-insensitively) is more specific than
/// any other entry: it scores 3, and every other entry scores less.
pub proof fn law_exact_entry_most_specific(mime: Seq<char>, s: Seq<char>)
    ensures
        eq_ic(mime, s) ==> specificity(mime, s) == 3,
        !eq_ic(mime, s) ==> specificity(mime, s) < 3,
        0 <= specificity(mime, s),
{
}

proof fn lemma_scan_without_exact(entries: Seq<(Seq<char>, Seq<Option<u32>>)>, s: Seq<char>)
    requires
        forall|i: int| 0 <= i < entries.len() ==> !eq_ic(#[trigger] entries[i].0, s),
    ensures
        scan_entries(entries, s).0 < 3,
    decreases entries.len(),
{
    if entries.len() > 0 {
        let init = entries.drop_last();
        assert forall|i: int| 0 <= i < init.len() implies !eq_ic(#[trigger] init[i].0, s) by {
            assert(init[i] == entries[i]);
        }
        lemma_scan_without_exact(init, s);
        law_exact_entry_most_specific(entries.last().0, s);
        assert(entries.last() == entries[entries.len() - 1]);
    }
}

proof fn lemma_scan_keeps_exact(entries: Seq<(Seq<char>, Seq<Option<u32>>)>, s: Seq<char>, j: int)
    requires
        0 <= j < entries.len(),
        eq_ic(entries[j].0, s),
        forall|i: int| 0 <= i < j ==> !eq_ic(#[trigger] entries[i].0, s),
    ensures
        scan_entries(entries, s) == (3int, effective_q(entries[j].1)),
    decreases entries.len(),
{
    let init = entries.drop_last();
    assert(entries.last() == entries[entries.len() - 1]);
    law_exact_entry_most_specific(entries.last().0, s);
    if j == entries.len() - 1 {
        assert forall|i: int| 0 <= i < init.len() implies !eq_ic(#[trigger] init[i].0, s) by {
            assert(init[i] == entries[i]);
        }
        lemma_scan_without_exact(init, s);
    } else {
        assert(init[j] == entries[j]);
        assert forall|i: int| 0 <= i < j implies !eq_ic(#[trigger] init[i].0, s) by {
            assert(init[i] == entries[i]);
        }
        lemma_scan_keeps_exact(init, s, j);
    }
}

/// When a header holds an entry naming a type itself, the type takes the quality
/// of the first such entry, whatever `type/*` or other entries come before or
/// after it.
pub proof fn law_exact_entry_sets_quality(entries: Seq<(Seq<char>, Seq<Option<u32>>)>, s: Seq<char>, j: int)
    requires
        0 <= j < entries.len(),
        eq_ic(entries[j].0, s),
        forall|i: int| 0 <= i < j ==> !eq_ic(#[trigger] entries[i].0, s),
    ensures
        scan_entries(entries, s).1 == effective_q(entries[j].1),
{
    lemma_scan_keeps_exact(entries, s, j);
}

} // verus!
