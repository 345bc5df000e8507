//! The decisions of the thumbnail URI-scheme protocol: reading the request
//! path and query, choosing the size, and turning the outcome into a response.

use vstd::prelude::*;
use vstd::string::*;
use vstd::utf8::{decode_utf8, valid_utf8, encode_utf8};
use crate::models::{FileUri, Size, file_scheme, content_scheme};
use crate::accept::{RankedAcceptEntry, best_supported, law_best_type_is_preferred, ranked_views, get_best_mime_type_from_accept_header};
use crate::convert::{ImageFormatKind, convert_to_image_format, image_format_from_mime_type,
    spec_image_format_from_name, spec_image_format_from_mime_type};
use crate::text::{has_prefix, split_on, split_str, str_views, str_eq, strip_all_prefix, trim_start_matches};
use crate::convert::{find_char, first_index_of};
use crate::decimal::{decimal_text, u64_to_decimal};
use crate::utf8::{string_from_utf8, all_ascii, ascii_chars, lemma_ascii_chars_encode};
use crate::uri_encoding::{encode_byte, encode_bytes, hex_digit, is_unreserved};
use vstd::utf8::{encode_utf8_valid_utf8, encode_utf8_decode_utf8};

verus! {

/// The value of an ASCII hexadecimal digit, if the byte is one.
pub open spec fn hex_value(b: u8) -> Option<u8> {
    if 48 <= b <= 57 {
        Some((b - 48) as u8)
    } else if 65 <= b <= 70 {
        Some((b - 55) as u8)
    } else if 97 <= b <= 102 {
        Some((b - 87) as u8)
    } else {
        None
    }
}

/// Percent-decoding: `%` followed by two hex digits stands for the byte they
/// spell; every other byte, a lone `%` included, stands for itself.
pub open spec fn percent_decode(bs: Seq<u8>) -> Seq<u8>
    decreases bs.len(),
{
    if bs.len() == 0 {
        seq![]
    } else if bs[0] == 37u8 && bs.len() >= 3 && hex_value(bs[1]) is Some && hex_value(bs[2]) is Some {
        seq![(hex_value(bs[1])->0 * 16 + hex_value(bs[2])->0) as u8] + percent_decode(bs.subrange(3, bs.len() as int))
    } else {
        seq![bs[0]] + percent_decode(bs.subrange(1, bs.len() as int))
    }
}

fn hex_value_exec(b: u8) -> (r: Option<u8>)
    ensures
        r == hex_value(b),
{
    if 48 <= b && b <= 57 {
        Some(b - 48)
    } else if 65 <= b && b <= 70 {
        Some(b - 55)
    } else if 97 <= b && b <= 102 {
        Some(b - 87)
    } else {
        None
    }
}

/// Percent-decodes bytes.
pub fn percent_decode_bytes(bs: &[u8]) -> (r: Vec<u8>)
    ensures
        r@ == percent_decode(bs@),
{
    let n = bs.len();
    let mut out: Vec<u8> = Vec::new();
    let mut i: usize = 0;
    assert(bs@.subrange(0, n as int) =~= bs@);
    while i < n
        invariant
            n == bs@.len(),
            i <= n,
            percent_decode(bs@) == out@ + percent_decode(bs@.subrange(i as int, n as int)),
        decreases n - i,
    {
        let ghost rest = bs@.subrange(i as int, n as int);
        let b = bs[i];
        if b == 37u8 && n - i >= 3 {
            let h = hex_value_exec(bs[i + 1]);
            let l = hex_value_exec(bs[i + 2]);
            if let (Some(h), Some(l)) = (h, l) {
                assert(rest[1] == bs@[i + 1] && rest[2] == bs@[i + 2]);
                let ghost before = out@;
                out.push(h * 16 + l);
                assert(rest.subrange(3, rest.len() as int) =~= bs@.subrange(i + 3, n as int));
                assert(out@ + percent_decode(bs@.subrange(i + 3, n as int)) =~= before + percent_decode(rest));
                i = i + 3;
                continue;
            }
        }
        let ghost before = out@;
        out.push(b);
        assert(rest.subrange(1, rest.len() as int) =~= bs@.subrange(i + 1, n as int));
        assert(out@ + percent_decode(bs@.subrange(i + 1, n as int)) =~= before + percent_decode(rest));
        i = i + 1;
    }
    assert(bs@.subrange(n as int, n as int) =~= Seq::<u8>::empty());
    assert(out@ =~= out@ + Seq::<u8>::empty());
    out
}

proof fn lemma_hex_digit_value(n: u8)
    requires
        n < 16,
    ensures
        hex_value(hex_digit(n)) == Some(n),
{
}

proof fn lemma_decode_encoded_byte(b: u8, t: Seq<u8>)
    ensures
        percent_decode(encode_byte(b) + t) == seq![b] + percent_decode(t),
{
    let s = encode_byte(b) + t;
    if is_unreserved(b) {
        assert(s[0] == b);
        assert(s.subrange(1, s.len() as int) =~= t);
    } else {
        lemma_hex_digit_value(b / 16);
        lemma_hex_digit_value(b % 16);
        assert(s[0] == 37u8 && s[1] == hex_digit(b / 16) && s[2] == hex_digit(b % 16));
        assert(s.subrange(3, s.len() as int) =~= t);
        assert(((b / 16) * 16 + b % 16) as u8 == b);
    }
}

proof fn lemma_decode_encoded(bs: Seq<u8>, t: Seq<u8>)
    ensures
        percent_decode(encode_bytes(bs) + t) == bs + percent_decode(t),
    decreases bs.len(),
{
    if bs.len() == 0 {
        assert(encode_bytes(bs) + t =~= t);
        assert(bs + percent_decode(t) =~= percent_decode(t));
    } else {
        let init = bs.drop_last();
        let b = bs.last();
        assert(encode_bytes(bs) + t =~= encode_bytes(init) + (encode_byte(b) + t));
        lemma_decode_encoded(init, encode_byte(b) + t);
        lemma_decode_encoded_byte(b, t);
        assert(init + (seq![b] + percent_decode(t)) =~= bs + percent_decode(t));
    }
}

/// Percent-decoding gives back exactly the bytes that were percent-encoded.
pub proof fn law_percent_decode_inverts_encode(bs: Seq<u8>)
    ensures
        percent_decode(encode_bytes(bs)) == bs,
{
    lemma_decode_encoded(bs, seq![]);
    assert(encode_bytes(bs) + seq![] =~= encode_bytes(bs));
    assert(bs + seq![] =~= bs);
}

proof fn lemma_encoded_bytes_plain(bs: Seq<u8>)
    ensures
        all_ascii(encode_bytes(bs)),
        forall|i: int| 0 <= i < encode_bytes(bs).len() ==> #[trigger] encode_bytes(bs)[i] != 47u8,
    decreases bs.len(),
{
    if bs.len() > 0 {
        let init = bs.drop_last();
        let b = bs.last();
        lemma_encoded_bytes_plain(init);
        let e = encode_byte(b);
        let whole = encode_bytes(init) + e;
        assert forall|i: int| 0 <= i < whole.len() implies #[trigger] whole[i] != 47u8 && whole[i] < 128 by {
            if i >= encode_bytes(init).len() {
                assert(whole[i] == e[i - encode_bytes(init).len()]);
            } else {
                assert(whole[i] == encode_bytes(init)[i]);
            }
        }
    }
}

/// A request path made of a percent-encoded component (as
/// `encode_android_uri_component` writes it) decodes back to that component.
pub proof fn law_request_path_decodes_encoded_component(component: Seq<char>)
    ensures
        spec_decode_request_path(ascii_chars(encode_bytes(encode_utf8(component)))) == Some(component),
{
    let e = encode_bytes(encode_utf8(component));
    let path = ascii_chars(e);
    lemma_encoded_bytes_plain(encode_utf8(component));
    lemma_ascii_chars_encode(e);
    reveal_strlit("/");
    if path.len() > 0 {
        assert(path[0] != '/');
        assert(path.subrange(0, 1)[0] == path[0]);
        assert(!has_prefix(path, "/"@));
    }
    assert(strip_all_prefix(path, "/"@) == path);
    law_percent_decode_inverts_encode(encode_utf8(component));
    encode_utf8_valid_utf8(component);
    encode_utf8_decode_utf8(component);
}

/// The text a request path stands for: without its leading slashes,
/// percent-decoded, when the result is valid UTF-8.
pub open spec fn spec_decode_request_path(path: Seq<char>) -> Option<Seq<char>> {
    let bytes = percent_decode(vstd::utf8::encode_utf8(strip_all_prefix(path, "/"@)));
    if valid_utf8(bytes) { Some(decode_utf8(bytes)) } else { None }
}

/// Decodes the path of a protocol request into the text it carries.
pub fn decode_request_path(path: &str) -> (r: Option<String>)
    ensures
        match spec_decode_request_path(path@) {
            Some(t) => r matches Some(s) && s@ == t,
            None => r is None,
        },
{
    proof { reveal_strlit("/"); }
    let trimmed = trim_start_matches(path, "/");
    let decoded = percent_decode_bytes(trimmed.as_bytes());
    string_from_utf8(decoded)
}

/// The `key=value` pairs of a query: each `&`-separated piece that holds a `=`,
/// split at its first `=`.
pub open spec fn query_pairs(pieces: Seq<Seq<char>>) -> Seq<(Seq<char>, Seq<char>)>
    decreases pieces.len(),
{
    if pieces.len() == 0 {
        seq![]
    } else {
        let rest = query_pairs(pieces.drop_last());
        let p = pieces.last();
        match first_index_of(p, '=') {
            Some(i) => rest.push((p.take(i), p.subrange(i + 1, p.len() as int))),
            None => rest,
        }
    }
}

/// The value of the last pair with the given key.
pub open spec fn last_value_of(pairs: Seq<(Seq<char>, Seq<char>)>, key: Seq<char>) -> Option<Seq<char>>
    decreases pairs.len(),
{
    if pairs.len() == 0 {
        None
    } else if pairs.last().0 == key {
        Some(pairs.last().1)
    } else {
        last_value_of(pairs.drop_last(), key)
    }
}

/// The value a query gives a key: later pairs override earlier ones.
pub open spec fn spec_query_value(query: Seq<char>, key: Seq<char>) -> Option<Seq<char>> {
    last_value_of(query_pairs(split_on(query, '&')), key)
}

proof fn lemma_last_value_push(pairs: Seq<(Seq<char>, Seq<char>)>, p: (Seq<char>, Seq<char>), key: Seq<char>)
    ensures
        last_value_of(pairs.push(p), key) == (if p.0 == key { Some(p.1) } else { last_value_of(pairs, key) }),
{
    assert(pairs.push(p).drop_last() =~= pairs);
}

/// The value of `key` in a query string.
pub fn query_value<'a>(query: &'a str, key: &str) -> (r: Option<&'a str>)
    ensures
        match spec_query_value(query@, key@) {
            Some(v) => r matches Some(x) && x@ == v,
            None => r is None,
        },
{
    let pieces = split_str(query, '&');
    let ghost pv = str_views(pieces@);
    let n = pieces.len();
    let mut found: Option<&'a str> = None;
    let mut i: usize = 0;
    while i < n
        invariant
            n == pieces@.len(),
            pv == str_views(pieces@),
            pv == split_on(query@, '&'),
            i <= n,
            match last_value_of(query_pairs(pv.take(i as int)), key@) {
                Some(v) => found matches Some(x) && x@ == v,
                None => found is None,
            },
        decreases n - i,
    {
        let p = pieces[i];
        let ghost t = pv.take(i + 1);
        assert(t.drop_last() =~= pv.take(i as int));
        assert(t.last() == p@);
        match find_char(p, '=') {
            Some(k) => {
                proof {
                    let j = k as int;
                    let c = first_index_of(p@, '=')->0;
                    assert(exists|x: int| 0 <= x < p@.len() && p@[x] == '=');
                    if c < j { assert(p@[c] != '='); }
                    if c > j { assert(p@[j] != '='); }
                    lemma_last_value_push(query_pairs(pv.take(i as int)), (p@.take(j), p@.subrange(j + 1, p@.len() as int)), key@);
                }
                let m = p.unicode_len();
                let name = p.substring_char(0, k);
                assert(name@ =~= p@.take(k as int));
                if str_eq(name, key) {
                    found = Some(p.substring_char(k + 1, m));
                }
            },
            None => {},
        }
        i = i + 1;
    }
    assert(pv.take(n as int) =~= pv);
    found
}

/// The largest thumbnail side that a request may ask for.
pub open spec fn max_thumbnail_side() -> u32 {
    1024
}

/// The thumbnail size for requested sides (each already capped): both given,
/// one given and used for both, or 256 by 256.
pub open spec fn spec_thumbnail_size(w: Option<u32>, h: Option<u32>) -> Size {
    let cw = match w { Some(x) => Some(if x < 1024 { x } else { 1024u32 }), None => None };
    let ch = match h { Some(x) => Some(if x < 1024 { x } else { 1024u32 }), None => None };
    match (cw, ch) {
        (Some(a), Some(b)) => Size { width: a, height: b },
        (Some(a), None) => Size { width: a, height: a },
        (None, Some(b)) => Size { width: b, height: b },
        (None, None) => Size { width: 256, height: 256 },
    }
}

/// A thumbnail is never asked for with a side longer than 1024 pixels.
pub proof fn law_thumbnail_sides_capped(width: Option<u32>, height: Option<u32>)
    ensures
        spec_thumbnail_size(width, height).width <= max_thumbnail_side(),
        spec_thumbnail_size(width, height).height <= max_thumbnail_side(),
{
}

/// The size of a thumbnail from the requested sides, each capped at 1024: both
/// sides when both are given; a square of the one side given when only one is;
/// 256 by 256 when neither is.
pub proof fn law_thumbnail_size_from_sides(width: Option<u32>, height: Option<u32>)
    ensures
        ({
            let s = spec_thumbnail_size(width, height);
            let w = width->0;
            let h = height->0;
            let cw: int = if w < 1024 { w as int } else { 1024 };
            let ch: int = if h < 1024 { h as int } else { 1024 };
            &&& (width is Some && height is Some) ==> s.width == cw && s.height == ch
            &&& (width is Some && height is None) ==> s.width == cw && s.height == cw
            &&& (width is None && height is Some) ==> s.width == ch && s.height == ch
            &&& (width is None && height is None) ==> s.width == 256 && s.height == 256
            &&& s.width == s.height || (width is Some && height is Some)
        }),
{
}

/// The thumbnail size for the requested width and height, each at most 1024.
pub fn resolve_thumbnail_size(width: Option<u32>, height: Option<u32>) -> (r: Size)
    ensures
        r == spec_thumbnail_size(width, height),
{
    let w = match width { Some(x) => Some(if x < 1024 { x } else { 1024 }), None => None };
    let h = match height { Some(x) => Some(if x < 1024 { x } else { 1024 }), None => None };
    match (w, h) {
        (Some(a), Some(b)) => Size { width: a, height: b },
        (Some(a), None) => Size { width: a, height: a },
        (None, Some(b)) => Size { width: b, height: b },
        (None, None) => Size { width: 256, height: 256 },
    }
}

/// The request methods the protocol tells apart.
#[derive(Debug, Clone, Copy, PartialEq, Eq)]
pub enum RequestMethod {
    Get,
    Head,
    Other,
}

/// A successful protocol response.
#[derive(Debug)]
pub struct ProtocolResponse {
    pub body: Vec<u8>,
    pub content_type: String,
    pub content_len: u64,
}

/// A failed protocol request.
#[derive(Debug)]
pub enum ProtocolError {
    MethodNotAllowed { allow: String },
    BadRequest { msg: String },
    InternalServerError { msg: String },
    Forbidden,
    NotFound,
}

/// Answers a request for a thumbnail that was made: GET carries the image,
/// HEAD only its type and length, and any other method is not allowed.
pub fn thumbnail_response(
    method: RequestMethod,
    thumbnail: Vec<u8>,
    content_type: &str,
    allow: String,
) -> (r: Result<ProtocolResponse, ProtocolError>)
    ensures
        match method {
            RequestMethod::Get => r matches Ok(ProtocolResponse { body, content_type: ct, content_len })
                && body@ == thumbnail@ && ct@ == content_type@ && content_len == thumbnail@.len(),
            RequestMethod::Head => r matches Ok(ProtocolResponse { body, content_type: ct, content_len })
                && body@.len() == 0 && ct@ == content_type@ && content_len == thumbnail@.len(),
            RequestMethod::Other => r matches Err(ProtocolError::MethodNotAllowed { allow: a }) && a == allow,
        },
{
    let len = thumbnail.len() as u64;
    match method {
        RequestMethod::Get => Ok(ProtocolResponse { content_type: String::from_str(content_type), content_len: len, body: thumbnail }),
        RequestMethod::Head => Ok(ProtocolResponse { content_type: String::from_str(content_type), content_len: len, body: Vec::new() }),
        RequestMethod::Other => Err(ProtocolError::MethodNotAllowed { allow }),
    }
}

/// The headers a protocol response sets.
#[derive(Debug, Clone, Copy, PartialEq, Eq)]
pub enum ResponseHeader {
    ContentType,
    ContentLength,
    Allow,
}

/// The status, headers and body of an HTTP response.
#[derive(Debug)]
pub struct ResponseParts {
    pub status: u16,
    pub headers: Vec<(ResponseHeader, String)>,
    pub body: Vec<u8>,
}

/// The headers as names and texts.
pub open spec fn header_views(hs: Seq<(ResponseHeader, String)>) -> Seq<(ResponseHeader, Seq<char>)> {
    hs.map_values(|h: (ResponseHeader, String)| (h.0, h.1@))
}

/// The `Content-Type` of a plain-text error message.
pub open spec fn plain_text_utf8() -> Seq<char> {
    "text/plain; charset=utf-8"@
}

/// The response for an error message with the given status.
fn message_response(status: u16, msg: String) -> (r: ResponseParts)
    ensures
        r.status == status,
        header_views(r.headers@) == seq![
            (ResponseHeader::ContentType, plain_text_utf8()),
            (ResponseHeader::ContentLength, decimal_text(encode_utf8(msg@).len() as int)),
        ],
        r.body@ == encode_utf8(msg@),
{
    let bytes = msg.as_str().as_bytes();
    let len = bytes.len() as u64;
    let body = vstd::slice::slice_to_vec(bytes);
    let mut headers: Vec<(ResponseHeader, String)> = Vec::new();
    headers.push((ResponseHeader::ContentType, String::from_str("text/plain; charset=utf-8")));
    headers.push((ResponseHeader::ContentLength, u64_to_decimal(len)));
    assert(header_views(headers@) =~= seq![
        (ResponseHeader::ContentType, plain_text_utf8()),
        (ResponseHeader::ContentLength, decimal_text(encode_utf8(msg@).len() as int)),
    ]);
    ResponseParts { status, headers, body }
}

/// The response for a status without a body.
fn empty_response(status: u16) -> (r: ResponseParts)
    ensures
        r.status == status,
        header_views(r.headers@) == seq![(ResponseHeader::ContentLength, decimal_text(0))],
        r.body@.len() == 0,
{
    let mut headers: Vec<(ResponseHeader, String)> = Vec::new();
    headers.push((ResponseHeader::ContentLength, u64_to_decimal(0)));
    assert(header_views(headers@) =~= seq![(ResponseHeader::ContentLength, decimal_text(0))]);
    ResponseParts { status, headers, body: Vec::new() }
}

/// The HTTP response for the outcome of a protocol request.
pub fn response_parts(outcome: Result<ProtocolResponse, ProtocolError>) -> (r: ResponseParts)
    ensures
        match outcome {
            Ok(ProtocolResponse { body, content_type, content_len }) => {
                &&& r.status == 200
                &&& header_views(r.headers@) == seq![
                    (ResponseHeader::ContentType, content_type@),
                    (ResponseHeader::ContentLength, decimal_text(content_len as int)),
                ]
                &&& r.body@ == body@
            },
            Err(ProtocolError::MethodNotAllowed { allow }) => {
                &&& r.status == 405
                &&& header_views(r.headers@) == seq![
                    (ResponseHeader::Allow, allow@),
                    (ResponseHeader::ContentLength, decimal_text(0)),
                ]
                &&& r.body@.len() == 0
            },
            Err(ProtocolError::BadRequest { msg }) => {
                &&& r.status == 400
                &&& header_views(r.headers@) == seq![
                    (ResponseHeader::ContentType, plain_text_utf8()),
                    (ResponseHeader::ContentLength, decimal_text(encode_utf8(msg@).len() as int)),
                ]
                &&& r.body@ == encode_utf8(msg@)
            },
            Err(ProtocolError::InternalServerError { msg }) => {
                &&& r.status == 500
                &&& header_views(r.headers@) == seq![
                    (ResponseHeader::ContentType, plain_text_utf8()),
                    (ResponseHeader::ContentLength, decimal_text(encode_utf8(msg@).len() as int)),
                ]
                &&& r.body@ == encode_utf8(msg@)
            },
            Err(ProtocolError::Forbidden) => {
                &&& r.status == 403
                &&& header_views(r.headers@) == seq![(ResponseHeader::ContentLength, decimal_text(0))]
                &&& r.body@.len() == 0
            },
            Err(ProtocolError::NotFound) => {
                &&& r.status == 404
                &&& header_views(r.headers@) == seq![(ResponseHeader::ContentLength, decimal_text(0))]
                &&& r.body@.len() == 0
            },
        },
{
    match outcome {
        Ok(ProtocolResponse { body, content_type, content_len }) => {
            let mut headers: Vec<(ResponseHeader, String)> = Vec::new();
            let ghost ct = content_type@;
            headers.push((ResponseHeader::ContentType, content_type));
            headers.push((ResponseHeader::ContentLength, u64_to_decimal(content_len)));
            assert(header_views(headers@) =~= seq![
                (ResponseHeader::ContentType, ct),
                (ResponseHeader::ContentLength, decimal_text(content_len as int)),
            ]);
            ResponseParts { status: 200, headers, body }
        },
        Err(ProtocolError::MethodNotAllowed { allow }) => {
            let mut headers: Vec<(ResponseHeader, String)> = Vec::new();
            let ghost a = allow@;
            headers.push((ResponseHeader::Allow, allow));
            headers.push((ResponseHeader::ContentLength, u64_to_decimal(0)));
            assert(header_views(headers@) =~= seq![
                (ResponseHeader::Allow, a),
                (ResponseHeader::ContentLength, decimal_text(0)),
            ]);
            ResponseParts { status: 405, headers, body: Vec::new() }
        },
        Err(ProtocolError::BadRequest { msg }) => message_response(400, msg),
        Err(ProtocolError::InternalServerError { msg }) => message_response(500, msg),
        Err(ProtocolError::Forbidden) => empty_response(403),
        Err(ProtocolError::NotFound) => empty_response(404),
    }
}


/// How a thumbnail request is answered before the thumbnail is fetched: an
/// internal error when the protocol is not set up, forbidden when it is turned
/// off, a bad request when the path does not name a `content://` or `file://`
/// URI, forbidden when a local path is outside the protocol's scope, and
/// otherwise nothing yet. `local_path_allowed` says whether the scope allows
/// the URI's local path; it is read only for a `file://` URI.
pub open spec fn spec_check_thumbnail_request(
    configured: bool,
    enabled: bool,
    uri: Option<Seq<char>>,
    local_path_allowed: bool,
) -> Result<(), ProtocolError> {
    if !configured {
        Err(ProtocolError::InternalServerError { msg: arbitrary() })
    } else if !enabled {
        Err(ProtocolError::Forbidden)
    } else if !(uri matches Some(u) && (has_prefix(u, content_scheme()) || has_prefix(u, file_scheme()))) {
        Err(ProtocolError::BadRequest { msg: arbitrary() })
    } else if has_prefix(uri->0, file_scheme()) && !local_path_allowed {
        Err(ProtocolError::Forbidden)
    } else {
        Ok(())
    }
}

/// Checks a thumbnail request before the thumbnail is fetched.
pub fn check_thumbnail_request(
    configured: bool,
    enabled: bool,
    uri: Option<&FileUri>,
    local_path_allowed: bool,
) -> (r: Result<(), ProtocolError>)
    ensures
        ({
            let u = match uri { Some(x) => Some(x.uri@), None => None };
            match (r, spec_check_thumbnail_request(configured, enabled, u, local_path_allowed)) {
                (Ok(()), Ok(())) => true,
                (Err(ProtocolError::InternalServerError { msg }), Err(ProtocolError::InternalServerError { .. })) =>
                    msg@ == "Missing protocol-thumbnail feature"@,
                (Err(ProtocolError::Forbidden), Err(ProtocolError::Forbidden)) => true,
                (Err(ProtocolError::BadRequest { msg }), Err(ProtocolError::BadRequest { .. })) =>
                    msg@ == "Bad URI format"@,
                _ => false,
            }
        }),
{
    if !configured {
        return Err(ProtocolError::InternalServerError { msg: String::from_str("Missing protocol-thumbnail feature") });
    }
    if !enabled {
        return Err(ProtocolError::Forbidden);
    }
    let u = match uri {
        Some(u) if u.is_content_scheme() || u.as_path().is_some() => u,
        _ => return Err(ProtocolError::BadRequest { msg: String::from_str("Bad URI format") }),
    };
    if u.as_path().is_some() && !local_path_allowed {
        return Err(ProtocolError::Forbidden);
    }
    Ok(())
}

/// The MIME types a thumbnail can be encoded in, in the order they are preferred
/// when an `Accept` header rates them equally.
pub open spec fn thumbnail_mime_types() -> Seq<Seq<char>> {
    seq!["image/jpeg"@, "image/jpg"@, "image/webp"@, "image/png"@]
}

/// The format of a thumbnail: the one the query names with `f=`, else the one of
/// the type the `Accept` header prefers among `thumbnail_mime_types`, else JPEG.
pub open spec fn spec_thumbnail_format(query: Seq<char>, accept: Seq<(Seq<char>, Seq<Option<u32>>)>) -> ImageFormatKind {
    let named = match spec_query_value(query, "f"@) {
        Some(f) => spec_image_format_from_name(f),
        None => None,
    };
    match named {
        Some(k) => k,
        None => match best_supported(accept, thumbnail_mime_types()).0 {
            Some(i) => match spec_image_format_from_mime_type(thumbnail_mime_types()[i]) {
                Some(k) => k,
                None => ImageFormatKind::Jpeg,
            },
            None => ImageFormatKind::Jpeg,
        },
    }
}

/// A format named in the query with `f=` (one of `jpeg`, `jpg`, `webp`, `png`, in
/// any case) always decides the thumbnail's format; without one, a type that
/// the `Accept` header prefers decides it; with neither, the thumbnail is JPEG.
pub proof fn law_query_format_wins(query: Seq<char>, accept: Seq<(Seq<char>, Seq<Option<u32>>)>)
    ensures
        ({
            let f = spec_query_value(query, "f"@);
            let r = spec_thumbnail_format(query, accept);
            let named = f is Some && spec_image_format_from_name(f->0) is Some;
            &&& named ==> r == spec_image_format_from_name(f->0)->0
            &&& (!named && best_supported(accept, thumbnail_mime_types()).0 is None) ==> r == ImageFormatKind::Jpeg
        }),
{
}

/// Chooses the format of a thumbnail from the request's query and the entries
/// of its `Accept` header (none when it has no such header).
pub fn thumbnail_format(query: &str, accept: &[RankedAcceptEntry]) -> (r: ImageFormatKind)
    ensures
        r == spec_thumbnail_format(query@, ranked_views(accept@)),
{
    proof {
        reveal_strlit("f");
        reveal_strlit("image/jpeg");
        reveal_strlit("image/jpg");
        reveal_strlit("image/webp");
        reveal_strlit("image/png");
    }
    if let Some(f) = query_value(query, "f") {
        if let Ok(k) = convert_to_image_format(f) {
            return k;
        }
    }
    let supported: [&'static str; 4] = ["image/jpeg", "image/jpg", "image/webp", "image/png"];
    let s = supported.as_slice();
    assert(str_views(s@) =~= thumbnail_mime_types());
    let ghost named = spec_query_value(query@, "f"@);
    assert(named is None || spec_image_format_from_name(named->0) is None);
    match get_best_mime_type_from_accept_header(accept, s) {
        Some(m) => {
            let ghost i = best_supported(ranked_views(accept@), str_views(s@)).0->0;
            proof {
                law_best_type_is_preferred(ranked_views(accept@), str_views(s@));
                assert(str_views(s@)[i] == s@[i]@);
            }
            assert(m@ == thumbnail_mime_types()[i]);
            match image_format_from_mime_type(m) {
                Some(k) => k,
                None => ImageFormatKind::Jpeg,
            }
        },
        None => ImageFormatKind::Jpeg,
    }
}

/// Answers a thumbnail request once the thumbnail has been asked for: not found
/// when there is none, and otherwise as `thumbnail_response` does.
pub fn thumbnail_result(
    method: RequestMethod,
    thumbnail: Option<Vec<u8>>,
    content_type: &str,
    allow: String,
) -> (r: Result<ProtocolResponse, ProtocolError>)
    ensures
        thumbnail is None ==> r matches Err(ProtocolError::NotFound),
        thumbnail matches Some(t) ==> match method {
            RequestMethod::Get => r matches Ok(ProtocolResponse { body, content_type: ct, content_len })
                && body@ == t@ && ct@ == content_type@ && content_len == t@.len(),
            RequestMethod::Head => r matches Ok(ProtocolResponse { body, content_type: ct, content_len })
                && body@.len() == 0 && ct@ == content_type@ && content_len == t@.len(),
            RequestMethod::Other => r matches Err(ProtocolError::MethodNotAllowed { allow: a }) && a == allow,
        },
{
    match thumbnail {
        None => Err(ProtocolError::NotFound),
        Some(t) => thumbnail_response(method, t, content_type, allow),
    }
}

} // verus!
