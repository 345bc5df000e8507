//! Conversions of command arguments: data URLs and Base64, resource ids,
//! image format names, MIME types and audio destinations.

use vstd::prelude::*;
use vstd::string::*;
use vstd::utf8::encode_utf8;
use base64::engine::Engine;
use crate::error::Error;
use crate::dirs::{PublicAudioDir, PublicDir};
use crate::picker::PublicAudioOrGeneralPurposeDir;
use crate::text::{has_prefix, starts_with, str_eq, strip_all_prefix, trim_start_matches};

verus! {

/// What standard Base64 (with canonical padding) makes of `input`: the bytes it
/// decodes to, or, when `input` is not valid standard Base64, the text with which
/// the decoder describes the fault.
pub uninterp spec fn base64_standard_decode(input: Seq<u8>) -> Result<Seq<u8>, Seq<char>>;

/// `base64::engine::general_purpose::STANDARD.decode`: succeeds exactly when the
/// input is valid standard Base64 and gives the decoded bytes; a failure is given
/// as the text of the crate's `DecodeError`. Both depend on the input alone.
#[verifier::external_body]
fn base64_decode_standard(input: &[u8]) -> (r: Result<Vec<u8>, String>)
    ensures
        r is Ok <==> base64_standard_decode(input@) is Ok,
        r matches Ok(v) ==> (base64_standard_decode(input@) matches Ok(d) && d == v@),
        r matches Err(e) ==> (base64_standard_decode(input@) matches Err(t) && t == e@),
{
    base64::engine::general_purpose::STANDARD.decode(input).map_err(|e| e.to_string())
}

/// The index of the first occurrence of `c` in `s`, if any.
pub open spec fn first_index_of(s: Seq<char>, c: char) -> Option<int> {
    if exists|i: int| 0 <= i < s.len() && s[i] == c {
        Some(choose|i: int| 0 <= i < s.len() && s[i] == c && forall|j: int| 0 <= j < i ==> s[j] != c)
    } else {
        None
    }
}

/// The index of the last occurrence of `c` in `s`, if any.
pub open spec fn last_index_of(s: Seq<char>, c: char) -> Option<int> {
    if exists|i: int| 0 <= i < s.len() && s[i] == c {
        Some(choose|i: int| 0 <= i < s.len() && s[i] == c && forall|j: int| i < j < s.len() ==> s[j] != c)
    } else {
        None
    }
}

/// Finds the first occurrence of `c`.
pub fn find_char(s: &str, c: char) -> (r: Option<usize>)
    ensures
        match r {
            Some(i) => i < s@.len() && s@[i as int] == c && forall|j: int| 0 <= j < i ==> s@[j] != c,
            None => forall|j: int| 0 <= j < s@.len() ==> s@[j] != c,
        },
{
    let n = s.unicode_len();
    let mut i: usize = 0;
    while i < n
        invariant
            n == s@.len(),
            i <= n,
            forall|j: int| 0 <= j < i ==> s@[j] != c,
        decreases n - i,
    {
        if s.get_char(i) == c {
            return Some(i);
        }
        i = i + 1;
    }
    None
}

/// Finds the last occurrence of `c`.
pub fn rfind_char(s: &str, c: char) -> (r: Option<usize>)
    ensures
        match r {
            Some(i) => i < s@.len() && s@[i as int] == c && forall|j: int| i < j < s@.len() ==> s@[j] != c,
            None => forall|j: int| 0 <= j < s@.len() ==> s@[j] != c,
        },
{
    let n = s.unicode_len();
    let mut i: usize = n;
    while i > 0
        invariant
            n == s@.len(),
            i <= n,
            forall|j: int| i <= j < n ==> s@[j] != c,
        decreases i,
    {
        if s.get_char(i - 1) == c {
            return Some(i - 1);
        }
        i = i - 1;
    }
    None
}

proof fn lemma_first_index(s: Seq<char>, c: char, i: int)
    requires
        0 <= i < s.len(),
        s[i] == c,
        forall|j: int| 0 <= j < i ==> s[j] != c,
    ensures
        first_index_of(s, c) == Some(i),
{
    let k = first_index_of(s, c)->0;
    if k < i {
        assert(s[k] != c);
    }
    if k > i {
        assert(s[i] != c);
    }
}

proof fn lemma_last_index(s: Seq<char>, c: char, i: int)
    requires
        0 <= i < s.len(),
        s[i] == c,
        forall|j: int| i < j < s.len() ==> s[j] != c,
    ensures
        last_index_of(s, c) == Some(i),
{
    let k = last_index_of(s, c)->0;
    if k < i {
        assert(s[i] != c);
    }
    if k > i {
        assert(s[k] != c);
    }
}

/// The Base64 text of a command argument: everything after the first comma of a
/// `data:` URL, or the whole argument otherwise; `None` for a `data:` URL without a comma.
pub open spec fn base64_payload(data: Seq<char>) -> Option<Seq<char>> {
    if has_prefix(data, "data:"@) {
        match first_index_of(data, ',') {
            Some(i) => Some(data.subrange(i + 1, data.len() as int)),
            None => None,
        }
    } else {
        Some(data)
    }
}

/// Decodes a data URL or a Base64 string into bytes.
pub fn convert_to_bytes(data: &str) -> (r: Result<Vec<u8>, Error>)
    ensures
        base64_payload(data@) is None ==> (r matches Err(e) && e@ == "invalid data URL: missing comma"@),
        base64_payload(data@) matches Some(p) ==> {
            &&& (r is Ok <==> base64_standard_decode(encode_utf8(p)) is Ok)
            &&& (r matches Ok(v) ==> (base64_standard_decode(encode_utf8(p)) matches Ok(d) && d == v@))
            &&& (r matches Err(e) ==> (base64_standard_decode(encode_utf8(p)) matches Err(t) && t == e@))
        },
{
    let n = data.unicode_len();
    let b64: &str = if starts_with(data, "data:") {
        match find_char(data, ',') {
            Some(i) => {
                proof { lemma_first_index(data@, ',', i as int); }
                data.substring_char(i + 1, n)
            },
            None => {
                return Err(Error::with("invalid data URL: missing comma"));
            },
        }
    } else {
        data
    };
    match base64_decode_standard(b64.as_bytes()) {
        Ok(v) => Ok(v),
        Err(msg) => Err(Error::from_message(msg)),
    }
}

/// The big-endian bytes of a resource id.
pub fn convert_rid_to_bytes(rid: u32) -> (r: Vec<u8>)
    ensures
        r@ == seq![(rid / 16777216) as u8, ((rid / 65536) % 256) as u8, ((rid / 256) % 256) as u8, (rid % 256) as u8],
{
    let mut v: Vec<u8> = Vec::new();
    v.push((rid / 16777216) as u8);
    v.push(((rid / 65536) % 256) as u8);
    v.push(((rid / 256) % 256) as u8);
    v.push((rid % 256) as u8);
    v
}

/// A data URL that carries Base64 `data` of the given MIME type.
pub fn build_data_url(mime_type: &str, data: &str) -> (r: String)
    ensures
        r@ == "data:"@ + mime_type@ + ";base64,"@ + data@,
{
    String::from_str("data:").concat(mime_type).concat(";base64,").concat(data)
}

/// The ASCII lower-case form of a character.
pub open spec fn ascii_lower(c: char) -> char {
    if 'A' <= c <= 'Z' { ((c as u32) + 32) as char } else { c }
}

/// The ASCII lower-case form of a string.
pub open spec fn ascii_lowercase(s: Seq<char>) -> Seq<char> {
    s.map_values(|c: char| ascii_lower(c))
}

/// The ASCII lower-case form of a character.
pub fn ascii_lower_char(c: char) -> (r: char)
    ensures
        r == ascii_lower(c),
{
    if 'A' <= c && c <= 'Z' {
        let b = (c as u8) + 32;
        b as char
    } else {
        c
    }
}

/// Whether `s` in ASCII lower case is `lower`.
pub fn eq_ascii_lowercase(s: &str, lower: &str) -> (r: bool)
    ensures
        r == (ascii_lowercase(s@) == lower@),
{
    let n = s.unicode_len();
    if n != lower.unicode_len() {
        assert(ascii_lowercase(s@).len() != lower@.len());
        return false;
    }
    let mut i: usize = 0;
    while i < n
        invariant
            n == s@.len(),
            n == lower@.len(),
            i <= n,
            forall|j: int| 0 <= j < i ==> ascii_lower(s@[j]) == lower@[j],
        decreases n - i,
    {
        if ascii_lower_char(s.get_char(i)) != lower.get_char(i) {
            assert(ascii_lowercase(s@)[i as int] != lower@[i as int]);
            return false;
        }
        i = i + 1;
    }
    assert(ascii_lowercase(s@) =~= lower@);
    true
}

/// The image formats that can be named without a quality setting.
#[derive(Debug, Clone, Copy, PartialEq, Eq)]
pub enum ImageFormatKind {
    Png,
    Jpeg,
    Webp,
}

/// The format that a name stands for, case-insensitively.
pub open spec fn spec_image_format_from_name(name: Seq<char>) -> Option<ImageFormatKind> {
    let l = ascii_lowercase(name);
    if l == "jpeg"@ || l == "jpg"@ {
        Some(ImageFormatKind::Jpeg)
    } else if l == "webp"@ {
        Some(ImageFormatKind::Webp)
    } else if l == "png"@ {
        Some(ImageFormatKind::Png)
    } else {
        None
    }
}

/// The image format named by `format` (`jpeg`, `jpg`, `webp` or `png`, in any case).
pub fn convert_to_image_format(format: &str) -> (r: Result<ImageFormatKind, Error>)
    ensures
        match spec_image_format_from_name(format@) {
            Some(k) => r == Ok::<ImageFormatKind, Error>(k),
            None => r matches Err(e) && e@ == "unexpected image format: "@ + format@,
        },
{
    if eq_ascii_lowercase(format, "jpeg") || eq_ascii_lowercase(format, "jpg") {
        Ok(ImageFormatKind::Jpeg)
    } else if eq_ascii_lowercase(format, "webp") {
        Ok(ImageFormatKind::Webp)
    } else if eq_ascii_lowercase(format, "png") {
        Ok(ImageFormatKind::Png)
    } else {
        Err(Error::from_message(String::from_str("unexpected image format: ").concat(format)))
    }
}

/// The MIME type of each image format.
pub open spec fn spec_image_mime_type(k: ImageFormatKind) -> Seq<char> {
    match k {
        ImageFormatKind::Png => "image/png"@,
        ImageFormatKind::Jpeg => "image/jpeg"@,
        ImageFormatKind::Webp => "image/webp"@,
    }
}

/// The image format of a MIME type, if it names one.
pub open spec fn spec_image_format_from_mime_type(mime_type: Seq<char>) -> Option<ImageFormatKind> {
    if mime_type == "image/jpeg"@ || mime_type == "image/jpg"@ {
        Some(ImageFormatKind::Jpeg)
    } else if mime_type == "image/webp"@ {
        Some(ImageFormatKind::Webp)
    } else if mime_type == "image/png"@ {
        Some(ImageFormatKind::Png)
    } else {
        None
    }
}

impl ImageFormatKind {
    /// The MIME type of images in this format.
    pub fn mime_type(&self) -> (r: &'static str)
        ensures
            r@ == spec_image_mime_type(*self),
    {
        match self {
            ImageFormatKind::Png => "image/png",
            ImageFormatKind::Jpeg => "image/jpeg",
            ImageFormatKind::Webp => "image/webp",
        }
    }
}

/// The image format that a MIME type names (`image/jpeg`, `image/jpg`, `image/webp`
/// or `image/png`).
pub fn image_format_from_mime_type(mime_type: &str) -> (r: Option<ImageFormatKind>)
    ensures
        r == spec_image_format_from_mime_type(mime_type@),
{
    if str_eq(mime_type, "image/jpeg") || str_eq(mime_type, "image/jpg") {
        Some(ImageFormatKind::Jpeg)
    } else if str_eq(mime_type, "image/webp") {
        Some(ImageFormatKind::Webp)
    } else if str_eq(mime_type, "image/png") {
        Some(ImageFormatKind::Png)
    } else {
        None
    }
}

/// The MIME type of an image format names that format again.
pub proof fn law_image_mime_type_roundtrip(k: ImageFormatKind)
    ensures
        spec_image_format_from_mime_type(spec_image_mime_type(k)) == Some(k),
{
    reveal_strlit("image/png");
    reveal_strlit("image/jpeg");
    reveal_strlit("image/jpg");
    reveal_strlit("image/webp");
    match k {
        ImageFormatKind::Png => {
            assert("image/png"@[6] != "image/jpeg"@[6]);
            assert("image/png"@[6] != "image/jpg"@[6]);
            assert("image/png"@[6] != "image/webp"@[6]);
        },
        ImageFormatKind::Jpeg => {},
        ImageFormatKind::Webp => {
            assert("image/webp"@[6] != "image/jpeg"@[6]);
            assert("image/webp"@[6] != "image/jpg"@[6]);
        },
    }
}

/// Refuses a MIME type that does not start with `image/`.
pub fn require_image_mime_type(mime_type: &str) -> (r: Result<(), Error>)
    ensures
        r is Ok <==> has_prefix(mime_type@, "image/"@),
        r matches Err(e) ==> e@ == "invalid image type: "@ + mime_type@,
{
    if starts_with(mime_type, "image/") {
        Ok(())
    } else {
        Err(Error::from_message(String::from_str("invalid image type: ").concat(mime_type)))
    }
}

/// Refuses a MIME type that does not start with `video/`.
pub fn require_video_mime_type(mime_type: &str) -> (r: Result<(), Error>)
    ensures
        r is Ok <==> has_prefix(mime_type@, "video/"@),
        r matches Err(e) ==> e@ == "invalid video type: "@ + mime_type@,
{
    if starts_with(mime_type, "video/") {
        Ok(())
    } else {
        Err(Error::from_message(String::from_str("invalid video type: ").concat(mime_type)))
    }
}

/// Refuses a MIME type that does not start with `audio/`.
pub fn require_audio_mime_type(mime_type: &str) -> (r: Result<(), Error>)
    ensures
        r is Ok <==> has_prefix(mime_type@, "audio/"@),
        r matches Err(e) ==> e@ == "invalid audio type: "@ + mime_type@,
{
    if starts_with(mime_type, "audio/") {
        Ok(())
    } else {
        Err(Error::from_message(String::from_str("invalid audio type: ").concat(mime_type)))
    }
}

/// The file name of a path: what follows its last `/`, or the whole path.
pub open spec fn file_name_of(path: Seq<char>) -> Seq<char> {
    match last_index_of(path, '/') {
        Some(i) => path.subrange(i + 1, path.len() as int),
        None => path,
    }
}

/// The extension used to look up a MIME type: what follows the last `.` of
/// the file name, if it has one.
pub open spec fn spec_extension(path: Seq<char>) -> Option<Seq<char>> {
    let name = file_name_of(path);
    match last_index_of(name, '.') {
        Some(i) => Some(name.subrange(i + 1, name.len() as int)),
        None => None,
    }
}

/// The extension of the file name in `path`, if it has one.
pub fn extension_for_mime_lookup(path: &str) -> (r: Option<&str>)
    ensures
        match spec_extension(path@) {
            Some(e) => r matches Some(x) && x@ == e,
            None => r is None,
        },
{
    let n = path.unicode_len();
    let name: &str = match rfind_char(path, '/') {
        Some(i) => {
            proof { lemma_last_index(path@, '/', i as int); }
            path.substring_char(i + 1, n)
        },
        None => path,
    };
    let m = name.unicode_len();
    match rfind_char(name, '.') {
        Some(i) => {
            proof { lemma_last_index(name@, '.', i as int); }
            Some(name.substring_char(i + 1, m))
        },
        None => None,
    }
}

/// The MIME type used when none is given and none is known for the extension.
pub fn default_mime_type() -> (r: &'static str)
    ensures
        r@ == "application/octet-stream"@,
{
    "application/octet-stream"
}

/// The MIME type of a new file: the one given, else the one known for the
/// extension of its name, else the default.
pub fn choose_mime_type(given: Option<String>, for_extension: Option<String>) -> (r: String)
    ensures
        r@ == match given {
            Some(g) => g@,
            None => match for_extension {
                Some(e) => e@,
                None => "application/octet-stream"@,
            },
        },
{
    match given {
        Some(g) => g,
        None => match for_extension {
            Some(e) => e,
            None => String::from_str(default_mime_type()),
        },
    }
}

/// Where a new public audio file goes: Audiobooks and Recordings fall back to
/// a subdirectory of Music on devices that lack them; the relative path loses
/// its leading slashes.
pub open spec fn spec_audio_destination(
    base: PublicAudioOrGeneralPurposeDir,
    relative_path: Seq<char>,
    audiobooks_available: bool,
    recordings_available: bool,
) -> (PublicDir, Seq<char>) {
    let rel = strip_all_prefix(relative_path, "/"@);
    match base {
        PublicAudioOrGeneralPurposeDir::Audio(PublicAudioDir::Audiobooks) => if audiobooks_available {
            (PublicDir::Audio(PublicAudioDir::Audiobooks), rel)
        } else {
            (PublicDir::Audio(PublicAudioDir::Music), "Audiobooks/"@ + rel)
        },
        PublicAudioOrGeneralPurposeDir::Audio(PublicAudioDir::Recordings) => if recordings_available {
            (PublicDir::Audio(PublicAudioDir::Recordings), rel)
        } else {
            (PublicDir::Audio(PublicAudioDir::Music), "Recordings/"@ + rel)
        },
        PublicAudioOrGeneralPurposeDir::Audio(d) => (PublicDir::Audio(d), rel),
        PublicAudioOrGeneralPurposeDir::GeneralPurpose(d) => (PublicDir::GeneralPurpose(d), rel),
    }
}

/// The directory and relative path that a new public audio file is created at.
pub fn audio_destination(
    base: PublicAudioOrGeneralPurposeDir,
    relative_path: &str,
    audiobooks_available: bool,
    recordings_available: bool,
) -> (r: (PublicDir, String))
    ensures
        (r.0, r.1@) == spec_audio_destination(base, relative_path@, audiobooks_available, recordings_available),
{
    proof { reveal_strlit("/"); }
    let rel = trim_start_matches(relative_path, "/");
    match base {
        PublicAudioOrGeneralPurposeDir::Audio(PublicAudioDir::Audiobooks) => {
            if audiobooks_available {
                (PublicDir::Audio(PublicAudioDir::Audiobooks), String::from_str(rel))
            } else {
                (PublicDir::Audio(PublicAudioDir::Music), String::from_str("Audiobooks/").concat(rel))
            }
        },
        PublicAudioOrGeneralPurposeDir::Audio(PublicAudioDir::Recordings) => {
            if recordings_available {
                (PublicDir::Audio(PublicAudioDir::Recordings), String::from_str(rel))
            } else {
                (PublicDir::Audio(PublicAudioDir::Music), String::from_str("Recordings/").concat(rel))
            }
        },
        PublicAudioOrGeneralPurposeDir::Audio(d) => (PublicDir::Audio(d), String::from_str(rel)),
        PublicAudioOrGeneralPurposeDir::GeneralPurpose(d) => (PublicDir::GeneralPurpose(d), String::from_str(rel)),
    }
}


/// The Base64 text that `convert_to_bytes` reads from a data URL made by
/// `build_data_url` is the data it was made with, when the MIME type holds no comma.
pub proof fn law_data_url_payload_roundtrip(mime_type: Seq<char>, data: Seq<char>)
    requires
        !mime_type.contains(','),
    ensures
        base64_payload("data:"@ + mime_type + ";base64,"@ + data) == Some(data),
{
    reveal_strlit("data:");
    reveal_strlit(";base64,");
    let url = "data:"@ + mime_type + ";base64,"@ + data;
    let c: int = 5 + mime_type.len() as int + 7;
    assert(url.subrange(0, 5) =~= "data:"@);
    assert(has_prefix(url, "data:"@));
    assert(url[c] == ',');
    assert forall|j: int| 0 <= j < c implies url[j] != ',' by {
        if 5 <= j < 5 + mime_type.len() {
            assert(url[j] == mime_type[j - 5]);
        }
    }
    lemma_first_index(url, ',', c);
    assert(url.subrange(c + 1, url.len() as int) =~= data);
}


/// A new audio file goes to the directory asked for, at the relative path given
/// without its leading slashes, whenever that directory exists on the device;
/// only a missing Audiobooks or Recordings directory is replaced, by a
/// subdirectory of that name under Music.
pub proof fn law_audio_destination_keeps_available_dir(
    base: PublicAudioOrGeneralPurposeDir,
    relative_path: Seq<char>,
    audiobooks_available: bool,
    recordings_available: bool,
)
    ensures
        ({
            let (dir, path) = spec_audio_destination(base, relative_path, audiobooks_available, recordings_available);
            let rel = strip_all_prefix(relative_path, "/"@);
            let asked = match base {
                PublicAudioOrGeneralPurposeDir::Audio(d) => PublicDir::Audio(d),
                PublicAudioOrGeneralPurposeDir::GeneralPurpose(d) => PublicDir::GeneralPurpose(d),
            };
            let missing_audiobooks = base == PublicAudioOrGeneralPurposeDir::Audio(PublicAudioDir::Audiobooks)
                && !audiobooks_available;
            let missing_recordings = base == PublicAudioOrGeneralPurposeDir::Audio(PublicAudioDir::Recordings)
                && !recordings_available;
            &&& (!missing_audiobooks && !missing_recordings) ==> dir == asked && path == rel
            &&& missing_audiobooks ==> dir == PublicDir::Audio(PublicAudioDir::Music) && path == "Audiobooks/"@ + rel
            &&& missing_recordings ==> dir == PublicDir::Audio(PublicAudioDir::Music) && path == "Recordings/"@ + rel
        }),
{
}

} // verus!
