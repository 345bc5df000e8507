//! Relative paths under a directory and the URIs they resolve to.

use vstd::prelude::*;
use vstd::string::*;
use vstd::utf8::encode_utf8;
use crate::error::Error;
use crate::models::{FileUri, file_scheme, spec_as_path, law_from_path_as_path_roundtrip};
use crate::uri_encoding::{encode_android_uri_component, encode_bytes};
use crate::utf8::ascii_chars;
use crate::text::{has_prefix, strip_all_prefix, trim_start_matches};

verus! {

/// The path starts at the root directory.
pub open spec fn is_rooted(s: Seq<char>) -> bool {
    s.len() > 0 && s[0] == '/'
}

/// The first component of a relative path is the current directory `.`.
pub open spec fn starts_with_cur_dir(s: Seq<char>) -> bool {
    &&& s.len() > 0
    &&& s[0] == '.'
    &&& (s.len() == 1 || s[1] == '/')
}

/// A component `..` stands at character index `i`.
pub open spec fn parent_segment_at(s: Seq<char>, i: int) -> bool {
    &&& 0 <= i
    &&& i + 2 <= s.len()
    &&& s[i] == '.'
    &&& s[i + 1] == '.'
    &&& (i == 0 || s[i - 1] == '/')
    &&& (i + 2 == s.len() || s[i + 2] == '/')
}

/// Some component of the path is the parent directory `..`.
pub open spec fn has_parent_segment(s: Seq<char>) -> bool {
    exists|i: int| parent_segment_at(s, i)
}

/// Why a path is refused as a relative path, if it is: its components are
/// checked in order, and on Unix only a leading `.` is a current-directory component.
pub open spec fn relative_path_error(s: Seq<char>) -> Option<Seq<char>> {
    if is_rooted(s) {
        Some("must not start with root directory"@)
    } else if starts_with_cur_dir(s) {
        Some("must not contain current directory, i.e., '.'"@)
    } else if has_parent_segment(s) {
        Some("must not contain parent directory, i.e., '..'"@)
    } else {
        None
    }
}

/// Checks that a path is relative and has neither `.` nor `..` components;
/// gives the path back unchanged when it is.
pub fn validate_relative_path(path: &str) -> (r: Result<&str, Error>)
    ensures
        r matches Ok(p) ==> p@ == path@ && relative_path_error(path@) is None,
        r matches Err(e) ==> relative_path_error(path@) == Some(e@),
{
    let n = path.unicode_len();
    if n > 0 && path.get_char(0) == '/' {
        return Err(Error::with("must not start with root directory"));
    }
    if n > 0 && path.get_char(0) == '.' && (n == 1 || path.get_char(1) == '/') {
        return Err(Error::with("must not contain current directory, i.e., '.'"));
    }
    let mut i: usize = 0;
    while i < n
        invariant
            n == path@.len(),
            i <= n,
            !is_rooted(path@),
            !starts_with_cur_dir(path@),
            forall|j: int| 0 <= j < i ==> !parent_segment_at(path@, j),
        decreases n - i,
    {
        if n - i >= 2 && path.get_char(i) == '.' && path.get_char(i + 1) == '.'
            && (i == 0 || path.get_char(i - 1) == '/') && (i + 2 == n || path.get_char(i + 2) == '/')
        {
            assert(parent_segment_at(path@, i as int));
            return Err(Error::with("must not contain parent directory, i.e., '..'"));
        }
        i = i + 1;
    }
    assert(!has_parent_segment(path@));
    Ok(path)
}

/// A path is accepted as relative exactly when it does not start at the root,
/// does not start with a `.` component, and has no `..` component anywhere; an
/// accepted path therefore cannot climb out of the directory it is joined to.
pub proof fn law_relative_path_stays_inside(s: Seq<char>)
    ensures
        relative_path_error(s) is None <==> {
            &&& !(s.len() > 0 && s[0] == '/')
            &&& !(s.len() > 0 && s[0] == '.' && (s.len() == 1 || s[1] == '/'))
            &&& forall|i: int| 0 <= i && i + 2 <= s.len() && #[trigger] s[i] == '.' && s[i + 1] == '.'
                ==> !((i == 0 || s[i - 1] == '/') && (i + 2 == s.len() || s[i + 2] == '/'))
        },
{
    if has_parent_segment(s) {
        let i = choose|i: int| parent_segment_at(s, i);
        assert(0 <= i && i + 2 <= s.len() && s[i] == '.' && s[i + 1] == '.');
    }
    assert forall|i: int| 0 <= i && i + 2 <= s.len() && #[trigger] s[i] == '.' && s[i + 1] == '.'
        && (i == 0 || s[i - 1] == '/') && (i + 2 == s.len() || s[i + 2] == '/') implies has_parent_segment(s) by {
        assert(parent_segment_at(s, i));
    }
}

/// A directory path with a relative path appended the way `Path::join` does it:
/// a separator is put between them unless the directory is empty or already ends with one.
pub open spec fn join_path(dir: Seq<char>, rel: Seq<char>) -> Seq<char> {
    if dir.len() > 0 && dir.last() != '/' {
        dir + seq!['/'] + rel
    } else {
        dir + rel
    }
}

/// Appends a relative path to a directory path.
pub fn join_path_exec(dir: &str, rel: &str) -> (r: String)
    ensures
        r@ == join_path(dir@, rel@),
{
    let n = dir.unicode_len();
    let s = String::from_str(dir);
    proof { reveal_strlit("/"); }
    if n > 0 && dir.get_char(n - 1) != '/' {
        let s = s.concat("/");
        assert("/"@ =~= seq!['/']);
        s.concat(rel)
    } else {
        s.concat(rel)
    }
}

/// The encoded form of a relative path inside a content URI.
pub open spec fn encoded_component(rel: Seq<char>) -> Seq<char> {
    ascii_chars(encode_bytes(encode_utf8(rel)))
}

/// What `resolve_entry_uri_unvalidated` gives for a valid relative path: the
/// directory itself for an empty path, the joined path for a `file://`
/// directory, and otherwise the content URI extended by `%2F` and the
/// encoded path.
pub open spec fn resolved_entry_uri_ok(dir: FileUri, rel: Seq<char>, u: FileUri) -> bool {
    if rel.len() == 0 {
        u == dir
    } else if spec_as_path(dir.uri@) is Some {
        &&& u.uri@ == file_scheme() + join_path(spec_as_path(dir.uri@)->0, rel)
        &&& u.document_top_tree_uri is None
    } else {
        &&& u.uri@ == dir.uri@ + "%2F"@ + encoded_component(rel)
        &&& u.document_top_tree_uri == dir.document_top_tree_uri
    }
}

/// Resolves the URI of the entry at `relative_path` under the directory `dir`,
/// without checking that the entry exists.
pub fn resolve_entry_uri_unvalidated(dir: &FileUri, relative_path: &str) -> (r: Result<FileUri, Error>)
    ensures
        r matches Err(e) ==> relative_path_error(relative_path@) == Some(e@),
        r matches Ok(u) ==> relative_path_error(relative_path@) is None
            && resolved_entry_uri_ok(*dir, relative_path@, u),
        relative_path_error(relative_path@) is None ==> r is Ok,
{
    let rel = match validate_relative_path(relative_path) {
        Ok(p) => p,
        Err(e) => return Err(e),
    };
    if rel.unicode_len() == 0 {
        return Ok(dir.clone());
    }
    if let Some(path) = dir.as_path() {
        let joined = join_path_exec(path, rel);
        return Ok(FileUri::from_path(joined.as_str()));
    }
    let encoded = encode_android_uri_component(rel);
    let uri = dir.uri.clone().concat("%2F").concat(encoded.as_str());
    Ok(FileUri { uri, document_top_tree_uri: crate::models::clone_opt_string(&dir.document_top_tree_uri) })
}


/// The local path of an entry resolved under a local directory is the
/// directory's path joined with the relative path, unless that joined path
/// itself begins with `file://`.
pub proof fn law_resolved_local_entry_path(dir: FileUri, rel: Seq<char>, u: FileUri)
    requires
        resolved_entry_uri_ok(dir, rel, u),
        rel.len() > 0,
        spec_as_path(dir.uri@) is Some,
        !has_prefix(join_path(spec_as_path(dir.uri@)->0, rel), file_scheme()),
    ensures
        spec_as_path(u.uri@) == Some(join_path(spec_as_path(dir.uri@)->0, rel)),
{
    law_from_path_as_path_roundtrip(join_path(spec_as_path(dir.uri@)->0, rel));
}

/// A relative path without its leading slashes.
pub fn trim_leading_slashes(relative_path: &str) -> (r: &str)
    ensures
        r@ == strip_all_prefix(relative_path@, "/"@),
{
    proof { reveal_strlit("/"); }
    trim_start_matches(relative_path, "/")
}

} // verus!
