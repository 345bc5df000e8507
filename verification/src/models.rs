//! Data types that describe files, directories, volumes and access modes.

use vstd::prelude::*;
use vstd::string::*;
use crate::error::Error;
use crate::text::{has_prefix, strip_all_prefix, starts_with, str_eq, trim_start_matches};

verus! {

/// The scheme prefix of a URI that names a path on the local file system.
pub open spec fn file_scheme() -> Seq<char> {
    seq!['f', 'i', 'l', 'e', ':', '/', '/']
}

/// The scheme prefix of a URI served by a content provider.
pub open spec fn content_scheme() -> Seq<char> {
    seq!['c', 'o', 'n', 't', 'e', 'n', 't', ':', '/', '/']
}

/// The literal `"file://"` holds the file scheme.
pub proof fn lemma_file_scheme_literal()
    ensures
        "file://"@ == file_scheme(),
{
    reveal_strlit("file://");
    assert("file://"@ =~= file_scheme());
}

/// The literal `"content://"` holds the content scheme.
pub proof fn lemma_content_scheme_literal()
    ensures
        "content://"@ == content_scheme(),
{
    reveal_strlit("content://");
    assert("content://"@ =~= content_scheme());
}

/// Path to represent a file or directory: a `file://` or `content://` URI.
///
/// Only entries under a directory obtained from the directory picker
/// carry `document_top_tree_uri`.
#[derive(Debug, PartialEq, Eq, Hash)]
pub struct FileUri {
    /// `file://` or `content://` URI of the file or directory.
    pub uri: String,

    /// Only files/directories under the directory obtained by the directory picker own this.
    pub document_top_tree_uri: Option<String>,
}

/// Copies an optional string.
pub fn clone_opt_string(s: &Option<String>) -> (r: Option<String>)
    ensures
        r == *s,
{
    match s {
        Some(v) => Some(v.clone()),
        None => None,
    }
}

impl Clone for FileUri {
    fn clone(&self) -> (r: Self)
        ensures
            r == *self,
    {
        FileUri { uri: self.uri.clone(), document_top_tree_uri: clone_opt_string(&self.document_top_tree_uri) }
    }
}

/// What `FileUri::as_path` gives for a URI.
pub open spec fn spec_as_path(uri: Seq<char>) -> Option<Seq<char>> {
    if has_prefix(uri, file_scheme()) {
        Some(strip_all_prefix(uri, file_scheme()))
    } else {
        None
    }
}

impl FileUri {
    /// Constructs a `file://` URI from the absolute path of a file or directory.
    /// Even if the path is invalid this gives a URI and never fails.
    pub fn from_path(path: &str) -> (r: FileUri)
        ensures
            r.uri@ == file_scheme() + path@,
            r.document_top_tree_uri is None,
    {
        proof { lemma_file_scheme_literal(); }
        FileUri { uri: String::from_str("file://").concat(path), document_top_tree_uri: None }
    }

    /// The local path of a `file://` URI: every leading `file://` is removed.
    /// A URI of another scheme gives `None`.
    pub fn as_path(&self) -> (r: Option<&str>)
        ensures
            r matches Some(p) ==> spec_as_path(self.uri@) == Some(p@),
            r is None ==> spec_as_path(self.uri@) is None,
    {
        proof { lemma_file_scheme_literal(); }
        if starts_with(self.uri.as_str(), "file://") {
            Some(trim_start_matches(self.uri.as_str(), "file://"))
        } else {
            None
        }
    }

    /// Whether this is a `content://` URI.
    pub fn is_content_scheme(&self) -> (r: bool)
        ensures
            r == has_prefix(self.uri@, content_scheme()),
    {
        proof { lemma_content_scheme_literal(); }
        starts_with(self.uri.as_str(), "content://")
    }
}


/// A path that does not itself begin with `file://` is given back unchanged
/// by `as_path` on the URI that `from_path` builds from it.
pub proof fn law_from_path_as_path_roundtrip(path: Seq<char>)
    requires
        !has_prefix(path, file_scheme()),
    ensures
        spec_as_path(file_scheme() + path) == Some(path),
{
    let u = file_scheme() + path;
    assert(u.subrange(0, 7) =~= file_scheme());
    assert(u.subrange(7, u.len() as int) =~= path);
    assert(strip_all_prefix(path, file_scheme()) == path);
}

/// A storage volume: built-in shared storage, an SD card, a USB drive and so on.
#[derive(Debug, Clone, PartialEq, Eq, Hash)]
pub struct StorageVolume {
    /// A user-visible description of the volume.
    pub description: String,
    /// Whether this is the primary storage volume.
    pub is_primary: bool,
    /// Whether this is physically removable.
    pub is_removable: bool,
    /// Whether this is a stable part of the device.
    pub is_stable: bool,
    /// Whether this is backed by the private user data partition.
    pub is_emulated: bool,
    /// Whether this is a readonly storage volume.
    pub is_readonly: bool,
    /// The identity of the volume.
    pub id: StorageVolumeId,
}

/// Identifies a storage volume and the app-specific directories on it.
#[derive(Debug, Clone, PartialEq, Eq, Hash)]
pub struct StorageVolumeId {
    pub top_directory_path: String,
    pub media_store_context: Option<StorageVolumeMediaStoreContext>,
    pub private_data_dir_path: Option<String>,
    pub private_cache_dir_path: Option<String>,
    pub uuid: Option<String>,
}

/// The media-store names and content URIs of a volume.
#[derive(Debug, Clone, PartialEq, Eq, Hash)]
pub struct StorageVolumeMediaStoreContext {
    pub volume_name: String,
    pub images_content_uri: String,
    pub videos_content_uri: String,
    pub audios_content_uri: String,
    pub files_content_uri: String,
}

/// The application specific directory on a volume other than the app's own data partition.
#[derive(Debug, Clone, Copy, PartialEq, Eq, Hash)]
#[non_exhaustive]
pub enum OutsidePrivateDir {
    /// The application specific persistent-data directory.
    Data,
    /// The application specific cache directory.
    Cache,
}

impl StorageVolumeId {
    /// The path recorded for the app-specific directory of the given kind.
    pub open spec fn spec_private_dir_path(&self, dir: OutsidePrivateDir) -> Option<String> {
        match dir {
            OutsidePrivateDir::Data => self.private_data_dir_path,
            OutsidePrivateDir::Cache => self.private_cache_dir_path,
        }
    }

    /// The path of the app-specific directory of the given kind on this volume, if it has one.
    pub fn private_dir_path(&self, dir: OutsidePrivateDir) -> (r: Option<&String>)
        ensures
            r is Some <==> self.spec_private_dir_path(dir) is Some,
            r matches Some(p) ==> self.spec_private_dir_path(dir) == Some(*p),
    {
        match dir {
            OutsidePrivateDir::Data => self.private_data_dir_path.as_ref(),
            OutsidePrivateDir::Cache => self.private_cache_dir_path.as_ref(),
        }
    }
}


#[verifier::external_type_specification]
#[verifier::external_body]
pub struct ExSystemTime(std::time::SystemTime);

/// `Clone::clone` on `std::time::SystemTime`: the type is `Copy`, and its
/// documentation derives `Clone`, so a clone is the same instant.
pub assume_specification[ <std::time::SystemTime as Clone>::clone ](t: &std::time::SystemTime) -> (r: std::time::SystemTime)
    ensures
        r == *t,
;

/// An entry of a directory.
#[derive(Debug, Clone, PartialEq, Eq, Hash)]
pub enum Entry {
    #[non_exhaustive]
    File { uri: FileUri, name: String, last_modified: std::time::SystemTime, len: u64, mime_type: String },
    #[non_exhaustive]
    Dir { uri: FileUri, name: String, last_modified: std::time::SystemTime },
}

/// Whether an entry is a file (with its MIME type) or a directory.
#[derive(Debug, Clone, PartialEq, Eq, Hash)]
pub enum EntryType {
    File { mime_type: String },
    Dir,
}

impl EntryType {
    /// Whether this is a file.
    pub fn is_file(&self) -> (r: bool)
        ensures
            r == self is File,
    {
        match self {
            EntryType::File { .. } => true,
            EntryType::Dir => false,
        }
    }

    /// Whether this is a directory.
    pub fn is_dir(&self) -> (r: bool)
        ensures
            r == self is Dir,
    {
        match self {
            EntryType::File { .. } => false,
            EntryType::Dir => true,
        }
    }

    /// The MIME type of a file; `None` for a directory.
    pub fn mime_type(&self) -> (r: Option<&str>)
        ensures
            match self {
                EntryType::File { mime_type } => r matches Some(m) && m@ == mime_type@,
                EntryType::Dir => r is None,
            },
    {
        match self {
            EntryType::File { mime_type } => Some(mime_type.as_str()),
            EntryType::Dir => None,
        }
    }

    /// The MIME type of a file; `None` for a directory.
    pub fn into_mime_type(self) -> (r: Option<String>)
        ensures
            match self {
                EntryType::File { mime_type } => r == Some(mime_type),
                EntryType::Dir => r is None,
            },
    {
        match self {
            EntryType::File { mime_type } => Some(mime_type),
            EntryType::Dir => None,
        }
    }
}

/// Refuses an entry that is not a file, before renaming it as one; the error
/// names the entry by `uri_text`, the URI as `{:?}` writes it.
pub fn require_file(entry_type: &EntryType, uri_text: &str) -> (r: Result<(), Error>)
    ensures
        r is Ok <==> entry_type is File,
        r matches Err(e) ==> e@ == "not a file: "@ + uri_text@,
{
    if entry_type.is_file() {
        Ok(())
    } else {
        Err(Error::from_message(String::from_str("not a file: ").concat(uri_text)))
    }
}

/// Refuses an entry that is not a directory, before renaming it as one; the
/// error names the entry by `uri_text`, the URI as `{:?}` writes it.
pub fn require_dir(entry_type: &EntryType, uri_text: &str) -> (r: Result<(), Error>)
    ensures
        r is Ok <==> entry_type is Dir,
        r matches Err(e) ==> e@ == "not a directory: "@ + uri_text@,
{
    if entry_type.is_dir() {
        Ok(())
    } else {
        Err(Error::from_message(String::from_str("not a directory: ").concat(uri_text)))
    }
}

/// A file is never a directory and a directory never a file.
pub proof fn law_entry_type_exclusive(t: EntryType)
    ensures
        (t is File) != (t is Dir),
{
}

/// A kind of access that a URI permission grants.
#[derive(Debug, Clone, Copy, PartialEq, Eq, Hash)]
pub enum PersistableAccessMode {
    /// Read access.
    Read,
    /// Write access.
    Write,
    /// Read-write access.
    ReadAndWrite,
}

/// A URI permission that the app holds across restarts.
#[derive(Debug, Clone, PartialEq, Eq, Hash)]
pub enum PersistedUriPermission {
    File { uri: FileUri, can_read: bool, can_write: bool },
    Dir { uri: FileUri, can_read: bool, can_write: bool },
}

impl PersistedUriPermission {
    /// The URI of the entry, whichever kind it is.
    pub open spec fn spec_uri(&self) -> FileUri {
        match self {
            PersistedUriPermission::File { uri, .. } => *uri,
            PersistedUriPermission::Dir { uri, .. } => *uri,
        }
    }

    /// Whether the permission allows reading, whichever kind the entry is.
    pub open spec fn spec_can_read(&self) -> bool {
        match self {
            PersistedUriPermission::File { can_read, .. } => *can_read,
            PersistedUriPermission::Dir { can_read, .. } => *can_read,
        }
    }

    /// Whether the permission allows writing, whichever kind the entry is.
    pub open spec fn spec_can_write(&self) -> bool {
        match self {
            PersistedUriPermission::File { can_write, .. } => *can_write,
            PersistedUriPermission::Dir { can_write, .. } => *can_write,
        }
    }

    /// The URI of the entry.
    pub fn uri(&self) -> (r: &FileUri)
        ensures
            *r == self.spec_uri(),
    {
        match self {
            PersistedUriPermission::File { uri, .. } => uri,
            PersistedUriPermission::Dir { uri, .. } => uri,
        }
    }

    /// The URI of the entry, taking ownership.
    pub fn into_uri(self) -> (r: FileUri)
        ensures
            r == self.spec_uri(),
    {
        match self {
            PersistedUriPermission::File { uri, .. } => uri,
            PersistedUriPermission::Dir { uri, .. } => uri,
        }
    }

    /// Whether reading is permitted.
    pub fn can_read(&self) -> (r: bool)
        ensures
            r == self.spec_can_read(),
    {
        match self {
            PersistedUriPermission::File { can_read, .. } => *can_read,
            PersistedUriPermission::Dir { can_read, .. } => *can_read,
        }
    }

    /// Whether writing is permitted.
    pub fn can_write(&self) -> (r: bool)
        ensures
            r == self.spec_can_write(),
    {
        match self {
            PersistedUriPermission::File { can_write, .. } => *can_write,
            PersistedUriPermission::Dir { can_write, .. } => *can_write,
        }
    }

    /// Whether the entry is a file.
    pub fn is_file(&self) -> (r: bool)
        ensures
            r == self is File,
    {
        match self {
            PersistedUriPermission::File { .. } => true,
            PersistedUriPermission::Dir { .. } => false,
        }
    }

    /// Whether the entry is a directory.
    pub fn is_dir(&self) -> (r: bool)
        ensures
            r == self is Dir,
    {
        match self {
            PersistedUriPermission::File { .. } => false,
            PersistedUriPermission::Dir { .. } => true,
        }
    }
}

/// A width and a height in pixels.
#[derive(Debug, Clone, Copy, PartialEq, Eq, Hash)]
pub struct Size {
    pub width: u32,
    pub height: u32,
}

/// The mode in which a file is opened.
///
/// `Write` may or may not truncate existing contents on Android 10 and later;
/// if the new contents are shorter than the old ones the file may become corrupted.
#[derive(Debug, Clone, Copy, PartialEq, Eq, Hash)]
#[non_exhaustive]
pub enum FileAccessMode {
    /// Read-only. File-descriptor mode "r".
    Read,
    /// Write-only, possibly without truncation. File-descriptor mode "w".
    Write,
    /// Write-only, truncating. File-descriptor mode "wt".
    WriteTruncate,
    /// Write-only, appending. File-descriptor mode "wa".
    WriteAppend,
    /// Read-write. File-descriptor mode "rw".
    ReadWrite,
    /// Read-write, truncating. File-descriptor mode "rwt".
    ReadWriteTruncate,
}

/// The file-descriptor mode string of each access mode.
pub open spec fn spec_mode_name(m: FileAccessMode) -> Seq<char> {
    match m {
        FileAccessMode::Read => seq!['r'],
        FileAccessMode::Write => seq!['w'],
        FileAccessMode::WriteTruncate => seq!['w', 't'],
        FileAccessMode::WriteAppend => seq!['w', 'a'],
        FileAccessMode::ReadWriteTruncate => seq!['r', 'w', 't'],
        FileAccessMode::ReadWrite => seq!['r', 'w'],
    }
}

/// Whether some access mode has the given file-descriptor mode string.
pub open spec fn is_mode_name(s: Seq<char>) -> bool {
    exists|m: FileAccessMode| spec_mode_name(m) == s
}

proof fn lemma_mode_literals()
    ensures
        "r"@ == seq!['r'],
        "w"@ == seq!['w'],
        "wt"@ == seq!['w', 't'],
        "wa"@ == seq!['w', 'a'],
        "rwt"@ == seq!['r', 'w', 't'],
        "rw"@ == seq!['r', 'w'],
{
    reveal_strlit("r");
    reveal_strlit("w");
    reveal_strlit("wt");
    reveal_strlit("wa");
    reveal_strlit("rwt");
    reveal_strlit("rw");
    assert("r"@ =~= seq!['r']);
    assert("w"@ =~= seq!['w']);
    assert("wt"@ =~= seq!['w', 't']);
    assert("wa"@ =~= seq!['w', 'a']);
    assert("rwt"@ =~= seq!['r', 'w', 't']);
    assert("rw"@ =~= seq!['r', 'w']);
}

impl FileAccessMode {
    /// The file-descriptor mode string of this access mode.
    pub fn to_mode(&self) -> (r: &'static str)
        ensures
            r@ == spec_mode_name(*self),
    {
        proof { lemma_mode_literals(); }
        match self {
            FileAccessMode::Read => "r",
            FileAccessMode::Write => "w",
            FileAccessMode::WriteTruncate => "wt",
            FileAccessMode::WriteAppend => "wa",
            FileAccessMode::ReadWriteTruncate => "rwt",
            FileAccessMode::ReadWrite => "rw",
        }
    }

    /// The access mode with the given file-descriptor mode string;
    /// any other string is refused with "Illegal mode: {mode}".
    pub fn from_mode(mode: &str) -> (r: Result<FileAccessMode, Error>)
        ensures
            r matches Ok(m) ==> spec_mode_name(m) == mode@,
            r is Ok <==> is_mode_name(mode@),
            r matches Err(e) ==> e@ == "Illegal mode: "@ + mode@,
    {
        proof { lemma_mode_literals(); }
        let found = if str_eq(mode, "r") {
            Some(FileAccessMode::Read)
        } else if str_eq(mode, "w") {
            Some(FileAccessMode::Write)
        } else if str_eq(mode, "wt") {
            Some(FileAccessMode::WriteTruncate)
        } else if str_eq(mode, "wa") {
            Some(FileAccessMode::WriteAppend)
        } else if str_eq(mode, "rwt") {
            Some(FileAccessMode::ReadWriteTruncate)
        } else if str_eq(mode, "rw") {
            Some(FileAccessMode::ReadWrite)
        } else {
            None
        };
        if let Some(m) = found {
            assert(spec_mode_name(m) == mode@);
            Ok(m)
        } else {
            assert(!is_mode_name(mode@)) by {
                if is_mode_name(mode@) {
                    let m = choose|m: FileAccessMode| spec_mode_name(m) == mode@;
                    match m {
                        FileAccessMode::Read => {},
                        FileAccessMode::Write => {},
                        FileAccessMode::WriteTruncate => {},
                        FileAccessMode::WriteAppend => {},
                        FileAccessMode::ReadWriteTruncate => {},
                        FileAccessMode::ReadWrite => {},
                    }
                }
            }
            Err(Error::from_message(String::from_str("Illegal mode: ").concat(mode)))
        }
    }
}

/// The mode string of an access mode is accepted back, and only that access mode
/// has it: `from_mode(to_mode(m))` gives `m`.
pub proof fn law_mode_name_roundtrip(a: FileAccessMode, b: FileAccessMode)
    ensures
        is_mode_name(spec_mode_name(a)),
        spec_mode_name(a) == spec_mode_name(b) ==> a == b,
{
    if spec_mode_name(a) == spec_mode_name(b) {
        assert(spec_mode_name(a).len() == spec_mode_name(b).len());
        match a {
            FileAccessMode::Read => { assert(spec_mode_name(b)[0] == 'r'); },
            FileAccessMode::Write => { assert(spec_mode_name(b)[0] == 'w'); },
            FileAccessMode::WriteTruncate => { assert(spec_mode_name(b)[1] == 't'); },
            FileAccessMode::WriteAppend => { assert(spec_mode_name(b)[1] == 'a'); },
            FileAccessMode::ReadWriteTruncate => {},
            FileAccessMode::ReadWrite => { assert(spec_mode_name(b)[0] == 'r'); },
        }
    }
}

/// Filters for the visual media picker.
#[derive(Debug, Clone, Copy, PartialEq, Eq, Hash)]
#[non_exhaustive]
pub enum VisualMediaTarget<'a> {
    /// Allow only images to be selected.
    ImageOnly,
    /// Allow only videos to be selected.
    VideoOnly,
    /// Allow only images and videos to be selected.
    ImageAndVideo,
    /// Allow only images or videos of the given single MIME type to be selected.
    ImageOrVideo { mime_type: &'a str },
}

/// The application specific directory.
#[derive(Debug, Clone, Copy, PartialEq, Eq, Hash)]
#[non_exhaustive]
pub enum PrivateDir {
    /// The persistent-data directory, included in Android Auto Backup.
    Data,
    /// The cache directory.
    Cache,
    /// The persistent-data directory excluded from Android Auto Backup.
    NoBackupData,
}

} // verus!
