//! Locations built from volumes, directories and relative paths: picker
//! initial locations, app-specific directories and temporary files.

use vstd::prelude::*;
use vstd::string::*;
use crate::error::Error;
use crate::models::{FileUri, OutsidePrivateDir, PrivateDir, StorageVolume, StorageVolumeId, file_scheme};
use crate::dirs::PublicDir;
use crate::paths::{join_path, join_path_exec, relative_path_error, validate_relative_path, encoded_component};
use crate::uri_encoding::encode_android_uri_component;
use crate::decimal::{decimal_text, u64_to_decimal};

verus! {

/// The document URI of the top directory of a volume in the external-storage
/// provider: the volume's UUID, or `primary`, followed by `%3A`.
pub open spec fn spec_initial_location_top(uuid: Option<Seq<char>>) -> Seq<char> {
    "content://com.android.externalstorage.documents/document/"@
        + (match uuid { Some(u) => u, None => "primary"@ }) + "%3A"@
}

/// The URI of the top directory of a volume, for use as a picker's initial location.
pub fn resolve_initial_location_top(volume_uuid: Option<&str>) -> (r: FileUri)
    ensures
        r.uri@ == spec_initial_location_top(match volume_uuid { Some(u) => Some(u@), None => None }),
        r.document_top_tree_uri is None,
{
    let id: &str = match volume_uuid {
        Some(u) => u,
        None => "primary",
    };
    let uri = String::from_str("content://com.android.externalstorage.documents/document/").concat(id).concat("%3A");
    FileUri { uri, document_top_tree_uri: None }
}

/// The picker initial location of a public directory on a volume: the volume's
/// top URI, the directory name, and for a non-empty relative path `%2F` and the
/// encoded path.
pub fn resolve_initial_location(volume_uuid: Option<&str>, dir_name: &str, relative_path: &str) -> (r: Result<FileUri, Error>)
    ensures
        r matches Err(e) ==> relative_path_error(relative_path@) == Some(e@),
        relative_path_error(relative_path@) is None ==> r is Ok,
        r matches Ok(u) ==> {
            &&& u.document_top_tree_uri is None
            &&& u.uri@ == spec_initial_location_top(match volume_uuid { Some(x) => Some(x@), None => None })
                + dir_name@ + (if relative_path@.len() == 0 { Seq::<char>::empty() } else { "%2F"@ + encoded_component(relative_path@) })
        },
{
    let top = resolve_initial_location_top(volume_uuid);
    let uri = top.uri.concat(dir_name);
    let rel = match validate_relative_path(relative_path) {
        Ok(p) => p,
        Err(e) => return Err(e),
    };
    if rel.unicode_len() == 0 {
        assert(uri@ =~= uri@ + Seq::<char>::empty());
        return Ok(FileUri { uri, document_top_tree_uri: None });
    }
    let encoded = encode_android_uri_component(rel);
    let uri2 = uri.concat("%2F").concat(encoded.as_str());
    Ok(FileUri { uri: uri2, document_top_tree_uri: None })
}

/// The name of the placeholder file created to make the directories of a public path.
pub open spec fn probe_file_name() -> Seq<char> {
    "TMP-01K3CGCKYSAQ1GHF8JW5FGD4RW"@
}

/// The MIME type of the placeholder file, one its directory accepts.
pub open spec fn spec_probe_mime_type(base_dir: PublicDir) -> Seq<char> {
    match base_dir {
        PublicDir::Image(_) => "image/png"@,
        PublicDir::Audio(_) => "audio/mp3"@,
        PublicDir::Video(_) => "video/mp4"@,
        PublicDir::GeneralPurpose(_) => "application/octet-stream"@,
    }
}

/// The relative path and MIME type of the placeholder file whose creation makes
/// every directory of `relative_path` under a public directory.
pub fn public_dir_probe_file(base_dir: PublicDir, relative_path: &str) -> (r: Result<(String, &'static str), Error>)
    ensures
        r matches Err(e) ==> relative_path_error(relative_path@) == Some(e@),
        relative_path_error(relative_path@) is None ==> r is Ok,
        r matches Ok((p, m)) ==> p@ == join_path(relative_path@, probe_file_name()) && m@ == spec_probe_mime_type(base_dir),
{
    let rel = match validate_relative_path(relative_path) {
        Ok(p) => p,
        Err(e) => return Err(e),
    };
    let path = join_path_exec(rel, "TMP-01K3CGCKYSAQ1GHF8JW5FGD4RW");
    let mime: &'static str = match base_dir {
        PublicDir::Image(_) => "image/png",
        PublicDir::Audio(_) => "audio/mp3",
        PublicDir::Video(_) => "video/mp4",
        PublicDir::GeneralPurpose(_) => "application/octet-stream",
    };
    Ok((path, mime))
}

/// Whether a volume has an app-specific data or cache directory.
pub open spec fn has_private_dirs(v: StorageVolume) -> bool {
    v.id.private_data_dir_path is Some || v.id.private_cache_dir_path is Some
}

/// The volumes that have an app-specific directory, in order.
pub open spec fn volumes_with_private_dirs(vs: Seq<StorageVolume>) -> Seq<StorageVolume>
    decreases vs.len(),
{
    if vs.len() == 0 {
        vs
    } else {
        let rest = volumes_with_private_dirs(vs.drop_last());
        if has_private_dirs(vs.last()) { rest.push(vs.last()) } else { rest }
    }
}

/// Keeps the volumes that have an app-specific data or cache directory.
pub fn filter_volumes_for_private_storage(volumes: Vec<StorageVolume>) -> (r: Vec<StorageVolume>)
    ensures
        r@ == volumes_with_private_dirs(volumes@),
{
    let ghost all = volumes@;
    let mut rest = volumes;
    let mut out: Vec<StorageVolume> = Vec::new();
    let mut i: usize = 0;
    let n = rest.len();
    while rest.len() > 0
        invariant
            n == all.len(),
            i + rest@.len() == n,
            rest@ == all.subrange(i as int, n as int),
            out@ == volumes_with_private_dirs(all.take(i as int)),
        decreases rest@.len(),
    {
        let v = rest.remove(0);
        assert(v == all[i as int]);
        assert(all.take(i + 1).drop_last() =~= all.take(i as int));
        if v.id.private_data_dir_path.is_some() || v.id.private_cache_dir_path.is_some() {
            out.push(v);
        }
        assert(rest@ =~= all.subrange(i + 1, n as int));
        i = i + 1;
    }
    assert(all.take(n as int) =~= all);
    out
}

/// The primary volume when it has an app-specific directory.
pub fn primary_volume_for_private_storage(primary: Option<StorageVolume>) -> (r: Option<StorageVolume>)
    ensures
        r == (match primary { Some(v) => if has_private_dirs(v) { Some(v) } else { None }, None => None }),
{
    match primary {
        Some(v) => if v.id.private_data_dir_path.is_some() || v.id.private_cache_dir_path.is_some() { Some(v) } else { None },
        None => None,
    }
}

/// The app-specific directory of a chosen volume, or why there is none.
pub fn outside_private_dir_path_of(volume_id: &StorageVolumeId, dir: OutsidePrivateDir) -> (r: Result<&String, Error>)
    ensures
        r is Ok <==> volume_id.spec_private_dir_path(dir) is Some,
        r matches Ok(p) ==> volume_id.spec_private_dir_path(dir) == Some(*p),
        r matches Err(e) ==> e@ == "The storage volume has no app-speific directory"@,
{
    match volume_id.private_dir_path(dir) {
        Some(p) => Ok(p),
        None => Err(Error::with("The storage volume has no app-speific directory")),
    }
}

/// The app-specific directory on the primary volume, or why there is none.
pub fn outside_private_dir_path_of_primary(primary: Option<StorageVolume>, dir: OutsidePrivateDir) -> (r: Result<String, Error>)
    ensures
        match primary {
            Some(v) => match v.id.spec_private_dir_path(dir) {
                Some(p) => r matches Ok(q) && q@ == p@,
                None => r matches Err(e) && e@ == "Primary storage volume is not currently available"@,
            },
            None => r matches Err(e) && e@ == "Primary storage volume is not currently available"@,
        },
{
    if let Some(v) = primary {
        if let Some(p) = v.id.private_dir_path(dir) {
            return Ok(p.clone());
        }
    }
    Err(Error::with("Primary storage volume is not currently available"))
}

/// The absolute paths of the app's own directories.
pub struct PrivateBaseDirPaths {
    pub data: String,
    pub cache: String,
    pub no_backup_data: String,
}

impl PrivateBaseDirPaths {
    /// The path of the given directory.
    pub fn resolve_path(&self, dir: PrivateDir) -> (r: &String)
        ensures
            *r == (match dir {
                PrivateDir::Data => self.data,
                PrivateDir::Cache => self.cache,
                PrivateDir::NoBackupData => self.no_backup_data,
            }),
    {
        match dir {
            PrivateDir::Data => &self.data,
            PrivateDir::Cache => &self.cache,
            PrivateDir::NoBackupData => &self.no_backup_data,
        }
    }
}

/// The `file://` URI of an entry under one of the app's own directories.
pub fn private_entry_uri(base_dir_path: &str, relative_path: &str) -> (r: Result<FileUri, Error>)
    ensures
        r matches Err(e) ==> relative_path_error(relative_path@) == Some(e@),
        relative_path_error(relative_path@) is None ==> r is Ok,
        r matches Ok(u) ==> u.uri@ == file_scheme() + join_path(base_dir_path@, relative_path@)
            && u.document_top_tree_uri is None,
{
    let rel = match validate_relative_path(relative_path) {
        Ok(p) => p,
        Err(e) => return Err(e),
    };
    let path = join_path_exec(base_dir_path, rel);
    Ok(FileUri::from_path(path.as_str()))
}

/// The name of the directory, under the app's cache directory, that holds temporary files.
pub open spec fn tmp_dir_name() -> Seq<char> {
    "pluginAndroidFs-tmpDir-01K486FKQ2BZSBGFD34RFH9FWJ"@
}

/// The directory that holds temporary files.
pub fn tmp_dir_path(cache_dir_path: &str) -> (r: String)
    ensures
        r@ == join_path(cache_dir_path@, tmp_dir_name()),
{
    join_path_exec(cache_dir_path, "pluginAndroidFs-tmpDir-01K486FKQ2BZSBGFD34RFH9FWJ")
}

/// The path of the temporary file with the given identifier.
pub fn tmp_file_path(tmp_dir: &str, id: u64) -> (r: String)
    ensures
        r@ == join_path(tmp_dir@, decimal_text(id as int)),
{
    let name = u64_to_decimal(id);
    join_path_exec(tmp_dir, name.as_str())
}

} // verus!
