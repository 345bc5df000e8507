//! Choosing which picker to show and what it is asked for.

use vstd::prelude::*;
use vstd::string::*;
use vstd::std_specs::convert::FromSpecImpl;
use crate::dirs::{PublicAudioDir, PublicDir, PublicGeneralPurposeDir, PublicImageDir, PublicVideoDir};
use crate::models::{FileUri, VisualMediaTarget};
use crate::text::{has_prefix, starts_with, str_eq};

verus! {

/// The kind of picker that shows files.
#[derive(Debug, Clone, Copy, PartialEq, Eq)]
pub enum FilePickerType {
    FilePicker,
    Gallery,
}

/// Where a picker starts.
#[derive(Debug)]
pub enum PickerInitialLocation {
    Any { uri: FileUri },
    VolumeTop { volume_id: Option<String> },
    PublicDir { base_dir: PublicDir, relative_path: Option<String>, volume_id: Option<String> },
}

/// An image directory or a general-purpose directory.
#[derive(Debug, Clone, Copy)]
pub enum PublicImageOrGeneralPurposeDir {
    Image(PublicImageDir),
    GeneralPurpose(PublicGeneralPurposeDir),
}

/// A video directory or a general-purpose directory.
#[derive(Debug, Clone, Copy)]
pub enum PublicVideoOrGeneralPurposeDir {
    Video(PublicVideoDir),
    GeneralPurpose(PublicGeneralPurposeDir),
}

/// An audio directory or a general-purpose directory.
#[derive(Debug, Clone, Copy)]
pub enum PublicAudioOrGeneralPurposeDir {
    Audio(PublicAudioDir),
    GeneralPurpose(PublicGeneralPurposeDir),
}

impl From<PublicImageOrGeneralPurposeDir> for PublicDir {
    fn from(value: PublicImageOrGeneralPurposeDir) -> (r: PublicDir) {
        match value {
            PublicImageOrGeneralPurposeDir::Image(d) => PublicDir::Image(d),
            PublicImageOrGeneralPurposeDir::GeneralPurpose(d) => PublicDir::GeneralPurpose(d),
        }
    }
}

impl FromSpecImpl<PublicImageOrGeneralPurposeDir> for PublicDir {
    open spec fn obeys_from_spec() -> bool {
        true
    }

    open spec fn from_spec(value: PublicImageOrGeneralPurposeDir) -> PublicDir {
        match value {
            PublicImageOrGeneralPurposeDir::Image(d) => PublicDir::Image(d),
            PublicImageOrGeneralPurposeDir::GeneralPurpose(d) => PublicDir::GeneralPurpose(d),
        }
    }
}

impl From<PublicVideoOrGeneralPurposeDir> for PublicDir {
    fn from(value: PublicVideoOrGeneralPurposeDir) -> (r: PublicDir) {
        match value {
            PublicVideoOrGeneralPurposeDir::Video(d) => PublicDir::Video(d),
            PublicVideoOrGeneralPurposeDir::GeneralPurpose(d) => PublicDir::GeneralPurpose(d),
        }
    }
}

impl FromSpecImpl<PublicVideoOrGeneralPurposeDir> for PublicDir {
    open spec fn obeys_from_spec() -> bool {
        true
    }

    open spec fn from_spec(value: PublicVideoOrGeneralPurposeDir) -> PublicDir {
        match value {
            PublicVideoOrGeneralPurposeDir::Video(d) => PublicDir::Video(d),
            PublicVideoOrGeneralPurposeDir::GeneralPurpose(d) => PublicDir::GeneralPurpose(d),
        }
    }
}

impl From<PublicAudioOrGeneralPurposeDir> for PublicDir {
    fn from(value: PublicAudioOrGeneralPurposeDir) -> (r: PublicDir) {
        match value {
            PublicAudioOrGeneralPurposeDir::Audio(d) => PublicDir::Audio(d),
            PublicAudioOrGeneralPurposeDir::GeneralPurpose(d) => PublicDir::GeneralPurpose(d),
        }
    }
}

impl FromSpecImpl<PublicAudioOrGeneralPurposeDir> for PublicDir {
    open spec fn obeys_from_spec() -> bool {
        true
    }

    open spec fn from_spec(value: PublicAudioOrGeneralPurposeDir) -> PublicDir {
        match value {
            PublicAudioOrGeneralPurposeDir::Audio(d) => PublicDir::Audio(d),
            PublicAudioOrGeneralPurposeDir::GeneralPurpose(d) => PublicDir::GeneralPurpose(d),
        }
    }
}

/// The text of each MIME type.
pub open spec fn mime_views(ms: Seq<String>) -> Seq<Seq<char>> {
    ms.map_values(|s: String| s@)
}

/// Every MIME type starts with `p`.
pub open spec fn all_start_with(ms: Seq<Seq<char>>, p: Seq<char>) -> bool {
    forall|i: int| 0 <= i < ms.len() ==> has_prefix(#[trigger] ms[i], p)
}

/// Every MIME type starts with `p` or with `q`.
pub open spec fn all_start_with_either(ms: Seq<Seq<char>>, p: Seq<char>, q: Seq<char>) -> bool {
    forall|i: int| 0 <= i < ms.len() ==> has_prefix(#[trigger] ms[i], p) || has_prefix(ms[i], q)
}

/// Some MIME type is `a` or `b`.
pub open spec fn any_is_either(ms: Seq<Seq<char>>, a: Seq<char>, b: Seq<char>) -> bool {
    exists|i: int| 0 <= i < ms.len() && (#[trigger] ms[i] == a || ms[i] == b)
}

/// What the requested MIME types say about the media they select.
pub struct MimeSummary {
    pub is_single: bool,
    pub only_image: bool,
    pub only_video: bool,
    pub only_image_or_video: bool,
    pub includes_all_image: bool,
    pub includes_all_video: bool,
}

/// The summary of a list of MIME types; an empty list selects everything.
pub open spec fn spec_mime_summary(ms: Seq<Seq<char>>) -> MimeSummary {
    if ms.len() == 0 {
        MimeSummary {
            is_single: false,
            only_image: false,
            only_video: false,
            only_image_or_video: false,
            includes_all_image: true,
            includes_all_video: true,
        }
    } else {
        MimeSummary {
            is_single: ms.len() == 1,
            only_image: all_start_with(ms, "image/"@),
            only_video: all_start_with(ms, "video/"@),
            only_image_or_video: all_start_with_either(ms, "image/"@, "video/"@),
            includes_all_image: any_is_either(ms, "*/*"@, "image/*"@),
            includes_all_video: any_is_either(ms, "*/*"@, "video/*"@),
        }
    }
}

/// Summarizes the requested MIME types.
pub fn mime_summary(mime_types: &[String]) -> (r: MimeSummary)
    ensures
        r == spec_mime_summary(mime_views(mime_types@)),
{
    let ghost ms = mime_views(mime_types@);
    let n = mime_types.len();
    if n == 0 {
        return MimeSummary {
            is_single: false,
            only_image: false,
            only_video: false,
            only_image_or_video: false,
            includes_all_image: true,
            includes_all_video: true,
        };
    }
    let mut only_image = true;
    let mut only_video = true;
    let mut only_image_or_video = true;
    let mut all_image = false;
    let mut all_video = false;
    let mut i: usize = 0;
    while i < n
        invariant
            n == mime_types@.len(),
            ms == mime_views(mime_types@),
            i <= n,
            only_image == all_start_with(ms.take(i as int), "image/"@),
            only_video == all_start_with(ms.take(i as int), "video/"@),
            only_image_or_video == all_start_with_either(ms.take(i as int), "image/"@, "video/"@),
            all_image == any_is_either(ms.take(i as int), "*/*"@, "image/*"@),
            all_video == any_is_either(ms.take(i as int), "*/*"@, "video/*"@),
        decreases n - i,
    {
        let s = mime_types[i].as_str();
        let ghost t = ms.take(i + 1);
        assert(s@ == ms[i as int]);
        assert(t[i as int] == s@);
        assert(forall|j: int| 0 <= j < i ==> t[j] == ms.take(i as int)[j]);
        let img = starts_with(s, "image/");
        let vid = starts_with(s, "video/");
        let any = str_eq(s, "*/*");
        let img_all = str_eq(s, "image/*");
        let vid_all = str_eq(s, "video/*");
        only_image = only_image && img;
        only_video = only_video && vid;
        only_image_or_video = only_image_or_video && (img || vid);
        all_image = all_image || any || img_all;
        all_video = all_video || any || vid_all;
        proof {
            if all_image {
                if any || img_all {
                    assert(t[i as int] == "*/*"@ || t[i as int] == "image/*"@);
                } else {
                    let j = choose|j: int| 0 <= j < i && (#[trigger] ms.take(i as int)[j] == "*/*"@ || ms.take(i as int)[j] == "image/*"@);
                    assert(t[j] == ms.take(i as int)[j]);
                }
            } else {
                assert forall|j: int| 0 <= j < t.len() implies !(#[trigger] t[j] == "*/*"@ || t[j] == "image/*"@) by {
                    if j < i {
                        assert(t[j] == ms.take(i as int)[j]);
                    }
                }
            }
            if all_video {
                if any || vid_all {
                    assert(t[i as int] == "*/*"@ || t[i as int] == "video/*"@);
                } else {
                    let j = choose|j: int| 0 <= j < i && (#[trigger] ms.take(i as int)[j] == "*/*"@ || ms.take(i as int)[j] == "video/*"@);
                    assert(t[j] == ms.take(i as int)[j]);
                }
            } else {
                assert forall|j: int| 0 <= j < t.len() implies !(#[trigger] t[j] == "*/*"@ || t[j] == "video/*"@) by {
                    if j < i {
                        assert(t[j] == ms.take(i as int)[j]);
                    }
                }
            }
            if !only_image {
                if !img {
                    assert(!has_prefix(t[i as int], "image/"@));
                } else {
                    let j = choose|j: int| 0 <= j < i && !has_prefix(#[trigger] ms.take(i as int)[j], "image/"@);
                    assert(t[j] == ms.take(i as int)[j]);
                }
            }
            if !only_video {
                if !vid {
                    assert(!has_prefix(t[i as int], "video/"@));
                } else {
                    let j = choose|j: int| 0 <= j < i && !has_prefix(#[trigger] ms.take(i as int)[j], "video/"@);
                    assert(t[j] == ms.take(i as int)[j]);
                }
            }
            if !only_image_or_video {
                if !(img || vid) {
                    assert(!(has_prefix(t[i as int], "image/"@) || has_prefix(t[i as int], "video/"@)));
                } else {
                    let j = choose|j: int| 0 <= j < i && !(has_prefix(#[trigger] ms.take(i as int)[j], "image/"@) || has_prefix(ms.take(i as int)[j], "video/"@));
                    assert(t[j] == ms.take(i as int)[j]);
                }
            }
        }
        i = i + 1;
    }
    assert(ms.take(n as int) =~= ms);
    MimeSummary { is_single: n == 1, only_image, only_video, only_image_or_video, includes_all_image: all_image, includes_all_video: all_video }
}


/// Which picker to show: write access and an initial location need the file
/// picker; otherwise an explicit choice wins; otherwise the gallery is used
/// when the MIME types select only images and videos in a way it can show.
pub open spec fn spec_picker_type(
    requested: Option<FilePickerType>,
    m: MimeSummary,
    need_write_permission: bool,
    has_initial_location: bool,
) -> FilePickerType {
    if need_write_permission {
        FilePickerType::FilePicker
    } else if has_initial_location {
        FilePickerType::FilePicker
    } else if requested is Some {
        requested->0
    } else if m.is_single && m.only_image_or_video {
        FilePickerType::Gallery
    } else if m.only_image && m.includes_all_image {
        FilePickerType::Gallery
    } else if m.only_video && m.includes_all_video {
        FilePickerType::Gallery
    } else if m.only_image_or_video && m.includes_all_image && m.includes_all_video {
        FilePickerType::Gallery
    } else {
        FilePickerType::FilePicker
    }
}

/// The kind of media the gallery is asked for.
pub enum GalleryTarget {
    /// The single requested MIME type.
    SingleType,
    ImageOnly,
    VideoOnly,
    ImageAndVideo,
}

/// The gallery target for the summarized MIME types.
pub open spec fn spec_gallery_target(m: MimeSummary) -> GalleryTarget {
    if m.is_single && m.only_image_or_video {
        GalleryTarget::SingleType
    } else if m.only_image {
        GalleryTarget::ImageOnly
    } else if m.only_video {
        GalleryTarget::VideoOnly
    } else {
        GalleryTarget::ImageAndVideo
    }
}

/// The picker call to make for an open-file request.
#[derive(Debug)]
pub enum OpenFilePickerPlan<'a> {
    /// Several files through the file picker, without an initial location.
    PickFiles,
    /// One file through the file picker, from the initial location if there is one.
    PickFile,
    /// Several media through the gallery.
    PickVisualMedias { target: VisualMediaTarget<'a> },
    /// One media item through the gallery.
    PickVisualMedia { target: VisualMediaTarget<'a> },
}

/// The visual-media target that `plan` asks for, given the requested types.
pub open spec fn target_matches(t: VisualMediaTarget, g: GalleryTarget, ms: Seq<Seq<char>>) -> bool {
    match g {
        GalleryTarget::SingleType => t matches VisualMediaTarget::ImageOrVideo { mime_type } && mime_type@ == ms[0],
        GalleryTarget::ImageOnly => t is ImageOnly,
        GalleryTarget::VideoOnly => t is VideoOnly,
        GalleryTarget::ImageAndVideo => t is ImageAndVideo,
    }
}

/// Decides which picker to show for an open-file request and what to ask it for.
/// `has_initial_location` says whether a `content://` initial location was resolved.
pub fn plan_open_file_picker<'a>(
    picker_type: Option<FilePickerType>,
    multiple: bool,
    mime_types: &'a [String],
    need_write_permission: bool,
    has_initial_location: bool,
) -> (r: OpenFilePickerPlan<'a>)
    ensures
        ({
            let ms = mime_views(mime_types@);
            let m = spec_mime_summary(ms);
            match spec_picker_type(picker_type, m, need_write_permission, has_initial_location) {
                FilePickerType::FilePicker => if multiple { r is PickFiles } else { r is PickFile },
                FilePickerType::Gallery => match r {
                    OpenFilePickerPlan::PickVisualMedias { target } => multiple && target_matches(target, spec_gallery_target(m), ms),
                    OpenFilePickerPlan::PickVisualMedia { target } => !multiple && target_matches(target, spec_gallery_target(m), ms),
                    _ => false,
                },
            }
        }),
{
    let m = mime_summary(mime_types);
    let chosen = if need_write_permission {
        FilePickerType::FilePicker
    } else if has_initial_location {
        FilePickerType::FilePicker
    } else if let Some(t) = picker_type {
        t
    } else if m.is_single && m.only_image_or_video {
        FilePickerType::Gallery
    } else if m.only_image && m.includes_all_image {
        FilePickerType::Gallery
    } else if m.only_video && m.includes_all_video {
        FilePickerType::Gallery
    } else if m.only_image_or_video && m.includes_all_image && m.includes_all_video {
        FilePickerType::Gallery
    } else {
        FilePickerType::FilePicker
    };
    match chosen {
        FilePickerType::FilePicker => {
            if multiple {
                OpenFilePickerPlan::PickFiles
            } else {
                OpenFilePickerPlan::PickFile
            }
        },
        FilePickerType::Gallery => {
            let target = if m.is_single && m.only_image_or_video {
                VisualMediaTarget::ImageOrVideo { mime_type: mime_types[0].as_str() }
            } else if m.only_image {
                VisualMediaTarget::ImageOnly
            } else if m.only_video {
                VisualMediaTarget::VideoOnly
            } else {
                VisualMediaTarget::ImageAndVideo
            };
            if multiple {
                OpenFilePickerPlan::PickVisualMedias { target }
            } else {
                OpenFilePickerPlan::PickVisualMedia { target }
            }
        },
    }
}

/// The files that a single-file pick gives: none when the user cancelled.
pub fn single_pick_to_vec(picked: Option<FileUri>) -> (r: Vec<FileUri>)
    ensures
        match picked {
            Some(u) => r@ == seq![u],
            None => r@ == Seq::<FileUri>::empty(),
        },
{
    let mut v = Vec::new();
    if let Some(u) = picked {
        v.push(u);
    }
    v
}

/// Keeps an initial location only when it is a `content://` URI.
pub fn content_initial_location(location: Option<FileUri>) -> (r: Option<FileUri>)
    ensures
        r is Some <==> (location is Some && has_prefix(location->0.uri@, crate::models::content_scheme())),
        r is Some ==> r == location,
{
    match location {
        Some(u) => if u.is_content_scheme() { Some(u) } else { None },
        None => None,
    }
}


/// The gallery is never chosen when write access is needed or an initial location
/// was resolved, and, unless it was asked for, only when there is at least one
/// requested MIME type and every one of them is an image or a video type.
pub proof fn law_gallery_only_for_visual_media(
    requested: Option<FilePickerType>,
    ms: Seq<Seq<char>>,
    need_write_permission: bool,
    has_initial_location: bool,
)
    ensures
        spec_picker_type(requested, spec_mime_summary(ms), need_write_permission, has_initial_location)
            == FilePickerType::Gallery ==> {
            &&& !need_write_permission
            &&& !has_initial_location
            &&& requested is None ==> ms.len() > 0 && all_start_with_either(ms, "image/"@, "video/"@)
        },
{
    let m = spec_mime_summary(ms);
    if ms.len() > 0 {
        if m.only_image {
            assert forall|i: int| 0 <= i < ms.len() implies has_prefix(#[trigger] ms[i], "image/"@)
                || has_prefix(ms[i], "video/"@) by {
                assert(has_prefix(ms[i], "image/"@));
            }
        }
        if m.only_video {
            assert forall|i: int| 0 <= i < ms.len() implies has_prefix(#[trigger] ms[i], "image/"@)
                || has_prefix(ms[i], "video/"@) by {
                assert(has_prefix(ms[i], "video/"@));
            }
        }
    }
}


/// Write access or a resolved initial location always gets the file picker;
/// otherwise a picker type that was asked for is the one used.
pub proof fn law_requested_picker_is_used(
    requested: Option<FilePickerType>,
    ms: Seq<Seq<char>>,
    need_write_permission: bool,
    has_initial_location: bool,
)
    ensures
        need_write_permission ==> spec_picker_type(requested, spec_mime_summary(ms), need_write_permission,
            has_initial_location) == FilePickerType::FilePicker,
        has_initial_location ==> spec_picker_type(requested, spec_mime_summary(ms), need_write_permission,
            has_initial_location) == FilePickerType::FilePicker,
        (!need_write_permission && !has_initial_location && requested is Some) ==> spec_picker_type(
            requested, spec_mime_summary(ms), need_write_permission, has_initial_location) == requested->0,
{
}

} // verus!
