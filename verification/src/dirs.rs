//! Public directories shared with other apps and users.

use vstd::prelude::*;
use vstd::string::*;
use vstd::std_specs::convert::FromSpecImpl;

verus! {

/// Directory in which to place images that are available to other applications and users.
#[derive(Debug, Clone, Copy, PartialEq, Eq, Hash)]
#[non_exhaustive]
pub enum PublicImageDir {
    /// e.g. `~/Pictures`
    Pictures,
    /// e.g. `~/DCIM`
    DCIM,
}

/// Directory in which to place videos that are available to other applications and users.
#[derive(Debug, Clone, Copy, PartialEq, Eq, Hash)]
#[non_exhaustive]
pub enum PublicVideoDir {
    /// e.g. `~/Movies`
    Movies,
    /// e.g. `~/DCIM`
    DCIM,
}

/// Directory in which to place audios that are available to other applications and users.
#[derive(Debug, Clone, Copy, PartialEq, Eq, Hash)]
#[non_exhaustive]
pub enum PublicAudioDir {
    /// e.g. `~/Music`
    Music,
    /// e.g. `~/Alarms`
    Alarms,
    /// Not available on Android 9 (API level 28) and lower. e.g. `~/Audiobooks`
    Audiobooks,
    /// e.g. `~/Notifications`
    Notifications,
    /// e.g. `~/Podcasts`
    Podcasts,
    /// e.g. `~/Ringtones`
    Ringtones,
    /// Not available on Android 11 (API level 30) and lower. e.g. `~/Recordings`
    Recordings,
}

/// Directory in which to place files that are available to other applications and users.
#[derive(Debug, Clone, Copy, PartialEq, Eq, Hash)]
#[non_exhaustive]
pub enum PublicGeneralPurposeDir {
    /// e.g. `~/Documents`
    Documents,
    /// e.g. `~/Download` (singular).
    Download,
}

/// Any of the public directories.
#[derive(Debug, Clone, Copy, PartialEq, Eq, Hash)]
#[non_exhaustive]
pub enum PublicDir {
    Image(PublicImageDir),
    Video(PublicVideoDir),
    Audio(PublicAudioDir),
    GeneralPurpose(PublicGeneralPurposeDir),
}

/// The directory name of each public image directory.
pub open spec fn image_dir_name(d: PublicImageDir) -> Seq<char> {
    match d {
        PublicImageDir::Pictures => "Pictures"@,
        PublicImageDir::DCIM => "DCIM"@,
    }
}

/// The directory name of each public video directory.
pub open spec fn video_dir_name(d: PublicVideoDir) -> Seq<char> {
    match d {
        PublicVideoDir::Movies => "Movies"@,
        PublicVideoDir::DCIM => "DCIM"@,
    }
}

/// The directory name of each public audio directory.
pub open spec fn audio_dir_name(d: PublicAudioDir) -> Seq<char> {
    match d {
        PublicAudioDir::Music => "Music"@,
        PublicAudioDir::Alarms => "Alarms"@,
        PublicAudioDir::Audiobooks => "Audiobooks"@,
        PublicAudioDir::Notifications => "Notifications"@,
        PublicAudioDir::Podcasts => "Podcasts"@,
        PublicAudioDir::Ringtones => "Ringtones"@,
        PublicAudioDir::Recordings => "Recordings"@,
    }
}

/// The directory name of each general-purpose public directory.
pub open spec fn general_purpose_dir_name(d: PublicGeneralPurposeDir) -> Seq<char> {
    match d {
        PublicGeneralPurposeDir::Documents => "Documents"@,
        PublicGeneralPurposeDir::Download => "Download"@,
    }
}

/// The directory name of each public directory.
pub open spec fn public_dir_name(d: PublicDir) -> Seq<char> {
    match d {
        PublicDir::Image(p) => image_dir_name(p),
        PublicDir::Video(p) => video_dir_name(p),
        PublicDir::Audio(p) => audio_dir_name(p),
        PublicDir::GeneralPurpose(p) => general_purpose_dir_name(p),
    }
}

impl PublicImageDir {
    /// The directory name, e.g. `Pictures`.
    pub fn to_string(&self) -> (r: String)
        ensures
            r@ == image_dir_name(*self),
    {
        match self {
            PublicImageDir::Pictures => String::from_str("Pictures"),
            PublicImageDir::DCIM => String::from_str("DCIM"),
        }
    }
}

impl PublicVideoDir {
    /// The directory name, e.g. `Movies`.
    pub fn to_string(&self) -> (r: String)
        ensures
            r@ == video_dir_name(*self),
    {
        match self {
            PublicVideoDir::Movies => String::from_str("Movies"),
            PublicVideoDir::DCIM => String::from_str("DCIM"),
        }
    }
}

impl PublicAudioDir {
    /// The directory name, e.g. `Music`.
    pub fn to_string(&self) -> (r: String)
        ensures
            r@ == audio_dir_name(*self),
    {
        match self {
            PublicAudioDir::Music => String::from_str("Music"),
            PublicAudioDir::Alarms => String::from_str("Alarms"),
            PublicAudioDir::Audiobooks => String::from_str("Audiobooks"),
            PublicAudioDir::Notifications => String::from_str("Notifications"),
            PublicAudioDir::Podcasts => String::from_str("Podcasts"),
            PublicAudioDir::Ringtones => String::from_str("Ringtones"),
            PublicAudioDir::Recordings => String::from_str("Recordings"),
        }
    }
}

impl PublicGeneralPurposeDir {
    /// The directory name, e.g. `Documents`.
    pub fn to_string(&self) -> (r: String)
        ensures
            r@ == general_purpose_dir_name(*self),
    {
        match self {
            PublicGeneralPurposeDir::Documents => String::from_str("Documents"),
            PublicGeneralPurposeDir::Download => String::from_str("Download"),
        }
    }
}

impl PublicDir {
    /// The directory name of the wrapped directory.
    pub fn to_string(&self) -> (r: String)
        ensures
            r@ == public_dir_name(*self),
    {
        match self {
            PublicDir::Image(p) => p.to_string(),
            PublicDir::Video(p) => p.to_string(),
            PublicDir::Audio(p) => p.to_string(),
            PublicDir::GeneralPurpose(p) => p.to_string(),
        }
    }
}

impl From<PublicImageDir> for PublicDir {
    fn from(value: PublicImageDir) -> (r: PublicDir) {
        PublicDir::Image(value)
    }
}

impl FromSpecImpl<PublicImageDir> for PublicDir {
    open spec fn obeys_from_spec() -> bool {
        true
    }

    open spec fn from_spec(value: PublicImageDir) -> PublicDir {
        PublicDir::Image(value)
    }
}

impl From<PublicVideoDir> for PublicDir {
    fn from(value: PublicVideoDir) -> (r: PublicDir) {
        PublicDir::Video(value)
    }
}

impl FromSpecImpl<PublicVideoDir> for PublicDir {
    open spec fn obeys_from_spec() -> bool {
        true
    }

    open spec fn from_spec(value: PublicVideoDir) -> PublicDir {
        PublicDir::Video(value)
    }
}

impl From<PublicAudioDir> for PublicDir {
    fn from(value: PublicAudioDir) -> (r: PublicDir) {
        PublicDir::Audio(value)
    }
}

impl FromSpecImpl<PublicAudioDir> for PublicDir {
    open spec fn obeys_from_spec() -> bool {
        true
    }

    open spec fn from_spec(value: PublicAudioDir) -> PublicDir {
        PublicDir::Audio(value)
    }
}

impl From<PublicGeneralPurposeDir> for PublicDir {
    fn from(value: PublicGeneralPurposeDir) -> (r: PublicDir) {
        PublicDir::GeneralPurpose(value)
    }
}

impl FromSpecImpl<PublicGeneralPurposeDir> for PublicDir {
    open spec fn obeys_from_spec() -> bool {
        true
    }

    open spec fn from_spec(value: PublicGeneralPurposeDir) -> PublicDir {
        PublicDir::GeneralPurpose(value)
    }
}

} // verus!
