//! Verified core of an Android file-system plugin: URI and path handling,
//! directory models, access modes, and the decisions the plugin makes
//! before and after it talks to the platform.

pub mod text;
pub mod error;
pub mod utf8;
pub mod decimal;
pub mod models;
pub mod dirs;
pub mod uri_encoding;
pub mod paths;
pub mod bounded_map;
pub mod picker;
pub mod convert;
pub mod lines;
pub mod accept;
pub mod policy;
pub mod locations;
pub mod protocol;
pub mod resource;
pub mod stream;

pub use error::Error;
pub use models::FileUri;
pub use dirs::{PublicAudioDir, PublicDir, PublicGeneralPurposeDir, PublicImageDir, PublicVideoDir};
pub use bounded_map::BoundedHashMap;
