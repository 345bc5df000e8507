use android_fs::convert::{
    audio_destination, build_data_url, choose_mime_type, convert_rid_to_bytes, convert_to_bytes, convert_to_image_format,
    default_mime_type, eq_ascii_lowercase, image_format_from_mime_type, extension_for_mime_lookup, find_char, require_audio_mime_type,
    require_image_mime_type, require_video_mime_type, rfind_char, ImageFormatKind,
};
use android_fs::decimal::{i64_to_decimal, u64_to_decimal};
use android_fs::picker::PublicAudioOrGeneralPurposeDir;
use android_fs::utf8::{ascii_bytes_to_string, upgrade_bytes_ref};
use android_fs::{PublicAudioDir, PublicDir, PublicGeneralPurposeDir};

#[test]
fn decodes_plain_base64_and_data_urls() {
    assert_eq!(convert_to_bytes("aGVsbG8=").ok(), Some(b"hello".to_vec()));
    assert_eq!(convert_to_bytes("data:text/plain;base64,aGVsbG8=").ok(), Some(b"hello".to_vec()));
    assert_eq!(convert_to_bytes("").ok(), Some(Vec::new()));
    assert_eq!(convert_to_bytes("data:,").ok(), Some(Vec::new()));
}

#[test]
fn refuses_bad_base64_and_data_urls_without_comma() {
    let e = convert_to_bytes("data:text/plain;base64").err().unwrap();
    assert_eq!(e.message(), "invalid data URL: missing comma");
    let e = convert_to_bytes("!!!!").err().unwrap();
    assert_eq!(e.message(), "Invalid symbol 33, offset 0.");
    assert!(convert_to_bytes("aGVsbG8").is_err());
}

#[test]
fn a_built_data_url_carries_its_payload() {
    let url = build_data_url("image/png", "aGVsbG8=");
    assert_eq!(url, "data:image/png;base64,aGVsbG8=");
    assert_eq!(convert_to_bytes(&url).ok(), Some(b"hello".to_vec()));
}

#[test]
fn resource_ids_are_big_endian() {
    assert_eq!(convert_rid_to_bytes(0x01020304), vec![1, 2, 3, 4]);
    assert_eq!(convert_rid_to_bytes(0), vec![0, 0, 0, 0]);
    assert_eq!(convert_rid_to_bytes(u32::MAX), vec![255, 255, 255, 255]);
}

#[test]
fn image_formats_are_named_case_insensitively() {
    assert_eq!(convert_to_image_format("JPG").ok(), Some(ImageFormatKind::Jpeg));
    assert_eq!(convert_to_image_format("jpeg").ok(), Some(ImageFormatKind::Jpeg));
    assert_eq!(convert_to_image_format("WebP").ok(), Some(ImageFormatKind::Webp));
    assert_eq!(convert_to_image_format("png").ok(), Some(ImageFormatKind::Png));
    let e = convert_to_image_format("gif").err().unwrap();
    assert_eq!(e.message(), "unexpected image format: gif");
    assert!(eq_ascii_lowercase("PnG", "png"));
    assert!(!eq_ascii_lowercase("png", "PNG"));
}

#[test]
fn mime_types_are_checked_by_prefix() {
    assert!(require_image_mime_type("image/png").is_ok());
    assert_eq!(require_image_mime_type("video/mp4").err().unwrap().message(), "invalid image type: video/mp4");
    assert!(require_video_mime_type("video/mp4").is_ok());
    assert_eq!(require_video_mime_type("image/png").err().unwrap().message(), "invalid video type: image/png");
    assert!(require_audio_mime_type("audio/mpeg").is_ok());
    assert_eq!(require_audio_mime_type("text/plain").err().unwrap().message(), "invalid audio type: text/plain");
}

#[test]
fn extensions_come_from_the_file_name() {
    assert_eq!(extension_for_mime_lookup("dir.v2/file.tar.gz"), Some("gz"));
    assert_eq!(extension_for_mime_lookup("dir.v2/file"), None);
    assert_eq!(extension_for_mime_lookup("note."), Some(""));
    assert_eq!(extension_for_mime_lookup(".hidden"), Some("hidden"));
    assert_eq!(default_mime_type(), "application/octet-stream");
}

#[test]
fn finds_characters_from_either_end() {
    assert_eq!(find_char("a,b,c", ','), Some(1));
    assert_eq!(rfind_char("a,b,c", ','), Some(3));
    assert_eq!(find_char("abc", ','), None);
    assert_eq!(rfind_char("ü,x", ','), Some(1));
}

#[test]
fn audio_destinations_fall_back_to_music() {
    let (dir, path) = audio_destination(PublicAudioOrGeneralPurposeDir::Audio(PublicAudioDir::Audiobooks), "/a/b.mp3", false, true);
    assert_eq!(dir, PublicDir::Audio(PublicAudioDir::Music));
    assert_eq!(path, "Audiobooks/a/b.mp3");
    let (dir, path) = audio_destination(PublicAudioOrGeneralPurposeDir::Audio(PublicAudioDir::Audiobooks), "a.mp3", true, false);
    assert_eq!(dir, PublicDir::Audio(PublicAudioDir::Audiobooks));
    assert_eq!(path, "a.mp3");
    let (dir, path) = audio_destination(PublicAudioOrGeneralPurposeDir::Audio(PublicAudioDir::Recordings), "r.m4a", true, false);
    assert_eq!(dir, PublicDir::Audio(PublicAudioDir::Music));
    assert_eq!(path, "Recordings/r.m4a");
    let (dir, path) = audio_destination(PublicAudioOrGeneralPurposeDir::GeneralPurpose(PublicGeneralPurposeDir::Download), "//x.mp3", false, false);
    assert_eq!(dir, PublicDir::GeneralPurpose(PublicGeneralPurposeDir::Download));
    assert_eq!(path, "x.mp3");
}

#[test]
fn numbers_are_written_in_decimal() {
    assert_eq!(u64_to_decimal(0), "0");
    assert_eq!(u64_to_decimal(1234567890), "1234567890");
    assert_eq!(u64_to_decimal(u64::MAX), "18446744073709551615");
    assert_eq!(i64_to_decimal(-42), "-42");
    assert_eq!(i64_to_decimal(i64::MIN), "-9223372036854775808");
    assert_eq!(i64_to_decimal(7), "7");
}

#[test]
fn bytes_and_ascii_text() {
    assert_eq!(ascii_bytes_to_string(b"abc".to_vec()), "abc");
    assert_eq!(upgrade_bytes_ref(&[1u8, 2, 3]), vec![1, 2, 3]);
}

#[test]
fn image_formats_and_their_mime_types() {
    for k in [ImageFormatKind::Png, ImageFormatKind::Jpeg, ImageFormatKind::Webp] {
        assert_eq!(image_format_from_mime_type(k.mime_type()), Some(k));
    }
    assert_eq!(ImageFormatKind::Jpeg.mime_type(), "image/jpeg");
    assert_eq!(image_format_from_mime_type("image/jpg"), Some(ImageFormatKind::Jpeg));
    assert_eq!(image_format_from_mime_type("image/gif"), None);
    assert_eq!(image_format_from_mime_type("IMAGE/PNG"), None);
}

#[test]
fn mime_type_of_a_new_file() {
    assert_eq!(choose_mime_type(Some("text/plain".to_string()), Some("image/png".to_string())), "text/plain");
    assert_eq!(choose_mime_type(None, Some("image/png".to_string())), "image/png");
    assert_eq!(choose_mime_type(None, None), "application/octet-stream");
}
