use android_fs::accept::{get_best_mime_type_from_accept_header, parse_accept_header, RankedAcceptEntry};
use android_fs::bounded_map::BoundedHashMap;
use android_fs::lines::{line_read_limit, push_line_record, read_chunk_capacity, LineStep};
use android_fs::locations::{
    filter_volumes_for_private_storage, outside_private_dir_path_of, private_entry_uri, public_dir_probe_file,
    resolve_initial_location, resolve_initial_location_top, tmp_dir_path, tmp_file_path,
};
use android_fs::models::{
    require_dir, require_file, EntryType, FileAccessMode, OutsidePrivateDir, PersistedUriPermission, StorageVolume,
    StorageVolumeId,
};
use android_fs::picker::{
    content_initial_location, mime_summary, plan_open_file_picker, single_pick_to_vec, FilePickerType,
    OpenFilePickerPlan,
};
use android_fs::policy::{
    need_write_file_via_kotlin, needs_truncate_after_open, public_file_needs_scan, public_file_pending_supported,
    require_api_level, writable_open_modes, writable_open_next, write_new_next, OpenAction, TmpFileIdCounter,
    WriteNewOutcome, WriteNewStep, ANDROID_10, ANDROID_9,
};
use android_fs::protocol::{
    check_thumbnail_request, query_value, resolve_thumbnail_size, response_parts, thumbnail_format,
    thumbnail_response, thumbnail_result, ProtocolError, RequestMethod, ResponseHeader,
};
use android_fs::convert::ImageFormatKind;
use android_fs::models::VisualMediaTarget;
use android_fs::{Error, FileUri, PublicDir, PublicGeneralPurposeDir, PublicImageDir};

fn strings(v: &[&str]) -> Vec<String> {
    v.iter().map(|s| s.to_string()).collect()
}

#[test]
fn access_modes_round_trip_through_their_names() {
    let all = [
        FileAccessMode::Read,
        FileAccessMode::Write,
        FileAccessMode::WriteTruncate,
        FileAccessMode::WriteAppend,
        FileAccessMode::ReadWrite,
        FileAccessMode::ReadWriteTruncate,
    ];
    for m in all {
        assert_eq!(FileAccessMode::from_mode(m.to_mode()).ok(), Some(m));
    }
    assert_eq!(FileAccessMode::ReadWriteTruncate.to_mode(), "rwt");
    let e = FileAccessMode::from_mode("x").err().unwrap();
    assert_eq!(e.message(), "Illegal mode: x");
}

#[test]
fn entry_types_and_permissions() {
    let file = EntryType::File { mime_type: "text/plain".to_string() };
    assert!(file.is_file() && !file.is_dir());
    assert_eq!(file.mime_type(), Some("text/plain"));
    assert!(require_file(&file, "x").is_ok());
    let uri = FileUri { uri: "content://a/b".to_string(), document_top_tree_uri: None };
    let text = format!("{uri:?}");
    assert_eq!(
        require_dir(&file, &text).err().unwrap().message(),
        "not a directory: FileUri { uri: \"content://a/b\", document_top_tree_uri: None }"
    );
    assert_eq!(require_file(&EntryType::Dir, &text).err().unwrap().message(), format!("not a file: {uri:?}"));
    let dir = EntryType::Dir;
    assert!(dir.is_dir() && !dir.is_file());
    assert_eq!(dir.mime_type(), None);
    assert_eq!(dir.into_mime_type(), None);

    let uri = FileUri { uri: "content://a/b".to_string(), document_top_tree_uri: None };
    let p = PersistedUriPermission::Dir { uri: uri.clone(), can_read: true, can_write: false };
    assert!(p.can_read() && !p.can_write() && p.is_dir() && !p.is_file());
    assert_eq!(p.uri(), &uri);
    assert_eq!(p.into_uri(), uri);
}

#[test]
fn errors_carry_their_messages() {
    assert_eq!(Error::with("boom").message(), "boom");
    assert_eq!(Error::not_android().message(), "This plugin is only for Android");
    assert_eq!(Error::missing_value("uri").message(), "missing value: uri");
}

#[test]
fn public_directory_names() {
    assert_eq!(PublicDir::from(PublicImageDir::DCIM).to_string(), "DCIM");
    assert_eq!(PublicDir::from(PublicGeneralPurposeDir::Download).to_string(), "Download");
    assert_eq!(PublicImageDir::Pictures.to_string(), "Pictures");
}

#[test]
fn picker_choice_follows_the_mime_types() {
    let images = strings(&["image/png", "image/*"]);
    match plan_open_file_picker(None, true, &images, false, false) {
        OpenFilePickerPlan::PickVisualMedias { target } => assert_eq!(target, VisualMediaTarget::ImageOnly),
        other => panic!("unexpected plan {other:?}"),
    }
    let all_images = strings(&["image/*"]);
    match plan_open_file_picker(None, true, &all_images, false, false) {
        OpenFilePickerPlan::PickVisualMedias { target } => {
            assert_eq!(target, VisualMediaTarget::ImageOrVideo { mime_type: "image/*" })
        }
        other => panic!("unexpected plan {other:?}"),
    }
    let png_only = strings(&["image/png", "image/jpeg"]);
    assert!(matches!(plan_open_file_picker(None, true, &png_only, false, false), OpenFilePickerPlan::PickFiles));
    let single = strings(&["video/mp4"]);
    match plan_open_file_picker(None, false, &single, false, false) {
        OpenFilePickerPlan::PickVisualMedia { target } => {
            assert_eq!(target, VisualMediaTarget::ImageOrVideo { mime_type: "video/mp4" })
        }
        other => panic!("unexpected plan {other:?}"),
    }
    let both = strings(&["image/*", "video/*"]);
    match plan_open_file_picker(None, true, &both, false, false) {
        OpenFilePickerPlan::PickVisualMedias { target } => assert_eq!(target, VisualMediaTarget::ImageAndVideo),
        other => panic!("unexpected plan {other:?}"),
    }
    let any = strings(&["*/*"]);
    assert!(matches!(plan_open_file_picker(None, true, &any, false, false), OpenFilePickerPlan::PickFiles));
    assert!(matches!(plan_open_file_picker(None, false, &[], false, false), OpenFilePickerPlan::PickFile));
    assert!(matches!(plan_open_file_picker(None, false, &images, true, false), OpenFilePickerPlan::PickFile));
    assert!(matches!(plan_open_file_picker(None, true, &images, false, true), OpenFilePickerPlan::PickFiles));
    assert!(matches!(
        plan_open_file_picker(Some(FilePickerType::FilePicker), true, &images, false, false),
        OpenFilePickerPlan::PickFiles
    ));
    let summary = mime_summary(&strings(&["image/png", "image/*"]));
    assert!(summary.only_image && summary.includes_all_image && !summary.includes_all_video && !summary.is_single);
}

#[test]
fn picks_and_initial_locations() {
    let u = FileUri { uri: "content://x".to_string(), document_top_tree_uri: None };
    assert_eq!(single_pick_to_vec(Some(u.clone())), vec![u.clone()]);
    assert!(single_pick_to_vec(None).is_empty());
    assert_eq!(content_initial_location(Some(u.clone())), Some(u));
    assert_eq!(content_initial_location(Some(FileUri::from_path("/a"))), None);
    assert_eq!(content_initial_location(None), None);
}

#[test]
fn api_level_policies() {
    assert!(require_api_level(ANDROID_10, 30).is_ok());
    let e = require_api_level(30, 28).err().unwrap();
    assert_eq!(e.message(), "requires Android API level 30 or higher. but: 28");
    assert_eq!(writable_open_modes(ANDROID_9), vec![FileAccessMode::Write]);
    assert_eq!(
        writable_open_modes(33),
        vec![FileAccessMode::WriteTruncate, FileAccessMode::ReadWriteTruncate, FileAccessMode::Write]
    );
    assert!(needs_truncate_after_open(33, FileAccessMode::Write));
    assert!(!needs_truncate_after_open(33, FileAccessMode::WriteTruncate));
    assert!(!needs_truncate_after_open(28, FileAccessMode::Write));
    let drive = FileUri { uri: "content://com.google.android.apps.docs.storage/document/1".to_string(), document_top_tree_uri: None };
    assert!(need_write_file_via_kotlin(&drive));
    assert!(!need_write_file_via_kotlin(&FileUri::from_path("/a")));
}

#[test]
fn tmp_file_ids_count_up() {
    let mut c = TmpFileIdCounter::new();
    assert_eq!(c.next_id_for_tmp_file(), 0);
    assert_eq!(c.next_id_for_tmp_file(), 1);
    assert_eq!(c.next_id_for_tmp_file(), 2);
    assert_eq!(tmp_file_path("/cache/tmp", 2), "/cache/tmp/2");
    assert!(tmp_dir_path("/data/cache").starts_with("/data/cache/"));
}

#[test]
fn bounded_map_keeps_the_newest_entries() {
    let mut m: BoundedHashMap<u64, &str> = BoundedHashMap::with_bound(2);
    m.insert(1, "a");
    m.insert(2, "b");
    assert_eq!(m.get(&1), Some(&"a"));
    m.insert(3, "c");
    assert_eq!(m.get(&1), None);
    assert_eq!(m.get(&2), Some(&"b"));
    assert_eq!(m.get(&3), Some(&"c"));
    m.insert(2, "B");
    assert_eq!(m.get(&2), Some(&"B"));
}

#[test]
fn accept_headers_choose_the_preferred_type() {
    let entries = parse_accept_header(b"image/webp;q=0.9, image/*; q=0.5 ,*/*;q=0.1");
    assert_eq!(entries.len(), 3);
    assert_eq!(entries[0].mime, "image/webp");
    assert_eq!(entries[0].q_params, vec!["0.9".to_string()]);
    assert_eq!(entries[1].mime, "image/*");
    assert_eq!(entries[1].q_params, vec!["0.5".to_string()]);

    let ranked: Vec<RankedAcceptEntry> = entries
        .iter()
        .map(|e| RankedAcceptEntry {
            mime: e.mime.clone(),
            q_keys: e.q_params.iter().map(|q| q.parse::<f32>().ok().map(f32::to_bits)).collect(),
        })
        .collect();
    assert_eq!(get_best_mime_type_from_accept_header(&ranked, &["image/png", "image/webp"]), Some("image/webp"));
    assert_eq!(get_best_mime_type_from_accept_header(&ranked, &["image/png", "image/jpeg"]), Some("image/png"));
    assert_eq!(get_best_mime_type_from_accept_header(&[], &["image/png"]), None);
    let zero = vec![RankedAcceptEntry { mime: "image/png".to_string(), q_keys: vec![Some(0.0f32.to_bits())] }];
    assert_eq!(get_best_mime_type_from_accept_header(&zero, &["image/png"]), None);
}

#[test]
fn query_values_and_thumbnail_sizes() {
    assert_eq!(query_value("w=10&h=20&w=30", "w"), Some("30"));
    assert_eq!(query_value("w=10&h=20", "h"), Some("20"));
    assert_eq!(query_value("wh&x=1=2", "x"), Some("1=2"));
    assert_eq!(query_value("", "w"), None);
    let s = resolve_thumbnail_size(Some(5000), None);
    assert_eq!((s.width, s.height), (1024, 1024));
    let s = resolve_thumbnail_size(None, None);
    assert_eq!((s.width, s.height), (256, 256));
    let s = resolve_thumbnail_size(Some(100), Some(50));
    assert_eq!((s.width, s.height), (100, 50));
}

#[test]
fn protocol_responses() {
    let ok = thumbnail_response(RequestMethod::Get, vec![1, 2, 3], "image/png", "GET, HEAD".to_string()).ok().unwrap();
    assert_eq!(ok.body, vec![1, 2, 3]);
    assert_eq!(ok.content_len, 3);
    let head = thumbnail_response(RequestMethod::Head, vec![1, 2, 3], "image/png", "GET, HEAD".to_string()).ok().unwrap();
    assert!(head.body.is_empty());
    assert_eq!(head.content_len, 3);
    let parts = response_parts(Ok(ok));
    assert_eq!(parts.status, 200);
    assert_eq!(parts.headers, vec![(ResponseHeader::ContentType, "image/png".to_string()), (ResponseHeader::ContentLength, "3".to_string())]);

    let not_allowed = thumbnail_response(RequestMethod::Other, vec![], "image/png", "GET, HEAD".to_string());
    let parts = response_parts(not_allowed);
    assert_eq!(parts.status, 405);
    assert_eq!(parts.headers, vec![(ResponseHeader::Allow, "GET, HEAD".to_string()), (ResponseHeader::ContentLength, "0".to_string())]);

    let bad = response_parts(Err(ProtocolError::BadRequest { msg: "Bad URI format".to_string() }));
    assert_eq!(bad.status, 400);
    assert_eq!(bad.body, b"Bad URI format".to_vec());
    assert_eq!(bad.headers[1], (ResponseHeader::ContentLength, "14".to_string()));
    assert_eq!(response_parts(Err(ProtocolError::Forbidden)).status, 403);
    assert_eq!(response_parts(Err(ProtocolError::NotFound)).status, 404);
    assert_eq!(response_parts(Err(ProtocolError::InternalServerError { msg: "x".to_string() })).status, 500);
}

#[test]
fn lines_are_framed_with_their_length() {
    let mut buf = Vec::new();
    assert_eq!(push_line_record(&mut buf, b"ab\r\n", 0, true, 100).ok(), Some(LineStep::Continue));
    assert_eq!(buf, vec![0, 0, 0, 0, 0, 0, 0, 2, b'a', b'b']);
    assert_eq!(push_line_record(&mut buf, b"c", 0, true, 10).ok(), Some(LineStep::Done));
    assert_eq!(buf.len(), 19);
    assert_eq!(push_line_record(&mut buf, b"", 0, true, 10).ok(), Some(LineStep::Done));
    assert_eq!(buf.len(), 19);
    let e = push_line_record(&mut buf, b"abcd\n", 3, false, 10).err().unwrap();
    assert_eq!(e.message(), "Line too long");
    assert!(push_line_record(&mut buf, b"\xff\n", 0, true, 10).is_err());
    assert_eq!(buf.len(), 19);
    assert!(push_line_record(&mut buf, b"\xff\n", 0, false, 10).is_ok());
    assert_eq!(buf.len(), 28);
    assert_eq!(line_read_limit(0), None);
    assert_eq!(line_read_limit(10), Some(12));
    assert_eq!(line_read_limit(u64::MAX), Some(u64::MAX));
    assert_eq!(read_chunk_capacity(5), 5);
    assert_eq!(read_chunk_capacity(u32::MAX), 10 * 1024 * 1024);
}

fn volume(primary: bool, data: Option<&str>, uuid: Option<&str>) -> StorageVolume {
    StorageVolume {
        description: "v".to_string(),
        is_primary: primary,
        is_removable: !primary,
        is_stable: true,
        is_emulated: primary,
        is_readonly: false,
        id: StorageVolumeId {
            top_directory_path: "/storage/x".to_string(),
            media_store_context: None,
            private_data_dir_path: data.map(|s| s.to_string()),
            private_cache_dir_path: None,
            uuid: uuid.map(|s| s.to_string()),
        },
    }
}

#[test]
fn locations_on_volumes() {
    assert_eq!(
        resolve_initial_location_top(None).uri,
        "content://com.android.externalstorage.documents/document/primary%3A"
    );
    assert_eq!(
        resolve_initial_location_top(Some("1234-ABCD")).uri,
        "content://com.android.externalstorage.documents/document/1234-ABCD%3A"
    );
    assert_eq!(
        resolve_initial_location(None, "Pictures", "MyApp/2025-10-22").ok().unwrap().uri,
        "content://com.android.externalstorage.documents/document/primary%3APictures%2FMyApp%2F2025-10-22"
    );
    assert_eq!(
        resolve_initial_location(None, "Download", "").ok().unwrap().uri,
        "content://com.android.externalstorage.documents/document/primary%3ADownload"
    );
    assert!(resolve_initial_location(None, "Download", "/abs").is_err());

    let (path, mime) = public_dir_probe_file(PublicDir::Image(PublicImageDir::Pictures), "MyApp").ok().unwrap();
    assert_eq!(path, "MyApp/TMP-01K3CGCKYSAQ1GHF8JW5FGD4RW");
    assert_eq!(mime, "image/png");

    let kept = filter_volumes_for_private_storage(vec![
        volume(true, Some("/data/a"), None),
        volume(false, None, Some("1234-ABCD")),
    ]);
    assert_eq!(kept.len(), 1);
    assert!(kept[0].is_primary);
    assert_eq!(outside_private_dir_path_of(&kept[0].id, OutsidePrivateDir::Data).ok(), Some(&"/data/a".to_string()));
    let e = outside_private_dir_path_of(&kept[0].id, OutsidePrivateDir::Cache).err().unwrap();
    assert_eq!(e.message(), "The storage volume has no app-speific directory");

    let u = private_entry_uri("/data/user/0/app/files", "a/b.txt").ok().unwrap();
    assert_eq!(u.uri, "file:///data/user/0/app/files/a/b.txt");
}

#[test]
fn plugin_resources_share_their_value() {
    let r = android_fs::resource::PluginResource::new(std::sync::Mutex::new(5u32));
    let a = r.get();
    let b = r.get();
    *a.lock().unwrap() = 7;
    assert_eq!(*b.lock().unwrap(), 7);
    assert!(std::sync::Arc::ptr_eq(&a, &b));
}

#[test]
fn every_writable_open_mode_ends_truncated() {
    for api in [21, ANDROID_9, ANDROID_10, 34] {
        for m in writable_open_modes(api) {
            let truncates_itself = matches!(m, FileAccessMode::WriteTruncate | FileAccessMode::ReadWriteTruncate)
                || (m == FileAccessMode::Write && api <= ANDROID_9);
            assert!(truncates_itself || needs_truncate_after_open(api, m));
        }
    }
}

fn split_records(mut buf: &[u8]) -> Option<Vec<Vec<u8>>> {
    let mut lines = Vec::new();
    while !buf.is_empty() {
        if buf.len() < 8 {
            return None;
        }
        let n = u64::from_be_bytes(buf[..8].try_into().unwrap()) as usize;
        if buf.len() < 8 + n {
            return None;
        }
        lines.push(buf[8..8 + n].to_vec());
        buf = &buf[8 + n..];
    }
    Some(lines)
}

#[test]
fn framed_lines_read_back_in_order() {
    let input: [&[u8]; 4] = [b"first\n", b"\r\n", b"third\r\n", b"last"];
    let mut buf = Vec::new();
    for line in input {
        push_line_record(&mut buf, line, 0, true, u64::MAX).ok().unwrap();
    }
    let expected: Vec<Vec<u8>> = vec![b"first".to_vec(), Vec::new(), b"third".to_vec(), b"last".to_vec()];
    assert_eq!(split_records(&buf), Some(expected));
}

#[test]
fn public_files_are_scanned_only_before_android_10() {
    assert!(public_file_needs_scan(28));
    assert!(!public_file_needs_scan(29));
    assert!(!public_file_needs_scan(30));
    assert!(public_file_pending_supported(29));
    assert!(!public_file_pending_supported(28));
}

#[test]
fn writable_open_tries_modes_in_order() {
    assert_eq!(writable_open_next(33, 0, false), OpenAction::Try(FileAccessMode::WriteTruncate));
    assert_eq!(writable_open_next(33, 1, false), OpenAction::Try(FileAccessMode::ReadWriteTruncate));
    assert_eq!(writable_open_next(33, 2, false), OpenAction::Try(FileAccessMode::Write));
    assert_eq!(writable_open_next(33, 3, false), OpenAction::Fail);
    assert_eq!(writable_open_next(33, 1, true), OpenAction::Done { truncate: false });
    assert_eq!(writable_open_next(33, 3, true), OpenAction::Done { truncate: true });
    assert_eq!(writable_open_next(28, 0, false), OpenAction::Try(FileAccessMode::Write));
    assert_eq!(writable_open_next(28, 1, true), OpenAction::Done { truncate: false });
    assert_eq!(writable_open_next(28, 1, false), OpenAction::Fail);
}

#[test]
fn writing_a_new_public_file_publishes_only_complete_files() {
    assert_eq!(write_new_next(33, WriteNewOutcome::Start), WriteNewStep::CreatePending);
    assert_eq!(write_new_next(33, WriteNewOutcome::Created), WriteNewStep::Write);
    assert_eq!(write_new_next(33, WriteNewOutcome::CreateFailed), WriteNewStep::Fail);
    assert_eq!(write_new_next(33, WriteNewOutcome::WriteFailed), WriteNewStep::RemoveAndFail);
    assert_eq!(write_new_next(33, WriteNewOutcome::Written), WriteNewStep::Publish { clear_pending: true, scan: false });
    assert_eq!(write_new_next(29, WriteNewOutcome::Written), WriteNewStep::Publish { clear_pending: true, scan: false });
    assert_eq!(write_new_next(28, WriteNewOutcome::Written), WriteNewStep::Publish { clear_pending: false, scan: true });
}

#[test]
fn thumbnail_requests_are_checked_in_order() {
    let content = FileUri { uri: "content://media/1".to_string(), document_top_tree_uri: None };
    let local = FileUri::from_path("/data/x.png");
    let other = FileUri { uri: "https://x".to_string(), document_top_tree_uri: None };
    match check_thumbnail_request(false, true, Some(&content), true) {
        Err(ProtocolError::InternalServerError { msg }) => assert_eq!(msg, "Missing protocol-thumbnail feature"),
        r => panic!("unexpected {r:?}"),
    }
    assert!(matches!(check_thumbnail_request(true, false, Some(&content), true), Err(ProtocolError::Forbidden)));
    match check_thumbnail_request(true, true, None, true) {
        Err(ProtocolError::BadRequest { msg }) => assert_eq!(msg, "Bad URI format"),
        r => panic!("unexpected {r:?}"),
    }
    assert!(matches!(check_thumbnail_request(true, true, Some(&other), true), Err(ProtocolError::BadRequest { .. })));
    assert!(matches!(check_thumbnail_request(true, true, Some(&local), false), Err(ProtocolError::Forbidden)));
    assert!(check_thumbnail_request(true, true, Some(&local), true).is_ok());
    assert!(check_thumbnail_request(true, true, Some(&content), false).is_ok());
}

#[test]
fn thumbnail_format_follows_query_then_accept_header() {
    let ranked = |mime: &str, q: Option<f32>| RankedAcceptEntry {
        mime: mime.to_string(),
        q_keys: q.map(|q| vec![Some(q.to_bits())]).unwrap_or_default(),
    };
    assert_eq!(thumbnail_format("f=PNG&w=10", &[ranked("image/webp", None)]), ImageFormatKind::Png);
    assert_eq!(thumbnail_format("f=gif", &[ranked("image/webp", None)]), ImageFormatKind::Webp);
    assert_eq!(thumbnail_format("", &[]), ImageFormatKind::Jpeg);
    assert_eq!(thumbnail_format("", &[ranked("image/*", None)]), ImageFormatKind::Jpeg);
    assert_eq!(
        thumbnail_format("", &[ranked("image/png", Some(1.0)), ranked("image/webp", Some(0.5))]),
        ImageFormatKind::Png
    );
    assert_eq!(thumbnail_format("", &[ranked("text/html", None)]), ImageFormatKind::Jpeg);
}

#[test]
fn missing_thumbnails_are_not_found() {
    assert!(matches!(
        thumbnail_result(RequestMethod::Other, None, "image/png", "GET, HEAD".to_string()),
        Err(ProtocolError::NotFound)
    ));
    let ok = thumbnail_result(RequestMethod::Head, Some(vec![1, 2]), "image/png", "GET, HEAD".to_string()).ok().unwrap();
    assert_eq!(ok.content_len, 2);
    assert!(ok.body.is_empty());
}

#[test]
fn a_sequence_of_inserts_keeps_the_newest_keys() {
    let mut m: BoundedHashMap<u64, u64> = BoundedHashMap::with_bound(3);
    for (k, v) in [(1, 10), (2, 20), (3, 30), (1, 11), (4, 40), (5, 50), (4, 41)] {
        m.insert(k, v);
    }
    // By last insertion: 2, 3, 1, 5, 4; the newest three are 1, 5, 4.
    assert_eq!(m.get(&1), Some(&11));
    assert_eq!(m.get(&5), Some(&50));
    assert_eq!(m.get(&4), Some(&41));
    assert_eq!(m.get(&2), None);
    assert_eq!(m.get(&3), None);
    let mut empty: BoundedHashMap<u64, u64> = BoundedHashMap::with_bound(0);
    empty.insert(1, 1);
    assert_eq!(empty.get(&1), None);
}

#[test]
fn the_counter_hands_out_k_minus_one_at_call_k() {
    let mut c = TmpFileIdCounter::new();
    for k in 1..=100usize {
        assert_eq!(c.next_id_for_tmp_file(), k - 1);
    }
}

#[test]
fn invalid_utf8_lines_report_std_error_text() {
    let mut buf = Vec::new();
    let e = push_line_record(&mut buf, b"a\xffb\n", 0, true, 10).err().unwrap();
    assert_eq!(e.message(), "invalid utf-8 sequence of 1 bytes from index 1");
    assert!(buf.is_empty());
}
