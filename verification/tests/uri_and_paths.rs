use android_fs::paths::{join_path_exec, resolve_entry_uri_unvalidated, trim_leading_slashes, validate_relative_path};
use android_fs::uri_encoding::{encode_android_uri_component, encode_document_id};
use android_fs::protocol::decode_request_path;
use android_fs::FileUri;

#[test]
fn encodes_reserved_and_multibyte_characters() {
    assert_eq!(encode_android_uri_component("a b/c"), "a%20b%2Fc");
    assert_eq!(encode_android_uri_component("AZaz09_-!.~'()*"), "AZaz09_-!.~'()*");
    assert_eq!(encode_android_uri_component("日"), "%E6%97%A5");
    assert_eq!(encode_android_uri_component(""), "");
    assert_eq!(encode_document_id("MyApp/2025-10-22"), "MyApp%2F2025-10-22");
    assert_eq!(encode_document_id("a:b"), "a%3Ab");
}

#[test]
fn request_path_decodes_an_encoded_component() {
    let component = "{\"uri\":\"content://x/y\",\"documentTopTreeUri\":null} ü";
    let path = format!("/{}", encode_android_uri_component(component));
    assert_eq!(decode_request_path(&path).as_deref(), Some(component));
}

#[test]
fn request_path_decoding_edge_cases() {
    assert_eq!(decode_request_path("///abc").as_deref(), Some("abc"));
    assert_eq!(decode_request_path("/%41%62%zz%").as_deref(), Some("Ab%zz%"));
    assert_eq!(decode_request_path("/%e6%97%a5").as_deref(), Some("日"));
    assert_eq!(decode_request_path("/%FF"), None);
    assert_eq!(decode_request_path("").as_deref(), Some(""));
}

#[test]
fn relative_paths_are_validated() {
    assert_eq!(validate_relative_path("a/b.txt").ok(), Some("a/b.txt"));
    assert_eq!(validate_relative_path("").ok(), Some(""));
    assert_eq!(validate_relative_path("a/./b").ok(), Some("a/./b"));
    assert_eq!(validate_relative_path("..a/b..").ok(), Some("..a/b.."));
    assert_eq!(
        validate_relative_path("/a").err().map(|e| e.message().to_string()).as_deref(),
        Some("must not start with root directory")
    );
    assert_eq!(
        validate_relative_path("./a").err().map(|e| e.message().to_string()).as_deref(),
        Some("must not contain current directory, i.e., '.'")
    );
    assert_eq!(
        validate_relative_path(".").err().map(|e| e.message().to_string()).as_deref(),
        Some("must not contain current directory, i.e., '.'")
    );
    assert_eq!(
        validate_relative_path("a/../b").err().map(|e| e.message().to_string()).as_deref(),
        Some("must not contain parent directory, i.e., '..'")
    );
    assert_eq!(
        validate_relative_path("a/..").err().map(|e| e.message().to_string()).as_deref(),
        Some("must not contain parent directory, i.e., '..'")
    );
}

#[test]
fn joins_paths_like_path_join() {
    assert_eq!(join_path_exec("/data/x", "a.txt"), "/data/x/a.txt");
    assert_eq!(join_path_exec("/data/x/", "a.txt"), "/data/x/a.txt");
    assert_eq!(join_path_exec("", "a.txt"), "a.txt");
}

#[test]
fn resolves_entries_under_file_and_content_directories() {
    let dir = FileUri::from_path("/storage/emulated/0/Download");
    let file = resolve_entry_uri_unvalidated(&dir, "MyApp/a b.txt").ok().unwrap();
    assert_eq!(file.uri, "file:///storage/emulated/0/Download/MyApp/a b.txt");
    assert_eq!(file.document_top_tree_uri, None);
    assert_eq!(file.as_path(), Some("/storage/emulated/0/Download/MyApp/a b.txt"));

    let tree = FileUri {
        uri: "content://com.android.externalstorage.documents/tree/primary%3ADocs/document/primary%3ADocs".to_string(),
        document_top_tree_uri: Some("content://com.android.externalstorage.documents/tree/primary%3ADocs".to_string()),
    };
    let entry = resolve_entry_uri_unvalidated(&tree, "a/b.txt").ok().unwrap();
    assert_eq!(
        entry.uri,
        "content://com.android.externalstorage.documents/tree/primary%3ADocs/document/primary%3ADocs%2Fa%2Fb.txt"
    );
    assert_eq!(entry.document_top_tree_uri, tree.document_top_tree_uri);

    let same = resolve_entry_uri_unvalidated(&tree, "").ok().unwrap();
    assert_eq!(same, tree);

    let refused = resolve_entry_uri_unvalidated(&tree, "../x").err().unwrap();
    assert_eq!(refused.message(), "must not contain parent directory, i.e., '..'");
}

#[test]
fn file_uri_round_trips_its_path() {
    let uri = FileUri::from_path("/data/user/0/app/files/a.txt");
    assert_eq!(uri.uri, "file:///data/user/0/app/files/a.txt");
    assert_eq!(uri.as_path(), Some("/data/user/0/app/files/a.txt"));
    assert!(!uri.is_content_scheme());

    let content = FileUri { uri: "content://media/external/images/1".to_string(), document_top_tree_uri: None };
    assert_eq!(content.as_path(), None);
    assert!(content.is_content_scheme());

    let doubled = FileUri { uri: "file://file:///a".to_string(), document_top_tree_uri: None };
    assert_eq!(doubled.as_path(), Some("/a"));
}

#[test]
fn leading_slashes_are_trimmed() {
    assert_eq!(trim_leading_slashes("//a/b"), "a/b");
    assert_eq!(trim_leading_slashes("a/b"), "a/b");
    assert_eq!(trim_leading_slashes("///"), "");
}

#[test]
fn empty_patterns_trim_nothing() {
    assert_eq!(android_fs::text::trim_start_matches("//a", ""), "//a");
    assert_eq!(android_fs::text::trim_start_matches("abab-x", "ab"), "-x");
}
