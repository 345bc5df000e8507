use android_fs::stream::{open_stream, publish_result, stream_output_for, stream_step, StreamAction, StreamEvent, StreamOutput};
use android_fs::FileUri;

fn target() -> FileUri {
    FileUri { uri: "content://com.google.android.apps.docs.storage/document/1".to_string(), document_top_tree_uri: None }
}

fn run(output: StreamOutput, events: &[StreamEvent]) -> Vec<StreamAction> {
    let mut state = open_stream(output);
    let mut actions = Vec::new();
    for &e in events {
        let (next, a) = stream_step(state, e);
        state = next;
        actions.push(a);
    }
    actions
}

fn finishing(a: &StreamAction) -> bool {
    matches!(a, StreamAction::Close | StreamAction::PublishBuffer { .. } | StreamAction::DiscardBuffer { .. })
}

#[test]
fn direct_stream_syncs_and_closes_once() {
    let actions = run(
        StreamOutput::Target,
        &[StreamEvent::SyncAll, StreamEvent::SyncData, StreamEvent::Reflect, StreamEvent::Drop, StreamEvent::SyncAll],
    );
    assert!(matches!(actions[0], StreamAction::SyncAll));
    assert!(matches!(actions[1], StreamAction::SyncData));
    assert!(matches!(actions[2], StreamAction::Close));
    assert!(matches!(actions[3], StreamAction::Nothing));
    assert!(matches!(actions[4], StreamAction::Nothing));
}

#[test]
fn buffered_stream_publishes_on_reflect_and_on_drop() {
    let out = || StreamOutput::TempBuffer { tmp_path: "/cache/tmp/3".to_string(), target_uri: target() };
    let actions = run(out(), &[StreamEvent::SyncAll, StreamEvent::Reflect, StreamEvent::Dispose]);
    assert!(matches!(actions[0], StreamAction::Nothing));
    match &actions[1] {
        StreamAction::PublishBuffer { tmp_path, target_uri } => {
            assert_eq!(tmp_path, "/cache/tmp/3");
            assert_eq!(target_uri, &target());
        }
        _ => panic!("expected the buffer to be published"),
    }
    assert!(matches!(actions[2], StreamAction::Nothing));
    let dropped = run(out(), &[StreamEvent::Drop]);
    assert!(matches!(dropped[0], StreamAction::PublishBuffer { .. }));
}

#[test]
fn buffered_stream_is_discarded_on_dispose() {
    let out = StreamOutput::TempBuffer { tmp_path: "/cache/tmp/4".to_string(), target_uri: target() };
    let actions = run(out, &[StreamEvent::Dispose, StreamEvent::Reflect, StreamEvent::Drop]);
    match &actions[0] {
        StreamAction::DiscardBuffer { tmp_path } => assert_eq!(tmp_path, "/cache/tmp/4"),
        _ => panic!("expected the buffer to be discarded"),
    }
    assert_eq!(actions.iter().filter(|a| finishing(a)).count(), 1);
}

#[test]
fn output_follows_the_need_to_write_through_the_platform() {
    assert!(matches!(stream_output_for(false, None, target()), Some(StreamOutput::Target)));
    assert!(matches!(stream_output_for(false, Some("/t".to_string()), target()), Some(StreamOutput::Target)));
    assert!(stream_output_for(true, None, target()).is_none());
    match stream_output_for(true, Some("/t".to_string()), target()) {
        Some(StreamOutput::TempBuffer { tmp_path, .. }) => assert_eq!(tmp_path, "/t"),
        _ => panic!("expected a temporary buffer"),
    }
}

#[test]
fn publishing_reports_the_first_failure() {
    assert_eq!(publish_result::<&str>(Ok(()), Ok(()), Ok(())), Ok(()));
    assert_eq!(publish_result(Err("sync"), Err("copy"), Err("remove")), Err("sync"));
    assert_eq!(publish_result(Ok(()), Err("copy"), Err("remove")), Err("copy"));
    assert_eq!(publish_result(Ok(()), Ok(()), Err("remove")), Err("remove"));
}
