//! The life of a writable stream. A stream writes either straight into its
//! target file or, where the target's provider drops writes made through a
//! file descriptor, into a temporary buffer file that is copied to the target
//! when the stream is reflected. This module decides, for each thing done to
//! a stream, what happens to the files; the caller does it.

use vstd::prelude::*;
use crate::models::FileUri;

verus! {

/// Where the bytes written to a stream go.
pub enum StreamOutput {
    /// Straight into the target file.
    Target,
    /// Into a temporary file, which is copied to the target when the stream is reflected.
    TempBuffer { tmp_path: String, target_uri: FileUri },
}

/// What the owner of a stream does to it.
#[derive(Debug, Clone, Copy, PartialEq, Eq)]
pub enum StreamEvent {
    /// Flush data and metadata to the device.
    SyncAll,
    /// Flush data to the device.
    SyncData,
    /// Finish writing and make the contents visible at the target.
    Reflect,
    /// Finish without making the contents visible at the target.
    Dispose,
    /// The stream is dropped without having been finished.
    Drop,
}

/// What is done to the files in answer to an event.
pub enum StreamAction {
    /// Nothing.
    Nothing,
    /// `sync_all` on the output file.
    SyncAll,
    /// `sync_data` on the output file.
    SyncData,
    /// Close the output file, which is the target itself.
    Close,
    /// Flush and close the buffer, copy it to the target through the platform, and remove it.
    PublishBuffer { tmp_path: String, target_uri: FileUri },
    /// Close the buffer and remove it.
    DiscardBuffer { tmp_path: String },
}

/// A stream: its output while it is open, nothing once it is finished.
pub struct WritableStreamState {
    pub output: Option<StreamOutput>,
}

/// Whether an action finishes the stream.
pub open spec fn is_finishing(a: StreamAction) -> bool {
    a is Close || a is PublishBuffer || a is DiscardBuffer
}

/// The output after an event and the action taken: syncing reaches only a
/// target written directly and leaves the stream open; reflecting, disposing
/// and dropping finish an open stream, a buffer being published on reflect and
/// drop and discarded on dispose; a finished stream does nothing.
pub open spec fn spec_stream_step(output: Option<StreamOutput>, event: StreamEvent) -> (Option<StreamOutput>, StreamAction) {
    match output {
        None => (None, StreamAction::Nothing),
        Some(out) => match event {
            StreamEvent::SyncAll => (Some(out), if out is Target { StreamAction::SyncAll } else { StreamAction::Nothing }),
            StreamEvent::SyncData => (Some(out), if out is Target { StreamAction::SyncData } else { StreamAction::Nothing }),
            StreamEvent::Reflect | StreamEvent::Drop => (None, match out {
                StreamOutput::Target => StreamAction::Close,
                StreamOutput::TempBuffer { tmp_path, target_uri } => StreamAction::PublishBuffer { tmp_path, target_uri },
            }),
            StreamEvent::Dispose => (None, match out {
                StreamOutput::Target => StreamAction::Close,
                StreamOutput::TempBuffer { tmp_path, .. } => StreamAction::DiscardBuffer { tmp_path },
            }),
        },
    }
}

/// The state of a stream that has just been opened.
pub fn open_stream(output: StreamOutput) -> (r: WritableStreamState)
    ensures
        r.output == Some(output),
{
    WritableStreamState { output: Some(output) }
}

/// The output that a new stream writes to: a temporary buffer for a target that
/// must be written through the platform, the target itself otherwise.
pub fn stream_output_for(need_write_via_platform: bool, tmp_path: Option<String>, target_uri: FileUri) -> (r: Option<StreamOutput>)
    ensures
        !need_write_via_platform ==> r == Some(StreamOutput::Target),
        need_write_via_platform ==> match tmp_path {
            Some(p) => r == Some(StreamOutput::TempBuffer { tmp_path: p, target_uri }),
            None => r is None,
        },
{
    if need_write_via_platform {
        match tmp_path {
            Some(p) => Some(StreamOutput::TempBuffer { tmp_path: p, target_uri }),
            None => None,
        }
    } else {
        Some(StreamOutput::Target)
    }
}

/// Decides what an event does to a stream, and the stream after it.
pub fn stream_step(state: WritableStreamState, event: StreamEvent) -> (r: (WritableStreamState, StreamAction))
    ensures
        (r.0.output, r.1) == spec_stream_step(state.output, event),
{
    match state.output {
        None => (WritableStreamState { output: None }, StreamAction::Nothing),
        Some(out) => match event {
            StreamEvent::SyncAll => {
                let a = match &out {
                    StreamOutput::Target => StreamAction::SyncAll,
                    StreamOutput::TempBuffer { .. } => StreamAction::Nothing,
                };
                (WritableStreamState { output: Some(out) }, a)
            },
            StreamEvent::SyncData => {
                let a = match &out {
                    StreamOutput::Target => StreamAction::SyncData,
                    StreamOutput::TempBuffer { .. } => StreamAction::Nothing,
                };
                (WritableStreamState { output: Some(out) }, a)
            },
            StreamEvent::Reflect | StreamEvent::Drop => {
                let a = match out {
                    StreamOutput::Target => StreamAction::Close,
                    StreamOutput::TempBuffer { tmp_path, target_uri } => StreamAction::PublishBuffer { tmp_path, target_uri },
                };
                (WritableStreamState { output: None }, a)
            },
            StreamEvent::Dispose => {
                let a = match out {
                    StreamOutput::Target => StreamAction::Close,
                    StreamOutput::TempBuffer { tmp_path, .. } => StreamAction::DiscardBuffer { tmp_path },
                };
                (WritableStreamState { output: None }, a)
            },
        },
    }
}

/// The actions taken for a sequence of events, from a given output.
pub open spec fn run_stream(output: Option<StreamOutput>, events: Seq<StreamEvent>) -> Seq<StreamAction>
    decreases events.len(),
{
    if events.len() == 0 {
        seq![]
    } else {
        let step = spec_stream_step(output, events[0]);
        seq![step.1] + run_stream(step.0, events.drop_first())
    }
}

/// How many of the actions finish the stream.
pub open spec fn finishing_count(actions: Seq<StreamAction>) -> nat
    decreases actions.len(),
{
    if actions.len() == 0 {
        0
    } else {
        (if is_finishing(actions[0]) { 1nat } else { 0nat }) + finishing_count(actions.drop_first())
    }
}

proof fn lemma_finished_stream_does_nothing(events: Seq<StreamEvent>)
    ensures
        finishing_count(run_stream(None, events)) == 0,
    decreases events.len(),
{
    if events.len() > 0 {
        lemma_finished_stream_does_nothing(events.drop_first());
        let acts = run_stream(None, events);
        assert(acts[0] == StreamAction::Nothing);
        assert(acts.drop_first() =~= run_stream(None, events.drop_first()));
    }
}

/// Whatever is done to a stream, it is finished at most once: its target is
/// closed, or its buffer published or discarded, no more than one time in all.
pub proof fn law_stream_finishes_at_most_once(output: Option<StreamOutput>, events: Seq<StreamEvent>)
    ensures
        finishing_count(run_stream(output, events)) <= 1,
    decreases events.len(),
{
    if events.len() > 0 {
        let step = spec_stream_step(output, events[0]);
        let acts = run_stream(output, events);
        assert(acts[0] == step.1);
        assert(acts.drop_first() =~= run_stream(step.0, events.drop_first()));
        if is_finishing(step.1) {
            assert(step.0 is None);
            lemma_finished_stream_does_nothing(events.drop_first());
        } else {
            law_stream_finishes_at_most_once(step.0, events.drop_first());
        }
    }
}

/// A buffered stream is never synced in place and never closes the target
/// directly: what it does to the files is to publish or discard its own buffer.
pub proof fn law_buffered_stream_touches_only_its_buffer(tmp_path: String, target_uri: FileUri, event: StreamEvent)
    ensures
        ({
            let a = spec_stream_step(Some(StreamOutput::TempBuffer { tmp_path, target_uri }), event).1;
            match a {
                StreamAction::Nothing => true,
                StreamAction::PublishBuffer { tmp_path: p, target_uri: u } => p == tmp_path && u == target_uri,
                StreamAction::DiscardBuffer { tmp_path: p } => p == tmp_path,
                _ => false,
            }
        }),
{
}


/// The result of publishing a buffer, whose three steps (flushing and closing
/// the buffer, copying it to the target, removing it) are all attempted in
/// turn: the first failure, or success when none failed.
pub fn publish_result<E>(flushed: Result<(), E>, copied: Result<(), E>, removed: Result<(), E>) -> (r: Result<(), E>)
    ensures
        r == (if flushed is Err { flushed } else if copied is Err { copied } else { removed }),
{
    match flushed {
        Err(e) => Err(e),
        Ok(()) => match copied {
            Err(e) => Err(e),
            Ok(()) => removed,
        },
    }
}

} // verus!
