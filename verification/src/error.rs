//! Errors that the library itself raises.

use crate::dag::DagNode;
use crate::media::MediaType;
use crate::node_text::{node_text, show_node};
use crate::text::{decimal, quote};
use vstd::prelude::*;
use vstd::string::StringExecFns;

verus! {

/// What a caller should make of an error.
#[derive(Clone, Copy, Debug, PartialEq, Eq, Structural)]
pub enum ErrorKind {
    Unsupported,
    InvalidData,
    FormatNotFound,
    CodecNotFound,
    Cancelled,
    Other,
}

/// An error that the library itself raises.
#[allow(inconsistent_fields)]
pub enum JobError {
    /// No stream of the source has the media type that was asked for.
    NoStreamMatches { kind: Option<MediaType>, index: Option<u32> },
    /// Fewer streams match than the selector's ordinal asks for.
    SelectorOutOfRange { index: u32 },
    /// A track's source is not among the opened ones.
    SourceNotOpened { uri: String, known: Option<String> },
    /// The selected stream's index is not in the source's stream list.
    StreamNotInSource,
    /// An output's root is something else than a mux.
    NotAMux { output: String, found: DagNode },
    /// A render leaf that no source was opened for.
    UnresolvedRender { source: String, backend: String },
    NestedSelect,
    MuxInChain,
    /// A render leaf without a factory to open it.
    NoRenderFactory { source: String, backend: String },
    /// A render leaf whose source is already open.
    RenderCollision { source: String },
    MultiTitle { uri: String },
    UnknownSourceKind { uri: String },
    ReservedSink { name: String },
    AliasSink { name: String },
    NoExtension { name: String },
    NoMuxer { ext: String },
    ZeroPorts { filter: String },
    UndeclaredPort { port: u64, declared: u64 },
    TrackSinkCount { sinks: u64, tracks: u64 },
    TrackSinkExtras,
    CopyOverFrames,
    NoDecoder,
    NoOutputs,
    ManyOutputs,
    SeekClosed,
    WorkerPanicked,
    OutputPanicked,
    StoppedTwice,
    TrackSinkFailed,
    NoImplementation { codec_id: String },
    NoFittingDecoder { codec_id: String },
    NoFittingEncoder { codec_id: String },
    AlreadyPrepared,
    NoStreamWithIndex { index: u32 },
    NoStreamOfType { kind: MediaType },
    SinkRejected,
    NoInputStreams,
    AllStreamsDropped,
    CannotReencode { kind: MediaType, index: u32 },
    UseTranscodeSimple,
    /// Parking at end of stream was asked for over a source without seeking.
    ParkNeedsSeek,
    /// Parking at end of stream was asked for with an encoder in the graph.
    ParkWithEncoder,
}

/// The name of a media type.
pub open spec fn media_name(kind: MediaType) -> Seq<char> {
    match kind {
        MediaType::Audio => "Audio"@,
        MediaType::Video => "Video"@,
        MediaType::Subtitle => "Subtitle"@,
        MediaType::Data => "Data"@,
        MediaType::Unknown => "Unknown"@,
    }
}

/// Writes the name of a media type.
pub fn media_type_name(kind: MediaType) -> (r: &'static str)
    ensures
        r@ == media_name(kind),
{
    match kind {
        MediaType::Audio => "Audio",
        MediaType::Video => "Video",
        MediaType::Subtitle => "Subtitle",
        MediaType::Data => "Data",
        MediaType::Unknown => "Unknown",
    }
}

/// A selector as it is shown in messages.
pub open spec fn selector_text(kind: Option<MediaType>, index: Option<u32>) -> Seq<char> {
    "ResolvedSelector { kind: "@ + (match kind {
        Some(k) => "Some("@ + media_name(k) + ")"@,
        None => "None"@,
    }) + ", index: "@ + (match index {
        Some(i) => "Some("@ + crate::text::digits(i as nat) + ")"@,
        None => "None"@,
    }) + " }"@
}

pub(crate) fn show_selector(kind: Option<MediaType>, index: Option<u32>) -> (r: String)
    ensures
        r@ == selector_text(kind, index),
{
    let mut r = String::from_str("ResolvedSelector { kind: ");
    match kind {
        Some(k) => {
            let mut s = String::from_str("Some(");
            s.append(media_type_name(k));
            s.append(")");
            r.append(s.as_str());
        },
        None => {
            r.append("None");
        },
    }
    r.append(", index: ");
    match index {
        Some(i) => {
            let mut s = String::from_str("Some(");
            s.append(decimal(i as u64).as_str());
            s.append(")");
            r.append(s.as_str());
        },
        None => {
            r.append("None");
        },
    }
    r.append(" }");
    r
}

impl JobError {
    pub open spec fn kind_spec(self) -> ErrorKind {
        match self {
            JobError::NoStreamMatches { .. }
            | JobError::SelectorOutOfRange { .. }
            | JobError::SourceNotOpened { .. }
            | JobError::StreamNotInSource
            | JobError::NotAMux { .. }
            | JobError::RenderCollision { .. }
            | JobError::AliasSink { .. }
            | JobError::NoExtension { .. }
            | JobError::ZeroPorts { .. }
            | JobError::UndeclaredPort { .. }
            | JobError::TrackSinkCount { .. }
            | JobError::NoOutputs
            | JobError::ManyOutputs
            | JobError::NoStreamWithIndex { .. }
            | JobError::NoStreamOfType { .. }
            | JobError::NoInputStreams
            | JobError::AllStreamsDropped => ErrorKind::InvalidData,
            JobError::NoRenderFactory { .. }
            | JobError::MultiTitle { .. }
            | JobError::UnknownSourceKind { .. }
            | JobError::ReservedSink { .. }
            | JobError::TrackSinkExtras
            | JobError::CannotReencode { .. }
            | JobError::UseTranscodeSimple
            | JobError::ParkNeedsSeek
            | JobError::ParkWithEncoder => ErrorKind::Unsupported,
            JobError::NoMuxer { .. } => ErrorKind::FormatNotFound,
            JobError::NoImplementation { .. }
            | JobError::NoFittingDecoder { .. }
            | JobError::NoFittingEncoder { .. } => ErrorKind::CodecNotFound,
            JobError::TrackSinkFailed => ErrorKind::Cancelled,
            JobError::UnresolvedRender { .. }
            | JobError::NestedSelect
            | JobError::MuxInChain
            | JobError::CopyOverFrames
            | JobError::NoDecoder
            | JobError::SeekClosed
            | JobError::WorkerPanicked
            | JobError::OutputPanicked
            | JobError::StoppedTwice
            | JobError::AlreadyPrepared
            | JobError::SinkRejected => ErrorKind::Other,
        }
    }

    /// What a caller should make of the error.
    pub fn kind(&self) -> (r: ErrorKind)
        ensures
            r == self.kind_spec(),
    {
        match self {
            JobError::NoStreamMatches { .. }
            | JobError::SelectorOutOfRange { .. }
            | JobError::SourceNotOpened { .. }
            | JobError::StreamNotInSource
            | JobError::NotAMux { .. }
            | JobError::RenderCollision { .. }
            | JobError::AliasSink { .. }
            | JobError::NoExtension { .. }
            | JobError::ZeroPorts { .. }
            | JobError::UndeclaredPort { .. }
            | JobError::TrackSinkCount { .. }
            | JobError::NoOutputs
            | JobError::ManyOutputs
            | JobError::NoStreamWithIndex { .. }
            | JobError::NoStreamOfType { .. }
            | JobError::NoInputStreams
            | JobError::AllStreamsDropped => ErrorKind::InvalidData,
            JobError::NoRenderFactory { .. }
            | JobError::MultiTitle { .. }
            | JobError::UnknownSourceKind { .. }
            | JobError::ReservedSink { .. }
            | JobError::TrackSinkExtras
            | JobError::CannotReencode { .. }
            | JobError::UseTranscodeSimple
            | JobError::ParkNeedsSeek
            | JobError::ParkWithEncoder => ErrorKind::Unsupported,
            JobError::NoMuxer { .. } => ErrorKind::FormatNotFound,
            JobError::NoImplementation { .. }
            | JobError::NoFittingDecoder { .. }
            | JobError::NoFittingEncoder { .. } => ErrorKind::CodecNotFound,
            JobError::TrackSinkFailed => ErrorKind::Cancelled,
            JobError::UnresolvedRender { .. }
            | JobError::NestedSelect
            | JobError::MuxInChain
            | JobError::CopyOverFrames
            | JobError::NoDecoder
            | JobError::SeekClosed
            | JobError::WorkerPanicked
            | JobError::OutputPanicked
            | JobError::StoppedTwice
            | JobError::AlreadyPrepared
            | JobError::SinkRejected => ErrorKind::Other,
        }
    }

    /// The message that goes with the error.
    pub open spec fn text(self) -> Seq<char> {
        match self {
            JobError::NoStreamMatches { kind, index } => "job: no streams match selector "@
                + selector_text(kind, index),
            JobError::SelectorOutOfRange { index } => "job: selector index "@
                + crate::text::digits(index as nat) + " out of range"@,
            JobError::SourceNotOpened { uri, known } => "job: track references source "@
                + crate::text::quoted(uri@) + " but no source was opened for that URI"@ + (
            match known {
                Some(list) => " (known URIs: "@ + list@ + ")"@,
                None => ""@,
            }) + " — this is an internal pipeline-resolver bug"@,
            JobError::StreamNotInSource => "selected stream not in source"@,
            JobError::NotAMux { output, found } => "job: output "@ + output@
                + ": expected Mux root, got "@ + node_text(found),
            JobError::UnresolvedRender { source, backend } =>
                "internal: Render3D node for source "@ + crate::text::quoted(source@)
                + " (backend "@ + crate::text::quoted(backend@)
                + ") reached build_track_runtime — resolve_source_shapes should have rewritten it first"@,
            JobError::NestedSelect =>
                "job: nested Select above non-source-leaf is not yet supported"@,
            JobError::MuxInChain => "job: walked into a Mux node while building track runtime"@,
            JobError::NoRenderFactory { source, backend } => "Render3D node for source "@
                + crate::text::quoted(source@) + " (backend "@ + crate::text::quoted(backend@)
                + ") requires a render_source_factory on the Executor — install via Executor::with_render_source_factory(...)"@,
            JobError::RenderCollision { source } => "Render3D node for source "@
                + crate::text::quoted(source@)
                + " collides with an already-opened source URI; each source URI must be unique in the DAG"@,
            JobError::MultiTitle { uri } => uri@
                + ": this URI opens a multi-title source; use `oxideav remux <uri> <pattern-with-%s>` to fan out one output file per title"@,
            JobError::UnknownSourceKind { uri } => uri@
                + ": source kind not yet supported by the pipeline executor"@,
            JobError::ReservedSink { name } => "job: no handler registered for reserved sink "@
                + name@ + " (use with_sink_override)"@,
            JobError::AliasSink { name } => "job: alias "@ + name@
                + " cannot be used as an output sink"@,
            JobError::NoExtension { name } => "job: output "@ + name@ + ": no extension"@,
            JobError::NoMuxer { ext } => "no muxer registered for extension ."@ + ext@,
            JobError::ZeroPorts { filter } => "filter '"@ + filter@
                + "' declares zero output ports"@,
            JobError::UndeclaredPort { port, declared } => "filter emitted on port "@
                + crate::text::digits(port as nat) + " but declared only "@
                + crate::text::digits(declared as nat) + " ports"@,
            JobError::TrackSinkCount { sinks, tracks } => "pipeline: JobSink returned "@
                + crate::text::digits(sinks as nat) + " TrackSinks for "@ + crate::text::digits(
                tracks as nat,
            ) + " pipeline tracks"@,
            JobError::TrackSinkExtras =>
                "pipeline: independent TrackSinks do not yet support multi-port filter extras"@,
            JobError::CopyOverFrames =>
                "pipeline: copy track over a frame-shape source is not representable (frames carry no packets to copy)"@,
            JobError::NoDecoder => "pipeline: non-copy track without a decoder is not supported"@,
            JobError::NoOutputs => "job: no outputs to spawn"@,
            JobError::ManyOutputs =>
                "job: spawn() supports a single output today; use run() for multi-output jobs"@,
            JobError::SeekClosed => "ExecutorHandle: seek channel closed (executor exited)"@,
            JobError::WorkerPanicked => "ExecutorHandle: worker thread panicked"@,
            JobError::OutputPanicked => "pipeline: output worker thread panicked"@,
            JobError::StoppedTwice => "ExecutorHandle: stop() called twice or after drop"@,
            JobError::TrackSinkFailed =>
                "pipeline: independent TrackSink failed; aborting sibling stages"@,
            JobError::NoImplementation { codec_id } => codec_id@,
            JobError::NoFittingDecoder { codec_id } => "no decoder for "@ + codec_id@
                + " accepts the requested parameters"@,
            JobError::NoFittingEncoder { codec_id } => "no encoder for "@ + codec_id@
                + " accepts the requested parameters"@,
            JobError::AlreadyPrepared => "pipeline already prepared"@,
            JobError::NoStreamWithIndex { index } => "no stream with index "@
                + crate::text::digits(index as nat),
            JobError::NoStreamOfType { kind } => "no "@ + media_name(kind)
                + " stream in source"@,
            JobError::SinkRejected => "sink rejected stream"@,
            JobError::NoInputStreams => "no streams in input"@,
            JobError::AllStreamsDropped => "every input stream was dropped — nothing to mux"@,
            JobError::CannotReencode { kind, index } =>
                "transcode_simple Reencode: cannot reencode "@ + media_name(kind) + " stream "@
                + crate::text::digits(index as nat),
            JobError::UseTranscodeSimple => "use transcode_simple"@,
            JobError::ParkNeedsSeek =>
                "job: EofMode::WaitForSeek requires every routed source to support seeking"@,
            JobError::ParkWithEncoder =>
                "job: EofMode::WaitForSeek does not support graphs containing encoders"@,
        }
    }

    /// Writes the message that goes with the error.
    pub fn message(&self) -> (r: String)
        ensures
            r@ == self.text(),
    {
        proof {
            reveal_strlit("");
        }
        match self {
            JobError::NoStreamMatches { kind, index } => join(
                "job: no streams match selector ",
                show_selector(*kind, *index).as_str(),
                "",
            ),
            JobError::SelectorOutOfRange { index } => join(
                "job: selector index ",
                decimal(*index as u64).as_str(),
                " out of range",
            ),
            JobError::SourceNotOpened { uri, known } => {
                let mut r = join(
                    "job: track references source ",
                    quote(uri.as_str()).as_str(),
                    " but no source was opened for that URI",
                );
                match known {
                    Some(list) => {
                        r.append(join(" (known URIs: ", list.as_str(), ")").as_str());
                    },
                    None => {
                        r.append("");
                    },
                }
                r.append(" — this is an internal pipeline-resolver bug");
                r
            },
            JobError::StreamNotInSource => String::from_str("selected stream not in source"),
            JobError::NotAMux { output, found } => {
                let mut r = join("job: output ", output.as_str(), ": expected Mux root, got ");
                r.append(show_node(found).as_str());
                r
            },
            JobError::UnresolvedRender { source, backend } => {
                let mut r = join(
                    "internal: Render3D node for source ",
                    quote(source.as_str()).as_str(),
                    " (backend ",
                );
                r.append(quote(backend.as_str()).as_str());
                r.append(
                    ") reached build_track_runtime — resolve_source_shapes should have rewritten it first",
                );
                r
            },
            JobError::NestedSelect => String::from_str(
                "job: nested Select above non-source-leaf is not yet supported",
            ),
            JobError::MuxInChain => String::from_str(
                "job: walked into a Mux node while building track runtime",
            ),
            JobError::NoRenderFactory { source, backend } => {
                let mut r = join(
                    "Render3D node for source ",
                    quote(source.as_str()).as_str(),
                    " (backend ",
                );
                r.append(quote(backend.as_str()).as_str());
                r.append(
                    ") requires a render_source_factory on the Executor — install via Executor::with_render_source_factory(...)",
                );
                r
            },
            JobError::RenderCollision { source } => join(
                "Render3D node for source ",
                quote(source.as_str()).as_str(),
                " collides with an already-opened source URI; each source URI must be unique in the DAG",
            ),
            JobError::MultiTitle { uri } => join(
                "",
                uri.as_str(),
                ": this URI opens a multi-title source; use `oxideav remux <uri> <pattern-with-%s>` to fan out one output file per title",
            ),
            JobError::UnknownSourceKind { uri } => join(
                "",
                uri.as_str(),
                ": source kind not yet supported by the pipeline executor",
            ),
            JobError::ReservedSink { name } => join(
                "job: no handler registered for reserved sink ",
                name.as_str(),
                " (use with_sink_override)",
            ),
            JobError::AliasSink { name } => join(
                "job: alias ",
                name.as_str(),
                " cannot be used as an output sink",
            ),
            JobError::NoExtension { name } => join("job: output ", name.as_str(), ": no extension"),
            JobError::NoMuxer { ext } => join(
                "no muxer registered for extension .",
                ext.as_str(),
                "",
            ),
            JobError::ZeroPorts { filter } => join(
                "filter '",
                filter.as_str(),
                "' declares zero output ports",
            ),
            JobError::UndeclaredPort { port, declared } => {
                let mut r = join(
                    "filter emitted on port ",
                    decimal(*port).as_str(),
                    " but declared only ",
                );
                r.append(decimal(*declared).as_str());
                r.append(" ports");
                r
            },
            JobError::TrackSinkCount { sinks, tracks } => {
                let mut r = join(
                    "pipeline: JobSink returned ",
                    decimal(*sinks).as_str(),
                    " TrackSinks for ",
                );
                r.append(decimal(*tracks).as_str());
                r.append(" pipeline tracks");
                r
            },
            JobError::TrackSinkExtras => String::from_str(
                "pipeline: independent TrackSinks do not yet support multi-port filter extras",
            ),
            JobError::CopyOverFrames => String::from_str(
                "pipeline: copy track over a frame-shape source is not representable (frames carry no packets to copy)",
            ),
            JobError::NoDecoder => String::from_str(
                "pipeline: non-copy track without a decoder is not supported",
            ),
            JobError::NoOutputs => String::from_str("job: no outputs to spawn"),
            JobError::ManyOutputs => String::from_str(
                "job: spawn() supports a single output today; use run() for multi-output jobs",
            ),
            JobError::SeekClosed => String::from_str(
                "ExecutorHandle: seek channel closed (executor exited)",
            ),
            JobError::WorkerPanicked => String::from_str("ExecutorHandle: worker thread panicked"),
            JobError::OutputPanicked => String::from_str("pipeline: output worker thread panicked"),
            JobError::StoppedTwice => String::from_str(
                "ExecutorHandle: stop() called twice or after drop",
            ),
            JobError::TrackSinkFailed => String::from_str(
                "pipeline: independent TrackSink failed; aborting sibling stages",
            ),
            JobError::NoImplementation { codec_id } => codec_id.clone(),
            JobError::NoFittingDecoder { codec_id } => join(
                "no decoder for ",
                codec_id.as_str(),
                " accepts the requested parameters",
            ),
            JobError::NoFittingEncoder { codec_id } => join(
                "no encoder for ",
                codec_id.as_str(),
                " accepts the requested parameters",
            ),
            JobError::AlreadyPrepared => String::from_str("pipeline already prepared"),
            JobError::NoStreamWithIndex { index } => join(
                "no stream with index ",
                decimal(*index as u64).as_str(),
                "",
            ),
            JobError::NoStreamOfType { kind } => join(
                "no ",
                media_type_name(*kind),
                " stream in source",
            ),
            JobError::SinkRejected => String::from_str("sink rejected stream"),
            JobError::NoInputStreams => String::from_str("no streams in input"),
            JobError::AllStreamsDropped => String::from_str(
                "every input stream was dropped — nothing to mux",
            ),
            JobError::CannotReencode { kind, index } => {
                let mut r = join(
                    "transcode_simple Reencode: cannot reencode ",
                    media_type_name(*kind),
                    " stream ",
                );
                r.append(decimal(*index as u64).as_str());
                r
            },
            JobError::UseTranscodeSimple => String::from_str("use transcode_simple"),
            JobError::ParkNeedsSeek => String::from_str(
                "job: EofMode::WaitForSeek requires every routed source to support seeking",
            ),
            JobError::ParkWithEncoder => String::from_str(
                "job: EofMode::WaitForSeek does not support graphs containing encoders",
            ),
        }
    }
}

/// Three pieces of text in a row.
fn join(a: &str, b: &str, c: &str) -> (r: String)
    ensures
        r@ == a@ + b@ + c@,
        c@.len() == 0 ==> r@ == a@ + b@,
        a@.len() == 0 ==> r@ == b@ + c@,
{
    let mut r = String::from_str(a);
    r.append(b);
    r.append(c);
    assert(c@.len() == 0 ==> r@ =~= a@ + b@);
    assert(a@.len() == 0 ==> r@ =~= b@ + c@);
    r
}

/// A text holds another.
pub open spec fn holds(text: Seq<char>, part: Seq<char>) -> bool {
    exists|i: int|
        0 <= i && i + part.len() <= text.len() && #[trigger] text.subrange(i, i + part.len())
            == part
}

proof fn middle_is_held(before: Seq<char>, part: Seq<char>, after: Seq<char>)
    ensures
        holds(before + part + after, part),
{
    let text = before + part + after;
    let i = before.len() as int;
    assert(text.subrange(i, i + part.len()) =~= part);
}

pub(crate) proof fn end_is_held(before: Seq<char>, part: Seq<char>)
    ensures
        holds(before + part, part),
{
    let text = before + part;
    let i = before.len() as int;
    assert(text.subrange(i, i + part.len()) =~= part);
}

/// The message of an error about one thing names that thing: the name, the extension, the
/// codec or the number that the error holds.
pub proof fn message_names_its_subject(e: JobError)
    ensures
        e matches JobError::SelectorOutOfRange { index } ==> holds(
            e.text(),
            crate::text::digits(index as nat),
        ),
        e matches JobError::NoStreamWithIndex { index } ==> holds(
            e.text(),
            crate::text::digits(index as nat),
        ),
        e matches JobError::MultiTitle { uri } ==> holds(e.text(), uri@),
        e matches JobError::UnknownSourceKind { uri } ==> holds(e.text(), uri@),
        e matches JobError::ReservedSink { name } ==> holds(e.text(), name@),
        e matches JobError::AliasSink { name } ==> holds(e.text(), name@),
        e matches JobError::NoExtension { name } ==> holds(e.text(), name@),
        e matches JobError::NoMuxer { ext } ==> holds(e.text(), ext@),
        e matches JobError::ZeroPorts { filter } ==> holds(e.text(), filter@),
        e matches JobError::NoImplementation { codec_id } ==> holds(e.text(), codec_id@),
        e matches JobError::NoFittingDecoder { codec_id } ==> holds(e.text(), codec_id@),
        e matches JobError::NoFittingEncoder { codec_id } ==> holds(e.text(), codec_id@),
        e matches JobError::NoStreamOfType { kind } ==> holds(e.text(), media_name(kind)),
        e matches JobError::RenderCollision { source } ==> holds(
            e.text(),
            crate::text::quoted(source@),
        ),
{
    match e {
        JobError::SelectorOutOfRange { index } => middle_is_held(
            "job: selector index "@,
            crate::text::digits(index as nat),
            " out of range"@,
        ),
        JobError::NoStreamWithIndex { index } => end_is_held(
            "no stream with index "@,
            crate::text::digits(index as nat),
        ),
        JobError::MultiTitle { uri } => {
            assert(e.text().subrange(0, 0 + uri@.len() as int) =~= uri@);
        },
        JobError::UnknownSourceKind { uri } => {
            assert(e.text().subrange(0, 0 + uri@.len() as int) =~= uri@);
        },
        JobError::ReservedSink { name } => middle_is_held(
            "job: no handler registered for reserved sink "@,
            name@,
            " (use with_sink_override)"@,
        ),
        JobError::AliasSink { name } => middle_is_held(
            "job: alias "@,
            name@,
            " cannot be used as an output sink"@,
        ),
        JobError::NoExtension { name } => middle_is_held(
            "job: output "@,
            name@,
            ": no extension"@,
        ),
        JobError::NoMuxer { ext } => end_is_held("no muxer registered for extension ."@, ext@),
        JobError::ZeroPorts { filter } => middle_is_held(
            "filter '"@,
            filter@,
            "' declares zero output ports"@,
        ),
        JobError::NoImplementation { codec_id } => {
            assert(e.text().subrange(0, 0 + codec_id@.len() as int) =~= codec_id@);
        },
        JobError::NoFittingDecoder { codec_id } => middle_is_held(
            "no decoder for "@,
            codec_id@,
            " accepts the requested parameters"@,
        ),
        JobError::NoFittingEncoder { codec_id } => middle_is_held(
            "no encoder for "@,
            codec_id@,
            " accepts the requested parameters"@,
        ),
        JobError::NoStreamOfType { kind } => middle_is_held(
            "no "@,
            media_name(kind),
            " stream in source"@,
        ),
        JobError::RenderCollision { source } => middle_is_held(
            "Render3D node for source "@,
            crate::text::quoted(source@),
            " collides with an already-opened source URI; each source URI must be unique in the DAG"@,
        ),
        _ => {},
    }
}

/// What an error is put down to: what the input or the job asks for and does not have is
/// invalid data, what is there and cannot be done is unsupported, a missing muxer or codec
/// is one that was not found, and what only answers another failure is a cancellation.
pub proof fn errors_are_put_down(e: JobError)
    ensures
        e.kind_spec() is Cancelled <==> e is TrackSinkFailed,
        e.kind_spec() is FormatNotFound <==> e is NoMuxer,
        e.kind_spec() is CodecNotFound <==> e is NoImplementation || e is NoFittingDecoder || e
            is NoFittingEncoder,
        e.kind_spec() is Unsupported <==> e is ParkNeedsSeek || e is ParkWithEncoder || e
            is UseTranscodeSimple || e is CannotReencode || e is TrackSinkExtras || e
            is ReservedSink || e is UnknownSourceKind || e is MultiTitle || e is NoRenderFactory,
        e.kind_spec() is Other <==> e is UnresolvedRender || e is NestedSelect || e is MuxInChain
            || e is CopyOverFrames || e is NoDecoder || e is SeekClosed || e is WorkerPanicked || e
            is OutputPanicked || e is StoppedTwice || e is AlreadyPrepared || e is SinkRejected,
{
}

/// A text without a digit.
pub open spec fn is_wording(s: Seq<char>) -> bool {
    forall|i: int| 0 <= i < s.len() ==> !('0' <= #[trigger] s[i] <= '9')
}

/// A text in which just these two numbers stand, in this order, and words around them.
pub open spec fn tells_two(text: Seq<char>, first: nat, second: nat) -> bool {
    exists|a: Seq<char>, b: Seq<char>, c: Seq<char>| #[trigger]
        is_told(text, a, first, b, second, c)
}

pub open spec fn is_told(
    text: Seq<char>,
    a: Seq<char>,
    first: nat,
    b: Seq<char>,
    second: nat,
    c: Seq<char>,
) -> bool {
    &&& is_wording(a) && is_wording(b) && is_wording(c) && b.len() > 0
    &&& text == a + crate::text::digits(first) + b + crate::text::digits(second) + c
}

/// A message about two numbers tells them in this order: the port that was used and how
/// many were declared, and how many sinks there were for how many tracks.
pub proof fn numbers_are_told_in_order(e: JobError)
    ensures
        e matches JobError::UndeclaredPort { port, declared } ==> tells_two(
            e.text(),
            port as nat,
            declared as nat,
        ),
        e matches JobError::TrackSinkCount { sinks, tracks } ==> tells_two(
            e.text(),
            sinks as nat,
            tracks as nat,
        ),
{
    match e {
        JobError::UndeclaredPort { port, declared } => {
            reveal_strlit("filter emitted on port ");
            reveal_strlit(" but declared only ");
            reveal_strlit(" ports");
            assert(is_told(
                e.text(),
                "filter emitted on port "@,
                port as nat,
                " but declared only "@,
                declared as nat,
                " ports"@,
            ));
        },
        JobError::TrackSinkCount { sinks, tracks } => {
            reveal_strlit("pipeline: JobSink returned ");
            reveal_strlit(" TrackSinks for ");
            reveal_strlit(" pipeline tracks");
            assert(is_told(
                e.text(),
                "pipeline: JobSink returned "@,
                sinks as nat,
                " TrackSinks for "@,
                tracks as nat,
                " pipeline tracks"@,
            ));
        },
        _ => {},
    }
}

} // verus!
