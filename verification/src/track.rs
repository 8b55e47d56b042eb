//! One track of an output: where it reads from, what it runs through, and the
//! streams it ends in.

use crate::dag::{
    chain_of, drop_decode, walk_chain, without_decode, ChainView, Dag, MuxTrack,
    ResolvedSelector, StageSpec,
};
use crate::error::JobError;
use crate::media::{
    CodecParameters, MediaType, ParamsView, StreamInfo, StreamView, TimeBase,
};
use crate::selection::CodecCapabilities;
use vstd::prelude::*;

verus! {

/// A stage that decoded frames pass through.
#[derive(Clone, Copy)]
pub enum FrameStage {
    Filter,
    /// A pixel format conversion, with the shape of the frames that enter it.
    PixConvert {
        from: oxideav_core::PixelFormat,
        width: u32,
        height: u32,
        target: oxideav_core::PixelFormat,
    },
}

/// The decoder that was chosen for a track, and the frames it says it makes.
pub struct TrackDecoder {
    pub caps: CodecCapabilities,
    pub output: Option<CodecParameters>,
}

pub struct TrackRuntime {
    pub source_uri: String,
    pub selector: ResolvedSelector,
    pub source_stream: u32,
    pub kind: MediaType,
    pub copy: bool,
    pub stages: Vec<StageSpec>,
    pub input_params: CodecParameters,
    pub input_time_base: TimeBase,
    /// First timestamp of the source stream, where the source knows it.
    pub input_start_time: Option<i64>,
    pub input_duration: Option<i64>,
    pub decoder: Option<TrackDecoder>,
    pub frame_stages: Vec<FrameStage>,
    /// What the encoder says it makes, once there is one.
    pub encoder: Option<CodecParameters>,
    pub encoder_time_base: Option<TimeBase>,
    /// Streams of the extra output ports of this track's filters.
    pub extra_output_streams: Vec<StreamInfo>,
    /// How many extra ports each filter has.
    pub extra_output_port_counts: Vec<u32>,
    /// Index of the first extra stream in the output's stream list.
    pub extras_base_index: u32,
}

#[verifier::ext_equal]
pub struct DecoderView {
    pub caps: CodecCapabilities,
    pub output: Option<ParamsView>,
}

/// What a [`TrackRuntime`] says.
#[verifier::ext_equal]
pub struct TrackView {
    pub source_uri: String,
    pub selector: ResolvedSelector,
    pub source_stream: u32,
    pub kind: MediaType,
    pub copy: bool,
    pub stages: Seq<StageSpec>,
    pub input_params: ParamsView,
    pub input_time_base: TimeBase,
    pub input_start_time: Option<i64>,
    pub input_duration: Option<i64>,
    pub decoder: Option<DecoderView>,
    pub frame_stages: Seq<FrameStage>,
    pub encoder: Option<ParamsView>,
    pub encoder_time_base: Option<TimeBase>,
    pub extra_output_streams: Seq<StreamView>,
    pub extra_output_port_counts: Seq<u32>,
    pub extras_base_index: u32,
}

pub open spec fn params_view(p: Option<CodecParameters>) -> Option<ParamsView> {
    match p {
        Some(p) => Some(p@),
        None => None,
    }
}

impl View for TrackRuntime {
    type V = TrackView;

    open spec fn view(&self) -> TrackView {
        TrackView {
            source_uri: self.source_uri,
            selector: self.selector,
            source_stream: self.source_stream,
            kind: self.kind,
            copy: self.copy,
            stages: self.stages@,
            input_params: self.input_params@,
            input_time_base: self.input_time_base,
            input_start_time: self.input_start_time,
            input_duration: self.input_duration,
            decoder: match self.decoder {
                Some(d) => Some(DecoderView { caps: d.caps, output: params_view(d.output) }),
                None => None,
            },
            frame_stages: self.frame_stages@,
            encoder: params_view(self.encoder),
            encoder_time_base: self.encoder_time_base,
            extra_output_streams: crate::media::stream_views(self.extra_output_streams@),
            extra_output_port_counts: self.extra_output_port_counts@,
            extras_base_index: self.extras_base_index,
        }
    }
}

impl TrackView {
    /// A track of which nothing but its way through the graph is known.
    pub open spec fn fresh(
        source_uri: String,
        selector: ResolvedSelector,
        kind: MediaType,
        copy: bool,
        stages: Seq<StageSpec>,
    ) -> TrackView {
        TrackView {
            source_uri,
            selector,
            source_stream: 0,
            kind,
            copy,
            stages,
            input_params: ParamsView::bare(Seq::empty(), MediaType::Audio),
            input_time_base: TimeBase { num: 1, den: 1 },
            input_start_time: None,
            input_duration: None,
            decoder: None,
            frame_stages: Seq::empty(),
            encoder: None,
            encoder_time_base: None,
            extra_output_streams: Seq::empty(),
            extra_output_port_counts: Seq::empty(),
            extras_base_index: 0,
        }
    }

    /// What the output carries: the encoder's stream, else the decoder's, else
    /// the source's.
    pub open spec fn output_params_spec(self) -> ParamsView {
        match (self.encoder, self.decoder) {
            (Some(e), _) => e,
            (None, Some(DecoderView { output: Some(p), .. })) => p,
            _ => self.input_params,
        }
    }

    /// The output's clock: the encoder's where there is one.
    pub open spec fn output_time_base_spec(self) -> TimeBase {
        match self.encoder_time_base {
            Some(tb) => tb,
            None => self.input_time_base,
        }
    }

    /// A time of the source, on the output's clock; unknown stays unknown.
    pub open spec fn on_output_clock(self, ts: Option<i64>) -> Option<i64> {
        match ts {
            Some(t) => self.input_time_base.rescaled_exactly(t, self.output_time_base_spec()),
            None => None,
        }
    }

    /// The track's own stream at position `index` of the output.
    pub open spec fn primary_stream(self, index: int) -> StreamView {
        StreamView {
            index: index as u32,
            time_base: self.output_time_base_spec(),
            duration: self.on_output_clock(self.input_duration),
            start_time: self.on_output_clock(self.input_start_time),
            params: self.output_params_spec(),
        }
    }

    /// Whether the track stands for every stream of its source.
    pub open spec fn wants_all(self) -> bool {
        &&& self.kind == MediaType::Unknown
        &&& self.selector.kind is None
        &&& self.selector.index is None
    }

    /// The track narrowed to one stream.
    pub open spec fn pinned(self, kind: MediaType, selector: ResolvedSelector) -> TrackView {
        TrackView::fresh(self.source_uri, selector, kind, self.copy, self.stages)
    }

    /// The track once its source stream is known.
    pub open spec fn with_input(self, info: StreamView) -> TrackView {
        TrackView {
            source_stream: info.index,
            input_params: info.params,
            input_time_base: info.time_base,
            input_start_time: info.start_time,
            input_duration: info.duration,
            ..self
        }
    }
}

/// Identity of one routed track, for diagnostics.
pub struct PipelineTrackInfo {
    pub source_uri: String,
    pub source_stream: u32,
    pub media_type: MediaType,
    pub codec_id: String,
    pub copy: bool,
    /// The implementation that decodes it, after preferences and fallback.
    pub decoder: Option<CodecCapabilities>,
}

fn copy_stages(stages: &Vec<StageSpec>) -> (r: Vec<StageSpec>)
    ensures
        r@ == stages@,
{
    let mut r: Vec<StageSpec> = Vec::new();
    let mut i: usize = 0;
    while i < stages.len()
        invariant
            i <= stages.len(),
            r@ == stages@.take(i as int),
        decreases stages.len() - i,
    {
        r.push(stages[i].clone());
        assert(r@ =~= stages@.take(i + 1));
        i += 1;
    }
    assert(stages@.take(i as int) =~= stages@);
    r
}

impl TrackRuntime {
    pub fn new(
        source_uri: String,
        selector: ResolvedSelector,
        kind: MediaType,
        copy: bool,
        stages: Vec<StageSpec>,
    ) -> (r: Self)
        ensures
            r@ == TrackView::fresh(source_uri, selector, kind, copy, stages@),
    {
        let r = TrackRuntime {
            source_uri,
            selector,
            source_stream: 0,
            kind,
            copy,
            stages,
            input_params: CodecParameters::new(String::new(), MediaType::Audio),
            input_time_base: TimeBase { num: 1, den: 1 },
            input_start_time: None,
            input_duration: None,
            decoder: None,
            frame_stages: Vec::new(),
            encoder: None,
            encoder_time_base: None,
            extra_output_streams: Vec::new(),
            extra_output_port_counts: Vec::new(),
            extras_base_index: 0,
        };
        assert(r@ =~= TrackView::fresh(source_uri, selector, kind, copy, stages@));
        r
    }

    /// A track over the same source and stages, narrowed to one stream.
    pub fn duplicate_pre_instantiate(&self, kind: MediaType, selector: ResolvedSelector) -> (r: Self)
        requires
            self@.decoder is None,
            self@.encoder is None,
            self@.frame_stages.len() == 0,
        ensures
            r@ == self@.pinned(kind, selector),
    {
        TrackRuntime::new(
            self.source_uri.clone(),
            selector,
            kind,
            self.copy,
            copy_stages(&self.stages),
        )
    }

    /// The track's identity.
    pub fn pipeline_info(&self) -> (r: PipelineTrackInfo)
        ensures
            r == (PipelineTrackInfo {
                source_uri: self.source_uri,
                source_stream: self.source_stream,
                media_type: self.kind,
                codec_id: self.input_params.codec_id,
                copy: self.copy,
                decoder: match self.decoder {
                    Some(d) => Some(d.caps),
                    None => None,
                },
            }),
    {
        PipelineTrackInfo {
            source_uri: self.source_uri.clone(),
            source_stream: self.source_stream,
            media_type: self.kind,
            codec_id: self.input_params.codec_id.clone(),
            copy: self.copy,
            decoder: match &self.decoder {
                Some(d) => Some(d.caps.clone()),
                None => None,
            },
        }
    }

    /// What the output carries.
    pub fn output_params(&self) -> (r: &CodecParameters)
        ensures
            r@ == self@.output_params_spec(),
    {
        match &self.encoder {
            Some(e) => e,
            None => match &self.decoder {
                Some(d) => match &d.output {
                    Some(p) => p,
                    None => &self.input_params,
                },
                None => &self.input_params,
            },
        }
    }

    /// The output's clock.
    pub fn output_time_base(&self) -> (r: TimeBase)
        ensures
            r == self@.output_time_base_spec(),
    {
        match self.encoder_time_base {
            Some(tb) => tb,
            None => self.input_time_base,
        }
    }

    fn rescaled_time(&self, ts: Option<i64>) -> (r: Option<i64>)
        ensures
            r == self@.on_output_clock(ts),
    {
        match ts {
            Some(t) => self.input_time_base.rescale_checked(t, self.output_time_base()),
            None => None,
        }
    }
}

/// The track that a mux input stands for: its chain, without the decode stages
/// where the source already hands out frames.
pub open spec fn track_of(chain: Result<ChainView, JobError>, track: MuxTrack) -> Result<
    TrackView,
    JobError,
> {
    match chain {
        Ok(c) => Ok(
            TrackView::fresh(
                c.source,
                c.selector,
                track.kind,
                track.copy,
                if c.frames {
                    without_decode(c.stages)
                } else {
                    c.stages
                },
            ),
        ),
        Err(e) => Err(e),
    }
}

pub open spec fn track_result(r: Result<TrackRuntime, JobError>) -> Result<TrackView, JobError> {
    match r {
        Ok(t) => Ok(t@),
        Err(e) => Err(e),
    }
}

/// Builds the track that a mux input stands for.
pub fn build_track_runtime(dag: &Dag, track: &MuxTrack) -> (r: Result<TrackRuntime, JobError>)
    requires
        dag.wf(),
        track.upstream < dag.nodes@.len(),
    ensures
        track_result(r) == track_of(chain_of(dag.nodes@, track.upstream as int), *track),
{
    match walk_chain(&dag.nodes, track.upstream) {
        Ok(chain) => {
            let stages = if chain.frames {
                drop_decode(&chain.stages)
            } else {
                chain.stages
            };
            Ok(TrackRuntime::new(chain.source, chain.selector, track.kind, track.copy, stages))
        },
        Err(e) => Err(e),
    }
}

/// A track over a source of decoded frames never decodes.
pub proof fn frame_track_never_decodes(chain: ChainView, track: MuxTrack)
    requires
        chain.frames,
    ensures
        track_of(Ok(chain), track) matches Ok(t) && forall|i: int|
            0 <= i < t.stages.len() ==> !((#[trigger] t.stages[i]) is Decode),
{
    crate::dag::without_decode_has_none(chain.stages);
}

/// A stream is of the wanted kind.
pub open spec fn kind_fits(wanted: Option<MediaType>, kind: MediaType) -> bool {
    match wanted {
        Some(k) => kind == k,
        None => true,
    }
}

/// The indices of the streams of a kind, in order.
pub open spec fn matching(streams: Seq<StreamInfo>, kind: Option<MediaType>) -> Seq<u32>
    decreases streams.len(),
{
    if streams.len() == 0 {
        Seq::empty()
    } else {
        let rest = matching(streams.drop_last(), kind);
        if kind_fits(kind, streams.last().params.media_type) {
            rest.push(streams.last().index)
        } else {
            rest
        }
    }
}

fn collect_matching(streams: &Vec<StreamInfo>, n: usize, kind: Option<MediaType>) -> (r: Vec<u32>)
    requires
        n <= streams@.len(),
    ensures
        r@ == matching(streams@.take(n as int), kind),
        r@.len() <= n,
{
    let mut r: Vec<u32> = Vec::new();
    let mut i: usize = 0;
    while i < n
        invariant
            i <= n <= streams@.len(),
            r@ == matching(streams@.take(i as int), kind),
            r@.len() <= i,
        decreases n - i,
    {
        assert(streams@.take(i + 1).drop_last() =~= streams@.take(i as int));
        let fits = match kind {
            Some(k) => streams[i].params.media_type == k,
            None => true,
        };
        if fits {
            r.push(streams[i].index);
        }
        i += 1;
    }
    r
}

/// The stream that a selector picks.
pub open spec fn selected(streams: Seq<StreamInfo>, sel: ResolvedSelector) -> Result<u32, JobError> {
    let pool = matching(streams, sel.kind);
    let ordinal = match sel.index {
        Some(i) => i,
        None => 0,
    };
    if pool.len() == 0 {
        Err(JobError::NoStreamMatches { kind: sel.kind, index: sel.index })
    } else if ordinal < pool.len() {
        Ok(pool[ordinal as int])
    } else {
        Err(JobError::SelectorOutOfRange { index: ordinal })
    }
}

/// Picks the stream that a selector asks for.
pub fn select_stream(streams: &Vec<StreamInfo>, sel: &ResolvedSelector) -> (r: Result<
    u32,
    JobError,
>)
    ensures
        r == selected(streams@, *sel),
{
    let pool = collect_matching(streams, streams.len(), sel.kind);
    assert(streams@.take(streams@.len() as int) =~= streams@);
    if pool.len() == 0 {
        return Err(JobError::NoStreamMatches { kind: sel.kind, index: sel.index });
    }
    let ordinal: u32 = match sel.index {
        Some(i) => i,
        None => 0,
    };
    if (ordinal as u64) < pool.len() as u64 {
        Ok(pool[ordinal as usize])
    } else {
        Err(JobError::SelectorOutOfRange { index: ordinal })
    }
}

/// The selector that pins a track to the `i`th stream of a source: its kind, and
/// how many streams of that kind come before it.
pub open spec fn pin(streams: Seq<StreamInfo>, i: int) -> ResolvedSelector {
    let kind = streams[i].params.media_type;
    ResolvedSelector {
        kind: Some(kind),
        index: Some(matching(streams.take(i), Some(kind)).len() as u32),
    }
}

/// The tracks that one track stands for, given its source's streams.
pub open spec fn fanned_out(track: TrackView, streams: Seq<StreamInfo>) -> Seq<TrackView> {
    if track.wants_all() && streams.len() > 0 {
        Seq::new(
            streams.len(),
            |i: int| track.pinned(streams[i].params.media_type, pin(streams, i)),
        )
    } else {
        seq![track]
    }
}

/// What each track of a list says.
pub open spec fn track_views(tracks: Seq<TrackRuntime>) -> Seq<TrackView> {
    Seq::new(tracks.len(), |i: int| tracks[i]@)
}

/// Appends the tracks that one track stands for.
pub fn fan_out_one(track: TrackRuntime, streams: &Vec<StreamInfo>, out: &mut Vec<TrackRuntime>)
    requires
        track@.wants_all() && streams@.len() > 0 ==> uninstantiated(track@) && streams@.len()
            <= u32::MAX,
    ensures
        track_views(final(out)@) == track_views(old(out)@) + fanned_out(track@, streams@),
{
    let all = match track.kind {
        MediaType::Unknown => track.selector.kind.is_none() && track.selector.index.is_none(),
        _ => false,
    };
    let ghost base = track_views(out@);
    if !all || streams.len() == 0 {
        out.push(track);
        assert(track_views(out@) =~= base + seq![track@]);
        return;
    }
    let mut i: usize = 0;
    assert(track_views(out@) =~= base + fanned_out(track@, streams@).take(0));
    while i < streams.len()
        invariant
            i <= streams@.len() <= u32::MAX,
            streams@.len() > 0,
            track@.wants_all(),
            uninstantiated(track@),
            track_views(out@) == base + fanned_out(track@, streams@).take(i as int),
        decreases streams@.len() - i,
    {
        let kind = streams[i].params.media_type;
        let before = collect_matching(streams, i, Some(kind));
        let selector = ResolvedSelector { kind: Some(kind), index: Some(before.len() as u32) };
        let ghost prev = track_views(out@);
        let next = track.duplicate_pre_instantiate(kind, selector);
        out.push(next);
        proof {
            assert(selector == pin(streams@, i as int));
            assert(track_views(out@) =~= prev.push(next@));
            assert(fanned_out(track@, streams@)[i as int] == next@);
            assert(track_views(out@) =~= base + fanned_out(track@, streams@).take(i + 1));
        }
        i += 1;
    }
    assert(fanned_out(track@, streams@).take(i as int) =~= fanned_out(track@, streams@));
}

/// A longer stream list only adds to the pool of a kind, and the `i`th stream
/// takes the next place in the pool of its own kind.
proof fn matching_grows(streams: Seq<StreamInfo>, kind: Option<MediaType>, i: int)
    requires
        0 <= i < streams.len(),
    ensures
        matching(streams.take(i), kind).len() <= i,
        matching(streams.take(i), kind).len() <= matching(streams, kind).len(),
        kind_fits(kind, streams[i].params.media_type) ==> {
            &&& matching(streams.take(i), kind).len() < matching(streams, kind).len()
            &&& matching(streams, kind)[matching(streams.take(i), kind).len() as int]
                == streams[i].index
        },
    decreases streams.len(),
{
    let last = streams.len() - 1;
    if i == last {
        assert(streams.take(i) =~= streams.drop_last());
        if i > 0 {
            matching_grows(streams.drop_last(), kind, i - 1);
            let shorter = streams.drop_last();
            assert(shorter.take(i - 1) =~= shorter.drop_last());
        }
    } else {
        let shorter = streams.drop_last();
        assert(shorter.take(i) =~= streams.take(i));
        assert(shorter[i] == streams[i]);
        matching_grows(shorter, kind, i);
    }
}

/// Fanning a track out over its source's streams loses none and doubles none:
/// there is one part per stream, of the stream's kind and otherwise like the
/// track, and its selector picks exactly the stream it was made for, also where
/// several streams are of one kind.
pub proof fn fan_out_reaches_every_stream(track: TrackView, streams: Seq<StreamInfo>, i: int)
    requires
        track.wants_all(),
        0 <= i < streams.len() <= u32::MAX,
    ensures
        ({
            let parts = fanned_out(track, streams);
            &&& parts.len() == streams.len()
            &&& parts[i].kind == streams[i].params.media_type
            &&& parts[i].source_uri == track.source_uri
            &&& parts[i].copy == track.copy
            &&& parts[i].stages == track.stages
            &&& selected(streams, parts[i].selector) == Ok::<u32, JobError>(streams[i].index)
        }),
{
    matching_grows(streams, Some(streams[i].params.media_type), i);
}

/// The streams of an opened source.
pub struct SourceStreams {
    pub uri: String,
    pub streams: Vec<StreamInfo>,
}

/// Where a source stands in the list of opened ones; its length where it is not
/// there.
pub open spec fn source_at(sources: Seq<SourceStreams>, uri: Seq<char>, from: int) -> int
    decreases sources.len() - from,
{
    if from < 0 || from >= sources.len() {
        sources.len() as int
    } else if sources[from].uri@ == uri {
        from
    } else {
        source_at(sources, uri, from + 1)
    }
}

/// Finds a source among the opened ones.
pub fn find_source(sources: &Vec<SourceStreams>, uri: &String) -> (r: Option<usize>)
    ensures
        match r {
            Some(i) => i < sources@.len() && source_at(sources@, uri@, 0) == i
                && sources@[i as int].uri@ == uri@,
            None => source_at(sources@, uri@, 0) == sources@.len(),
        },
{
    let mut i: usize = 0;
    while i < sources.len()
        invariant
            i <= sources.len(),
            source_at(sources@, uri@, 0) == source_at(sources@, uri@, i as int),
        decreases sources.len() - i,
    {
        if sources[i].uri == *uri {
            return Some(i);
        }
        i += 1;
    }
    None
}

/// The tracks that one track stands for: as it is, where its source is unknown.
pub open spec fn expanded_one(track: TrackView, sources: Seq<SourceStreams>) -> Seq<TrackView> {
    let at = source_at(sources, track.source_uri@, 0);
    if 0 <= at < sources.len() {
        fanned_out(track, sources[at].streams@)
    } else {
        seq![track]
    }
}

/// The tracks that a list of tracks stands for, in order.
pub open spec fn expanded(tracks: Seq<TrackView>, sources: Seq<SourceStreams>) -> Seq<TrackView>
    decreases tracks.len(),
{
    if tracks.len() == 0 {
        Seq::empty()
    } else {
        expanded(tracks.drop_last(), sources) + expanded_one(tracks.last(), sources)
    }
}

/// Nothing has been instantiated for the track yet.
pub open spec fn uninstantiated(track: TrackView) -> bool {
    track.decoder is None && track.encoder is None && track.frame_stages.len() == 0
}

/// Expands every track that stands for all streams of its source.
pub fn expand_all_tracks_pump(tracks: Vec<TrackRuntime>, sources: &Vec<SourceStreams>) -> (r: Vec<
    TrackRuntime,
>)
    requires
        forall|i: int|
            0 <= i < tracks@.len() && (#[trigger] tracks@[i])@.wants_all() ==> uninstantiated(
                tracks@[i]@,
            ),
        forall|i: int|
            0 <= i < sources@.len() ==> (#[trigger] sources@[i]).streams@.len() <= u32::MAX,
    ensures
        track_views(r@) == expanded(track_views(tracks@), sources@),
{
    let mut out: Vec<TrackRuntime> = Vec::new();
    let mut left = tracks;
    let ghost all = track_views(tracks@);
    let n: usize = left.len();
    let mut done: usize = 0;
    assert(track_views(out@) =~= expanded(all.take(0), sources@));
    while done < n
        invariant
            done <= n,
            left@.len() == n - done,
            all.len() == n,
            forall|i: int|
                0 <= i < left@.len() && (#[trigger] left@[i])@.wants_all() ==> uninstantiated(
                    left@[i]@,
                ),
            forall|i: int| 0 <= i < left@.len() ==> (#[trigger] left@[i])@ == all[done + i],
            forall|i: int|
                0 <= i < sources@.len() ==> (#[trigger] sources@[i]).streams@.len() <= u32::MAX,
            track_views(out@) == expanded(all.take(done as int), sources@),
        decreases n - done,
    {
        let ghost before = track_views(out@);
        let ghost rest = left@;
        assert(left@[0]@.wants_all() ==> uninstantiated(left@[0]@));
        let track = left.remove(0);
        assert(forall|i: int| 0 <= i < left@.len() ==> #[trigger] left@[i] == rest[i + 1]);
        let ghost t = track@;
        match find_source(sources, &track.source_uri) {
            Some(at) => {
                fan_out_one(track, &sources[at].streams, &mut out);
            },
            None => {
                out.push(track);
                assert(track_views(out@) =~= before + seq![t]);
            },
        }
        proof {
            assert(all.take(done + 1).drop_last() =~= all.take(done as int));
            assert(all.take(done + 1).last() == t);
        }
        done += 1;
    }
    assert(all.take(n as int) =~= all);
    out
}

/// The first stream with an index.
pub open spec fn stream_at(streams: Seq<StreamInfo>, index: u32, from: int) -> int
    decreases streams.len() - from,
{
    if from < 0 || from >= streams.len() {
        streams.len() as int
    } else if streams[from].index == index {
        from
    } else {
        stream_at(streams, index, from + 1)
    }
}

/// Finds the first stream with an index.
pub fn find_stream(streams: &Vec<StreamInfo>, index: u32) -> (r: Option<usize>)
    ensures
        match r {
            Some(i) => i < streams@.len() && stream_at(streams@, index, 0) == i
                && streams@[i as int].index == index,
            None => stream_at(streams@, index, 0) == streams@.len(),
        },
{
    let mut i: usize = 0;
    while i < streams.len()
        invariant
            i <= streams.len(),
            stream_at(streams@, index, 0) == stream_at(streams@, index, i as int),
        decreases streams.len() - i,
    {
        if streams[i].index == index {
            return Some(i);
        }
        i += 1;
    }
    None
}

/// The track once its stream is selected and described, or why it has none.
pub open spec fn with_selected_input(track: TrackView, streams: Seq<StreamInfo>) -> Result<
    TrackView,
    JobError,
> {
    match selected(streams, track.selector) {
        Ok(index) => {
            let at = stream_at(streams, index, 0);
            if 0 <= at < streams.len() {
                Ok(track.with_input(streams[at]@))
            } else {
                Err(JobError::StreamNotInSource)
            }
        },
        Err(e) => Err(e),
    }
}

/// Selects the track's source stream and takes over its description.
pub fn resolve_input(track: &mut TrackRuntime, streams: &Vec<StreamInfo>) -> (r: Result<(), JobError>)
    ensures
        match with_selected_input(old(track)@, streams@) {
            Ok(t) => r == Ok::<(), JobError>(()) && final(track)@ == t,
            Err(e) => r == Err::<(), JobError>(e) && final(track)@ == old(track)@,
        },
{
    match select_stream(streams, &track.selector) {
        Ok(index) => match find_stream(streams, index) {
            Some(at) => {
                let info = &streams[at];
                track.source_stream = info.index;
                track.input_params = info.params.clone();
                track.input_time_base = info.time_base;
                track.input_start_time = info.start_time;
                track.input_duration = info.duration;
                Ok(())
            },
            None => Err(JobError::StreamNotInSource),
        },
        Err(e) => Err(e),
    }
}

proof fn matching_is_present(streams: Seq<StreamInfo>, kind: Option<MediaType>, k: int)
    requires
        0 <= k < matching(streams, kind).len(),
    ensures
        exists|j: int|
            0 <= j < streams.len() && (#[trigger] streams[j]).index == matching(streams, kind)[k],
    decreases streams.len(),
{
    let shorter = streams.drop_last();
    if k < matching(shorter, kind).len() {
        matching_is_present(shorter, kind, k);
        let j = choose|j: int|
            0 <= j < shorter.len() && (#[trigger] shorter[j]).index == matching(shorter, kind)[k];
        assert(streams[j].index == matching(streams, kind)[k]);
    } else {
        assert(streams[streams.len() - 1].index == matching(streams, kind)[k]);
    }
}

proof fn stream_at_is_first(streams: Seq<StreamInfo>, index: u32, from: int, j: int)
    requires
        0 <= from <= j < streams.len(),
        streams[j].index == index,
    ensures
        from <= stream_at(streams, index, from) <= j,
    decreases j - from,
{
    if streams[from].index != index {
        stream_at_is_first(streams, index, from + 1, j);
    }
}

/// A stream that a selector picks is always one of the source's.
pub proof fn selected_stream_is_in_source(streams: Seq<StreamInfo>, sel: ResolvedSelector)
    ensures
        selected(streams, sel) matches Ok(index) ==> 0 <= stream_at(streams, index, 0)
            < streams.len(),
{
    match selected(streams, sel) {
        Ok(index) => {
            let ordinal = match sel.index {
                Some(i) => i,
                None => 0,
            };
            matching_is_present(streams, sel.kind, ordinal as int);
            let j = choose|j: int|
                0 <= j < streams.len() && (#[trigger] streams[j]).index == matching(
                    streams,
                    sel.kind,
                )[ordinal as int];
            stream_at_is_first(streams, index, 0, j);
        },
        Err(_) => {},
    }
}

/// How many extra streams the first `n` tracks have.
pub open spec fn extras_before(tracks: Seq<TrackView>, n: int) -> int
    decreases n,
{
    if n <= 0 || n > tracks.len() {
        0
    } else {
        extras_before(tracks, n - 1) + tracks[n - 1].extra_output_streams.len()
    }
}

/// Where the extra streams of the `i`th track begin in the output.
pub open spec fn extras_base(tracks: Seq<TrackView>, i: int) -> int {
    tracks.len() + extras_before(tracks, i)
}

/// The stream list of an output: one stream per track in order, then each
/// track's extra streams, numbered through.
pub open spec fn is_output_layout(tracks: Seq<TrackView>, streams: Seq<StreamView>) -> bool {
    &&& streams.len() == extras_base(tracks, tracks.len() as int)
    &&& forall|i: int|
        0 <= i < tracks.len() ==> #[trigger] streams[i] == tracks[i].primary_stream(i)
    &&& forall|i: int, k: int|
        0 <= i < tracks.len() && 0 <= k < tracks[i].extra_output_streams.len()
            ==> streams[extras_base(tracks, i) + k] == (StreamView {
            index: (extras_base(tracks, i) + k) as u32,
            ..#[trigger] tracks[i].extra_output_streams[k]
        })
}

proof fn extras_before_grows(tracks: Seq<TrackView>, i: int, j: int)
    requires
        0 <= i <= j <= tracks.len(),
    ensures
        0 <= extras_before(tracks, i) <= extras_before(tracks, j),
    decreases j,
{
    if i < j {
        extras_before_grows(tracks, i, j - 1);
    } else if j > 0 {
        extras_before_grows(tracks, j - 1, j - 1);
    }
}

fn primary(track: &TrackRuntime, index: usize) -> (r: StreamInfo)
    requires
        index <= u32::MAX,
    ensures
        r@ == track@.primary_stream(index as int),
{
    StreamInfo {
        index: index as u32,
        time_base: track.output_time_base(),
        duration: track.rescaled_time(track.input_duration),
        start_time: track.rescaled_time(track.input_start_time),
        params: track.output_params().clone(),
    }
}

/// Lays out the streams of an output and tells each track where its extra
/// streams begin.
#[verifier::loop_isolation(false)]
pub fn build_output_streams(tracks: &mut Vec<TrackRuntime>) -> (r: Vec<StreamInfo>)
    requires
        extras_base(track_views(old(tracks)@), old(tracks)@.len() as int) <= u32::MAX,
    ensures
        is_output_layout(track_views(old(tracks)@), crate::media::stream_views(r@)),
        final(tracks)@.len() == old(tracks)@.len(),
        forall|i: int|
            0 <= i < old(tracks)@.len() ==> (#[trigger] final(tracks)@[i])@ == (TrackView {
                extras_base_index: extras_base(track_views(old(tracks)@), i) as u32,
                ..old(tracks)@[i]@
            }),
{
    let n: usize = tracks.len();
    let ghost views = track_views(tracks@);
    proof {
        extras_before_grows(views, 0, n as int);
    }
    let mut out: Vec<StreamInfo> = Vec::new();
    let mut i: usize = 0;
    while i < n
        invariant
            i <= n,
            tracks@ == old(tracks)@,
            out@.len() == i,
            forall|j: int| 0 <= j < i ==> (#[trigger] out@[j])@ == views[j].primary_stream(j),
        decreases n - i,
    {
        out.push(primary(&tracks[i], i));
        i += 1;
    }
    let mut next: u32 = n as u32;
    let mut t: usize = 0;
    while t < n
        invariant
            t <= n,
            tracks@.len() == n,
            next == extras_base(views, t as int),
            out@.len() == next,
            forall|j: int|
                t <= j < n ==> #[trigger] tracks@[j] == old(tracks)@[j],
            forall|j: int|
                0 <= j < t ==> (#[trigger] tracks@[j])@ == (TrackView {
                    extras_base_index: extras_base(views, j) as u32,
                    ..views[j]
                }),
            forall|j: int| 0 <= j < n ==> (#[trigger] out@[j])@ == views[j].primary_stream(j),
            forall|j: int, k: int|
                0 <= j < t && 0 <= k < views[j].extra_output_streams.len()
                    ==> out@[extras_base(views, j) + k]@ == (StreamView {
                    index: (extras_base(views, j) + k) as u32,
                    ..#[trigger] views[j].extra_output_streams[k]
                }),
        decreases n - t,
    {
        proof {
            extras_before_grows(views, t + 1, n as int);
            extras_before_grows(views, 0, t as int);
        }
        let ghost base = next as int;
        let ghost before = tracks@;
        let mut track = tracks.remove(t);
        assert(track == old(tracks)@[t as int]);
        track.extras_base_index = next;
        let ghost extras = track.extra_output_streams@;
        assert(views[t as int].extra_output_streams == crate::media::stream_views(extras));
        let mut k: usize = 0;
        while k < track.extra_output_streams.len()
            invariant
                k <= track.extra_output_streams.len(),
                track.extra_output_streams@ == extras,
                base == extras_base(views, t as int),
                base + extras.len() <= u32::MAX,
                next == base + k,
                out@.len() == next,
                forall|j: int| 0 <= j < n ==> (#[trigger] out@[j])@ == views[j].primary_stream(j),
                forall|j: int, m: int|
                    0 <= j < t && 0 <= m < views[j].extra_output_streams.len()
                        ==> out@[extras_base(views, j) + m]@ == (StreamView {
                        index: (extras_base(views, j) + m) as u32,
                        ..#[trigger] views[j].extra_output_streams[m]
                    }),
                forall|m: int|
                    0 <= m < k ==> out@[base + m]@ == (StreamView {
                        index: (base + m) as u32,
                        ..#[trigger] views[t as int].extra_output_streams[m]
                    }),
            decreases extras.len() - k,
        {
            let mut e = track.extra_output_streams[k].clone();
            e.index = next;
            let ghost prev = out@;
            out.push(e);
            proof {
                assert forall|j: int, m: int|
                    0 <= j < t && 0 <= m < views[j].extra_output_streams.len() implies out@[
                extras_base(views, j) + m]@ == (StreamView {
                    index: (extras_base(views, j) + m) as u32,
                    ..#[trigger] views[j].extra_output_streams[m]
                }) by {
                    extras_before_grows(views, j + 1, t as int);
                    extras_before_grows(views, 0, j);
                    assert(prev[extras_base(views, j) + m] == out@[extras_base(views, j) + m]);
                }
            }
            next += 1;
            k += 1;
        }
        let ghost done = track@;
        tracks.insert(t, track);
        proof {
            assert(done =~= (TrackView { extras_base_index: base as u32, ..views[t as int] }));
            assert(tracks@ =~= before.update(t as int, track));
        }
        t += 1;
    }
    proof {
        let streams = crate::media::stream_views(out@);
        assert forall|j: int, k: int|
            0 <= j < n && 0 <= k < views[j].extra_output_streams.len() implies streams[extras_base(
            views,
            j,
        ) + k] == (StreamView {
            index: (extras_base(views, j) + k) as u32,
            ..#[trigger] views[j].extra_output_streams[k]
        }) by {
            extras_before_grows(views, j + 1, n as int);
            extras_before_grows(views, 0, j);
        }
    }
    out
}

proof fn owner_of_extra(tracks: Seq<TrackView>, n: int, pos: int) -> (r: (int, int))
    requires
        0 <= n <= tracks.len(),
        0 <= pos < extras_before(tracks, n),
    ensures
        0 <= r.0 < n,
        0 <= r.1 < tracks[r.0].extra_output_streams.len(),
        pos == extras_before(tracks, r.0) + r.1,
    decreases n,
{
    if pos < extras_before(tracks, n - 1) {
        owner_of_extra(tracks, n - 1, pos)
    } else {
        (n - 1, pos - extras_before(tracks, n - 1))
    }
}

/// The streams of an output are numbered densely from zero, in list order.
pub proof fn output_indices_are_dense(tracks: Seq<TrackView>, streams: Seq<StreamView>)
    requires
        is_output_layout(tracks, streams),
        streams.len() <= u32::MAX,
    ensures
        forall|j: int| 0 <= j < streams.len() ==> (#[trigger] streams[j]).index == j,
{
    assert forall|j: int| 0 <= j < streams.len() implies (#[trigger] streams[j]).index == j by {
        if j < tracks.len() {
            assert(streams[j] == tracks[j].primary_stream(j));
        } else {
            let (i, k) = owner_of_extra(tracks, tracks.len() as int, j - tracks.len());
            assert(streams[extras_base(tracks, i) + k] == (StreamView {
                index: (extras_base(tracks, i) + k) as u32,
                ..tracks[i].extra_output_streams[k]
            }));
        }
    }
}

/// How many of the first `n` streams are of a kind; of any, where none is asked for.
pub open spec fn count_of(streams: Seq<StreamInfo>, kind: Option<MediaType>, n: int) -> int
    decreases n,
{
    if n <= 0 {
        0
    } else {
        count_of(streams, kind, n - 1) + (if kind is None || kind
            == Some(streams[n - 1].params.media_type) {
            1int
        } else {
            0
        })
    }
}

proof fn matching_counts(streams: Seq<StreamInfo>, kind: Option<MediaType>, n: int)
    requires
        0 <= n <= streams.len(),
    ensures
        matching(streams.take(n), kind).len() == count_of(streams, kind, n),
    decreases n,
{
    if n > 0 {
        matching_counts(streams, kind, n - 1);
        assert(streams.take(n).drop_last() =~= streams.take(n - 1));
        assert(streams.take(n).last() == streams[n - 1]);
    } else {
        assert(streams.take(0) =~= Seq::empty());
    }
}

/// A selector picks the stream of its kind that has as many of that kind before it as its
/// index says, none where it says nothing; and no stream exactly where there are not so
/// many of the kind, with one error where there is none and another where there are too
/// few.
pub proof fn selector_counts_within_its_kind(
    streams: Seq<StreamInfo>,
    sel: ResolvedSelector,
    i: int,
)
    requires
        0 <= i < streams.len(),
    ensures
        ({
            let wanted: int = match sel.index {
                Some(n) => n as int,
                None => 0,
            };
            let all = count_of(streams, sel.kind, streams.len() as int);
            &&& (sel.kind is None || sel.kind == Some(streams[i].params.media_type)) && count_of(
                streams,
                sel.kind,
                i,
            ) == wanted ==> selected(streams, sel) == Ok::<u32, JobError>(streams[i].index)
            &&& selected(streams, sel) is Ok <==> wanted < all
            &&& all == 0 ==> selected(streams, sel) == Err::<u32, JobError>(
                JobError::NoStreamMatches { kind: sel.kind, index: sel.index },
            )
            &&& 0 < all <= wanted ==> selected(streams, sel) == Err::<u32, JobError>(
                JobError::SelectorOutOfRange { index: wanted as u32 },
            )
        }),
{
    matching_grows(streams, sel.kind, i);
    matching_counts(streams, sel.kind, i);
    matching_counts(streams, sel.kind, streams.len() as int);
    assert(streams.take(streams.len() as int) =~= streams);
}

/// A track takes everything that its stream says from the stream that its selector picks,
/// and keeps everything else.
pub proof fn track_takes_over_its_stream(track: TrackView, streams: Seq<StreamInfo>)
    requires
        with_selected_input(track, streams) is Ok,
    ensures
        ({
            let t = with_selected_input(track, streams)->Ok_0;
            &&& selected(streams, track.selector) == Ok::<u32, JobError>(t.source_stream)
            &&& exists|i: int|
                0 <= i < streams.len() && (#[trigger] streams[i]).index == t.source_stream
                    && t.input_params == streams[i].params@ && t.input_time_base
                    == streams[i].time_base && t.input_start_time == streams[i].start_time
                    && t.input_duration == streams[i].duration && forall|j: int|
                    0 <= j < i ==> (#[trigger] streams[j]).index != t.source_stream
            &&& t.source_uri == track.source_uri
            &&& t.selector == track.selector
            &&& t.kind == track.kind
            &&& t.copy == track.copy
            &&& t.stages == track.stages
            &&& t.decoder == track.decoder
            &&& t.encoder == track.encoder
            &&& t.frame_stages == track.frame_stages
        }),
{
    let index = selected(streams, track.selector)->Ok_0;
    let at = stream_at(streams, index, 0);
    stream_at_finds(streams, index, 0);
    assert(streams[at].index == index);
}

pub(crate) proof fn stream_at_finds(streams: Seq<StreamInfo>, index: u32, from: int)
    requires
        0 <= from <= streams.len(),
    ensures
        from <= stream_at(streams, index, from) <= streams.len(),
        stream_at(streams, index, from) < streams.len() ==> streams[stream_at(
            streams,
            index,
            from,
        )].index == index,
        forall|j: int|
            from <= j < stream_at(streams, index, from) ==> (#[trigger] streams[j]).index != index,
    decreases streams.len() - from,
{
    if from < streams.len() && streams[from].index != index {
        stream_at_finds(streams, index, from + 1);
    }
}

/// The stream of a track in the output is what leaves the track: what the encoder makes
/// where there is one, else what the decoder says it makes, else what the source has; it
/// ticks as the encoder does where there is one, else as the source. Its start and its
/// length are those of the source, on that clock; where they cannot be told there, they
/// are left unsaid.
pub proof fn output_stream_is_what_leaves_the_track(track: TrackView, index: int)
    requires
        0 <= index <= u32::MAX,
    ensures
        ({
            let s = track.primary_stream(index);
            &&& s.index == index
            &&& track.encoder is Some ==> s.params == track.encoder->0
            &&& track.encoder is None && track.decoder is Some && track.decoder->0.output is Some
                ==> s.params == track.decoder->0.output->0
            &&& track.encoder is None && (track.decoder is None || track.decoder->0.output is None)
                ==> s.params == track.input_params
            &&& track.encoder_time_base is Some ==> s.time_base == track.encoder_time_base->0
            &&& track.encoder_time_base is None ==> s.time_base == track.input_time_base
            &&& track.input_duration is None ==> s.duration is None
            &&& track.input_start_time is None ==> s.start_time is None
            &&& s.duration is Some ==> s.duration->0 == track.input_time_base.rescaled(
                track.input_duration->0,
                s.time_base,
            )
            &&& s.start_time is Some ==> s.start_time->0 == track.input_time_base.rescaled(
                track.input_start_time->0,
                s.time_base,
            )
        }),
{
}

/// On the clock that it already has, a track's output keeps the source's start and
/// length.
pub proof fn same_clock_keeps_start_and_length(track: TrackView, index: int)
    requires
        track.encoder_time_base is None,
        track.input_time_base.num != 0,
        track.input_time_base.den != 0,
        track.input_duration is Some ==> crate::media::magnitude(
            track.input_time_base.ticks_num(track.input_duration->0, track.input_time_base),
        ) <= u128::MAX,
        track.input_start_time is Some ==> crate::media::magnitude(
            track.input_time_base.ticks_num(track.input_start_time->0, track.input_time_base),
        ) <= u128::MAX,
    ensures
        track.primary_stream(index).duration == track.input_duration,
        track.primary_stream(index).start_time == track.input_start_time,
{
    if track.input_duration is Some {
        crate::media::rescale_to_same_clock(track.input_time_base, track.input_duration->0);
    }
    if track.input_start_time is Some {
        crate::media::rescale_to_same_clock(track.input_time_base, track.input_start_time->0);
    }
}

/// Extra streams come behind the streams of all tracks, those of earlier tracks first and
/// each track's in their own order, and keep everything but their number.
pub proof fn extra_streams_come_last(
    tracks: Seq<TrackView>,
    streams: Seq<StreamView>,
    i: int,
    k: int,
)
    requires
        is_output_layout(tracks, streams),
        streams.len() <= u32::MAX,
        0 <= i < tracks.len(),
        0 <= k < tracks[i].extra_output_streams.len(),
    ensures
        ({
            let at = extras_base(tracks, i) + k;
            let was = tracks[i].extra_output_streams[k];
            &&& tracks.len() <= at < streams.len()
            &&& streams[at].index == at
            &&& streams[at].params == was.params
            &&& streams[at].time_base == was.time_base
            &&& streams[at].start_time == was.start_time
            &&& streams[at].duration == was.duration
            &&& i == 0 ==> at == tracks.len() + k
            &&& i > 0 ==> extras_base(tracks, i) == extras_base(tracks, i - 1)
                + tracks[i - 1].extra_output_streams.len()
        }),
{
    output_indices_are_dense(tracks, streams);
    extras_before_grows(tracks, i + 1, tracks.len() as int);
    extras_before_grows(tracks, 0, i);
    let was = tracks[i].extra_output_streams[k];
    assert(streams[extras_base(tracks, i) + k] == (StreamView {
        index: (extras_base(tracks, i) + k) as u32,
        ..was
    }));
}

/// A track reads what its chain says: the chain's source, stream selector and stages, in
/// order, save decode stages over a source that hands out frames; kind and copying are
/// those of the mux input.
pub proof fn track_follows_its_chain(chain: ChainView, track: MuxTrack)
    ensures
        ({
            let r = track_of(Ok(chain), track);
            let t = r->Ok_0;
            &&& r is Ok
            &&& t.source_uri == chain.source
            &&& t.selector == chain.selector
            &&& t.kind == track.kind
            &&& t.copy == track.copy
            &&& !chain.frames ==> t.stages == chain.stages
            &&& t.decoder is None && t.encoder is None && t.frame_stages.len() == 0
            &&& t.extra_output_streams.len() == 0 && t.extra_output_port_counts.len() == 0
        }),
{
}

/// Tracks that name their streams stay as they are and in their order, and each that
/// stands for all streams of its source is replaced, in its place, by its parts.
pub proof fn expansion_keeps_the_order(
    tracks: Seq<TrackView>,
    more: TrackView,
    sources: Seq<SourceStreams>,
)
    ensures
        ({
            let before = expanded(tracks, sources);
            let after = expanded(tracks.push(more), sources);
            &&& before.len() <= after.len()
            &&& after.take(before.len() as int) == before
            &&& !more.wants_all() ==> after.len() == before.len() + 1 && after.last() == more
            &&& more.wants_all() ==> forall|i: int|
                before.len() <= i < after.len() ==> (#[trigger] after[i]).source_uri
                    == more.source_uri && after[i].stages == more.stages && after[i].copy
                    == more.copy
        }),
{
    let all = tracks.push(more);
    assert(all.drop_last() =~= tracks);
    let before = expanded(tracks, sources);
    assert(expanded(all, sources).take(before.len() as int) =~= before);
}

/// A track stands for all streams of its source only where it says nothing of what it
/// wants: no kind of media, and neither a kind nor an index in its selector. One that says
/// something, and one over a source without streams, stays alone and as it is.
pub proof fn only_open_tracks_are_fanned_out(track: TrackView, streams: Seq<StreamInfo>)
    ensures
        !(track.kind is Unknown) || track.selector.kind is Some || track.selector.index is Some
            || streams.len() == 0 ==> fanned_out(track, streams) == seq![track],
        track.kind is Unknown && track.selector.kind is None && track.selector.index is None
            && streams.len() > 0 ==> fanned_out(track, streams).len() == streams.len(),
{
}

/// An instant of a track can be told in its output exactly where its clocks are related
/// and it stays within range there.
pub proof fn start_and_length_are_kept_where_possible(track: TrackView, index: int)
    ensures
        ({
            let s = track.primary_stream(index);
            let d = track.input_time_base.ticks_den(s.time_base);
            &&& track.input_duration is Some ==> {
                let n = track.input_time_base.ticks_num(track.input_duration->0, s.time_base);
                s.duration is Some <==> d != 0 && crate::media::magnitude(n) <= u128::MAX
                    && i64::MIN <= crate::media::nearest(n, d) <= i64::MAX
            }
            &&& track.input_start_time is Some ==> {
                let n = track.input_time_base.ticks_num(track.input_start_time->0, s.time_base);
                s.start_time is Some <==> d != 0 && crate::media::magnitude(n) <= u128::MAX
                    && i64::MIN <= crate::media::nearest(n, d) <= i64::MAX
            }
        }),
{
}

} // verus!
