//! Preparing one output, step by step: open its sources, build its tracks, lay
//! out its streams, resolve its sink. Whatever fails first ends it.

use crate::dag::{Dag, NodeId, StageSpec};
use crate::error::JobError;
use crate::instantiate::{BuildStep, Instantiation, InstantiationView};
use crate::media::{
    stream_views, CodecParameters, MediaType, ParamsView, PortSpec, StreamInfo, StreamView, TimeBase,
};
use crate::pixel::CodecFormats;
use crate::prepare::{prepare_tracks, prepared};
use crate::selection::CodecCapabilities;
use crate::sources::{ResolutionView, ResolveStep, SourceResolution, SourceShape};
use crate::track::{
    build_output_streams, extras_base, is_output_layout, params_view, track_views, DecoderView,
    SourceStreams, TrackRuntime, TrackView,
};
use crate::uri::{open_sink, sink_plan, SinkPlan};
use vstd::prelude::*;

verus! {

#[derive(Clone, Copy, Debug, PartialEq, Eq, Structural)]
pub enum PrepPhase {
    /// Sources are being opened.
    Sources,
    /// The opened sources are to be described.
    Describing,
    /// The tracks are being built.
    Building,
    /// Everything is laid out.
    Ready,
    Failed,
}

/// What preparing an output needs next.
#[allow(inconsistent_fields)]
pub enum PrepCommand {
    Open { uri: String },
    Render { source: String, backend: String, opts: String },
    /// Describe the streams of every opened source, and the pixel formats that
    /// the encoders take.
    Describe,
    /// Build something for the track in this place.
    Build { track: usize, step: BuildStep },
    /// Every track is built: lay out the streams.
    LayOut,
    /// Get the output's sink.
    Sink(SinkPlan),
    Failed(JobError),
}

pub struct OutputPreparation {
    pub name: String,
    pub root: NodeId,
    pub has_override: bool,
    pub resolution: SourceResolution,
    pub left: Vec<TrackRuntime>,
    pub building: Option<Instantiation>,
    pub built: Vec<TrackRuntime>,
    pub streams: Vec<StreamInfo>,
    pub phase: PrepPhase,
}

#[verifier::ext_equal]
pub struct PrepView {
    pub name: String,
    pub root: int,
    pub has_override: bool,
    pub resolution: ResolutionView,
    pub left: Seq<TrackView>,
    pub building: Option<InstantiationView>,
    pub built: Seq<TrackView>,
    pub streams: Seq<StreamView>,
    pub phase: PrepPhase,
}

impl View for OutputPreparation {
    type V = PrepView;

    open spec fn view(&self) -> PrepView {
        PrepView {
            name: self.name,
            root: self.root as int,
            has_override: self.has_override,
            resolution: self.resolution@,
            left: track_views(self.left@),
            building: match self.building {
                Some(b) => Some(b@),
                None => None,
            },
            built: track_views(self.built@),
            streams: stream_views(self.streams@),
            phase: self.phase,
        }
    }
}

impl InstantiationView {
    /// A track before its first stage is built.
    pub open spec fn start(track: TrackView) -> InstantiationView {
        InstantiationView { track, running: track.input_params, at: 0, next_extra: 1 }
    }

    /// Nothing of the track is left to be built.
    pub open spec fn is_done(self) -> bool {
        self.at < 0 || self.at >= self.track.stages.len()
    }
}

impl PrepView {
    /// Takes up track after track until one needs something from outside, or
    /// none is left.
    pub open spec fn settled(self) -> PrepView
        decreases
                self.left.len(),
                (if self.building is Some {
                    1int
                } else {
                    0int
                }),
    {
        match self.building {
            Some(b) => if b.scanned().is_done() {
                PrepView {
                    built: self.built.push(b.scanned().track),
                    building: None,
                    ..self
                }.settled()
            } else {
                PrepView { building: Some(b.scanned()), ..self }
            },
            None => if self.left.len() > 0 {
                PrepView {
                    left: self.left.remove(0),
                    building: Some(InstantiationView::start(self.left[0])),
                    ..self
                }.settled()
            } else {
                self
            },
        }
    }

    /// What becomes of the preparation once the sources are described.
    pub open spec fn described(
        self,
        sources: Seq<SourceStreams>,
        known: Option<String>,
        table: Seq<CodecFormats>,
    ) -> PrepView {
        match prepared(self.resolution.nodes, self.name, self.root, sources, known, table) {
            Ok(tracks) => PrepView { left: tracks, phase: PrepPhase::Building, ..self },
            Err(_) => PrepView { phase: PrepPhase::Failed, ..self },
        }
    }
}

impl OutputPreparation {
    pub open spec fn wf(self) -> bool {
        &&& self.resolution.wf()
        &&& self.root < self.resolution.dag.nodes@.len()
        &&& self.building matches Some(b) ==> b.wf()
    }

    /// Starts on the output of a graph that ends in node `root`.
    pub fn new(
        dag: Dag,
        name: String,
        root: NodeId,
        has_override: bool,
        has_factory: bool,
    ) -> (r: Self)
        requires
            dag.wf(),
            root < dag.nodes@.len(),
        ensures
            r.wf(),
            r@ == (PrepView {
                name,
                root: root as int,
                has_override,
                resolution: ResolutionView::start(dag, has_factory),
                left: Seq::empty(),
                building: None,
                built: Seq::empty(),
                streams: Seq::empty(),
                phase: PrepPhase::Sources,
            }),
    {
        let r = OutputPreparation {
            name,
            root,
            has_override,
            resolution: SourceResolution::new(dag, has_factory),
            left: Vec::new(),
            building: None,
            built: Vec::new(),
            streams: Vec::new(),
            phase: PrepPhase::Sources,
        };
        assert(r@.left =~= Seq::empty());
        assert(r@.built =~= Seq::empty());
        assert(r@.streams =~= Seq::empty());
        r
    }

    /// What is needed next.
    #[verifier::loop_isolation(false)]
    pub fn next(&mut self) -> (r: PrepCommand)
        requires
            old(self).wf(),
            old(self).phase is Sources || old(self).phase is Building,
        ensures
            final(self).wf(),
            old(self).phase is Sources ==> ({
                let found = old(self)@.resolution.advanced();
                match found.need() {
                    ResolveStep::Open { uri } => r == (PrepCommand::Open { uri }) && final(self)@ == (
                    PrepView { resolution: found, ..old(self)@ }),
                    ResolveStep::Render { source, backend, opts } => r == (PrepCommand::Render {
                        source,
                        backend,
                        opts,
                    }) && final(self)@ == (PrepView { resolution: found, ..old(self)@ }),
                    ResolveStep::Done => r is Describe && final(self)@ == (PrepView {
                        resolution: found,
                        phase: PrepPhase::Describing,
                        ..old(self)@
                    }),
                    ResolveStep::Failed(e) => r == PrepCommand::Failed(e) && final(self)@ == (
                    PrepView { resolution: found, phase: PrepPhase::Failed, ..old(self)@ })
                        && final(self).resolution.dag == old(self).resolution.dag,
                }
            }),
            old(self).phase is Building ==> final(self)@ == old(self)@.settled() && (match old(self)@.settled().building {
                Some(b) => (r matches PrepCommand::Build { track, step } && b.needs(step) && track
                    == old(self)@.settled().built.len()),
                None => r is LayOut,
            }),
    {
        match self.phase {
            PrepPhase::Sources => match self.resolution.next() {
                ResolveStep::Open { uri } => PrepCommand::Open { uri },
                ResolveStep::Render { source, backend, opts } => PrepCommand::Render {
                    source,
                    backend,
                    opts,
                },
                ResolveStep::Done => {
                    self.phase = PrepPhase::Describing;
                    PrepCommand::Describe
                },
                ResolveStep::Failed(e) => {
                    self.phase = PrepPhase::Failed;
                    PrepCommand::Failed(e)
                },
            },
            _ => {
                let ghost goal = self@.settled();
                loop
                    invariant
                        self.wf(),
                        self.phase is Building,
                        self@.settled() == goal,
                    decreases
                            self.left@.len(),
                            (if self.building is Some {
                                1int
                            } else {
                                0int
                            }),
                {
                    let ghost start = self@;
                    let mut b = match self.building.take() {
                        Some(b) => b,
                        None => {
                            if self.left.len() == 0 {
                                return PrepCommand::LayOut;
                            }
                            let ghost before = track_views(self.left@);
                            let track = self.left.remove(0);
                            assert(track_views(self.left@) =~= before.remove(0));
                            Instantiation::new(track)
                        },
                    };
                    let ghost first = b@;
                    assert((PrepView { building: Some(first), ..self@ }).settled() == goal) by {
                        if start.building is Some {
                            assert(PrepView { building: Some(first), ..self@ } =~= start);
                        }
                    }
                    let step = b.next();
                    match step {
                        BuildStep::Done => {
                            let ghost before = track_views(self.built@);
                            let track = b.track;
                            self.built.push(track);
                            assert(track_views(self.built@) =~= before.push(track@));
                            assert(first.scanned().is_done());
                        },
                        step => {
                            self.building = Some(b);
                            assert(!first.scanned().is_done());
                            return PrepCommand::Build { track: self.built.len(), step };
                        },
                    }
                }
            },
        }
    }

    /// The source that was asked for is open, with this shape.
    pub fn opened(&mut self, shape: SourceShape)
        requires
            old(self).wf(),
            old(self)@.resolution.need() is Open,
        ensures
            final(self).wf(),
            final(self)@ == (PrepView {
                resolution: ResolutionView {
                    opened: old(self)@.resolution.opened.push(
                        crate::sources::OpenedSource {
                            uri: old(self)@.resolution.need()->uri,
                            shape,
                        },
                    ),
                    ..old(self)@.resolution
                },
                ..old(self)@
            }),
    {
        self.resolution.opened(shape);
    }

    /// The frame source that was asked for is built.
    pub fn rendered(&mut self)
        requires
            old(self).wf(),
            old(self)@.resolution.need() is Render,
        ensures
            final(self).wf(),
            final(self)@ == (PrepView {
                resolution: ResolutionView {
                    opened: old(self)@.resolution.opened.push(
                        crate::sources::OpenedSource {
                            uri: old(self)@.resolution.need()->source,
                            shape: SourceShape::Frames,
                        },
                    ),
                    at: old(self)@.resolution.at + 1,
                    ..old(self)@.resolution
                },
                ..old(self)@
            }),
    {
        self.resolution.rendered();
    }

    /// The opened sources are described: the tracks are known, or why there are
    /// none.
    pub fn describe(
        &mut self,
        sources: &Vec<SourceStreams>,
        known: Option<String>,
        table: &Vec<CodecFormats>,
    ) -> (r: Result<(), JobError>)
        requires
            old(self).wf(),
            old(self).phase is Describing,
            forall|i: int|
                0 <= i < sources@.len() ==> (#[trigger] sources@[i]).streams@.len() <= u32::MAX,
        ensures
            final(self).wf(),
            final(self)@ == old(self)@.described(sources@, known, table@),
            match prepared(
                old(self)@.resolution.nodes,
                old(self).name,
                old(self).root as int,
                sources@,
                known,
                table@,
            ) {
                Ok(_) => r is Ok,
                Err(e) => r == Err::<(), JobError>(e),
            },
    {
        match prepare_tracks(
            &self.resolution.dag,
            &self.name,
            self.root,
            sources,
            known,
            table,
        ) {
            Ok(tracks) => {
                self.left = tracks;
                self.phase = PrepPhase::Building;
                Ok(())
            },
            Err(e) => {
                self.phase = PrepPhase::Failed;
                Err(e)
            },
        }
    }

    /// The decoder that was asked for is there.
    pub fn decoder_ready(&mut self, caps: CodecCapabilities, output: Option<CodecParameters>)
        requires
            old(self).wf(),
            old(self)@.building matches Some(b) && b.at_decode(),
        ensures
            final(self).wf(),
            final(self)@ == (PrepView {
                building: Some(
                    old(self)@.building->0.decoded_by(
                        DecoderView { caps, output: params_view(output) },
                    ),
                ),
                ..old(self)@
            }),
    {
        match self.building.take() {
            Some(mut b) => {
                b.decoder_ready(caps, output);
                self.building = Some(b);
            },
            None => {},
        }
    }

    /// The filter that was asked for is there, with these ports.
    pub fn filter_ready(&mut self, inputs: &Vec<PortSpec>, outputs: &Vec<PortSpec>) -> (r: Result<
        (),
        JobError,
    >)
        requires
            old(self).wf(),
            old(self)@.building matches Some(b) && b.at_filter() && b.next_extra + outputs@.len()
                <= u32::MAX + 1,
        ensures
            final(self).wf(),
            ({
                let b = old(self)@.building->0;
                if outputs@.len() == 0 {
                    &&& r == Err::<(), JobError>(
                        JobError::ZeroPorts { filter: b.track.stages[b.at]->Filter_name },
                    )
                    &&& final(self)@ == (PrepView { phase: PrepPhase::Failed, ..old(self)@ })
                } else {
                    &&& r == Ok::<(), JobError>(())
                    &&& final(self)@ == (PrepView {
                        building: Some(b.filtered_by(inputs@, outputs@)),
                        ..old(self)@
                    })
                }
            }),
    {
        match self.building.take() {
            Some(mut b) => {
                let r = b.filter_ready(inputs, outputs);
                self.building = Some(b);
                if r.is_err() {
                    self.phase = PrepPhase::Failed;
                }
                r
            },
            None => Ok(()),
        }
    }

    /// The encoder that was asked for is there, and says it makes `out`.
    pub fn encoder_ready(&mut self, out: CodecParameters)
        requires
            old(self).wf(),
            old(self)@.building matches Some(b) && b.at_encode(),
        ensures
            final(self).wf(),
            final(self)@ == (PrepView {
                building: Some(old(self)@.building->0.encoded_by(out@)),
                ..old(self)@
            }),
    {
        match self.building.take() {
            Some(mut b) => {
                b.encoder_ready(out);
                self.building = Some(b);
            },
            None => {},
        }
    }

    /// Lays out the streams of the built tracks, and says where the sink comes
    /// from, or why there is none.
    pub fn lay_out(&mut self) -> (r: PrepCommand)
        requires
            old(self).wf(),
            old(self).phase is Building,
            extras_base(old(self)@.built, old(self)@.built.len() as int) <= u32::MAX,
        ensures
            final(self).wf(),
            final(self)@ == (PrepView {
                built: final(self)@.built,
                streams: final(self)@.streams,
                phase: final(self).phase,
                ..old(self)@
            }),
            is_output_layout(old(self)@.built, final(self)@.streams),
            final(self)@.built.len() == old(self)@.built.len(),
            forall|i: int|
                0 <= i < old(self)@.built.len() ==> #[trigger] final(self)@.built[i] == (TrackView {
                    extras_base_index: extras_base(old(self)@.built, i) as u32,
                    ..old(self)@.built[i]
                }),
            match sink_plan(old(self).name, old(self).has_override) {
                Ok(plan) => r == PrepCommand::Sink(plan) && final(self).phase is Ready,
                Err(e) => r == PrepCommand::Failed(e) && final(self).phase is Failed,
            },
    {
        self.streams = build_output_streams(&mut self.built);
        match open_sink(&self.name, self.has_override) {
            Ok(plan) => {
                self.phase = PrepPhase::Ready;
                PrepCommand::Sink(plan)
            },
            Err(e) => {
                self.phase = PrepPhase::Failed;
                PrepCommand::Failed(e)
            },
        }
    }
}

/// Taking up the next track loses none: those built, the one being built and
/// those left are always as many as were prepared.
pub proof fn no_track_is_lost(v: PrepView)
    ensures
        track_count(v.settled()) == track_count(v),
        v.settled().building is None ==> v.settled().built.len() == track_count(v)
            && v.settled().left.len() == 0,
        v.settled().phase == v.phase,
    decreases
            v.left.len(),
            (if v.building is Some {
                1int
            } else {
                0int
            }),
{
    match v.building {
        Some(b) => if b.scanned().is_done() {
            no_track_is_lost(
                PrepView { built: v.built.push(b.scanned().track), building: None, ..v },
            );
        },
        None => if v.left.len() > 0 {
            no_track_is_lost(
                PrepView {
                    left: v.left.remove(0),
                    building: Some(InstantiationView::start(v.left[0])),
                    ..v
                },
            );
        },
    }
}

/// The tracks of a preparation, in whatever state.
pub open spec fn track_count(v: PrepView) -> int {
    v.left.len() + v.built.len() + (if v.building is Some {
        1int
    } else {
        0int
    })
}

/// What a track is, whatever has been built of it.
#[verifier::ext_equal]
pub struct TrackIdentity {
    pub source_uri: String,
    pub source_stream: u32,
    pub kind: MediaType,
    pub copy: bool,
    pub stages: Seq<StageSpec>,
    pub input_params: ParamsView,
    pub input_time_base: TimeBase,
}

pub open spec fn identity(t: TrackView) -> TrackIdentity {
    TrackIdentity {
        source_uri: t.source_uri,
        source_stream: t.source_stream,
        kind: t.kind,
        copy: t.copy,
        stages: t.stages,
        input_params: t.input_params,
        input_time_base: t.input_time_base,
    }
}

pub open spec fn identities(tracks: Seq<TrackView>) -> Seq<TrackIdentity> {
    Seq::new(tracks.len(), |i: int| identity(tracks[i]))
}

/// The tracks of a preparation in order: those built, the one being built, those left.
pub open spec fn roll(v: PrepView) -> Seq<TrackIdentity> {
    identities(v.built) + (match v.building {
        Some(b) => seq![identity(b.track)],
        None => Seq::empty(),
    }) + identities(v.left)
}

/// Passing over stages leaves a track what it is.
pub proof fn scanning_keeps_the_track(v: InstantiationView)
    ensures
        identity(v.scanned().track) == identity(v.track),
        v.scanned().at >= v.at,
    decreases v.track.stages.len() - v.at,
{
    if 0 <= v.at < v.track.stages.len() {
        match v.track.stages[v.at] {
            StageSpec::Decode => if v.track.decoder is Some {
                scanning_keeps_the_track(InstantiationView { at: v.at + 1, ..v });
            },
            StageSpec::Convert { target } => {
                scanning_keeps_the_track(v.converted(target));
            },
            _ => {},
        }
    }
}

/// Tracks are built one after the other, in their order, and none is lost, doubled or
/// changed into another: building adds decoders, frame stages and encoders to them and
/// nothing else.
pub proof fn tracks_are_built_in_order(v: PrepView)
    ensures
        roll(v.settled()) == roll(v),
        v.settled().name == v.name,
        v.settled().root == v.root,
    decreases
            v.left.len(),
            (if v.building is Some {
                1int
            } else {
                0int
            }),
{
    match v.building {
        Some(b) => {
            scanning_keeps_the_track(b);
            if b.scanned().is_done() {
                let w = PrepView { built: v.built.push(b.scanned().track), building: None, ..v };
                tracks_are_built_in_order(w);
                assert(identities(w.built) =~= identities(v.built).push(identity(b.track)));
                assert(roll(w) =~= roll(v));
            } else {
                assert(roll(v.settled()) =~= roll(v));
            }
        },
        None => {
            if v.left.len() > 0 {
                let w = PrepView {
                    left: v.left.remove(0),
                    building: Some(InstantiationView::start(v.left[0])),
                    ..v
                };
                tracks_are_built_in_order(w);
                assert(identities(v.left) =~= seq![identity(v.left[0])] + identities(w.left));
                assert(roll(w) =~= roll(v));
            }
        },
    }
}

/// A decoder, filter or encoder that is ready leaves the track what it is.
pub proof fn building_keeps_the_track(
    v: InstantiationView,
    decoder: DecoderView,
    inputs: Seq<PortSpec>,
    outputs: Seq<PortSpec>,
    out: ParamsView,
)
    ensures
        identity(v.decoded_by(decoder).track) == identity(v.track),
        identity(v.filtered_by(inputs, outputs).track) == identity(v.track),
        identity(v.encoded_by(out).track) == identity(v.track),
        v.decoded_by(decoder).track.encoder == v.track.encoder,
        v.filtered_by(inputs, outputs).track.decoder == v.track.decoder,
        v.filtered_by(inputs, outputs).track.encoder == v.track.encoder,
        v.encoded_by(out).track.decoder == v.track.decoder,
        v.encoded_by(out).track.frame_stages == v.track.frame_stages,
{
}

/// A track is first built for what its source hands out.
pub proof fn building_starts_at_the_source(track: TrackView)
    ensures
        InstantiationView::start(track).running == track.input_params,
        InstantiationView::start(track).at == 0,
        InstantiationView::start(track).track == track,
{
}

} // verus!
