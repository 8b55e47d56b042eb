//! Streams of one demuxer to sinks of their own: routes, and driving them.

use crate::error::JobError;
use crate::media::{pixel_code, CodecParameters, MediaType, ParamsView, StreamInfo};
use crate::selection::CodecPreferences;
use crate::track::{find_stream, stream_at};
use vstd::prelude::*;

verus! {

/// What a sink wants of a stream.
pub enum SinkAcceptance {
    /// The packets as they are.
    Copy,
    /// Frames, or packets, of this description.
    Transcode { target: CodecParameters },
    /// Nothing.
    Reject,
}

/// How the packets of a stream get to its sink.
#[derive(Clone, Copy, Debug, PartialEq, Eq, Structural)]
pub enum RouteMode {
    Copy,
    /// Decoded; the sink makes of the frames what it needs.
    Decode,
    /// Decoded and encoded again.
    Transcode,
}

/// One stream's way to its sink.
#[derive(Clone, Copy, Debug, PartialEq, Eq, Structural)]
pub struct Route {
    pub source_stream: u32,
    pub mode: RouteMode,
}

#[derive(Clone, Copy, Debug, PartialEq, Eq, Structural)]
pub struct PipelineStats {
    pub packets_read: u64,
    pub packets_copied: u64,
    pub frames_decoded: u64,
    pub packets_encoded: u64,
    pub packets_dropped: u64,
}

impl Default for PipelineStats {
    fn default() -> (r: Self)
        ensures
            r == PipelineStats::zero(),
    {
        PipelineStats {
            packets_read: 0,
            packets_copied: 0,
            frames_decoded: 0,
            packets_encoded: 0,
            packets_dropped: 0,
        }
    }
}

impl PipelineStats {
    pub open spec fn zero() -> PipelineStats {
        PipelineStats {
            packets_read: 0,
            packets_copied: 0,
            frames_decoded: 0,
            packets_encoded: 0,
            packets_dropped: 0,
        }
    }

    /// Each counter can still take `n` more events.
    pub open spec fn has_room(self, n: int) -> bool {
        &&& self.packets_read + n <= u64::MAX
        &&& self.packets_copied + n <= u64::MAX
        &&& self.frames_decoded + n <= u64::MAX
        &&& self.packets_encoded + n <= u64::MAX
        &&& self.packets_dropped + n <= u64::MAX
    }
}

/// The mode that serves an acceptance: packets that already are what the sink
/// wants are copied, the same coding in another shape is only decoded, anything
/// else is decoded and encoded.
pub open spec fn mode_for(source: ParamsView, acceptance: SinkAcceptance) -> Result<
    RouteMode,
    JobError,
> {
    match acceptance {
        SinkAcceptance::Reject => Err(JobError::SinkRejected),
        SinkAcceptance::Copy => Ok(RouteMode::Copy),
        SinkAcceptance::Transcode { target } => if source.same_core(target@) {
            Ok(RouteMode::Copy)
        } else if target@.codec_id == source.codec_id && target@.media_type == source.media_type {
            Ok(RouteMode::Decode)
        } else {
            Ok(RouteMode::Transcode)
        },
    }
}

/// Routes from the streams of one source.
pub struct Pipeline {
    pub streams: Vec<StreamInfo>,
    pub routes: Vec<Route>,
    pub prepared: bool,
    pub prefs: CodecPreferences,
}

/// The first stream of a media type.
pub open spec fn first_of(streams: Seq<StreamInfo>, kind: MediaType, from: int) -> int
    decreases streams.len() - from,
{
    if from < 0 || from >= streams.len() {
        streams.len() as int
    } else if streams[from].params.media_type == kind {
        from
    } else {
        first_of(streams, kind, from + 1)
    }
}

impl Pipeline {
    /// Whether a stream can be bound now, and where it stands.
    pub open spec fn bindable(self, stream_index: u32) -> Result<int, JobError> {
        let at = stream_at(self.streams@, stream_index, 0);
        if self.prepared {
            Err(JobError::AlreadyPrepared)
        } else if 0 <= at < self.streams@.len() {
            Ok(at)
        } else {
            Err(JobError::NoStreamWithIndex { index: stream_index })
        }
    }

    pub fn new(streams: Vec<StreamInfo>) -> (r: Self)
        ensures
            r.streams == streams,
            r.routes@.len() == 0,
            !r.prepared,
            r.prefs.is_default(),
    {
        Pipeline {
            streams,
            routes: Vec::new(),
            prepared: false,
            prefs: CodecPreferences::default(),
        }
    }

    /// Sets what is wanted of codec selection.
    pub fn with_preferences(self, prefs: CodecPreferences) -> (r: Self)
        ensures
            r == (Pipeline { prefs, ..self }),
    {
        Pipeline { streams: self.streams, routes: self.routes, prepared: self.prepared, prefs }
    }

    /// The streams of the source.
    pub fn streams(&self) -> (r: &Vec<StreamInfo>)
        ensures
            *r == self.streams,
    {
        &self.streams
    }

    /// The description that a sink for this stream is asked about.
    pub fn offer(&self, stream_index: u32) -> (r: Result<&CodecParameters, JobError>)
        ensures
            match self.bindable(stream_index) {
                Ok(at) => r == Ok::<&CodecParameters, JobError>(&self.streams@[at].params),
                Err(e) => r == Err::<&CodecParameters, JobError>(e),
            },
    {
        if self.prepared {
            return Err(JobError::AlreadyPrepared);
        }
        match find_stream(&self.streams, stream_index) {
            Some(at) => Ok(&self.streams[at].params),
            None => Err(JobError::NoStreamWithIndex { index: stream_index }),
        }
    }

    /// Decides how a stream gets to a sink with this acceptance.
    pub fn resolve_mode(source: &CodecParameters, acceptance: &SinkAcceptance) -> (r: Result<
        RouteMode,
        JobError,
    >)
        ensures
            r == mode_for(source@, *acceptance),
    {
        match acceptance {
            SinkAcceptance::Reject => Err(JobError::SinkRejected),
            SinkAcceptance::Copy => Ok(RouteMode::Copy),
            SinkAcceptance::Transcode { target } => {
                if source.matches_core(target) {
                    Ok(RouteMode::Copy)
                } else if target.codec_id == source.codec_id && target.media_type
                    == source.media_type {
                    Ok(RouteMode::Decode)
                } else {
                    Ok(RouteMode::Transcode)
                }
            },
        }
    }

    /// Binds a stream to a sink with this acceptance.
    pub fn bind(&mut self, stream_index: u32, acceptance: &SinkAcceptance) -> (r: Result<
        RouteMode,
        JobError,
    >)
        ensures
            final(self).streams == old(self).streams,
            final(self).prefs == old(self).prefs,
            final(self).prepared == old(self).prepared,
            match old(self).bindable(stream_index) {
                Ok(at) => {
                    &&& r == mode_for(old(self).streams@[at].params@, *acceptance)
                    &&& r matches Ok(mode) ==> final(self).routes@ == old(self).routes@.push(
                        Route { source_stream: stream_index, mode },
                    )
                    &&& r is Err ==> final(self).routes == old(self).routes
                },
                Err(e) => r == Err::<RouteMode, JobError>(e) && final(self).routes
                    == old(self).routes,
            },
    {
        let mode = match self.offer(stream_index) {
            Ok(source) => match Self::resolve_mode(source, acceptance) {
                Ok(mode) => mode,
                Err(e) => {
                    return Err(e);
                },
            },
            Err(e) => {
                return Err(e);
            },
        };
        self.routes.push(Route { source_stream: stream_index, mode });
        Ok(mode)
    }

    /// The index of the first stream of a media type.
    pub fn first_stream(&self, media_type: MediaType) -> (r: Result<u32, JobError>)
        ensures
            ({
                let at = first_of(self.streams@, media_type, 0);
                r == if 0 <= at < self.streams@.len() {
                    Ok::<u32, JobError>(self.streams@[at].index)
                } else {
                    Err(JobError::NoStreamOfType { kind: media_type })
                }
            }),
    {
        let mut i: usize = 0;
        while i < self.streams.len()
            invariant
                i <= self.streams@.len(),
                first_of(self.streams@, media_type, 0) == first_of(
                    self.streams@,
                    media_type,
                    i as int,
                ),
            decreases self.streams@.len() - i,
        {
            if self.streams[i].params.media_type == media_type {
                return Ok(self.streams[i].index);
            }
            i += 1;
        }
        Err(JobError::NoStreamOfType { kind: media_type })
    }

    /// Binds the first stream of a media type to a sink with this acceptance.
    pub fn bind_first(&mut self, media_type: MediaType, acceptance: &SinkAcceptance) -> (r: Result<
        RouteMode,
        JobError,
    >)
        ensures
            final(self).streams == old(self).streams,
            final(self).prefs == old(self).prefs,
            final(self).prepared == old(self).prepared,
            ({
                let at = first_of(old(self).streams@, media_type, 0);
                let index = old(self).streams@[at].index;
                if !(0 <= at < old(self).streams@.len()) {
                    &&& r == Err::<RouteMode, JobError>(
                        JobError::NoStreamOfType { kind: media_type },
                    )
                    &&& final(self).routes == old(self).routes
                } else {
                    match old(self).bindable(index) {
                        Ok(at) => {
                            &&& r == mode_for(old(self).streams@[at].params@, *acceptance)
                            &&& r matches Ok(mode) ==> final(self).routes@
                                == old(self).routes@.push(Route { source_stream: index, mode })
                            &&& r is Err ==> final(self).routes == old(self).routes
                        },
                        Err(e) => r == Err::<RouteMode, JobError>(e) && final(self).routes
                            == old(self).routes,
                    }
                }
            }),
    {
        match self.first_stream(media_type) {
            Ok(index) => self.bind(index, acceptance),
            Err(e) => Err(e),
        }
    }

    /// Closes the routes; the first time, returns the streams that are read.
    pub fn prepare(&mut self) -> (r: Option<Vec<u32>>)
        ensures
            final(self).prepared,
            final(self).streams == old(self).streams,
            final(self).routes == old(self).routes,
            final(self).prefs == old(self).prefs,
            r is Some <==> !old(self).prepared,
            r matches Some(active) ==> active@ == old(self).routes@.map_values(
                |route: Route| route.source_stream,
            ),
    {
        if self.prepared {
            return None;
        }
        let mut active: Vec<u32> = Vec::new();
        let mut i: usize = 0;
        while i < self.routes.len()
            invariant
                i <= self.routes@.len(),
                *self == *old(self),
                active@ == self.routes@.take(i as int).map_values(
                    |route: Route| route.source_stream,
                ),
            decreases self.routes@.len() - i,
        {
            active.push(self.routes[i].source_stream);
            assert(active@ =~= self.routes@.take(i + 1).map_values(
                |route: Route| route.source_stream,
            ));
            i += 1;
        }
        assert(self.routes@.take(i as int) =~= self.routes@);
        self.prepared = true;
        Some(active)
    }
}

impl Pipeline {
    /// Closes the routes, if they are not closed yet, and starts running them;
    /// also returns the streams that are read, the first time.
    pub fn run(&mut self) -> (r: (PipelineRun, Option<Vec<u32>>))
        ensures
            final(self).prepared,
            final(self).streams == old(self).streams,
            final(self).routes == old(self).routes,
            final(self).prefs == old(self).prefs,
            r.0.wf(),
            r.0@ == (RunView {
                routes: old(self).routes@,
                stats: PipelineStats::zero(),
                phase: RunPhase::Reading,
            }),
            r.1 is Some <==> !old(self).prepared,
            r.1 matches Some(active) ==> active@ == old(self).routes@.map_values(
                |route: Route| route.source_stream,
            ),
    {
        let active = self.prepare();
        let mut routes: Vec<Route> = Vec::new();
        let mut i: usize = 0;
        while i < self.routes.len()
            invariant
                i <= self.routes@.len(),
                routes@ == self.routes@.take(i as int),
            decreases self.routes@.len() - i,
        {
            routes.push(self.routes[i]);
            assert(routes@ =~= self.routes@.take(i + 1));
            i += 1;
        }
        assert(self.routes@.take(i as int) =~= self.routes@);
        (PipelineRun::new(routes), active)
    }
}

/// Where a run stands between the calls that it asks for. `tail` says that the
/// source is at its end and the route is being flushed.
#[derive(Clone, Copy, Debug, PartialEq, Eq, Structural)]
pub enum RunPhase {
    Reading,
    Copying,
    Sending { route: usize },
    /// Taking frames from the decoder of a route.
    Frames { route: usize, tail: bool },
    WritingFrame { route: usize, tail: bool },
    Materialising { route: usize, tail: bool },
    Encoding { route: usize, tail: bool },
    /// Taking packets from the encoder of a route.
    Packets { route: usize, tail: bool, last: bool },
    WritingPacket { route: usize, tail: bool, last: bool },
    FlushingDecoder { route: usize },
    FlushingEncoder { route: usize },
    FlushingSink { route: usize },
    Ended,
}

pub enum RunCommand<F, E> {
    Read,
    /// Hand the packet that was read to a route's sink.
    CopyPacket { route: usize },
    SendPacket { route: usize },
    ReceiveFrame { route: usize },
    WriteFrame { route: usize, frame: F },
    /// Bring the frame into plain memory.
    Materialise { frame: F },
    SendFrame { route: usize, frame: F },
    ReceivePacket { route: usize },
    /// Hand the encoder's packet to a route's sink.
    WritePacket { route: usize },
    FlushDecoder { route: usize },
    FlushEncoder { route: usize },
    FlushSink { route: usize },
    Finished(PipelineStats),
    Failed(E),
}

pub enum RunReply<F, E> {
    Start,
    Packet { stream: u32 },
    Eof,
    Frame(F),
    NoMore,
    HavePacket,
    Done,
    Error(E),
}

/// Reads the source to its end, sends each packet down its route, and then
/// flushes every route.
pub struct PipelineRun {
    pub routes: Vec<Route>,
    pub stats: PipelineStats,
    pub phase: RunPhase,
}

#[verifier::ext_equal]
pub struct RunView {
    pub routes: Seq<Route>,
    pub stats: PipelineStats,
    pub phase: RunPhase,
}

impl View for PipelineRun {
    type V = RunView;

    open spec fn view(&self) -> RunView {
        RunView { routes: self.routes@, stats: self.stats, phase: self.phase }
    }
}

/// The first route that takes a stream.
pub open spec fn route_at(routes: Seq<Route>, stream: u32, from: int) -> int
    decreases routes.len() - from,
{
    if from < 0 || from >= routes.len() {
        routes.len() as int
    } else if routes[from].source_stream == stream {
        from
    } else {
        route_at(routes, stream, from + 1)
    }
}

impl RunView {
    pub open spec fn at(self, phase: RunPhase) -> RunView {
        RunView { phase, ..self }
    }

    pub open spec fn reading<F, E>(self) -> (RunView, RunCommand<F, E>) {
        (self.at(RunPhase::Reading), RunCommand::Read)
    }

    /// Flushes route after route: decoder, encoder, sink, as far as it has them.
    pub open spec fn flushing<F, E>(self, route: int) -> (RunView, RunCommand<F, E>) {
        if route < self.routes.len() {
            if self.routes[route].mode is Copy {
                (
                    self.at(RunPhase::FlushingSink { route: route as usize }),
                    RunCommand::FlushSink { route: route as usize },
                )
            } else {
                (
                    self.at(RunPhase::FlushingDecoder { route: route as usize }),
                    RunCommand::FlushDecoder { route: route as usize },
                )
            }
        } else {
            (self.at(RunPhase::Ended), RunCommand::Finished(self.stats))
        }
    }

    pub open spec fn frames<F, E>(self, route: usize, tail: bool) -> (RunView, RunCommand<F, E>) {
        (self.at(RunPhase::Frames { route, tail }), RunCommand::ReceiveFrame { route })
    }

    pub open spec fn packets<F, E>(self, route: usize, tail: bool, last: bool) -> (
        RunView,
        RunCommand<F, E>,
    ) {
        (self.at(RunPhase::Packets { route, tail, last }), RunCommand::ReceivePacket { route })
    }

    /// The decoder of a route has nothing more to hand out.
    pub open spec fn frames_over<F, E>(self, route: usize, tail: bool) -> (
        RunView,
        RunCommand<F, E>,
    ) {
        if !tail {
            self.reading()
        } else if self.routes[route as int].mode is Transcode {
            (self.at(RunPhase::FlushingEncoder { route }), RunCommand::FlushEncoder { route })
        } else {
            (self.at(RunPhase::FlushingSink { route }), RunCommand::FlushSink { route })
        }
    }

    /// The encoder of a route has nothing more to hand out.
    pub open spec fn packets_over<F, E>(self, route: usize, tail: bool, last: bool) -> (
        RunView,
        RunCommand<F, E>,
    ) {
        if last {
            (self.at(RunPhase::FlushingSink { route }), RunCommand::FlushSink { route })
        } else {
            self.frames(route, tail)
        }
    }

    /// What follows a packet of a stream.
    pub open spec fn read<F, E>(self, stream: u32) -> (RunView, RunCommand<F, E>) {
        let stats = PipelineStats {
            packets_read: (self.stats.packets_read + 1) as u64,
            ..self.stats
        };
        let route = route_at(self.routes, stream, 0);
        if 0 <= route < self.routes.len() {
            let r = route as usize;
            if self.routes[route].mode is Copy {
                (
                    RunView { stats, phase: RunPhase::Copying, ..self },
                    RunCommand::CopyPacket { route: r },
                )
            } else {
                (
                    RunView { stats, phase: RunPhase::Sending { route: r }, ..self },
                    RunCommand::SendPacket { route: r },
                )
            }
        } else {
            RunView {
                stats: PipelineStats {
                    packets_dropped: (stats.packets_dropped + 1) as u64,
                    ..stats
                },
                ..self
            }.reading()
        }
    }

    /// One exchange: the outcome of the awaited call, then the next call. The
    /// first error ends the run.
    pub open spec fn step<F, E>(self, reply: RunReply<F, E>) -> (RunView, RunCommand<F, E>) {
        match (self.phase, reply) {
            (_, RunReply::Error(e)) => (self.at(RunPhase::Ended), RunCommand::Failed(e)),
            (RunPhase::Reading, RunReply::Packet { stream }) => self.read(stream),
            (RunPhase::Reading, RunReply::Eof) => self.flushing(0),
            (RunPhase::Reading, _) => self.reading(),
            (RunPhase::Copying, _) => RunView {
                stats: PipelineStats {
                    packets_copied: (self.stats.packets_copied + 1) as u64,
                    ..self.stats
                },
                ..self
            }.reading(),
            (RunPhase::Sending { route }, _) => self.frames(route, false),
            (RunPhase::Frames { route, tail }, RunReply::Frame(frame)) => {
                let counted = RunView {
                    stats: PipelineStats {
                        frames_decoded: (self.stats.frames_decoded + 1) as u64,
                        ..self.stats
                    },
                    ..self
                };
                if self.routes[route as int].mode is Transcode {
                    (
                        counted.at(RunPhase::Materialising { route, tail }),
                        RunCommand::Materialise { frame },
                    )
                } else {
                    (
                        counted.at(RunPhase::WritingFrame { route, tail }),
                        RunCommand::WriteFrame { route, frame },
                    )
                }
            },
            (RunPhase::Frames { route, tail }, _) => self.frames_over(route, tail),
            (RunPhase::WritingFrame { route, tail }, _) => self.frames(route, tail),
            (RunPhase::Materialising { route, tail }, RunReply::Frame(frame)) => (
                self.at(RunPhase::Encoding { route, tail }),
                RunCommand::SendFrame { route, frame },
            ),
            (RunPhase::Materialising { route, tail }, _) => self.frames(route, tail),
            (RunPhase::Encoding { route, tail }, _) => self.packets(route, tail, false),
            (RunPhase::Packets { route, tail, last }, RunReply::HavePacket) => (
                RunView {
                    stats: PipelineStats {
                        packets_encoded: (self.stats.packets_encoded + 1) as u64,
                        ..self.stats
                    },
                    phase: RunPhase::WritingPacket { route, tail, last },
                    ..self
                },
                RunCommand::WritePacket { route },
            ),
            (RunPhase::Packets { route, tail, last }, _) => self.packets_over(route, tail, last),
            (RunPhase::WritingPacket { route, tail, last }, _) => self.packets(route, tail, last),
            (RunPhase::FlushingDecoder { route }, _) => self.frames(route, true),
            (RunPhase::FlushingEncoder { route }, _) => self.packets(route, true, true),
            (RunPhase::FlushingSink { route }, _) => self.flushing(route + 1),
            (RunPhase::Ended, _) => (self, RunCommand::Finished(self.stats)),
        }
    }

    /// The counters that an outcome moves, if any, can take one more.
    pub open spec fn can_count<F, E>(self, reply: RunReply<F, E>) -> bool {
        let s = self.stats;
        match self.phase {
            RunPhase::Reading => reply matches RunReply::Packet { stream } ==> s.packets_read
                < u64::MAX && (route_at(self.routes, stream, 0) >= self.routes.len()
                ==> s.packets_dropped < u64::MAX),
            RunPhase::Copying => !(reply is Error) ==> s.packets_copied < u64::MAX,
            RunPhase::Frames { .. } => reply is Frame ==> s.frames_decoded < u64::MAX,
            RunPhase::Packets { .. } => reply is HavePacket ==> s.packets_encoded < u64::MAX,
            _ => true,
        }
    }

    pub open spec fn phase_wf(self) -> bool {
        match self.phase {
            RunPhase::Sending { route }
            | RunPhase::Frames { route, .. }
            | RunPhase::WritingFrame { route, .. }
            | RunPhase::Materialising { route, .. }
            | RunPhase::Encoding { route, .. }
            | RunPhase::Packets { route, .. }
            | RunPhase::WritingPacket { route, .. }
            | RunPhase::FlushingDecoder { route }
            | RunPhase::FlushingEncoder { route }
            | RunPhase::FlushingSink { route } => route < self.routes.len(),
            _ => true,
        }
    }
}

impl PipelineRun {
    pub open spec fn wf(self) -> bool {
        self@.phase_wf()
    }

    /// A run over these routes, before the first read.
    pub fn new(routes: Vec<Route>) -> (r: Self)
        ensures
            r.wf(),
            r@ == (RunView {
                routes: routes@,
                stats: PipelineStats::zero(),
                phase: RunPhase::Reading,
            }),
    {
        PipelineRun { routes, stats: PipelineStats::default(), phase: RunPhase::Reading }
    }

    fn find_route(&self, stream: u32) -> (r: usize)
        ensures
            r == route_at(self.routes@, stream, 0),
            r <= self.routes@.len(),
    {
        let mut i: usize = 0;
        while i < self.routes.len()
            invariant
                i <= self.routes@.len(),
                route_at(self.routes@, stream, i as int) == route_at(self.routes@, stream, 0),
            decreases self.routes@.len() - i,
        {
            if self.routes[i].source_stream == stream {
                return i;
            }
            i += 1;
        }
        i
    }

    fn copies(&self, route: usize) -> (r: bool)
        requires
            route < self.routes@.len(),
        ensures
            r == (self.routes@[route as int].mode is Copy),
    {
        match self.routes[route].mode {
            RouteMode::Copy => true,
            _ => false,
        }
    }

    fn transcodes(&self, route: usize) -> (r: bool)
        requires
            route < self.routes@.len(),
        ensures
            r == (self.routes@[route as int].mode is Transcode),
    {
        match self.routes[route].mode {
            RouteMode::Transcode => true,
            _ => false,
        }
    }

    fn flush<F, E>(&mut self, route: usize) -> (r: RunCommand<F, E>)
        ensures
            final(self).wf(),
            (final(self)@, r) == old(self)@.flushing::<F, E>(route as int),
    {
        if route < self.routes.len() {
            if self.copies(route) {
                self.phase = RunPhase::FlushingSink { route };
                RunCommand::FlushSink { route }
            } else {
                self.phase = RunPhase::FlushingDecoder { route };
                RunCommand::FlushDecoder { route }
            }
        } else {
            self.phase = RunPhase::Ended;
            RunCommand::Finished(self.stats)
        }
    }

    fn read<F, E>(&mut self, stream: u32) -> (r: RunCommand<F, E>)
        requires
            old(self).stats.packets_read < u64::MAX,
            route_at(old(self).routes@, stream, 0) >= old(self).routes@.len()
                ==> old(self).stats.packets_dropped < u64::MAX,
        ensures
            final(self).wf(),
            (final(self)@, r) == old(self)@.read::<F, E>(stream),
    {
        self.stats.packets_read = self.stats.packets_read + 1;
        let route: usize = self.find_route(stream);
        if route < self.routes.len() {
            if self.copies(route) {
                self.phase = RunPhase::Copying;
                RunCommand::CopyPacket { route }
            } else {
                self.phase = RunPhase::Sending { route };
                RunCommand::SendPacket { route }
            }
        } else {
            self.stats.packets_dropped = self.stats.packets_dropped + 1;
            self.phase = RunPhase::Reading;
            RunCommand::Read
        }
    }

    fn frames<F, E>(&mut self, route: usize, tail: bool) -> (r: RunCommand<F, E>)
        requires
            route < old(self).routes@.len(),
        ensures
            final(self).wf(),
            (final(self)@, r) == old(self)@.frames::<F, E>(route, tail),
    {
        self.phase = RunPhase::Frames { route, tail };
        RunCommand::ReceiveFrame { route }
    }

    fn packets<F, E>(&mut self, route: usize, tail: bool, last: bool) -> (r: RunCommand<F, E>)
        requires
            route < old(self).routes@.len(),
        ensures
            final(self).wf(),
            (final(self)@, r) == old(self)@.packets::<F, E>(route, tail, last),
    {
        self.phase = RunPhase::Packets { route, tail, last };
        RunCommand::ReceivePacket { route }
    }

    fn flush_sink<F, E>(&mut self, route: usize) -> (r: RunCommand<F, E>)
        requires
            route < old(self).routes@.len(),
        ensures
            final(self).wf(),
            final(self)@ == old(self)@.at(RunPhase::FlushingSink { route }),
            r == (RunCommand::<F, E>::FlushSink { route }),
    {
        self.phase = RunPhase::FlushingSink { route };
        RunCommand::FlushSink { route }
    }

    fn took_frame<F, E>(&mut self, route: usize, tail: bool, reply: RunReply<F, E>) -> (r:
        RunCommand<F, E>)
        requires
            old(self).wf(),
            old(self).phase == (RunPhase::Frames { route, tail }),
            old(self)@.can_count(reply),
            !(reply is Error),
        ensures
            final(self).wf(),
            (final(self)@, r) == old(self)@.step(reply),
    {
        match reply {
            RunReply::Frame(frame) => {
                self.stats.frames_decoded = self.stats.frames_decoded + 1;
                if self.transcodes(route) {
                    self.phase = RunPhase::Materialising { route, tail };
                    RunCommand::Materialise { frame }
                } else {
                    self.phase = RunPhase::WritingFrame { route, tail };
                    RunCommand::WriteFrame { route, frame }
                }
            },
            _ => if !tail {
                self.phase = RunPhase::Reading;
                RunCommand::Read
            } else if self.transcodes(route) {
                self.phase = RunPhase::FlushingEncoder { route };
                RunCommand::FlushEncoder { route }
            } else {
                self.flush_sink(route)
            },
        }
    }

    /// Takes the outcome of the call that was asked for, and asks for the next.
    pub fn step<F, E>(&mut self, reply: RunReply<F, E>) -> (r: RunCommand<F, E>)
        requires
            old(self).wf(),
            old(self)@.can_count(reply),
        ensures
            final(self).wf(),
            (final(self)@, r) == old(self)@.step(reply),
    {
        let n: usize = self.routes.len();
        match reply {
            RunReply::Error(e) => {
                self.phase = RunPhase::Ended;
                RunCommand::Failed(e)
            },
            reply => match self.phase {
                RunPhase::Reading => match reply {
                    RunReply::Packet { stream } => self.read(stream),
                    RunReply::Eof => self.flush(0),
                    _ => RunCommand::Read,
                },
                RunPhase::Copying => {
                    self.stats.packets_copied = self.stats.packets_copied + 1;
                    self.phase = RunPhase::Reading;
                    RunCommand::Read
                },
                RunPhase::Sending { route } => self.frames(route, false),
                RunPhase::Frames { route, tail } => self.took_frame(route, tail, reply),
                RunPhase::WritingFrame { route, tail } => self.frames(route, tail),
                RunPhase::Materialising { route, tail } => match reply {
                    RunReply::Frame(frame) => {
                        self.phase = RunPhase::Encoding { route, tail };
                        RunCommand::SendFrame { route, frame }
                    },
                    _ => self.frames(route, tail),
                },
                RunPhase::Encoding { route, tail } => self.packets(route, tail, false),
                RunPhase::Packets { route, tail, last } => match reply {
                    RunReply::HavePacket => {
                        self.stats.packets_encoded = self.stats.packets_encoded + 1;
                        self.phase = RunPhase::WritingPacket { route, tail, last };
                        RunCommand::WritePacket { route }
                    },
                    _ => if last {
                        self.flush_sink(route)
                    } else {
                        self.frames(route, tail)
                    },
                },
                RunPhase::WritingPacket { route, tail, last } => self.packets(route, tail, last),
                RunPhase::FlushingDecoder { route } => self.frames(route, true),
                RunPhase::FlushingEncoder { route } => self.packets(route, true, true),
                RunPhase::FlushingSink { route } => {
                    assert(route < n);
                    self.flush(route + 1)
                },
                RunPhase::Ended => RunCommand::Finished(self.stats),
            },
        }
    }
}

/// A packet that a sink could take as it is is never decoded, whatever the sink
/// asked for.
pub proof fn matching_target_is_copied(source: ParamsView, target: CodecParameters)
    requires
        source.same_core(target@),
    ensures
        mode_for(source, SinkAcceptance::Transcode { target }) == Ok::<RouteMode, JobError>(
            RouteMode::Copy,
        ),
{
}

/// Every packet that is read is either dropped, because no route takes its
/// stream, or goes down the first route that does.
pub proof fn packet_goes_down_one_route<F, E>(v: RunView, stream: u32)
    requires
        v.phase is Reading,
        v.stats.has_room(1),
        v.routes.len() <= usize::MAX,
    ensures
        ({
            let (w, command) = v.step::<F, E>(RunReply::Packet { stream });
            let route = route_at(v.routes, stream, 0);
            &&& w.stats.packets_read == v.stats.packets_read + 1
            &&& w.stats.packets_dropped == v.stats.packets_dropped + (if 0 <= route
                < v.routes.len() {
                0int
            } else {
                1int
            })
            &&& 0 <= route < v.routes.len() ==> command == (if v.routes[route].mode is Copy {
                RunCommand::<F, E>::CopyPacket { route: route as usize }
            } else {
                RunCommand::SendPacket { route: route as usize }
            })
            &&& !(0 <= route < v.routes.len()) ==> command is Read
        }),
{
}

/// The first error, from whatever call, ends the run, unchanged.
pub proof fn error_ends_the_run<F, E>(v: RunView, error: E)
    ensures
        v.step::<F, E>(RunReply::Error(error)) == (v.at(RunPhase::Ended), RunCommand::<F, E>::Failed(
            error,
        )),
{
}

/// What two descriptions have to agree in for packets of the one to serve as the other.
pub open spec fn agree(source: ParamsView, target: ParamsView) -> bool {
    &&& source.codec_id == target.codec_id
    &&& source.width == target.width
    &&& source.height == target.height
    &&& source.sample_rate == target.sample_rate
    &&& source.channels == target.channels
    &&& source.sample_format == target.sample_format
    &&& source.pixel_format is Some <==> target.pixel_format is Some
    &&& source.pixel_format is Some && target.pixel_format is Some ==> pixel_code(
        source.pixel_format->0,
    ) == pixel_code(target.pixel_format->0)
}

/// A sink gets a stream with the least that has to be done to it: packets as they are
/// where it takes them or wants just what they are, decoded frames where it wants the
/// same coding of the same kind of media in another shape, and else what an encoder
/// makes. A sink that rejects the stream gets none.
pub proof fn least_is_done(source: ParamsView, target: CodecParameters)
    ensures
        ({
            let t = target@;
            let r = mode_for(source, SinkAcceptance::Transcode { target });
            let same_coding = source.codec_id == t.codec_id && source.media_type == t.media_type;
            &&& r is Ok
            &&& r->Ok_0 is Copy <==> agree(source, t)
            &&& r->Ok_0 is Decode <==> same_coding && !agree(source, t)
            &&& r->Ok_0 is Transcode <==> !same_coding && !agree(source, t)
        }),
        mode_for(source, SinkAcceptance::Copy) is Ok,
        mode_for(source, SinkAcceptance::Copy)->Ok_0 is Copy,
        mode_for(source, SinkAcceptance::Reject) is Err,
        mode_for(source, SinkAcceptance::Reject)->Err_0 is SinkRejected,
{
}

/// The first stream of a kind is of that kind, and none before it is; there is none
/// exactly where no stream is of the kind.
pub proof fn first_of_is_first(streams: Seq<StreamInfo>, kind: MediaType, from: int)
    requires
        0 <= from <= streams.len(),
    ensures
        from <= first_of(streams, kind, from) <= streams.len(),
        first_of(streams, kind, from) < streams.len() ==> streams[first_of(
            streams,
            kind,
            from,
        )].params.media_type == kind,
        forall|j: int|
            from <= j < first_of(streams, kind, from) ==> (#[trigger] streams[j]).params.media_type
                != kind,
    decreases streams.len() - from,
{
    if from < streams.len() && streams[from].params.media_type != kind {
        first_of_is_first(streams, kind, from + 1);
    }
}

/// A stream can be bound exactly while nothing is prepared and where the source has one
/// with that index; of several with one index, the first is meant.
pub proof fn bound_stream_is_the_named(p: Pipeline, index: u32)
    ensures
        ({
            let r = p.bindable(index);
            &&& p.prepared ==> r is Err && r->Err_0 is AlreadyPrepared
            &&& r is Ok <==> !p.prepared && exists|i: int|
                0 <= i < p.streams@.len() && (#[trigger] p.streams@[i]).index == index
            &&& !p.prepared && r is Err ==> r->Err_0 == (JobError::NoStreamWithIndex { index })
            &&& r is Ok ==> {
                &&& 0 <= r->Ok_0 < p.streams@.len()
                &&& p.streams@[r->Ok_0].index == index
                &&& forall|j: int| 0 <= j < r->Ok_0 ==> (#[trigger] p.streams@[j]).index != index
            }
        }),
{
    crate::track::stream_at_finds(p.streams@, index, 0);
}

} // verus!
