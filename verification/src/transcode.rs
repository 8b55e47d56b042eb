//! All streams of a demuxer into one container: planning the output streams,
//! and copying or encoding the packets into them.

use crate::error::JobError;
use crate::media::{
    stream_views, CodecParameters, MediaType, ParamsView, StreamInfo, StreamView, TimeBase,
};
use crate::selection::CodecPreferences;
use vstd::prelude::*;

verus! {

/// What becomes of an input stream.
pub enum StreamPlan {
    Copy,
    /// Decoded, and encoded with this codec.
    Reencode { output_codec: String },
    /// Left out of the output.
    Drop,
}

#[derive(Clone, Copy, Debug, PartialEq, Eq, Structural)]
pub struct TranscodeStats {
    pub packets_in: u64,
    pub packets_out: u64,
    pub frames_decoded: u64,
}

impl Default for TranscodeStats {
    fn default() -> (r: Self)
        ensures
            r == TranscodeStats::zero(),
    {
        TranscodeStats { packets_in: 0, packets_out: 0, frames_decoded: 0 }
    }
}

impl TranscodeStats {
    pub open spec fn zero() -> TranscodeStats {
        TranscodeStats { packets_in: 0, packets_out: 0, frames_decoded: 0 }
    }

    /// Each counter can still take `n` more events.
    pub open spec fn has_room(self, n: int) -> bool {
        &&& self.packets_in + n <= u64::MAX
        &&& self.packets_out + n <= u64::MAX
        &&& self.frames_decoded + n <= u64::MAX
    }
}

/// What the encoder for an input stream is asked for: the codec, and what the
/// stream says of sound or picture.
pub open spec fn encoder_params(codec: Seq<char>, input: StreamView) -> Result<
    ParamsView,
    JobError,
> {
    let p = input.params;
    match p.media_type {
        MediaType::Audio => Ok(
            ParamsView {
                sample_rate: p.sample_rate,
                channels: p.channels,
                sample_format: p.sample_format,
                channel_layout: p.channel_layout,
                ..ParamsView::bare(codec, MediaType::Audio)
            },
        ),
        MediaType::Video => Ok(
            ParamsView {
                width: p.width,
                height: p.height,
                pixel_format: p.pixel_format,
                frame_rate: p.frame_rate,
                ..ParamsView::bare(codec, MediaType::Video)
            },
        ),
        MediaType::Subtitle => Ok(ParamsView::bare(codec, MediaType::Subtitle)),
        MediaType::Data | MediaType::Unknown => Err(
            JobError::CannotReencode { kind: p.media_type, index: input.index },
        ),
    }
}

/// Describes what the encoder for an input stream is asked for.
pub fn build_encoder_params(output_codec: &String, input: &StreamInfo) -> (r: Result<
    CodecParameters,
    JobError,
>)
    ensures
        match encoder_params(output_codec@, input@) {
            Ok(p) => r matches Ok(q) && q@ == p,
            Err(e) => r == Err::<CodecParameters, JobError>(e),
        },
        r matches Ok(q) ==> q.codec_id@ == output_codec@ && q.media_type
            == input.params.media_type,
        r matches Ok(q) ==> (q.media_type == MediaType::Video ==> q.width == input.params.width
            && q.height == input.params.height && q.pixel_format == input.params.pixel_format
            && q.frame_rate == input.params.frame_rate),
        r matches Ok(q) ==> (q.media_type == MediaType::Audio ==> q.sample_rate
            == input.params.sample_rate && q.channels == input.params.channels && q.sample_format
            == input.params.sample_format && q.channel_layout == input.params.channel_layout),
{
    match input.params.media_type {
        MediaType::Audio => {
            let mut p = CodecParameters::new(output_codec.clone(), MediaType::Audio);
            p.sample_rate = input.params.sample_rate;
            p.channels = input.params.channels;
            p.sample_format = input.params.sample_format;
            p.channel_layout = input.params.channel_layout;
            Ok(p)
        },
        MediaType::Video => {
            let mut p = CodecParameters::new(output_codec.clone(), MediaType::Video);
            p.width = input.params.width;
            p.height = input.params.height;
            p.pixel_format = input.params.pixel_format;
            p.frame_rate = input.params.frame_rate;
            Ok(p)
        },
        MediaType::Subtitle => Ok(
            CodecParameters::new(output_codec.clone(), MediaType::Subtitle),
        ),
        MediaType::Data | MediaType::Unknown => Err(
            JobError::CannotReencode { kind: input.params.media_type, index: input.index },
        ),
    }
}

/// The clock of an encoded stream: its sample rate where it is sound with one,
/// else the input's clock.
pub open spec fn output_clock(out: ParamsView, input: TimeBase) -> TimeBase {
    match (out.media_type, out.sample_rate) {
        (MediaType::Audio, Some(rate)) if rate > 0 => TimeBase { num: 1, den: rate as i64 },
        _ => input,
    }
}

/// The output stream of an encoder that makes `out`.
pub open spec fn encoded_stream(index: int, input: StreamView, out: ParamsView) -> StreamView {
    StreamView {
        index: index as u32,
        time_base: output_clock(out, input.time_base),
        duration: input.duration,
        start_time: Some(0),
        params: out,
    }
}

/// Where the packets of an input stream go.
#[derive(Clone, Copy, Debug, PartialEq, Eq, Structural)]
pub struct TranscodeRoute {
    pub input: u32,
    pub out_index: u32,
    pub reencode: bool,
}

#[derive(Clone, Copy, Debug, PartialEq, Eq, Structural)]
pub enum SetupPhase {
    /// The plan for the stream at the cursor is wanted.
    Planning,
    Decoding,
    Encoding,
    Done,
}

pub enum SetupStep {
    /// Say what becomes of this input stream.
    Plan { stream: usize },
    MakeDecoder { params: CodecParameters },
    MakeEncoder { params: CodecParameters },
    /// The output streams are known: open the container.
    OpenMuxer,
    Failed(JobError),
}

/// Plans the output streams, one input stream after the other.
pub struct TranscodeSetup {
    pub inputs: Vec<StreamInfo>,
    pub at: usize,
    pub codec: String,
    pub routes: Vec<TranscodeRoute>,
    pub outputs: Vec<StreamInfo>,
    /// What is wanted of codec selection.
    pub prefs: CodecPreferences,
    pub phase: SetupPhase,
}

#[verifier::ext_equal]
pub struct SetupView {
    pub inputs: Seq<StreamView>,
    pub at: int,
    pub codec: Seq<char>,
    pub routes: Seq<TranscodeRoute>,
    pub outputs: Seq<StreamView>,
    pub prefs: CodecPreferences,
    pub phase: SetupPhase,
}

impl View for TranscodeSetup {
    type V = SetupView;

    open spec fn view(&self) -> SetupView {
        SetupView {
            inputs: stream_views(self.inputs@),
            at: self.at as int,
            codec: self.codec@,
            routes: self.routes@,
            outputs: stream_views(self.outputs@),
            prefs: self.prefs,
            phase: self.phase,
        }
    }
}

impl SetupView {
    /// Before the first input stream is planned.
    pub open spec fn start(inputs: Seq<StreamView>, prefs: CodecPreferences) -> SetupView {
        SetupView {
            inputs,
            at: 0,
            codec: Seq::empty(),
            routes: Seq::empty(),
            outputs: Seq::empty(),
            prefs,
            phase: if inputs.len() == 0 {
                SetupPhase::Done
            } else {
                SetupPhase::Planning
            },
        }
    }

    /// Whether `step` is what the setup needs next.
    pub open spec fn needs(self, step: SetupStep) -> bool {
        match self.phase {
            SetupPhase::Planning => step == (SetupStep::Plan { stream: self.at as usize }),
            SetupPhase::Decoding => step matches SetupStep::MakeDecoder { params } && params@
                == self.inputs[self.at].params,
            SetupPhase::Encoding => match encoder_params(self.codec, self.inputs[self.at]) {
                Ok(p) => step matches SetupStep::MakeEncoder { params } && params@ == p,
                Err(e) => step == SetupStep::Failed(e),
            },
            SetupPhase::Done => if self.inputs.len() == 0 {
                step == SetupStep::Failed(JobError::NoInputStreams)
            } else if self.outputs.len() == 0 {
                step == SetupStep::Failed(JobError::AllStreamsDropped)
            } else {
                step is OpenMuxer
            },
        }
    }

    /// On to the next input stream.
    pub open spec fn advanced(self) -> SetupView {
        SetupView {
            at: self.at + 1,
            phase: if self.at + 1 < self.inputs.len() {
                SetupPhase::Planning
            } else {
                SetupPhase::Done
            },
            ..self
        }
    }

    /// With an output stream for the input stream at the cursor.
    pub open spec fn routed(self, output: StreamView, reencode: bool) -> SetupView {
        SetupView {
            routes: self.routes.push(
                TranscodeRoute {
                    input: self.inputs[self.at].index,
                    out_index: self.outputs.len() as u32,
                    reencode,
                },
            ),
            outputs: self.outputs.push(output),
            ..self
        }
    }

    /// After the plan for the input stream at the cursor.
    pub open spec fn planned(self, plan: StreamPlan) -> SetupView {
        match plan {
            StreamPlan::Drop => self.advanced(),
            StreamPlan::Copy => self.routed(
                StreamView { index: self.outputs.len() as u32, ..self.inputs[self.at] },
                false,
            ).advanced(),
            StreamPlan::Reencode { output_codec } => SetupView {
                codec: output_codec@,
                phase: SetupPhase::Decoding,
                ..self
            },
        }
    }

    pub open spec fn encoded(self, out: ParamsView) -> SetupView {
        self.routed(
            encoded_stream(self.outputs.len() as int, self.inputs[self.at], out),
            true,
        ).advanced()
    }

    /// The output streams are numbered densely, and route `k` leads to output
    /// stream `k`.
    pub open spec fn dense(self) -> bool {
        &&& self.routes.len() == self.outputs.len()
        &&& self.outputs.len() <= self.at <= self.inputs.len()
        &&& forall|k: int| 0 <= k < self.outputs.len() ==> (#[trigger] self.outputs[k]).index == k
        &&& forall|k: int| 0 <= k < self.routes.len() ==> (#[trigger] self.routes[k]).out_index == k
    }
}

impl TranscodeSetup {
    pub open spec fn wf(self) -> bool {
        &&& self.inputs@.len() <= u32::MAX
        &&& self@.dense()
        &&& !(self.phase is Done) ==> self.at < self.inputs@.len()
    }

    /// Starts on the streams of a demuxer.
    pub fn new(inputs: Vec<StreamInfo>, prefs: CodecPreferences) -> (r: Self)
        requires
            inputs@.len() <= u32::MAX,
        ensures
            r.wf(),
            r@ == SetupView::start(stream_views(inputs@), prefs),
    {
        let phase = if inputs.len() == 0 {
            SetupPhase::Done
        } else {
            SetupPhase::Planning
        };
        let r = TranscodeSetup {
            inputs,
            at: 0,
            codec: String::new(),
            routes: Vec::new(),
            outputs: Vec::new(),
            prefs,
            phase,
        };
        assert(r@.outputs =~= Seq::empty());
        assert(r@.routes =~= Seq::empty());
        r
    }

    /// What the setup needs next.
    pub fn next(&self) -> (r: SetupStep)
        requires
            self.wf(),
        ensures
            self@.needs(r),
    {
        match self.phase {
            SetupPhase::Planning => SetupStep::Plan { stream: self.at },
            SetupPhase::Decoding => SetupStep::MakeDecoder {
                params: self.inputs[self.at].params.clone(),
            },
            SetupPhase::Encoding => match build_encoder_params(
                &self.codec,
                &self.inputs[self.at],
            ) {
                Ok(params) => SetupStep::MakeEncoder { params },
                Err(e) => SetupStep::Failed(e),
            },
            SetupPhase::Done => if self.inputs.len() == 0 {
                SetupStep::Failed(JobError::NoInputStreams)
            } else if self.outputs.len() == 0 {
                SetupStep::Failed(JobError::AllStreamsDropped)
            } else {
                SetupStep::OpenMuxer
            },
        }
    }

    fn advance(&mut self)
        requires
            old(self).inputs@.len() <= u32::MAX,
            old(self).at < old(self).inputs@.len(),
            old(self)@.routes.len() == old(self)@.outputs.len(),
            old(self)@.outputs.len() <= old(self).at + 1,
            forall|k: int|
                0 <= k < old(self)@.outputs.len() ==> (#[trigger] old(self)@.outputs[k]).index == k,
            forall|k: int|
                0 <= k < old(self)@.routes.len() ==> (#[trigger] old(self)@.routes[k]).out_index
                    == k,
        ensures
            final(self).wf(),
            final(self)@ == old(self)@.advanced(),
    {
        self.at = self.at + 1;
        self.phase = if self.at < self.inputs.len() {
            SetupPhase::Planning
        } else {
            SetupPhase::Done
        };
    }

    fn route(&mut self, output: StreamInfo, reencode: bool)
        requires
            old(self).wf(),
            !(old(self).phase is Done),
            output.index == old(self)@.outputs.len(),
        ensures
            final(self).wf(),
            final(self)@ == old(self)@.routed(output@, reencode).advanced(),
    {
        let ghost before = self@;
        let n: usize = self.outputs.len();
        self.routes.push(
            TranscodeRoute {
                input: self.inputs[self.at].index,
                out_index: n as u32,
                reencode,
            },
        );
        self.outputs.push(output);
        assert(self@.outputs =~= before.outputs.push(output@));
        assert(self@ =~= before.routed(output@, reencode));
        self.advance();
    }

    /// What becomes of the input stream at the cursor.
    pub fn plan(&mut self, plan: StreamPlan)
        requires
            old(self).wf(),
            old(self).phase is Planning,
        ensures
            final(self).wf(),
            final(self)@ == old(self)@.planned(plan),
    {
        match plan {
            StreamPlan::Drop => {
                self.advance();
            },
            StreamPlan::Copy => {
                let mut out = self.inputs[self.at].clone();
                out.index = self.outputs.len() as u32;
                self.route(out, false);
            },
            StreamPlan::Reencode { output_codec } => {
                self.codec = output_codec;
                self.phase = SetupPhase::Decoding;
            },
        }
    }

    /// The decoder that was asked for is there.
    pub fn decoder_ready(&mut self)
        requires
            old(self).wf(),
            old(self).phase is Decoding,
        ensures
            final(self).wf(),
            final(self)@ == (SetupView { phase: SetupPhase::Encoding, ..old(self)@ }),
    {
        self.phase = SetupPhase::Encoding;
    }

    /// The encoder that was asked for is there, and says it makes `out`.
    pub fn encoder_ready(&mut self, out: CodecParameters)
        requires
            old(self).wf(),
            old(self).phase is Encoding,
        ensures
            final(self).wf(),
            final(self)@ == old(self)@.encoded(out@),
    {
        let input = &self.inputs[self.at];
        let clock = match out.media_type {
            MediaType::Audio => match out.sample_rate {
                Some(rate) => if rate > 0 {
                    TimeBase { num: 1, den: rate as i64 }
                } else {
                    input.time_base
                },
                None => input.time_base,
            },
            _ => input.time_base,
        };
        let stream = StreamInfo {
            index: self.outputs.len() as u32,
            time_base: clock,
            duration: input.duration,
            start_time: Some(0),
            params: out,
        };
        self.route(stream, true);
    }
}

/// Where a run stands between the calls that it asks for. `tail` says that the
/// source is at its end and the route is being flushed.
#[derive(Clone, Copy, Debug, PartialEq, Eq, Structural)]
pub enum TranscodePhase {
    Header,
    Reading,
    Copying,
    Sending { route: usize },
    Frames { route: usize, tail: bool },
    Encoding { route: usize, tail: bool },
    Packets { route: usize, tail: bool, last: bool },
    Writing { route: usize, tail: bool, last: bool },
    FlushingDecoder { route: usize },
    FlushingEncoder { route: usize },
    Trailer,
    Ended,
}

pub enum TranscodeCommand<F, E> {
    WriteHeader,
    Read,
    /// Write the packet that was read, under this stream index.
    CopyPacket { out_index: u32 },
    SendPacket { route: usize },
    ReceiveFrame { route: usize },
    SendFrame { route: usize, frame: F },
    ReceivePacket { route: usize },
    /// Write the encoder's packet, under this stream index.
    WritePacket { out_index: u32 },
    FlushDecoder { route: usize },
    FlushEncoder { route: usize },
    WriteTrailer,
    Finished(TranscodeStats),
    Failed(E),
}

pub enum TranscodeReply<F, E> {
    Start,
    Packet { stream: u32 },
    Eof,
    Frame(F),
    NoMore,
    HavePacket,
    Done,
    Error(E),
}

/// Reads the source to its end, writes each packet or what its encoder makes of
/// it, then what the encoders still held.
pub struct TranscodeRun {
    pub routes: Vec<TranscodeRoute>,
    pub stats: TranscodeStats,
    pub phase: TranscodePhase,
}

#[verifier::ext_equal]
pub struct TranscodeView {
    pub routes: Seq<TranscodeRoute>,
    pub stats: TranscodeStats,
    pub phase: TranscodePhase,
}

impl View for TranscodeRun {
    type V = TranscodeView;

    open spec fn view(&self) -> TranscodeView {
        TranscodeView { routes: self.routes@, stats: self.stats, phase: self.phase }
    }
}

/// The route of an input stream; where several streams share an index, the last
/// one's.
pub open spec fn last_route(routes: Seq<TranscodeRoute>, input: u32) -> Option<int>
    decreases routes.len(),
{
    if routes.len() == 0 {
        None
    } else if routes.last().input == input {
        Some(routes.len() - 1)
    } else {
        last_route(routes.drop_last(), input)
    }
}

/// The first route at or after `from` that encodes.
pub open spec fn encoder_from(routes: Seq<TranscodeRoute>, from: int) -> int
    decreases routes.len() - from,
{
    if from < 0 || from >= routes.len() {
        routes.len() as int
    } else if routes[from].reencode {
        from
    } else {
        encoder_from(routes, from + 1)
    }
}

impl TranscodeView {
    pub open spec fn at(self, phase: TranscodePhase) -> TranscodeView {
        TranscodeView { phase, ..self }
    }

    pub open spec fn reading<F, E>(self) -> (TranscodeView, TranscodeCommand<F, E>) {
        (self.at(TranscodePhase::Reading), TranscodeCommand::Read)
    }

    /// One more packet is in the container.
    pub open spec fn wrote(self) -> TranscodeView {
        TranscodeView {
            stats: TranscodeStats {
                packets_out: (self.stats.packets_out + 1) as u64,
                ..self.stats
            },
            ..self
        }
    }

    pub open spec fn frames<F, E>(self, route: usize, tail: bool) -> (
        TranscodeView,
        TranscodeCommand<F, E>,
    ) {
        (
            self.at(TranscodePhase::Frames { route, tail }),
            TranscodeCommand::ReceiveFrame { route },
        )
    }

    pub open spec fn packets<F, E>(self, route: usize, tail: bool, last: bool) -> (
        TranscodeView,
        TranscodeCommand<F, E>,
    ) {
        (
            self.at(TranscodePhase::Packets { route, tail, last }),
            TranscodeCommand::ReceivePacket { route },
        )
    }

    /// Flushes the encoding routes in order, then closes the container.
    pub open spec fn flushing<F, E>(self, from: int) -> (TranscodeView, TranscodeCommand<F, E>) {
        let route = encoder_from(self.routes, from);
        if route < self.routes.len() {
            (
                self.at(TranscodePhase::FlushingDecoder { route: route as usize }),
                TranscodeCommand::FlushDecoder { route: route as usize },
            )
        } else {
            (self.at(TranscodePhase::Trailer), TranscodeCommand::WriteTrailer)
        }
    }

    /// What follows a packet of an input stream.
    pub open spec fn read<F, E>(self, stream: u32) -> (TranscodeView, TranscodeCommand<F, E>) {
        let counted = TranscodeView {
            stats: TranscodeStats {
                packets_in: (self.stats.packets_in + 1) as u64,
                ..self.stats
            },
            ..self
        };
        match last_route(self.routes, stream) {
            Some(route) => if self.routes[route].reencode {
                (
                    counted.at(TranscodePhase::Sending { route: route as usize }),
                    TranscodeCommand::SendPacket { route: route as usize },
                )
            } else {
                (
                    counted.at(TranscodePhase::Copying),
                    TranscodeCommand::CopyPacket { out_index: self.routes[route].out_index },
                )
            },
            None => counted.reading(),
        }
    }

    /// One exchange: the outcome of the awaited call, then the next call. The
    /// first error ends the run.
    pub open spec fn step<F, E>(self, reply: TranscodeReply<F, E>) -> (
        TranscodeView,
        TranscodeCommand<F, E>,
    ) {
        match (self.phase, reply) {
            (_, TranscodeReply::Error(e)) => (
                self.at(TranscodePhase::Ended),
                TranscodeCommand::Failed(e),
            ),
            (TranscodePhase::Header, TranscodeReply::Start) => (
                self,
                TranscodeCommand::WriteHeader,
            ),
            (TranscodePhase::Header, _) => self.reading(),
            (TranscodePhase::Reading, TranscodeReply::Packet { stream }) => self.read(stream),
            (TranscodePhase::Reading, TranscodeReply::Eof) => self.flushing(0),
            (TranscodePhase::Reading, _) => self.reading(),
            (TranscodePhase::Copying, _) => self.wrote().reading(),
            (TranscodePhase::Sending { route }, _) => self.frames(route, false),
            (TranscodePhase::Frames { route, tail }, TranscodeReply::Frame(frame)) => (
                TranscodeView {
                    stats: TranscodeStats {
                        frames_decoded: (self.stats.frames_decoded + 1) as u64,
                        ..self.stats
                    },
                    phase: TranscodePhase::Encoding { route, tail },
                    ..self
                },
                TranscodeCommand::SendFrame { route, frame },
            ),
            (TranscodePhase::Frames { route, tail }, _) => if tail {
                (
                    self.at(TranscodePhase::FlushingEncoder { route }),
                    TranscodeCommand::FlushEncoder { route },
                )
            } else {
                self.reading()
            },
            (TranscodePhase::Encoding { route, tail }, _) => self.packets(route, tail, false),
            (TranscodePhase::Packets { route, tail, last }, TranscodeReply::HavePacket) => (
                self.at(TranscodePhase::Writing { route, tail, last }),
                TranscodeCommand::WritePacket { out_index: self.routes[route as int].out_index },
            ),
            (TranscodePhase::Packets { route, tail, last }, _) => if last {
                self.flushing(route + 1)
            } else {
                self.frames(route, tail)
            },
            (TranscodePhase::Writing { route, tail, last }, _) => self.wrote().packets(
                route,
                tail,
                last,
            ),
            (TranscodePhase::FlushingDecoder { route }, _) => self.frames(route, true),
            (TranscodePhase::FlushingEncoder { route }, _) => self.packets(route, true, true),
            (TranscodePhase::Trailer, _) => (
                self.at(TranscodePhase::Ended),
                TranscodeCommand::Finished(self.stats),
            ),
            (TranscodePhase::Ended, _) => (self, TranscodeCommand::Finished(self.stats)),
        }
    }

    /// The counter that an outcome moves, if any, can take one more.
    pub open spec fn can_count<F, E>(self, reply: TranscodeReply<F, E>) -> bool {
        let s = self.stats;
        match self.phase {
            TranscodePhase::Reading => reply is Packet ==> s.packets_in < u64::MAX,
            TranscodePhase::Copying | TranscodePhase::Writing { .. } => !(reply is Error)
                ==> s.packets_out < u64::MAX,
            TranscodePhase::Frames { .. } => reply is Frame ==> s.frames_decoded < u64::MAX,
            _ => true,
        }
    }

    pub open spec fn phase_wf(self) -> bool {
        match self.phase {
            TranscodePhase::Sending { route }
            | TranscodePhase::Frames { route, .. }
            | TranscodePhase::Encoding { route, .. }
            | TranscodePhase::Packets { route, .. }
            | TranscodePhase::Writing { route, .. }
            | TranscodePhase::FlushingDecoder { route }
            | TranscodePhase::FlushingEncoder { route } => route < self.routes.len(),
            _ => true,
        }
    }
}

impl TranscodeRun {
    pub open spec fn wf(self) -> bool {
        self@.phase_wf()
    }

    /// A run over planned routes, before the container is written to.
    pub fn new(routes: Vec<TranscodeRoute>) -> (r: Self)
        ensures
            r.wf(),
            r@ == (TranscodeView {
                routes: routes@,
                stats: TranscodeStats::zero(),
                phase: TranscodePhase::Header,
            }),
    {
        TranscodeRun { routes, stats: TranscodeStats::default(), phase: TranscodePhase::Header }
    }

    fn find_route(&self, input: u32) -> (r: Option<usize>)
        ensures
            match r {
                Some(i) => i < self.routes@.len() && last_route(self.routes@, input) == Some(
                    i as int,
                ),
                None => last_route(self.routes@, input) is None,
            },
    {
        let mut i: usize = self.routes.len();
        assert(self.routes@.take(i as int) =~= self.routes@);
        while i > 0
            invariant
                i <= self.routes@.len(),
                last_route(self.routes@, input) == last_route(self.routes@.take(i as int), input),
            decreases i,
        {
            assert(self.routes@.take(i as int).drop_last() =~= self.routes@.take(i - 1));
            if self.routes[i - 1].input == input {
                return Some(i - 1);
            }
            i -= 1;
        }
        None
    }

    fn find_encoder(&self, from: usize) -> (r: usize)
        requires
            from <= self.routes@.len(),
        ensures
            r == encoder_from(self.routes@, from as int),
            r <= self.routes@.len(),
    {
        let mut i: usize = from;
        while i < self.routes.len()
            invariant
                i <= self.routes@.len(),
                encoder_from(self.routes@, i as int) == encoder_from(self.routes@, from as int),
            decreases self.routes@.len() - i,
        {
            if self.routes[i].reencode {
                return i;
            }
            i += 1;
        }
        i
    }

    fn flush<F, E>(&mut self, from: usize) -> (r: TranscodeCommand<F, E>)
        requires
            from <= old(self).routes@.len(),
        ensures
            final(self).wf(),
            (final(self)@, r) == old(self)@.flushing::<F, E>(from as int),
    {
        let route: usize = self.find_encoder(from);
        if route < self.routes.len() {
            self.phase = TranscodePhase::FlushingDecoder { route };
            TranscodeCommand::FlushDecoder { route }
        } else {
            self.phase = TranscodePhase::Trailer;
            TranscodeCommand::WriteTrailer
        }
    }

    fn frames<F, E>(&mut self, route: usize, tail: bool) -> (r: TranscodeCommand<F, E>)
        requires
            route < old(self).routes@.len(),
        ensures
            final(self).wf(),
            (final(self)@, r) == old(self)@.frames::<F, E>(route, tail),
    {
        self.phase = TranscodePhase::Frames { route, tail };
        TranscodeCommand::ReceiveFrame { route }
    }

    fn packets<F, E>(&mut self, route: usize, tail: bool, last: bool) -> (r: TranscodeCommand<F, E>)
        requires
            route < old(self).routes@.len(),
        ensures
            final(self).wf(),
            (final(self)@, r) == old(self)@.packets::<F, E>(route, tail, last),
    {
        self.phase = TranscodePhase::Packets { route, tail, last };
        TranscodeCommand::ReceivePacket { route }
    }

    fn read<F, E>(&mut self) -> (r: TranscodeCommand<F, E>)
        ensures
            final(self).wf(),
            (final(self)@, r) == old(self)@.reading::<F, E>(),
    {
        self.phase = TranscodePhase::Reading;
        TranscodeCommand::Read
    }

    /// A packet of an input stream was read.
    pub fn process_packet<F, E>(&mut self, stream: u32) -> (r: TranscodeCommand<F, E>)
        requires
            old(self).stats.packets_in < u64::MAX,
        ensures
            final(self).wf(),
            (final(self)@, r) == old(self)@.read::<F, E>(stream),
    {
        self.stats.packets_in = self.stats.packets_in + 1;
        match self.find_route(stream) {
            Some(route) => if self.routes[route].reencode {
                self.phase = TranscodePhase::Sending { route };
                TranscodeCommand::SendPacket { route }
            } else {
                self.phase = TranscodePhase::Copying;
                TranscodeCommand::CopyPacket { out_index: self.routes[route].out_index }
            },
            None => self.read(),
        }
    }

    /// Takes the outcome of the call that was asked for, and asks for the next.
    pub fn step<F, E>(&mut self, reply: TranscodeReply<F, E>) -> (r: TranscodeCommand<F, E>)
        requires
            old(self).wf(),
            old(self)@.can_count(reply),
        ensures
            final(self).wf(),
            (final(self)@, r) == old(self)@.step(reply),
    {
        let n: usize = self.routes.len();
        match reply {
            TranscodeReply::Error(e) => {
                self.phase = TranscodePhase::Ended;
                TranscodeCommand::Failed(e)
            },
            reply => match self.phase {
                TranscodePhase::Header => match reply {
                    TranscodeReply::Start => TranscodeCommand::WriteHeader,
                    _ => self.read(),
                },
                TranscodePhase::Reading => match reply {
                    TranscodeReply::Packet { stream } => self.process_packet(stream),
                    TranscodeReply::Eof => self.flush(0),
                    _ => self.read(),
                },
                TranscodePhase::Copying => {
                    self.stats.packets_out = self.stats.packets_out + 1;
                    self.read()
                },
                TranscodePhase::Sending { route } => self.frames(route, false),
                TranscodePhase::Frames { route, tail } => match reply {
                    TranscodeReply::Frame(frame) => {
                        self.stats.frames_decoded = self.stats.frames_decoded + 1;
                        self.phase = TranscodePhase::Encoding { route, tail };
                        TranscodeCommand::SendFrame { route, frame }
                    },
                    _ => if tail {
                        self.phase = TranscodePhase::FlushingEncoder { route };
                        TranscodeCommand::FlushEncoder { route }
                    } else {
                        self.read()
                    },
                },
                TranscodePhase::Encoding { route, tail } => self.packets(route, tail, false),
                TranscodePhase::Packets { route, tail, last } => match reply {
                    TranscodeReply::HavePacket => {
                        self.phase = TranscodePhase::Writing { route, tail, last };
                        TranscodeCommand::WritePacket { out_index: self.routes[route].out_index }
                    },
                    _ => if last {
                        assert(route < n);
                        self.flush(route + 1)
                    } else {
                        self.frames(route, tail)
                    },
                },
                TranscodePhase::Writing { route, tail, last } => {
                    self.stats.packets_out = self.stats.packets_out + 1;
                    self.packets(route, tail, last)
                },
                TranscodePhase::FlushingDecoder { route } => self.frames(route, true),
                TranscodePhase::FlushingEncoder { route } => self.packets(route, true, true),
                TranscodePhase::Trailer => {
                    self.phase = TranscodePhase::Ended;
                    TranscodeCommand::Finished(self.stats)
                },
                TranscodePhase::Ended => TranscodeCommand::Finished(self.stats),
            },
        }
    }
}

#[derive(Clone, Copy, Debug, PartialEq, Eq, Structural)]
pub enum RemuxPhase {
    Header,
    Reading,
    Writing,
    Trailer,
    Ended,
}

pub enum RemuxCommand<E> {
    WriteHeader,
    Read,
    /// Write the packet that was read.
    WritePacket,
    WriteTrailer,
    /// So many packets were written.
    Finished(u64),
    Failed(E),
}

pub enum RemuxReply<E> {
    Start,
    Packet,
    Eof,
    Done,
    Error(E),
}

/// Writes every packet of a source into a container as it is.
#[derive(Clone, Copy, Debug, PartialEq, Eq, Structural)]
pub struct RemuxRun {
    pub packets: u64,
    pub phase: RemuxPhase,
}

impl RemuxRun {
    pub open spec fn at(self, phase: RemuxPhase) -> RemuxRun {
        RemuxRun { phase, ..self }
    }

    /// One exchange: the outcome of the awaited call, then the next call.
    pub open spec fn step_spec<E>(self, reply: RemuxReply<E>) -> (RemuxRun, RemuxCommand<E>) {
        match (self.phase, reply) {
            (_, RemuxReply::Error(e)) => (self.at(RemuxPhase::Ended), RemuxCommand::Failed(e)),
            (RemuxPhase::Header, RemuxReply::Start) => (self, RemuxCommand::WriteHeader),
            (RemuxPhase::Header, _) => (self.at(RemuxPhase::Reading), RemuxCommand::Read),
            (RemuxPhase::Reading, RemuxReply::Packet) => (
                self.at(RemuxPhase::Writing),
                RemuxCommand::WritePacket,
            ),
            (RemuxPhase::Reading, _) => (
                self.at(RemuxPhase::Trailer),
                RemuxCommand::WriteTrailer,
            ),
            (RemuxPhase::Writing, _) => (
                RemuxRun { packets: (self.packets + 1) as u64, phase: RemuxPhase::Reading },
                RemuxCommand::Read,
            ),
            (RemuxPhase::Trailer, _) => (
                self.at(RemuxPhase::Ended),
                RemuxCommand::Finished(self.packets),
            ),
            (RemuxPhase::Ended, _) => (self, RemuxCommand::Finished(self.packets)),
        }
    }

    /// Takes the outcome of the call that was asked for, and asks for the next.
    pub fn step<E>(&mut self, reply: RemuxReply<E>) -> (r: RemuxCommand<E>)
        requires
            old(self).phase is Writing && !(reply is Error) ==> old(self).packets < u64::MAX,
        ensures
            (*final(self), r) == old(self).step_spec(reply),
    {
        match reply {
            RemuxReply::Error(e) => {
                self.phase = RemuxPhase::Ended;
                RemuxCommand::Failed(e)
            },
            reply => match self.phase {
                RemuxPhase::Header => match reply {
                    RemuxReply::Start => RemuxCommand::WriteHeader,
                    _ => {
                        self.phase = RemuxPhase::Reading;
                        RemuxCommand::Read
                    },
                },
                RemuxPhase::Reading => match reply {
                    RemuxReply::Packet => {
                        self.phase = RemuxPhase::Writing;
                        RemuxCommand::WritePacket
                    },
                    _ => {
                        self.phase = RemuxPhase::Trailer;
                        RemuxCommand::WriteTrailer
                    },
                },
                RemuxPhase::Writing => {
                    self.packets = self.packets + 1;
                    self.phase = RemuxPhase::Reading;
                    RemuxCommand::Read
                },
                RemuxPhase::Trailer => {
                    self.phase = RemuxPhase::Ended;
                    RemuxCommand::Finished(self.packets)
                },
                RemuxPhase::Ended => RemuxCommand::Finished(self.packets),
            },
        }
    }
}

/// Starts copying every packet of a source into a container.
pub fn remux() -> (r: RemuxRun)
    ensures
        r == (RemuxRun { packets: 0, phase: RemuxPhase::Header }),
{
    RemuxRun { packets: 0, phase: RemuxPhase::Header }
}

/// Starts planning the output for the streams of a demuxer, with default codec
/// selection.
pub fn transcode_simple(inputs: Vec<StreamInfo>) -> (r: TranscodeSetup)
    requires
        inputs@.len() <= u32::MAX,
    ensures
        r.wf(),
        r.prefs.is_default(),
        r@ == SetupView::start(stream_views(inputs@), r.prefs),
{
    transcode_simple_with(inputs, CodecPreferences::default())
}

/// Starts planning the output for the streams of a demuxer.
pub fn transcode_simple_with(inputs: Vec<StreamInfo>, prefs: CodecPreferences) -> (r:
    TranscodeSetup)
    requires
        inputs@.len() <= u32::MAX,
    ensures
        r.wf(),
        r@ == SetupView::start(stream_views(inputs@), prefs),
{
    TranscodeSetup::new(inputs, prefs)
}

/// No longer supported; [`transcode_simple`] takes its place.
pub fn transcode() -> (r: Result<(), JobError>)
    ensures
        r == Err::<(), JobError>(JobError::UseTranscodeSimple),
{
    Err(JobError::UseTranscodeSimple)
}

/// Output streams keep the order of the input streams they come from, are
/// numbered densely, and no input stream has more than one: each plan adds at
/// most one output stream, at the end.
pub proof fn outputs_follow_inputs(v: SetupView, plan: StreamPlan, out: ParamsView)
    requires
        v.dense(),
        v.at < v.inputs.len() <= u32::MAX,
    ensures
        v.planned(plan).outputs.len() <= v.outputs.len() + 1,
        v.planned(plan).outputs.take(v.outputs.len() as int) == v.outputs,
        plan is Copy ==> ({
            let w = v.planned(plan);
            &&& w.dense()
            &&& w.outputs.last().params == v.inputs[v.at].params
            &&& w.outputs.last().time_base == v.inputs[v.at].time_base
            &&& w.routes.last().input == v.inputs[v.at].index
        }),
        plan is Drop ==> v.planned(plan).outputs == v.outputs && v.planned(plan).dense(),
        v.encoded(out).dense(),
        v.encoded(out).outputs.last().params == out,
        v.encoded(out).routes.last().input == v.inputs[v.at].index,
{
    assert(v.planned(plan).outputs.take(v.outputs.len() as int) =~= v.outputs);
}

pub(crate) proof fn encoder_from_range(routes: Seq<TranscodeRoute>, from: int)
    requires
        0 <= from <= routes.len(),
    ensures
        from <= encoder_from(routes, from) <= routes.len(),
        encoder_from(routes, from) < routes.len() ==> routes[encoder_from(
            routes,
            from,
        )].reencode,
        forall|i: int|
            from <= i < encoder_from(routes, from) ==> !(#[trigger] routes[i]).reencode,
    decreases routes.len() - from,
{
    if from < routes.len() && !routes[from].reencode {
        encoder_from_range(routes, from + 1);
    }
}

/// At the end of the source every encoding route is flushed, in order, before
/// the container is closed.
pub proof fn every_encoder_is_flushed<F, E>(v: TranscodeView, from: int)
    requires
        0 <= from <= v.routes.len() <= usize::MAX,
    ensures
        match v.flushing::<F, E>(from).1 {
            TranscodeCommand::FlushDecoder { route } => {
                &&& from <= route < v.routes.len()
                &&& v.routes[route as int].reencode
                &&& forall|i: int| from <= i < route ==> !(#[trigger] v.routes[i]).reencode
            },
            TranscodeCommand::WriteTrailer => forall|i: int|
                from <= i < v.routes.len() ==> !(#[trigger] v.routes[i]).reencode,
            _ => false,
        },
{
    encoder_from_range(v.routes, from);
}

/// A packet is written once, under the stream index of its own route, and is
/// counted when it is written.
pub proof fn packets_keep_their_route<F, E>(
    v: TranscodeView,
    route: usize,
    tail: bool,
    last: bool,
)
    requires
        v.phase == (TranscodePhase::Packets { route, tail, last }),
        route < v.routes.len(),
        v.stats.has_room(1),
    ensures
        ({
            let (w, command) = v.step::<F, E>(TranscodeReply::HavePacket);
            let (x, next) = w.step::<F, E>(TranscodeReply::Done);
            &&& command == TranscodeCommand::<F, E>::WritePacket {
                out_index: v.routes[route as int].out_index,
            }
            &&& w.stats == v.stats
            &&& x.stats.packets_out == v.stats.packets_out + 1
            &&& next == TranscodeCommand::<F, E>::ReceivePacket { route }
        }),
{
}

/// An encoder is asked for what goes in: under the output codec's name, a picture of the
/// input's width, height, pixel format and frame rate, or sound of the input's sample
/// rate, channels, sample format and layout of speakers, and nothing else of it.
pub proof fn encoder_is_asked_for_the_input(codec: Seq<char>, input: StreamView)
    ensures
        ({
            let p = input.params;
            let asked = encoder_params(codec, input);
            &&& asked is Ok <==> p.media_type == MediaType::Audio || p.media_type
                == MediaType::Video || p.media_type == MediaType::Subtitle
            &&& asked is Err ==> asked->Err_0 == (JobError::CannotReencode {
                kind: p.media_type,
                index: input.index,
            })
            &&& asked is Ok ==> asked->Ok_0.codec_id == codec && asked->Ok_0.media_type
                == p.media_type
            &&& p.media_type == MediaType::Video ==> {
                &&& asked->Ok_0.width == p.width
                &&& asked->Ok_0.height == p.height
                &&& asked->Ok_0.pixel_format == p.pixel_format
                &&& asked->Ok_0.frame_rate == p.frame_rate
                &&& asked->Ok_0.sample_rate is None && asked->Ok_0.channels is None
                &&& asked->Ok_0.sample_format is None && asked->Ok_0.channel_layout is None
            }
            &&& p.media_type == MediaType::Audio ==> {
                &&& asked->Ok_0.sample_rate == p.sample_rate
                &&& asked->Ok_0.channels == p.channels
                &&& asked->Ok_0.sample_format == p.sample_format
                &&& asked->Ok_0.channel_layout == p.channel_layout
                &&& asked->Ok_0.width is None && asked->Ok_0.height is None
                &&& asked->Ok_0.pixel_format is None && asked->Ok_0.frame_rate is None
            }
            &&& asked is Ok ==> asked->Ok_0.bit_rate is None && asked->Ok_0.rest == 0
        }),
{
}

/// Each input stream is planned in its turn, one after the other and each once. A stream
/// that is dropped leaves nothing; one that is copied leaves an output stream that differs
/// from it only in its number; one that is coded anew, once its encoder is there, leaves
/// what the encoder makes, as long as the input and beginning at zero, on the clock of its
/// samples where it is sound with a sample rate and else on the input's.
pub proof fn each_plan_makes_its_stream(v: SetupView, plan: StreamPlan, out: ParamsView)
    requires
        v.dense(),
        0 <= v.at < v.inputs.len() <= u32::MAX,
    ensures
        ({
            let w = v.planned(plan);
            let x = v.encoded(out);
            let n = v.outputs.len();
            let input = v.inputs[v.at];
            let last = v.at + 1 == v.inputs.len();
            &&& plan is Drop ==> w.outputs == v.outputs && w.routes == v.routes
            &&& plan is Copy ==> {
                &&& w.outputs.len() == n + 1 && w.routes.len() == v.routes.len() + 1
                &&& w.outputs[n as int].index == n
                &&& w.outputs[n as int].params == input.params
                &&& w.outputs[n as int].time_base == input.time_base
                &&& w.outputs[n as int].duration == input.duration
                &&& w.outputs[n as int].start_time == input.start_time
                &&& w.routes.last().input == input.index
                &&& w.routes.last().out_index == n
                &&& !w.routes.last().reencode
            }
            &&& plan is Drop || plan is Copy ==> {
                &&& w.at == v.at + 1
                &&& last ==> w.phase is Done
                &&& !last ==> w.phase is Planning
            }
            &&& plan is Reencode ==> {
                &&& w.at == v.at && w.phase is Decoding
                &&& w.codec == plan->output_codec@
                &&& w.outputs == v.outputs && w.routes == v.routes
            }
            &&& w.inputs == v.inputs && w.prefs == v.prefs
            &&& x.outputs.len() == n + 1 && x.routes.len() == v.routes.len() + 1
            &&& x.outputs[n as int].index == n
            &&& x.outputs[n as int].params == out
            &&& x.outputs[n as int].duration == input.duration
            &&& x.outputs[n as int].start_time == Some(0i64)
            &&& out.media_type is Audio && out.sample_rate is Some && out.sample_rate->0 > 0 ==> {
                &&& x.outputs[n as int].time_base.num == 1
                &&& x.outputs[n as int].time_base.den == out.sample_rate->0
            }
            &&& !(out.media_type is Audio) || out.sample_rate is None || out.sample_rate->0 == 0
                ==> x.outputs[n as int].time_base == input.time_base
            &&& x.routes.last().input == input.index
            &&& x.routes.last().out_index == n
            &&& x.routes.last().reencode
            &&& x.at == v.at + 1
            &&& last ==> x.phase is Done
            &&& !last ==> x.phase is Planning
            &&& x.inputs == v.inputs && x.prefs == v.prefs
        }),
{
}

/// A setup asks in turn: for the plan of its stream; then, for a stream that is coded
/// anew, for a decoder of just that stream, and for an encoder. It ends with the container
/// where there is an output stream, and is refused where there is no stream at all, or all
/// were dropped.
pub proof fn setup_asks_in_turn(v: SetupView, step: SetupStep)
    requires
        v.needs(step),
        0 <= v.at < v.inputs.len() <= u32::MAX || v.phase is Done,
    ensures
        v.phase is Planning ==> step is Plan && step->stream == v.at,
        v.phase is Decoding ==> step is MakeDecoder && step->MakeDecoder_params@
            == v.inputs[v.at].params,
        v.phase is Encoding ==> step is MakeEncoder || (step is Failed
            && step->Failed_0 is CannotReencode),
        v.phase is Done && v.inputs.len() == 0 ==> step is Failed
            && step->Failed_0 is NoInputStreams,
        v.phase is Done && v.inputs.len() > 0 && v.outputs.len() == 0 ==> step is Failed
            && step->Failed_0 is AllStreamsDropped,
        v.phase is Done && v.outputs.len() > 0 && v.inputs.len() > 0 ==> step is OpenMuxer,
{
}

/// A packet goes down a route of its own stream; of several, down the last. It is dropped
/// exactly where no route is of its stream.
pub proof fn last_route_is_the_last(routes: Seq<TranscodeRoute>, input: u32)
    ensures
        ({
            let r = last_route(routes, input);
            &&& r is Some ==> 0 <= r->0 < routes.len() && routes[r->0].input == input
            &&& r is Some ==> forall|i: int|
                r->0 < i < routes.len() ==> (#[trigger] routes[i]).input != input
            &&& r is None ==> forall|i: int|
                0 <= i < routes.len() ==> (#[trigger] routes[i]).input != input
        }),
    decreases routes.len(),
{
    if routes.len() > 0 && routes.last().input != input {
        let rest = routes.drop_last();
        last_route_is_the_last(rest, input);
        assert forall|i: int|
            0 <= i < routes.len() && (last_route(rest, input) is None || last_route(rest, input)->0
                < i) implies (#[trigger] routes[i]).input != input by {
            if i < rest.len() {
                assert(rest[i] == routes[i]);
            }
        }
    }
}

/// The first error ends a run, with that error, wherever it stands, and moves no counter:
/// nothing more is written, and the container is not closed.
pub proof fn first_error_ends_it<F, E>(v: TranscodeView, r: RemuxRun, e: E)
    ensures
        ({
            let (w, c) = v.step::<F, E>(TranscodeReply::Error(e));
            c is Failed && c->Failed_0 == e && w.phase is Ended && w.stats == v.stats
        }),
        ({
            let (w, c) = r.step_spec(RemuxReply::Error(e));
            c is Failed && c->Failed_0 == e && w.phase is Ended && w.packets == r.packets
        }),
{
}

} // verus!
