//! Driving one track, one call at a time: what a packet or a frame sets off on
//! its way through decoder, frame stages and encoder to the sink, and what the
//! end of the stream sets off.

use crate::error::JobError;
use crate::failure::{Cause, FailureStage, StageFailure};
use crate::media::MediaType;
use crate::stats::ExecutorStats;
use crate::track::FrameStage;
use vstd::prelude::*;

verus! {

/// The stage that a failure of a frame stage is put down to.
pub open spec fn stage_kind(stage: FrameStage) -> FailureStage {
    match stage {
        FrameStage::Filter => FailureStage::Filter,
        FrameStage::PixConvert { .. } => FailureStage::Convert,
    }
}

/// The stage that a failure of a frame stage is put down to.
pub fn frame_stage_failure_kind(stage: &FrameStage) -> (r: FailureStage)
    ensures
        r == stage_kind(*stage),
{
    match stage {
        FrameStage::Filter => FailureStage::Filter,
        FrameStage::PixConvert { .. } => FailureStage::Convert,
    }
}

/// A frame that goes to the sink as a stream of its own, and the filter's port
/// that it came out of; the first port has no extra frames.
pub struct Extra<F> {
    pub port: usize,
    pub kind: MediaType,
    pub frame: F,
}

/// What a frame stage made of a frame, or still held at the end: `primary` goes
/// on to the next stage, `extras` straight to the sink.
pub struct FilterEmissions<F> {
    pub primary: Vec<F>,
    pub extras: Vec<Extra<F>>,
}

impl<F> FilterEmissions<F> {
    pub fn new() -> (r: Self)
        ensures
            r.primary@.len() == 0,
            r.extras@.len() == 0,
    {
        FilterEmissions { primary: Vec::new(), extras: Vec::new() }
    }

    /// Takes a frame that a filter put out on a port: the first port leads on,
    /// the others straight to the sink. A port that the filter did not declare is
    /// refused.
    pub fn emit(&mut self, ports: &Vec<MediaType>, port: usize, frame: F) -> (r: Result<
        (),
        JobError,
    >)
        ensures
            if port == 0 {
                &&& r == Ok::<(), JobError>(())
                &&& final(self).primary@ == old(self).primary@.push(frame)
                &&& final(self).extras == old(self).extras
            } else if port < ports@.len() {
                &&& r == Ok::<(), JobError>(())
                &&& final(self).primary == old(self).primary
                &&& final(self).extras@ == old(self).extras@.push(
                    Extra { port, kind: ports@[port as int], frame },
                )
            } else {
                &&& r == Err::<(), JobError>(
                    JobError::UndeclaredPort { port: port as u64, declared: ports@.len() as u64 },
                )
                &&& *final(self) == *old(self)
            },
    {
        if port == 0 {
            self.primary.push(frame);
            Ok(())
        } else if port < ports.len() {
            self.extras.push(Extra { port, kind: ports[port], frame });
            Ok(())
        } else {
            Err(JobError::UndeclaredPort { port: port as u64, declared: ports.len() as u64 })
        }
    }
}

/// The parts of a track that decide how data moves through it.
pub struct PumpTrack {
    pub index: u32,
    pub kind: MediaType,
    pub copy: bool,
    pub has_decoder: bool,
    pub stages: Vec<FrameStage>,
    pub has_encoder: bool,
}

/// Where a pump stands between the calls that it asks for.
#[derive(Clone, Copy, Debug, PartialEq, Eq, Structural)]
pub enum Mode {
    /// A packet to be copied.
    Copy,
    /// A packet to be decoded.
    Send,
    /// Taking the frames of a packet; whether there was one already.
    Receive { produced: bool },
    /// A frame that came without a packet.
    Single,
    /// End of stream: the decoder to be flushed.
    FlushDecoder,
    /// End of stream: taking the frames that the decoder still held.
    ReceiveTail,
    /// End of stream: the frame stages to be flushed, from this one on.
    FlushStages { stage: usize },
    /// End of stream: delivering what the stages still held.
    Tail,
    /// End of stream: taking the packets that the encoder still held.
    LastPackets,
    Finished,
}

/// The call whose outcome a pump waits for.
#[derive(Clone, Copy, Debug, PartialEq, Eq, Structural)]
pub enum Waiting {
    Start,
    CopyPacket,
    SendPacket,
    ReceiveFrame,
    Materialise,
    RunStage { stage: usize },
    FlushStage { stage: usize },
    WriteFrame,
    SendFrame,
    ReceivePacket,
    WritePacket,
    FlushDecoder,
    FlushEncoder,
    Nothing,
}

/// A call that a pump asks for.
pub enum Command<F, E> {
    /// Hand the packet on to the sink under this stream index.
    CopyPacket { stream_index: u32, kind: MediaType },
    SendPacket,
    ReceiveFrame,
    /// Bring the frame into plain memory.
    Materialise(F),
    RunStage { stage: usize, frame: F },
    FlushStage { stage: usize },
    /// Hand the frame to the sink as it is.
    WriteFrame { kind: MediaType, frame: F },
    SendFrame(F),
    ReceivePacket,
    /// Hand the encoder's packet to the sink under this stream index.
    WritePacket { stream_index: u32, kind: MediaType },
    FlushDecoder,
    FlushEncoder,
    /// Nothing is left to do.
    Finished,
    Failed(StageFailure<E>),
}

/// The outcome of the call that a pump asked for last.
pub enum Reply<F, E> {
    Start,
    Done,
    Frame(F),
    Emitted(FilterEmissions<F>),
    Packet,
    /// Nothing to hand out until more is put in, or ever.
    NoMore,
    Error(E),
}

pub struct TrackPump<F> {
    pub track: PumpTrack,
    pub mode: Mode,
    pub waiting: Waiting,
    /// A frame as it came from the decoder or the source.
    pub lease: Option<F>,
    pub extras: Vec<Extra<F>>,
    /// The stage that `todo` is waiting for.
    pub at: usize,
    pub todo: Vec<F>,
    /// What that stage has made so far.
    pub next: Vec<F>,
    /// What goes to the encoder, or to the sink where there is none.
    pub ready: Vec<F>,
    /// What the flushed stages have left, until the last one is flushed.
    pub tail: Vec<F>,
    pub receiving: bool,
    pub packet: bool,
}

#[verifier::ext_equal]
pub struct PumpTrackView {
    pub index: u32,
    pub kind: MediaType,
    pub copy: bool,
    pub has_decoder: bool,
    pub stages: Seq<FrameStage>,
    pub has_encoder: bool,
}

#[verifier::ext_equal]
pub struct PumpView<F> {
    pub track: PumpTrackView,
    pub mode: Mode,
    pub waiting: Waiting,
    pub lease: Option<F>,
    pub extras: Seq<Extra<F>>,
    pub at: int,
    pub todo: Seq<F>,
    pub next: Seq<F>,
    pub ready: Seq<F>,
    pub tail: Seq<F>,
    pub receiving: bool,
    pub packet: bool,
}

impl View for PumpTrack {
    type V = PumpTrackView;

    open spec fn view(&self) -> PumpTrackView {
        PumpTrackView {
            index: self.index,
            kind: self.kind,
            copy: self.copy,
            has_decoder: self.has_decoder,
            stages: self.stages@,
            has_encoder: self.has_encoder,
        }
    }
}

impl PumpTrackView {
    /// Frames go to the sink the way they came: nothing on the way reads them.
    pub open spec fn direct(self) -> bool {
        self.stages.len() == 0 && !self.has_encoder
    }
}

impl<F> View for TrackPump<F> {
    type V = PumpView<F>;

    open spec fn view(&self) -> PumpView<F> {
        PumpView {
            track: self.track@,
            mode: self.mode,
            waiting: self.waiting,
            lease: self.lease,
            extras: self.extras@,
            at: self.at as int,
            todo: self.todo@,
            next: self.next@,
            ready: self.ready@,
            tail: self.tail@,
            receiving: self.receiving,
            packet: self.packet,
        }
    }
}

/// Whether a reply can be the outcome of a call.
pub open spec fn fits<F, E>(waiting: Waiting, reply: Reply<F, E>) -> bool {
    match waiting {
        Waiting::Start => reply is Start,
        Waiting::CopyPacket
        | Waiting::SendPacket
        | Waiting::WriteFrame
        | Waiting::SendFrame
        | Waiting::WritePacket
        | Waiting::FlushDecoder
        | Waiting::FlushEncoder => reply is Done || reply is Error,
        Waiting::ReceiveFrame => reply is Frame || reply is NoMore || reply is Error,
        Waiting::Materialise => reply is Frame || reply is Error,
        Waiting::RunStage { .. } | Waiting::FlushStage { .. } => reply is Emitted
            || reply is Error,
        Waiting::ReceivePacket => reply is Packet || reply is NoMore || reply is Error,
        Waiting::Nothing => false,
    }
}

impl<F> PumpView<F> {
    /// The counter that an outcome moves, if any, can take one more.
    pub open spec fn can_count<E>(self, stats: ExecutorStats, reply: Reply<F, E>) -> bool {
        let ok = !(reply is Error);
        match self.waiting {
            Waiting::CopyPacket => ok ==> stats.packets_copied < u64::MAX,
            Waiting::SendPacket => !ok ==> stats.packets_skipped < u64::MAX,
            Waiting::ReceiveFrame => {
                &&& reply is Frame ==> stats.frames_decoded < u64::MAX
                &&& !ok && self.mode == (Mode::Receive { produced: false })
                    ==> stats.packets_skipped < u64::MAX
            },
            Waiting::WriteFrame => ok ==> stats.frames_written < u64::MAX,
            Waiting::WritePacket => ok ==> stats.packets_encoded < u64::MAX,
            _ => true,
        }
    }

    /// An idle pump in a mode.
    pub open spec fn started(track: PumpTrackView, mode: Mode, lease: Option<F>) -> PumpView<F> {
        PumpView {
            track,
            mode,
            waiting: Waiting::Start,
            lease,
            extras: Seq::empty(),
            at: 0,
            todo: Seq::empty(),
            next: Seq::empty(),
            ready: Seq::empty(),
            tail: Seq::empty(),
            receiving: false,
            packet: false,
        }
    }

    /// Frames enter stage `at`; past the last stage they are delivered, or kept
    /// for the tail while stages are being flushed.
    pub open spec fn entering(self, frames: Seq<F>, at: int) -> PumpView<F> {
        if at < self.track.stages.len() {
            PumpView { at, todo: frames, next: Seq::empty(), ..self }
        } else if self.mode is FlushStages {
            PumpView {
                at,
                todo: Seq::empty(),
                next: Seq::empty(),
                tail: self.tail + frames,
                ..self
            }
        } else {
            PumpView {
                at,
                todo: Seq::empty(),
                next: Seq::empty(),
                ready: self.ready + frames,
                ..self
            }
        }
    }

    /// Once a stage has taken every frame, what it made enters the next one.
    pub open spec fn advanced(self) -> PumpView<F> {
        if self.todo.len() == 0 && self.next.len() > 0 {
            self.entering(self.next, self.at + 1)
        } else {
            self
        }
    }

    /// The end of a packet, of the decoder's tail, or of the encoder's.
    pub open spec fn no_more(self) -> PumpView<F> {
        match self.mode {
            Mode::ReceiveTail => PumpView { mode: Mode::FlushStages { stage: 0 }, ..self },
            _ => PumpView { mode: Mode::Finished, ..self },
        }
    }

    /// The state and the counters after the outcome of the awaited call.
    pub open spec fn absorbed<E>(self, stats: ExecutorStats, reply: Reply<F, E>) -> Result<
        (PumpView<F>, ExecutorStats),
        StageFailure<E>,
    > {
        let track = Some(self.track.index);
        match (self.waiting, reply) {
            (Waiting::CopyPacket, Reply::Error(e)) => Err(
                StageFailure::at(FailureStage::Sink, track, Cause::Raised(e)),
            ),
            (Waiting::CopyPacket, _) => Ok(
                (
                    PumpView { mode: Mode::Finished, ..self },
                    ExecutorStats { packets_copied: (stats.packets_copied + 1) as u64, ..stats },
                ),
            ),
            // A packet that the decoder does not take is skipped, not fatal.
            (Waiting::SendPacket, Reply::Error(_)) => Ok(
                (
                    PumpView { mode: Mode::Finished, ..self },
                    ExecutorStats { packets_skipped: (stats.packets_skipped + 1) as u64, ..stats },
                ),
            ),
            (Waiting::SendPacket, _) => Ok(
                (PumpView { mode: Mode::Receive { produced: false }, ..self }, stats),
            ),
            (Waiting::ReceiveFrame, Reply::Frame(f)) => Ok(
                (
                    PumpView {
                        mode: match self.mode {
                            Mode::Receive { .. } => Mode::Receive { produced: true },
                            m => m,
                        },
                        lease: Some(f),
                        ..self
                    },
                    ExecutorStats { frames_decoded: (stats.frames_decoded + 1) as u64, ..stats },
                ),
            ),
            // The packet counts as skipped only where nothing came out of it.
            (Waiting::ReceiveFrame, Reply::Error(_)) => Ok(
                (
                    self.no_more(),
                    if self.mode == (Mode::Receive { produced: false }) {
                        ExecutorStats {
                            packets_skipped: (stats.packets_skipped + 1) as u64,
                            ..stats
                        }
                    } else {
                        stats
                    },
                ),
            ),
            (Waiting::ReceiveFrame, _) => Ok((self.no_more(), stats)),
            (Waiting::Materialise, Reply::Frame(f)) => Ok((self.entering(seq![f], 0), stats)),
            (Waiting::Materialise, Reply::Error(e)) => Err(
                StageFailure::at(FailureStage::Convert, track, Cause::Raised(e)),
            ),
            (Waiting::RunStage { .. }, Reply::Emitted(out)) => Ok(
                (
                    PumpView {
                        next: self.next + out.primary@,
                        extras: self.extras + out.extras@,
                        ..self
                    }.advanced(),
                    stats,
                ),
            ),
            (Waiting::FlushStage { stage }, Reply::Emitted(out)) => Ok(
                (
                    PumpView {
                        extras: self.extras + out.extras@,
                        mode: Mode::FlushStages { stage: (stage + 1) as usize },
                        ..self
                    }.entering(out.primary@, stage + 1),
                    stats,
                ),
            ),
            (Waiting::RunStage { stage }, Reply::Error(e)) => Err(
                StageFailure::at(
                    stage_kind(self.track.stages[stage as int]),
                    track,
                    Cause::Raised(e),
                ),
            ),
            (Waiting::FlushStage { stage }, Reply::Error(e)) => Err(
                StageFailure::at(
                    stage_kind(self.track.stages[stage as int]),
                    track,
                    Cause::Raised(e),
                ),
            ),
            (Waiting::WriteFrame, Reply::Error(e)) => Err(
                StageFailure::at(FailureStage::Sink, track, Cause::Raised(e)),
            ),
            (Waiting::WriteFrame, _) => Ok(
                (
                    self,
                    ExecutorStats { frames_written: (stats.frames_written + 1) as u64, ..stats },
                ),
            ),
            (Waiting::SendFrame, Reply::Error(e)) => Err(
                StageFailure::at(FailureStage::Encode, track, Cause::Raised(e)),
            ),
            (Waiting::SendFrame, _) => Ok((PumpView { receiving: true, ..self }, stats)),
            (Waiting::ReceivePacket, Reply::Packet) => Ok(
                (PumpView { packet: true, ..self }, stats),
            ),
            (Waiting::ReceivePacket, Reply::Error(e)) => Err(
                StageFailure::at(FailureStage::Encode, track, Cause::Raised(e)),
            ),
            (Waiting::ReceivePacket, _) => Ok((PumpView { receiving: false, ..self }, stats)),
            (Waiting::WritePacket, Reply::Error(e)) => Err(
                StageFailure::at(FailureStage::Sink, track, Cause::Raised(e)),
            ),
            (Waiting::WritePacket, _) => Ok(
                (
                    PumpView { packet: false, ..self },
                    ExecutorStats { packets_encoded: (stats.packets_encoded + 1) as u64, ..stats },
                ),
            ),
            // What the decoder still holds is taken even where flushing failed.
            (Waiting::FlushDecoder, _) => Ok((PumpView { mode: Mode::ReceiveTail, ..self }, stats)),
            (Waiting::FlushEncoder, Reply::Error(e)) => Err(
                StageFailure::at(FailureStage::Encode, track, Cause::Raised(e)),
            ),
            (Waiting::FlushEncoder, _) => Ok(
                (PumpView { receiving: true, mode: Mode::LastPackets, ..self }, stats),
            ),
            _ => Ok((self, stats)),
        }
    }

    /// The tail is delivered once the last stage is flushed.
    pub open spec fn settled(self) -> PumpView<F> {
        match self.mode {
            Mode::FlushStages { stage } => if stage >= self.track.stages.len() && self.todo.len()
                == 0 {
                PumpView { mode: Mode::Tail, ready: self.tail, tail: Seq::empty(), ..self }
            } else {
                self
            },
            _ => self,
        }
    }

    /// The next call: sink writes first, then what the encoder holds, then the
    /// frames under way, stage by stage, and only then something new.
    pub open spec fn commanded<E>(self) -> (PumpView<F>, Command<F, E>) {
        if self.extras.len() > 0 {
            (
                PumpView {
                    extras: self.extras.remove(0),
                    waiting: Waiting::WriteFrame,
                    ..self
                },
                Command::WriteFrame { kind: self.extras[0].kind, frame: self.extras[0].frame },
            )
        } else if self.packet {
            (
                PumpView { waiting: Waiting::WritePacket, ..self },
                Command::WritePacket { stream_index: self.track.index, kind: self.track.kind },
            )
        } else if self.receiving {
            (PumpView { waiting: Waiting::ReceivePacket, ..self }, Command::ReceivePacket)
        } else if self.todo.len() > 0 {
            (
                PumpView {
                    todo: self.todo.remove(0),
                    waiting: Waiting::RunStage { stage: self.at as usize },
                    ..self
                },
                Command::RunStage { stage: self.at as usize, frame: self.todo[0] },
            )
        } else if self.ready.len() > 0 {
            if self.track.has_encoder {
                (
                    PumpView { ready: self.ready.remove(0), waiting: Waiting::SendFrame, ..self },
                    Command::SendFrame(self.ready[0]),
                )
            } else {
                (
                    PumpView { ready: self.ready.remove(0), waiting: Waiting::WriteFrame, ..self },
                    Command::WriteFrame { kind: self.track.kind, frame: self.ready[0] },
                )
            }
        } else if self.lease is Some {
            if self.track.direct() {
                (
                    PumpView { lease: None, waiting: Waiting::WriteFrame, ..self },
                    Command::WriteFrame { kind: self.track.kind, frame: self.lease->0 },
                )
            } else {
                (
                    PumpView { lease: None, waiting: Waiting::Materialise, ..self },
                    Command::Materialise(self.lease->0),
                )
            }
        } else {
            match self.mode {
                Mode::Copy => (
                    PumpView { waiting: Waiting::CopyPacket, ..self },
                    Command::CopyPacket { stream_index: self.track.index, kind: self.track.kind },
                ),
                Mode::Send => (
                    PumpView { waiting: Waiting::SendPacket, ..self },
                    Command::SendPacket,
                ),
                Mode::Receive { .. } | Mode::ReceiveTail => (
                    PumpView { waiting: Waiting::ReceiveFrame, ..self },
                    Command::ReceiveFrame,
                ),
                Mode::FlushDecoder => (
                    PumpView { waiting: Waiting::FlushDecoder, ..self },
                    Command::FlushDecoder,
                ),
                Mode::FlushStages { stage } => (
                    PumpView { waiting: Waiting::FlushStage { stage }, ..self },
                    Command::FlushStage { stage },
                ),
                Mode::Tail if self.track.has_encoder => (
                    PumpView { waiting: Waiting::FlushEncoder, ..self },
                    Command::FlushEncoder,
                ),
                _ => (
                    PumpView { mode: Mode::Finished, waiting: Waiting::Nothing, ..self },
                    Command::Finished,
                ),
            }
        }
    }

    /// One exchange: the outcome of the awaited call, then the next call.
    pub open spec fn step<E>(self, stats: ExecutorStats, reply: Reply<F, E>) -> (
        PumpView<F>,
        ExecutorStats,
        Command<F, E>,
    ) {
        match self.absorbed(stats, reply) {
            Ok((next, stats)) => {
                let (next, command) = next.settled().commanded();
                (next, stats, command)
            },
            Err(failure) => (
                PumpView { mode: Mode::Finished, waiting: Waiting::Nothing, ..self },
                stats,
                Command::Failed(failure),
            ),
        }
    }
}

/// The mode in which a packet enters a track.
pub open spec fn packet_mode(track: PumpTrackView) -> Mode {
    if track.copy {
        Mode::Copy
    } else if track.has_decoder {
        Mode::Send
    } else {
        Mode::Finished
    }
}

/// The mode in which the end of the stream reaches a track.
pub open spec fn drain_mode(track: PumpTrackView) -> Mode {
    if track.copy {
        Mode::Finished
    } else if track.has_decoder {
        Mode::FlushDecoder
    } else {
        Mode::FlushStages { stage: 0 }
    }
}

impl<F> TrackPump<F> {
    pub open spec fn wf(self) -> bool {
        &&& self.todo@.len() > 0 ==> self.at < self.track.stages@.len()
        &&& match self.waiting {
            Waiting::RunStage { stage } => stage == self.at && self.at < self.track.stages@.len(),
            Waiting::FlushStage { stage } => stage < self.track.stages@.len(),
            _ => true,
        }
        &&& self.next@.len() > 0 ==> self.at < self.track.stages@.len()
        &&& self.mode matches Mode::FlushStages { stage } ==> stage <= self.track.stages@.len()
    }

    /// A pump that has been fed nothing yet.
    pub fn new(track: PumpTrack) -> (r: Self)
        ensures
            r.wf(),
            r@ == (PumpView::<F> {
                waiting: Waiting::Nothing,
                ..PumpView::started(track@, Mode::Finished, None)
            }),
    {
        let r = TrackPump {
            track,
            mode: Mode::Finished,
            waiting: Waiting::Nothing,
            lease: None,
            extras: Vec::new(),
            at: 0,
            todo: Vec::new(),
            next: Vec::new(),
            ready: Vec::new(),
            tail: Vec::new(),
            receiving: false,
            packet: false,
        };
        assert(r@ =~= (PumpView::<F> {
            waiting: Waiting::Nothing,
            ..PumpView::started(track@, Mode::Finished, None)
        }));
        r
    }

    fn start(&mut self, mode: Mode, lease: Option<F>)
        requires
            mode matches Mode::FlushStages { stage } ==> stage == 0,
        ensures
            final(self).wf(),
            final(self)@ == PumpView::started(old(self)@.track, mode, lease),
    {
        let ghost track = self@.track;
        self.mode = mode;
        self.waiting = Waiting::Start;
        self.lease = lease;
        self.extras = Vec::new();
        self.at = 0;
        self.todo = Vec::new();
        self.next = Vec::new();
        self.ready = Vec::new();
        self.tail = Vec::new();
        self.receiving = false;
        self.packet = false;
        assert(self@ =~= PumpView::started(track, mode, lease));
    }

    /// A packet of the track's stream is there.
    pub fn feed_packet(&mut self)
        ensures
            final(self).wf(),
            final(self)@ == PumpView::<F>::started(
                old(self)@.track,
                packet_mode(old(self)@.track),
                None,
            ),
    {
        let mode = if self.track.copy {
            Mode::Copy
        } else if self.track.has_decoder {
            Mode::Send
        } else {
            Mode::Finished
        };
        self.start(mode, None);
    }

    /// A decoded frame is there.
    pub fn feed_frame(&mut self, frame: F)
        ensures
            final(self).wf(),
            final(self)@ == PumpView::started(old(self)@.track, Mode::Single, Some(frame)),
    {
        self.start(Mode::Single, Some(frame));
    }

    /// The stream is over.
    pub fn drain(&mut self)
        ensures
            final(self).wf(),
            final(self)@ == PumpView::<F>::started(
                old(self)@.track,
                drain_mode(old(self)@.track),
                None,
            ),
    {
        let mode = if self.track.copy {
            Mode::Finished
        } else if self.track.has_decoder {
            Mode::FlushDecoder
        } else {
            Mode::FlushStages { stage: 0 }
        };
        self.start(mode, None);
    }

    fn enter(&mut self, frames: Vec<F>, at: usize)
        requires
            at <= old(self).track.stages@.len(),
            old(self).mode matches Mode::FlushStages { stage } ==> stage
                <= old(self).track.stages@.len(),
        ensures
            final(self)@ == old(self)@.entering(frames@, at as int),
            final(self).track == old(self).track,
            final(self).todo@.len() > 0 ==> final(self).at < final(self).track.stages@.len(),
            final(self).next@.len() == 0,
    {
        let ghost before = self@;
        let ghost all = frames@;
        let mut frames = frames;
        self.at = at;
        self.next = Vec::new();
        if at < self.track.stages.len() {
            self.todo = frames;
        } else {
            self.todo = Vec::new();
            match self.mode {
                Mode::FlushStages { .. } => {
                    self.tail.append(&mut frames);
                },
                _ => {
                    self.ready.append(&mut frames);
                },
            }
        }
        assert(self@ =~= before.entering(all, at as int));
    }

    fn no_more(&mut self)
        requires
            old(self).wf(),
            !(old(self).waiting is RunStage) && !(old(self).waiting is FlushStage),
        ensures
            final(self).wf(),
            final(self).waiting == old(self).waiting,
            final(self)@ == old(self)@.no_more(),
    {
        match self.mode {
            Mode::ReceiveTail => {
                self.mode = Mode::FlushStages { stage: 0 };
            },
            _ => {
                self.mode = Mode::Finished;
            },
        }
    }

    fn fail<E>(&self, stage: FailureStage, error: E) -> (r: Option<StageFailure<E>>)
        ensures
            r == Some(StageFailure::at(stage, Some(self.track.index), Cause::Raised(error))),
    {
        Some(StageFailure::new(stage, Some(self.track.index), Cause::Raised(error)))
    }

    /// The state with the pending work consistent, whatever is awaited.
    pub open spec fn work_wf(self) -> bool {
        &&& self.todo@.len() > 0 ==> self.at < self.track.stages@.len()
        &&& self.next@.len() > 0 ==> self.at < self.track.stages@.len()
        &&& self.mode matches Mode::FlushStages { stage } ==> stage <= self.track.stages@.len()
    }

    fn absorb<E>(&mut self, stats: &mut ExecutorStats, reply: Reply<F, E>) -> (r: Option<
        StageFailure<E>,
    >)
        requires
            old(self).wf(),
            fits(old(self).waiting, reply),
            old(self)@.can_count(*old(stats), reply),
        ensures
            final(self).work_wf(),
            match old(self)@.absorbed(*old(stats), reply) {
                Ok((next, counters)) => r is None && final(self)@ == next && *final(stats)
                    == counters,
                Err(failure) => r == Some(failure) && final(self)@ == old(self)@ && *final(stats)
                    == *old(stats),
            },
    {
        let ghost before = self@;
        match self.waiting {
            Waiting::Start | Waiting::Nothing => None,
            Waiting::CopyPacket => match reply {
                Reply::Error(e) => self.fail(FailureStage::Sink, e),
                _ => {
                    self.mode = Mode::Finished;
                    stats.packets_copied = stats.packets_copied + 1;
                    None
                },
            },
            Waiting::SendPacket => match reply {
                Reply::Error(_) => {
                    self.mode = Mode::Finished;
                    stats.packets_skipped = stats.packets_skipped + 1;
                    None
                },
                _ => {
                    self.mode = Mode::Receive { produced: false };
                    None
                },
            },
            Waiting::ReceiveFrame => match reply {
                Reply::Frame(f) => {
                    match self.mode {
                        Mode::Receive { .. } => {
                            self.mode = Mode::Receive { produced: true };
                        },
                        _ => {},
                    }
                    self.lease = Some(f);
                    stats.frames_decoded = stats.frames_decoded + 1;
                    None
                },
                Reply::Error(_) => {
                    match self.mode {
                        Mode::Receive { produced: false } => {
                            stats.packets_skipped = stats.packets_skipped + 1;
                        },
                        _ => {},
                    }
                    self.no_more();
                    None
                },
                _ => {
                    self.no_more();
                    None
                },
            },
            Waiting::Materialise => match reply {
                Reply::Frame(f) => {
                    let mut one: Vec<F> = Vec::new();
                    one.push(f);
                    assert(one@ =~= seq![f]);
                    self.enter(one, 0);
                    None
                },
                Reply::Error(e) => self.fail(FailureStage::Convert, e),
                _ => None,
            },
            Waiting::RunStage { stage } => match reply {
                Reply::Emitted(out) => {
                    let mut out = out;
                    self.next.append(&mut out.primary);
                    self.extras.append(&mut out.extras);
                    if self.todo.len() == 0 && self.next.len() > 0 {
                        let mut frames: Vec<F> = Vec::new();
                        frames.append(&mut self.next);
                        let n: usize = self.track.stages.len();
                        assert(self.at < n);
                        let at: usize = self.at + 1;
                        self.enter(frames, at);
                    }
                    None
                },
                Reply::Error(e) => self.fail(
                    frame_stage_failure_kind(&self.track.stages[stage]),
                    e,
                ),
                _ => None,
            },
            Waiting::FlushStage { stage } => match reply {
                Reply::Emitted(out) => {
                    let mut out = out;
                    let n: usize = self.track.stages.len();
                    assert(stage < n);
                    self.extras.append(&mut out.extras);
                    self.mode = Mode::FlushStages { stage: stage + 1 };
                    self.enter(out.primary, stage + 1);
                    None
                },
                Reply::Error(e) => self.fail(
                    frame_stage_failure_kind(&self.track.stages[stage]),
                    e,
                ),
                _ => None,
            },
            Waiting::WriteFrame => match reply {
                Reply::Error(e) => self.fail(FailureStage::Sink, e),
                _ => {
                    stats.frames_written = stats.frames_written + 1;
                    None
                },
            },
            Waiting::SendFrame => match reply {
                Reply::Error(e) => self.fail(FailureStage::Encode, e),
                _ => {
                    self.receiving = true;
                    None
                },
            },
            Waiting::ReceivePacket => match reply {
                Reply::Packet => {
                    self.packet = true;
                    None
                },
                Reply::Error(e) => self.fail(FailureStage::Encode, e),
                _ => {
                    self.receiving = false;
                    None
                },
            },
            Waiting::WritePacket => match reply {
                Reply::Error(e) => self.fail(FailureStage::Sink, e),
                _ => {
                    self.packet = false;
                    stats.packets_encoded = stats.packets_encoded + 1;
                    None
                },
            },
            Waiting::FlushDecoder => {
                self.mode = Mode::ReceiveTail;
                None
            },
            Waiting::FlushEncoder => match reply {
                Reply::Error(e) => self.fail(FailureStage::Encode, e),
                _ => {
                    self.receiving = true;
                    self.mode = Mode::LastPackets;
                    None
                },
            },
        }
    }

    fn settle(&mut self)
        requires
            old(self).work_wf(),
        ensures
            final(self).work_wf(),
            final(self)@ == old(self)@.settled(),
            final(self).mode matches Mode::FlushStages { stage } ==> stage
                < final(self).track.stages@.len() || final(self).todo@.len() > 0,
    {
        match self.mode {
            Mode::FlushStages { stage } => {
                if stage >= self.track.stages.len() && self.todo.len() == 0 {
                    let mut frames: Vec<F> = Vec::new();
                    frames.append(&mut self.tail);
                    self.ready = frames;
                    self.mode = Mode::Tail;
                }
            },
            _ => {},
        }
        assert(self@ =~= old(self)@.settled());
    }

    fn command<E>(&mut self) -> (r: Command<F, E>)
        requires
            old(self).work_wf(),
            old(self).mode matches Mode::FlushStages { stage } ==> stage
                < old(self).track.stages@.len() || old(self).todo@.len() > 0,
        ensures
            final(self).wf(),
            (final(self)@, r) == old(self)@.commanded::<E>(),
    {
        let ghost before = self@;
        if self.extras.len() > 0 {
            let extra = self.extras.remove(0);
            self.waiting = Waiting::WriteFrame;
            Command::WriteFrame { kind: extra.kind, frame: extra.frame }
        } else if self.packet {
            self.waiting = Waiting::WritePacket;
            Command::WritePacket { stream_index: self.track.index, kind: self.track.kind }
        } else if self.receiving {
            self.waiting = Waiting::ReceivePacket;
            Command::ReceivePacket
        } else if self.todo.len() > 0 {
            let frame = self.todo.remove(0);
            self.waiting = Waiting::RunStage { stage: self.at };
            Command::RunStage { stage: self.at, frame }
        } else if self.ready.len() > 0 {
            let frame = self.ready.remove(0);
            if self.track.has_encoder {
                self.waiting = Waiting::SendFrame;
                Command::SendFrame(frame)
            } else {
                self.waiting = Waiting::WriteFrame;
                Command::WriteFrame { kind: self.track.kind, frame }
            }
        } else if self.lease.is_some() {
            let frame = self.lease.take().unwrap();
            if self.track.stages.len() == 0 && !self.track.has_encoder {
                self.waiting = Waiting::WriteFrame;
                Command::WriteFrame { kind: self.track.kind, frame }
            } else {
                self.waiting = Waiting::Materialise;
                Command::Materialise(frame)
            }
        } else {
            match self.mode {
                Mode::Copy => {
                    self.waiting = Waiting::CopyPacket;
                    Command::CopyPacket { stream_index: self.track.index, kind: self.track.kind }
                },
                Mode::Send => {
                    self.waiting = Waiting::SendPacket;
                    Command::SendPacket
                },
                Mode::Receive { .. } | Mode::ReceiveTail => {
                    self.waiting = Waiting::ReceiveFrame;
                    Command::ReceiveFrame
                },
                Mode::FlushDecoder => {
                    self.waiting = Waiting::FlushDecoder;
                    Command::FlushDecoder
                },
                Mode::FlushStages { stage } => {
                    self.waiting = Waiting::FlushStage { stage };
                    Command::FlushStage { stage }
                },
                Mode::Tail => {
                    if self.track.has_encoder {
                        self.waiting = Waiting::FlushEncoder;
                        Command::FlushEncoder
                    } else {
                        self.mode = Mode::Finished;
                        self.waiting = Waiting::Nothing;
                        Command::Finished
                    }
                },
                _ => {
                    self.mode = Mode::Finished;
                    self.waiting = Waiting::Nothing;
                    Command::Finished
                },
            }
        }
    }

    /// Takes the outcome of the call that was asked for, and asks for the next.
    pub fn step<E>(&mut self, stats: &mut ExecutorStats, reply: Reply<F, E>) -> (r: Command<F, E>)
        requires
            old(self).wf(),
            fits(old(self).waiting, reply),
            old(self)@.can_count(*old(stats), reply),
        ensures
            final(self).wf(),
            (final(self)@, *final(stats), r) == old(self)@.step(*old(stats), reply),
    {
        match self.absorb(stats, reply) {
            Some(failure) => {
                self.mode = Mode::Finished;
                self.waiting = Waiting::Nothing;
                Command::Failed(failure)
            },
            None => {
                self.settle();
                self.command()
            },
        }
    }
}

/// Nothing waits to be written, sent or run.
pub open spec fn no_work<F>(v: PumpView<F>) -> bool {
    &&& v.lease is None
    &&& v.extras.len() == 0
    &&& v.todo.len() == 0
    &&& v.ready.len() == 0
    &&& !v.receiving
    &&& !v.packet
}

/// What holds of a pump between two exchanges: frames wait only where the next
/// exchanges will find them.
pub open spec fn steady<F>(v: PumpView<F>) -> bool {
    &&& !(v.waiting is RunStage) && v.todo.len() == 0 ==> v.next.len() == 0
    &&& v.tail.len() > 0 ==> v.mode is FlushStages
    &&& v.waiting is ReceiveFrame ==> no_work(v) && (v.mode is Receive || v.mode is ReceiveTail)
    &&& v.waiting is SendPacket ==> no_work(v) && v.mode is Send
    &&& v.waiting is CopyPacket ==> no_work(v) && v.mode is Copy
    &&& v.waiting is FlushDecoder ==> no_work(v) && v.mode is FlushDecoder
    &&& v.waiting is FlushEncoder ==> no_work(v) && v.mode is Tail
    &&& v.waiting is FlushStage ==> no_work(v) && v.mode is FlushStages
    &&& v.waiting is Materialise ==> no_work(v) && !(v.mode is FlushStages)
    &&& v.lease is Some ==> v.mode is Receive || v.mode is ReceiveTail || v.mode is Single
    &&& 0 <= v.at <= v.track.stages.len()
    &&& v.todo.len() > 0 ==> v.at < v.track.stages.len()
    &&& v.waiting is RunStage ==> v.at < v.track.stages.len()
    &&& v.waiting is Start ==> v.todo.len() == 0 && v.extras.len() == 0
    &&& v.mode matches Mode::FlushStages { stage } ==> stage <= v.track.stages.len()
    &&& v.waiting matches Waiting::FlushStage { stage } ==> stage < v.track.stages.len()
}

/// A pump that was just fed is steady, and every exchange keeps it so.
pub proof fn pump_stays_steady<F, E>(v: PumpView<F>, stats: ExecutorStats, reply: Reply<F, E>)
    requires
        steady(v),
        v.track.stages.len() < usize::MAX,
        fits(v.waiting, reply),
    ensures
        steady(PumpView::<F>::started(v.track, packet_mode(v.track), None)),
        steady(PumpView::<F>::started(v.track, drain_mode(v.track), None)),
        v.step(stats, reply).2 !is Failed ==> steady(v.step(stats, reply).0),
        v.step(stats, reply).0.track == v.track,
{
}

/// A pump says that it is finished only when nothing that entered the track is
/// still on its way.
pub proof fn finished_means_delivered<F, E>(v: PumpView<F>, stats: ExecutorStats, reply: Reply<F, E>)
    requires
        steady(v),
        v.track.stages.len() < usize::MAX,
        fits(v.waiting, reply),
        v.step(stats, reply).2 is Finished,
    ensures
        no_work(v.step(stats, reply).0),
        v.step(stats, reply).0.next.len() == 0,
        v.step(stats, reply).0.tail.len() == 0,
{
    pump_stays_steady(v, stats, reply);
}

/// A decoder that refuses a packet, fails to hand out a frame, or fails to
/// flush does not end the stream.
pub proof fn decoder_errors_are_tolerated<F, E>(v: PumpView<F>, stats: ExecutorStats, error: E)
    requires
        v.waiting is SendPacket || v.waiting is ReceiveFrame || v.waiting is FlushDecoder,
    ensures
        !(v.step(stats, Reply::Error(error)).2 is Failed),
{
}

/// A packet is counted as skipped at most once, and never after a frame came
/// out of it: the exchange that counts it is also its last.
pub proof fn skips_are_counted_once<F, E>(v: PumpView<F>, stats: ExecutorStats, reply: Reply<F, E>)
    requires
        steady(v),
        fits(v.waiting, reply),
        v.can_count(stats, reply),
        v.step(stats, reply).1.packets_skipped != stats.packets_skipped,
    ensures
        v.step(stats, reply).1.packets_skipped == stats.packets_skipped + 1,
        v.step(stats, reply).2 is Finished,
        reply is Error,
        v.mode == Mode::Send || v.mode == (Mode::Receive { produced: false }),
{
}

/// Each counter moves with the event it counts, by one, and with no other.
pub proof fn counters_follow_events<F, E>(v: PumpView<F>, stats: ExecutorStats, reply: Reply<F, E>)
    requires
        fits(v.waiting, reply),
        v.can_count(stats, reply),
    ensures
        ({
            let after = v.step(stats, reply).1;
            let ok = !(reply is Error);
            &&& stats.at_most(after)
            &&& after.packets_read == stats.packets_read
            &&& after.packets_copied == stats.packets_copied + (if v.waiting is CopyPacket && ok {
                1int
            } else {
                0
            })
            &&& after.packets_encoded == stats.packets_encoded + (if v.waiting is WritePacket && ok {
                1int
            } else {
                0
            })
            &&& after.frames_decoded == stats.frames_decoded + (if v.waiting is ReceiveFrame
                && reply is Frame {
                1int
            } else {
                0
            })
            &&& after.frames_written == stats.frames_written + (if v.waiting is WriteFrame && ok {
                1int
            } else {
                0
            })
        }),
{
}

/// A frame goes to the sink as the decoder made it where nothing on the way
/// reads frames; otherwise it is brought into plain memory, at once and once.
pub proof fn frames_are_materialised_only_for_readers<F, E>(
    v: PumpView<F>,
    stats: ExecutorStats,
    frame: F,
)
    requires
        steady(v),
        v.waiting is ReceiveFrame,
    ensures
        v.step::<E>(stats, Reply::Frame(frame)).2 == if v.track.direct() {
            Command::<F, E>::WriteFrame { kind: v.track.kind, frame }
        } else {
            Command::Materialise(frame)
        },
        v.step::<E>(stats, Reply::Frame(frame)).0.lease is None,
{
}

/// Whatever the track, a track that nothing reads frames on is never asked to
/// materialise one, nor to run a stage or an encoder.
pub proof fn direct_track_only_forwards<F, E>(v: PumpView<F>, stats: ExecutorStats, reply: Reply<F, E>)
    requires
        steady(v),
        v.track.direct(),
        !v.receiving,
        !v.packet,
        fits(v.waiting, reply),
        !(v.waiting is SendFrame || v.waiting is FlushEncoder || v.waiting is ReceivePacket),
    ensures
        ({
            let command = v.step(stats, reply).2;
            !(command is Materialise) && !(command is RunStage) && !(command is FlushStage) && !(
            command is SendFrame) && !(command is ReceivePacket) && !(command is WritePacket) && !(
            command is FlushEncoder)
        }),
{
    pump_stays_steady(v, stats, reply);
    let command = v.step(stats, reply).2;
    assert(command is RunStage ==> v.step(stats, reply).0.waiting is RunStage);
}

/// Everything that a track hands to the sink goes under the track: packets under its
/// index and its kind of media, frames under its kind; only an extra frame goes under the
/// kind of the port that it came out of.
pub proof fn sink_is_told_the_track<F, E>(v: PumpView<F>, stats: ExecutorStats, reply: Reply<F, E>)
    requires
        v.track.stages.len() < usize::MAX,
        v.extras.len() == 0,
        !(reply is Emitted),
    ensures
        ({
            let (w, _, c) = v.step(stats, reply);
            &&& c is WritePacket ==> c->WritePacket_stream_index == v.track.index
                && c->WritePacket_kind == v.track.kind
            &&& c is CopyPacket ==> c->CopyPacket_stream_index == v.track.index
                && c->CopyPacket_kind == v.track.kind
            &&& c is WriteFrame ==> c->WriteFrame_kind == v.track.kind
            &&& w.track == v.track
        }),
{
}

/// Extra frames that wait go to the sink before everything else, in the order in which
/// they were put out, each under its own kind.
pub proof fn extras_go_first<F, E>(v: PumpView<F>, stats: ExecutorStats, out: FilterEmissions<F>)
    requires
        v.waiting is RunStage || v.waiting is FlushStage,
        v.track.stages.len() < usize::MAX,
        v.extras.len() + out.extras@.len() > 0,
    ensures
        ({
            let all = v.extras + out.extras@;
            let (w, s, c) = v.step::<E>(stats, Reply::Emitted(out));
            &&& c is WriteFrame
            &&& c->WriteFrame_kind == all[0].kind
            &&& c->WriteFrame_frame == all[0].frame
            &&& w.extras == all.skip(1)
            &&& s == stats
        }),
{
    let all = v.extras + out.extras@;
    assert(all.remove(0) =~= all.skip(1));
}

/// A call that fails fails the track with the very error, under its own index, at the
/// stage that the call belongs to, with no counter moved; and asks for nothing more.
pub proof fn failing_calls_fail_the_track<F, E>(v: PumpView<F>, stats: ExecutorStats, e: E)
    requires
        !(v.waiting is SendPacket || v.waiting is ReceiveFrame || v.waiting is FlushDecoder
            || v.waiting is Start || v.waiting is Nothing),
        v.waiting is RunStage ==> v.waiting->RunStage_stage < v.track.stages.len(),
        v.waiting is FlushStage ==> v.waiting->FlushStage_stage < v.track.stages.len(),
    ensures
        ({
            let (w, s, c) = v.step(stats, Reply::Error(e));
            &&& c is Failed
            &&& c->Failed_0.track == Some(v.track.index)
            &&& c->Failed_0.error == Cause::Raised(e)
            &&& v.waiting is CopyPacket || v.waiting is WriteFrame || v.waiting is WritePacket
                ==> c->Failed_0.stage is Sink
            &&& v.waiting is SendFrame || v.waiting is ReceivePacket || v.waiting is FlushEncoder
                ==> c->Failed_0.stage is Encode
            &&& v.waiting is Materialise ==> c->Failed_0.stage is Convert
            &&& v.waiting is RunStage ==> (c->Failed_0.stage is Filter
                <==> v.track.stages[v.waiting->RunStage_stage as int] is Filter) && (
            c->Failed_0.stage is Filter || c->Failed_0.stage is Convert)
            &&& v.waiting is FlushStage ==> (c->Failed_0.stage is Filter
                <==> v.track.stages[v.waiting->FlushStage_stage as int] is Filter) && (
            c->Failed_0.stage is Filter || c->Failed_0.stage is Convert)
            &&& s == stats
            &&& w.mode is Finished && w.waiting is Nothing
        }),
{
}

/// A packet enters a track by being copied where the track copies, else by its decoder,
/// and not at all where it has neither. At the end of the stream a track that copies has
/// nothing left to do; any other gives up what its decoder, its stages and its encoder
/// still hold, in that order, as far as it has them.
pub proof fn tracks_begin_at_the_front<F, E>(track: PumpTrackView, stats: ExecutorStats)
    requires
        track.stages.len() < usize::MAX,
    ensures
        ({
            let (_, s, c) = PumpView::<F>::started(track, packet_mode(track), None).step::<E>(
                stats,
                Reply::Start,
            );
            &&& s == stats
            &&& track.copy ==> c is CopyPacket
            &&& !track.copy && track.has_decoder ==> c is SendPacket
            &&& !track.copy && !track.has_decoder ==> c is Finished
        }),
        ({
            let (_, s, c) = PumpView::<F>::started(track, drain_mode(track), None).step::<E>(
                stats,
                Reply::Start,
            );
            &&& s == stats
            &&& track.copy ==> c is Finished
            &&& !track.copy && track.has_decoder ==> c is FlushDecoder
            &&& !track.copy && !track.has_decoder && track.stages.len() > 0 ==> c is FlushStage
                && c->FlushStage_stage == 0
            &&& !track.copy && !track.has_decoder && track.stages.len() == 0 && track.has_encoder
                ==> c is FlushEncoder
            &&& !track.copy && !track.has_decoder && track.stages.len() == 0 && !track.has_encoder
                ==> c is Finished
        }),
{
}

} // verus!
