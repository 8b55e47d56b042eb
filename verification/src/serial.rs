//! Running one output on one thread: reading every source in turn until all are
//! at their end, then draining every track.

use crate::failure::{Cause, FailureStage, StageFailure};
use crate::stats::ExecutorStats;
use vstd::prelude::*;

verus! {

/// A source of the output, by position.
#[derive(Clone, Copy, Debug, PartialEq, Eq, Structural)]
pub struct SerialSource {
    /// Whether it hands out decoded frames instead of packets.
    pub frames: bool,
    pub eof: bool,
}

/// A track of the output: the position of its source, and which of that
/// source's streams it takes.
#[derive(Clone, Copy, Debug, PartialEq, Eq, Structural)]
pub struct SerialTrack {
    pub source: usize,
    pub stream: u32,
}

#[derive(Clone, Copy, Debug, PartialEq, Eq, Structural)]
pub enum SerialPhase {
    Starting,
    /// A source is to be read, this one if it is not at its end.
    Reading { source: usize },
    /// The packet or frame of a source goes to its tracks, from this one on.
    Feeding { source: usize, stream: u32, track: usize },
    Draining { track: usize },
    Finishing,
    Ended,
}

pub enum SerialCommand<E> {
    StartSink,
    ReadPacket { source: usize },
    ReadFrame { source: usize },
    /// Pump the packet that was read through a track.
    FeedPacket { track: usize },
    /// Pump the frame that was read through a track.
    FeedFrame { track: usize },
    Drain { track: usize },
    FinishSink,
    Finished(ExecutorStats),
    /// The output failed; whether its sink is to discard what it has.
    Failed { failure: StageFailure<E>, abandon: bool },
}

pub enum SerialReply<E> {
    Start,
    Done,
    Packet { stream: u32 },
    Frame,
    Eof,
    Error(E),
    /// A track's pump failed.
    TrackFailed(StageFailure<E>),
}

pub struct SerialRun {
    pub sources: Vec<SerialSource>,
    pub tracks: Vec<SerialTrack>,
    pub discard_on_failure: bool,
    pub phase: SerialPhase,
    pub stats: ExecutorStats,
}

#[verifier::ext_equal]
pub struct SerialView {
    pub sources: Seq<SerialSource>,
    pub tracks: Seq<SerialTrack>,
    pub discard_on_failure: bool,
    pub phase: SerialPhase,
    pub stats: ExecutorStats,
}

impl View for SerialRun {
    type V = SerialView;

    open spec fn view(&self) -> SerialView {
        SerialView {
            sources: self.sources@,
            tracks: self.tracks@,
            discard_on_failure: self.discard_on_failure,
            phase: self.phase,
            stats: self.stats,
        }
    }
}

/// The first source at or after `from` that is not at its end.
pub open spec fn open_from(sources: Seq<SerialSource>, from: int) -> int
    decreases sources.len() - from,
{
    if from < 0 || from >= sources.len() {
        sources.len() as int
    } else if !sources[from].eof {
        from
    } else {
        open_from(sources, from + 1)
    }
}

/// The source whose turn it is, counting on from `from` and then from the
/// first; the number of sources where all are at their end.
pub open spec fn turn(sources: Seq<SerialSource>, from: int) -> int {
    if open_from(sources, from) < sources.len() {
        open_from(sources, from)
    } else {
        open_from(sources, 0)
    }
}

/// Whether a track takes what was read.
pub open spec fn takes(
    sources: Seq<SerialSource>,
    track: SerialTrack,
    source: usize,
    stream: u32,
) -> bool {
    track.source == source && (sources[source as int].frames || track.stream == stream)
}

/// The first track at or after `from` that takes what was read.
pub open spec fn taker_from(v: SerialView, source: usize, stream: u32, from: int) -> int
    decreases v.tracks.len() - from,
{
    if from < 0 || from >= v.tracks.len() {
        v.tracks.len() as int
    } else if takes(v.sources, v.tracks[from], source, stream) {
        from
    } else {
        taker_from(v, source, stream, from + 1)
    }
}

impl SerialView {
    pub open spec fn phase_wf(self) -> bool {
        match self.phase {
            SerialPhase::Reading { source } => source <= self.sources.len(),
            SerialPhase::Feeding { source, track, .. } => source < self.sources.len() && track
                <= self.tracks.len(),
            SerialPhase::Draining { track } => track <= self.tracks.len(),
            _ => true,
        }
    }

    /// The failure of the output, with what it had done.
    pub open spec fn failed<E>(self, failure: StageFailure<E>) -> (SerialView, SerialCommand<E>) {
        (
            SerialView { phase: SerialPhase::Ended, ..self },
            SerialCommand::Failed {
                failure: StageFailure { stats: self.stats, ..failure },
                abandon: self.discard_on_failure,
            },
        )
    }

    /// The next call, with nothing outstanding.
    pub open spec fn commanded<E>(self) -> (SerialView, SerialCommand<E>) {
        match self.phase {
            SerialPhase::Starting => (self, SerialCommand::StartSink),
            SerialPhase::Reading { source } => self.reading(source as int),
            SerialPhase::Feeding { source, stream, track } => {
                let next = taker_from(self, source, stream, track as int);
                if next < self.tracks.len() {
                    (
                        SerialView {
                            phase: SerialPhase::Feeding { source, stream, track: next as usize },
                            ..self
                        },
                        if self.sources[source as int].frames {
                            SerialCommand::FeedFrame { track: next as usize }
                        } else {
                            SerialCommand::FeedPacket { track: next as usize }
                        },
                    )
                } else {
                    self.reading(source + 1)
                }
            },
            SerialPhase::Draining { track } => self.draining(track as int),
            SerialPhase::Finishing => (self, SerialCommand::FinishSink),
            SerialPhase::Ended => (self, SerialCommand::Finished(self.stats)),
        }
    }

    /// The next source to be read, or the first track to be drained.
    pub open spec fn reading<E>(self, source: int) -> (SerialView, SerialCommand<E>) {
        let next = turn(self.sources, source);
        if next < self.sources.len() {
            (
                SerialView { phase: SerialPhase::Reading { source: next as usize }, ..self },
                if self.sources[next].frames {
                    SerialCommand::ReadFrame { source: next as usize }
                } else {
                    SerialCommand::ReadPacket { source: next as usize }
                },
            )
        } else {
            self.draining(0)
        }
    }

    /// The next track to be drained, or the sink to be finished.
    pub open spec fn draining<E>(self, track: int) -> (SerialView, SerialCommand<E>) {
        if track < self.tracks.len() {
            (
                SerialView { phase: SerialPhase::Draining { track: track as usize }, ..self },
                SerialCommand::Drain { track: track as usize },
            )
        } else {
            (SerialView { phase: SerialPhase::Finishing, ..self }, SerialCommand::FinishSink)
        }
    }

    /// The state after the outcome of the awaited call, or the failure.
    pub open spec fn absorbed<E>(self, reply: SerialReply<E>) -> Result<
        SerialView,
        StageFailure<E>,
    > {
        match (self.phase, reply) {
            (_, SerialReply::Start) => Ok(self),
            (SerialPhase::Starting, SerialReply::Error(e)) => Err(
                StageFailure::at(FailureStage::Sink, None, Cause::Raised(e)),
            ),
            (SerialPhase::Starting, _) => Ok(
                SerialView { phase: SerialPhase::Reading { source: 0 }, ..self },
            ),
            (SerialPhase::Reading { source }, SerialReply::Packet { stream }) => Ok(
                SerialView {
                    phase: SerialPhase::Feeding { source, stream, track: 0 },
                    stats: ExecutorStats {
                        packets_read: (self.stats.packets_read + 1) as u64,
                        ..self.stats
                    },
                    ..self
                },
            ),
            (SerialPhase::Reading { source }, SerialReply::Frame) => Ok(
                SerialView {
                    phase: SerialPhase::Feeding { source, stream: 0, track: 0 },
                    stats: ExecutorStats {
                        frames_decoded: (self.stats.frames_decoded + 1) as u64,
                        ..self.stats
                    },
                    ..self
                },
            ),
            (SerialPhase::Reading { source }, SerialReply::Error(e)) => Err(
                StageFailure::at(FailureStage::Source, None, Cause::Raised(e)),
            ),
            (SerialPhase::Reading { source }, _) => Ok(
                SerialView {
                    sources: self.sources.update(
                        source as int,
                        SerialSource { eof: true, ..self.sources[source as int] },
                    ),
                    phase: SerialPhase::Reading { source: (source + 1) as usize },
                    ..self
                },
            ),
            (SerialPhase::Feeding { .. }, SerialReply::TrackFailed(f)) => Err(f),
            (SerialPhase::Feeding { source, stream, track }, _) => Ok(
                SerialView {
                    phase: SerialPhase::Feeding { source, stream, track: (track + 1) as usize },
                    ..self
                },
            ),
            (SerialPhase::Draining { .. }, SerialReply::TrackFailed(f)) => Err(f),
            (SerialPhase::Draining { track }, _) => Ok(
                SerialView { phase: SerialPhase::Draining { track: (track + 1) as usize }, ..self },
            ),
            (SerialPhase::Finishing, SerialReply::Error(e)) => Err(
                StageFailure::at(FailureStage::SinkFinish, None, Cause::Raised(e)),
            ),
            (SerialPhase::Finishing, _) => Ok(SerialView { phase: SerialPhase::Ended, ..self }),
            (SerialPhase::Ended, _) => Ok(self),
        }
    }

    /// Whether a reply can be the outcome of the awaited call.
    pub open spec fn fits<E>(self, reply: SerialReply<E>) -> bool {
        match self.phase {
            SerialPhase::Starting => reply is Start || reply is Done || reply is Error,
            SerialPhase::Reading { source } => source < self.sources.len() && (if self.sources[
            source as int].frames {
                reply is Frame
            } else {
                reply is Packet
            } || reply is Eof || reply is Error),
            SerialPhase::Feeding { track, .. } => track < self.tracks.len() && (reply is Done
                || reply is TrackFailed),
            SerialPhase::Draining { track } => track < self.tracks.len() && (reply is Done
                || reply is TrackFailed),
            SerialPhase::Finishing => reply is Done || reply is Error,
            SerialPhase::Ended => false,
        }
    }

    /// The counter that an outcome moves, if any, can take one more.
    pub open spec fn can_count<E>(self, reply: SerialReply<E>) -> bool {
        &&& reply is Packet ==> self.stats.packets_read < u64::MAX
        &&& reply is Frame ==> self.stats.frames_decoded < u64::MAX
    }

    /// One exchange: the outcome of the awaited call, then the next call.
    pub open spec fn step<E>(self, reply: SerialReply<E>) -> (SerialView, SerialCommand<E>) {
        match self.absorbed(reply) {
            Ok(next) => next.commanded(),
            Err(failure) => self.failed(failure),
        }
    }
}

impl SerialRun {
    pub open spec fn wf(self) -> bool {
        self@.phase_wf()
    }

    /// An output before its sink is started.
    pub fn new(
        sources: Vec<SerialSource>,
        tracks: Vec<SerialTrack>,
        discard_on_failure: bool,
    ) -> (r: Self)
        ensures
            r.wf(),
            r@ == (SerialView {
                sources: sources@,
                tracks: tracks@,
                discard_on_failure,
                phase: SerialPhase::Starting,
                stats: ExecutorStats::zero(),
            }),
    {
        SerialRun {
            sources,
            tracks,
            discard_on_failure,
            phase: SerialPhase::Starting,
            stats: ExecutorStats::default(),
        }
    }

    fn find_open(&self, from: usize) -> (r: usize)
        requires
            from <= self.sources@.len(),
        ensures
            r == open_from(self.sources@, from as int),
            r <= self.sources@.len(),
    {
        let mut i: usize = from;
        while i < self.sources.len()
            invariant
                i <= self.sources@.len(),
                open_from(self.sources@, i as int) == open_from(self.sources@, from as int),
            decreases self.sources@.len() - i,
        {
            if !self.sources[i].eof {
                return i;
            }
            i += 1;
        }
        i
    }

    fn find_turn(&self, from: usize) -> (r: usize)
        requires
            from <= self.sources@.len(),
        ensures
            r == turn(self.sources@, from as int),
            r <= self.sources@.len(),
    {
        let ahead: usize = self.find_open(from);
        if ahead < self.sources.len() {
            ahead
        } else {
            self.find_open(0)
        }
    }

    fn find_taker(&self, source: usize, stream: u32, from: usize) -> (r: usize)
        requires
            from <= self.tracks@.len(),
            source < self.sources@.len(),
        ensures
            r == taker_from(self@, source, stream, from as int),
            r <= self.tracks@.len(),
    {
        let mut i: usize = from;
        while i < self.tracks.len()
            invariant
                i <= self.tracks@.len(),
                source < self.sources@.len(),
                taker_from(self@, source, stream, i as int) == taker_from(
                    self@,
                    source,
                    stream,
                    from as int,
                ),
            decreases self.tracks@.len() - i,
        {
            let t = self.tracks[i];
            if t.source == source && (self.sources[source].frames || t.stream == stream) {
                return i;
            }
            i += 1;
        }
        i
    }

    fn next_drain<E>(&mut self, track: usize) -> (r: SerialCommand<E>)
        requires
            track <= old(self).tracks@.len(),
        ensures
            final(self).wf(),
            (final(self)@, r) == old(self)@.draining::<E>(track as int),
    {
        if track < self.tracks.len() {
            self.phase = SerialPhase::Draining { track };
            SerialCommand::Drain { track }
        } else {
            self.phase = SerialPhase::Finishing;
            SerialCommand::FinishSink
        }
    }

    fn next_read<E>(&mut self, source: usize) -> (r: SerialCommand<E>)
        requires
            source <= old(self).sources@.len(),
        ensures
            final(self).wf(),
            (final(self)@, r) == old(self)@.reading::<E>(source as int),
    {
        let next: usize = self.find_turn(source);
        if next < self.sources.len() {
            self.phase = SerialPhase::Reading { source: next };
            if self.sources[next].frames {
                SerialCommand::ReadFrame { source: next }
            } else {
                SerialCommand::ReadPacket { source: next }
            }
        } else {
            self.next_drain(0)
        }
    }

    fn command<E>(&mut self) -> (r: SerialCommand<E>)
        requires
            old(self).wf(),
        ensures
            final(self).wf(),
            (final(self)@, r) == old(self)@.commanded::<E>(),
    {
        match self.phase {
            SerialPhase::Starting => SerialCommand::StartSink,
            SerialPhase::Reading { source } => self.next_read(source),
            SerialPhase::Feeding { source, stream, track } => {
                let next: usize = self.find_taker(source, stream, track);
                if next < self.tracks.len() {
                    self.phase = SerialPhase::Feeding { source, stream, track: next };
                    if self.sources[source].frames {
                        SerialCommand::FeedFrame { track: next }
                    } else {
                        SerialCommand::FeedPacket { track: next }
                    }
                } else {
                    let n: usize = self.sources.len();
                    assert(source < n);
                    self.next_read(source + 1)
                }
            },
            SerialPhase::Draining { track } => self.next_drain(track),
            SerialPhase::Finishing => SerialCommand::FinishSink,
            SerialPhase::Ended => SerialCommand::Finished(self.stats),
        }
    }

    fn absorb<E>(&mut self, reply: SerialReply<E>) -> (r: Option<StageFailure<E>>)
        requires
            old(self).wf(),
            old(self)@.fits(reply),
            old(self)@.can_count(reply),
        ensures
            final(self).wf(),
            match old(self)@.absorbed(reply) {
                Ok(next) => r is None && final(self)@ == next,
                Err(failure) => r == Some(failure) && final(self)@ == old(self)@,
            },
    {
        let n: usize = self.sources.len();
        let m: usize = self.tracks.len();
        match self.phase {
            SerialPhase::Starting => match reply {
                SerialReply::Start => None,
                SerialReply::Error(e) => Some(
                    StageFailure::new(FailureStage::Sink, None, Cause::Raised(e)),
                ),
                _ => {
                    self.phase = SerialPhase::Reading { source: 0 };
                    None
                },
            },
            SerialPhase::Reading { source } => match reply {
                SerialReply::Packet { stream } => {
                    self.phase = SerialPhase::Feeding { source, stream, track: 0 };
                    self.stats.packets_read = self.stats.packets_read + 1;
                    None
                },
                SerialReply::Frame => {
                    self.phase = SerialPhase::Feeding { source, stream: 0, track: 0 };
                    self.stats.frames_decoded = self.stats.frames_decoded + 1;
                    None
                },
                SerialReply::Error(e) => Some(
                    StageFailure::new(FailureStage::Source, None, Cause::Raised(e)),
                ),
                _ => {
                    assert(source < n);
                    let frames = self.sources[source].frames;
                    self.sources.set(source, SerialSource { frames, eof: true });
                    self.phase = SerialPhase::Reading { source: source + 1 };
                    None
                },
            },
            SerialPhase::Feeding { source, stream, track } => match reply {
                SerialReply::TrackFailed(f) => Some(f),
                _ => {
                    assert(track < m);
                    self.phase = SerialPhase::Feeding { source, stream, track: track + 1 };
                    None
                },
            },
            SerialPhase::Draining { track } => match reply {
                SerialReply::TrackFailed(f) => Some(f),
                _ => {
                    assert(track < m);
                    self.phase = SerialPhase::Draining { track: track + 1 };
                    None
                },
            },
            SerialPhase::Finishing => match reply {
                SerialReply::Error(e) => Some(
                    StageFailure::new(FailureStage::SinkFinish, None, Cause::Raised(e)),
                ),
                _ => {
                    self.phase = SerialPhase::Ended;
                    None
                },
            },
            SerialPhase::Ended => None,
        }
    }

    /// Takes the outcome of the call that was asked for, and asks for the next.
    pub fn step<E>(&mut self, reply: SerialReply<E>) -> (r: SerialCommand<E>)
        requires
            old(self).wf(),
            old(self)@.fits(reply),
            old(self)@.can_count(reply),
        ensures
            final(self).wf(),
            (final(self)@, r) == old(self)@.step(reply),
    {
        match self.absorb(reply) {
            Some(failure) => {
                self.phase = SerialPhase::Ended;
                SerialCommand::Failed {
                    failure: failure.with_stats(self.stats),
                    abandon: self.discard_on_failure,
                }
            },
            None => self.command(),
        }
    }
}

/// The first source that is not at its end: it is not, and all before it are.
pub(crate) proof fn open_from_range(sources: Seq<SerialSource>, from: int)
    requires
        0 <= from <= sources.len(),
    ensures
        from <= open_from(sources, from) <= sources.len(),
        open_from(sources, from) < sources.len() ==> !sources[open_from(sources, from)].eof,
        forall|i: int| from <= i < open_from(sources, from) ==> (#[trigger] sources[i]).eof,
    decreases sources.len() - from,
{
    if from < sources.len() && sources[from].eof {
        open_from_range(sources, from + 1);
    }
}

/// The first track that takes what was read: it does, and none before it does.
pub(crate) proof fn taker_from_range(v: SerialView, source: usize, stream: u32, from: int)
    requires
        0 <= from <= v.tracks.len(),
    ensures
        from <= taker_from(v, source, stream, from) <= v.tracks.len(),
        taker_from(v, source, stream, from) < v.tracks.len() ==> takes(
            v.sources,
            v.tracks[taker_from(v, source, stream, from)],
            source,
            stream,
        ),
        forall|i: int|
            from <= i < taker_from(v, source, stream, from) ==> !takes(
                v.sources,
                #[trigger] v.tracks[i],
                source,
                stream,
            ),
    decreases v.tracks.len() - from,
{
    if from < v.tracks.len() && !takes(v.sources, v.tracks[from], source, stream) {
        taker_from_range(v, source, stream, from + 1);
    }
}

/// Sources take turns: only one that is not at its end is read, every source
/// passed over is at its end, and draining begins only when all of them are.
pub proof fn sources_take_turns<E>(v: SerialView, source: usize)
    requires
        v.phase == (SerialPhase::Reading { source }),
        source <= v.sources.len() <= usize::MAX,
    ensures
        match v.commanded::<E>().1 {
            SerialCommand::ReadPacket { source: s } | SerialCommand::ReadFrame { source: s } => {
                &&& s < v.sources.len()
                &&& !v.sources[s as int].eof
                &&& source <= s ==> forall|i: int|
                    source <= i < s ==> (#[trigger] v.sources[i]).eof
                &&& s < source ==> forall|i: int|
                    (source <= i < v.sources.len() || 0 <= i < s) ==> (#[trigger] v.sources[i]).eof
            },
            _ => forall|i: int| 0 <= i < v.sources.len() ==> (#[trigger] v.sources[i]).eof,
        },
{
    open_from_range(v.sources, source as int);
    open_from_range(v.sources, 0);
}

/// What was read goes to every track that takes it, in track order, before the
/// next read: a track that is fed takes it, and no track that takes it is passed
/// over.
pub proof fn packet_reaches_every_taker<E>(
    v: SerialView,
    source: usize,
    stream: u32,
    track: usize,
)
    requires
        v.phase == (SerialPhase::Feeding { source, stream, track }),
        v.phase_wf(),
        v.tracks.len() <= usize::MAX,
        v.sources.len() <= usize::MAX,
    ensures
        match v.commanded::<E>().1 {
            SerialCommand::FeedPacket { track: t } | SerialCommand::FeedFrame { track: t } => {
                &&& track <= t < v.tracks.len()
                &&& takes(v.sources, v.tracks[t as int], source, stream)
                &&& forall|i: int|
                    track <= i < t ==> !takes(v.sources, #[trigger] v.tracks[i], source, stream)
            },
            _ => forall|i: int|
                track <= i < v.tracks.len() ==> !takes(
                    v.sources,
                    #[trigger] v.tracks[i],
                    source,
                    stream,
                ),
        },
{
    taker_from_range(v, source, stream, track as int);
    open_from_range(v.sources, source + 1);
    open_from_range(v.sources, 0);
}

/// A failing output's sink discards what it has exactly where that was asked
/// for, and the failure carries what the output had done.
pub proof fn failure_carries_progress<E>(v: SerialView, reply: SerialReply<E>)
    ensures
        v.step(reply).1 matches SerialCommand::Failed { failure, abandon } ==> abandon
            == v.discard_on_failure && failure.stats == v.stats,
{
}

/// An output that fails says what failed: its sink when it is started, a source when it is
/// read, the finishing of the sink at the end, none of them on a track; and a track as the
/// track itself says. The error is the very one that was raised, and nothing is asked for
/// after it.
pub proof fn failure_says_what_failed<E>(v: SerialView, e: E, f: StageFailure<E>)
    ensures
        v.phase is Starting || v.phase is Reading || v.phase is Finishing ==> ({
            let (w, c) = v.step(SerialReply::Error(e));
            &&& c is Failed
            &&& c->failure.error == Cause::Raised(e)
            &&& c->failure.track is None
            &&& v.phase is Starting ==> c->failure.stage is Sink
            &&& v.phase is Reading ==> c->failure.stage is Source
            &&& v.phase is Finishing ==> c->failure.stage is SinkFinish
            &&& w.phase is Ended && w.stats == v.stats
        }),
        v.phase is Feeding || v.phase is Draining ==> ({
            let (w, c) = v.step(SerialReply::TrackFailed(f));
            &&& c is Failed
            &&& c->failure.error == f.error
            &&& c->failure.track == f.track
            &&& c->failure.stage == f.stage
            &&& w.phase is Ended && w.stats == v.stats
        }),
{
}

/// What was read counts when it has been read, a packet as read and a frame as decoded,
/// once and under nothing else. A source at its end is the only one that is, and counts for
/// nothing.
pub proof fn reads_are_counted_once<E>(v: SerialView, source: usize, stream: u32)
    requires
        v.phase == (SerialPhase::Reading { source }),
        source < v.sources.len() <= usize::MAX,
        v.tracks.len() <= usize::MAX,
        v.stats.has_room(1),
    ensures
        ({
            let w = v.step(SerialReply::<E>::Packet { stream }).0;
            &&& w.stats.packets_read == v.stats.packets_read + 1
            &&& w.stats.frames_decoded == v.stats.frames_decoded
            &&& w.stats.packets_copied == v.stats.packets_copied
            &&& w.stats.packets_encoded == v.stats.packets_encoded
            &&& w.stats.frames_written == v.stats.frames_written
            &&& w.stats.packets_skipped == v.stats.packets_skipped
            &&& w.sources == v.sources
        }),
        ({
            let w = v.step(SerialReply::<E>::Frame).0;
            &&& w.stats.frames_decoded == v.stats.frames_decoded + 1
            &&& w.stats.packets_read == v.stats.packets_read
            &&& w.stats.packets_copied == v.stats.packets_copied
            &&& w.stats.packets_encoded == v.stats.packets_encoded
            &&& w.stats.frames_written == v.stats.frames_written
            &&& w.stats.packets_skipped == v.stats.packets_skipped
            &&& w.sources == v.sources
        }),
        ({
            let w = v.step(SerialReply::<E>::Eof).0;
            &&& w.stats == v.stats
            &&& w.sources.len() == v.sources.len()
            &&& w.sources[source as int].eof
            &&& forall|i: int|
                0 <= i < v.sources.len() && i != source ==> w.sources[i] == #[trigger] v.sources[i]
        }),
{
}

/// A track takes what comes from its own source: every frame of a source of frames, and
/// of a source of packets those of its own stream.
pub proof fn track_takes_its_own(
    sources: Seq<SerialSource>,
    track: SerialTrack,
    source: usize,
    stream: u32,
)
    requires
        source < sources.len(),
    ensures
        track.source != source ==> !takes(sources, track, source, stream),
        track.source == source && sources[source as int].frames ==> takes(
            sources,
            track,
            source,
            stream,
        ),
        track.source == source && !sources[source as int].frames ==> (takes(
            sources,
            track,
            source,
            stream,
        ) <==> track.stream == stream),
{
}

/// Once every source is at its end, the tracks are drained, each once and in order; then
/// the sink is finished, and then the counters are returned.
pub proof fn tracks_are_drained_in_order<E>(v: SerialView, track: usize)
    requires
        v.phase == (SerialPhase::Draining { track }),
        track < v.tracks.len() <= usize::MAX,
    ensures
        ({
            let (w, c) = v.step(SerialReply::<E>::Done);
            &&& w.stats == v.stats
            &&& track + 1 < v.tracks.len() ==> c is Drain && c->Drain_track == track + 1
            &&& track + 1 == v.tracks.len() ==> c is FinishSink && ({
                let (x, d) = w.step(SerialReply::<E>::Done);
                d is Finished && d->Finished_0 == v.stats && x.phase is Ended
            })
        }),
{
}

/// The source that is next after another: the nearest one behind it that is not at its
/// end, counting on from the first behind the last; the source itself comes last of all.
pub open spec fn is_next(sources: Seq<SerialSource>, source: int, next: int) -> bool {
    &&& 0 <= next < sources.len()
    &&& !sources[next].eof
    &&& source < next ==> forall|i: int| source < i < next ==> (#[trigger] sources[i]).eof
    &&& next <= source ==> forall|i: int|
        source < i < sources.len() || 0 <= i < next ==> (#[trigger] sources[i]).eof
}

/// Sources take turns: once what was read has gone to every track that takes it, and once
/// a source has come to its end, the next source is the one that is read.
pub proof fn turns_go_round<E>(v: SerialView, source: usize, stream: u32, track: usize)
    requires
        source < v.sources.len() <= usize::MAX,
        track < v.tracks.len() <= usize::MAX,
    ensures
        v.phase == (SerialPhase::Feeding { source, stream, track }) && (forall|i: int|
            track < i < v.tracks.len() ==> !takes(
                v.sources,
                #[trigger] v.tracks[i],
                source,
                stream,
            )) ==> match v.step::<E>(SerialReply::Done).1 {
            SerialCommand::ReadPacket { source: s } | SerialCommand::ReadFrame { source: s } => {
                is_next(v.sources, source as int, s as int)
            },
            c => c is Drain && forall|i: int|
                0 <= i < v.sources.len() ==> (#[trigger] v.sources[i]).eof,
        },
        v.phase == (SerialPhase::Reading { source }) ==> ({
            let (w, command) = v.step::<E>(SerialReply::Eof);
            match command {
                SerialCommand::ReadPacket { source: s } | SerialCommand::ReadFrame { source: s } => {
                    is_next(w.sources, source as int, s as int) && s != source
                },
                c => c is Drain && forall|i: int|
                    0 <= i < w.sources.len() ==> (#[trigger] w.sources[i]).eof,
            }
        }),
{
    if v.phase == (SerialPhase::Feeding { source, stream, track }) {
        taker_from_range(v, source, stream, track + 1);
        let fed = SerialView {
            phase: SerialPhase::Feeding { source, stream, track: (track + 1) as usize },
            ..v
        };
        taker_from_range(fed, source, stream, track + 1);
        open_from_range(v.sources, source + 1);
        open_from_range(v.sources, 0);
    }
    if v.phase == (SerialPhase::Reading { source }) {
        let sources = v.step::<E>(SerialReply::Eof).0.sources;
        open_from_range(sources, source + 1);
        open_from_range(sources, 0);
    }
}

/// A source is read as what it is: frames from a source of frames, packets from any other;
/// and what came of it is fed to the tracks as the same.
pub proof fn sources_are_read_as_they_are<E>(v: SerialView)
    requires
        v.phase_wf(),
        v.sources.len() <= usize::MAX,
        v.tracks.len() <= usize::MAX,
        v.phase is Reading || v.phase is Feeding,
    ensures
        match v.commanded::<E>().1 {
            SerialCommand::ReadPacket { source } => !v.sources[source as int].frames,
            SerialCommand::ReadFrame { source } => v.sources[source as int].frames,
            SerialCommand::FeedPacket { .. } => v.phase is Feeding
                && !v.sources[v.phase->Feeding_source as int].frames,
            SerialCommand::FeedFrame { .. } => v.phase is Feeding
                && v.sources[v.phase->Feeding_source as int].frames,
            _ => true,
        },
{
    open_from_range(v.sources, 0);
    if v.phase is Reading {
        open_from_range(v.sources, v.phase->Reading_source as int);
    } else {
        open_from_range(v.sources, v.phase->Feeding_source + 1);
    }
}

} // verus!
