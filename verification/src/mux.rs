//! Feeding the sink of an output from the queues of its tracks.

use crate::failure::{Cause, FailureStage, StageFailure};
use crate::staged::{wrapped, BarrierKind, PipelineCounters, Progress, Shared};
use vstd::prelude::*;

verus! {

#[derive(Clone, Copy, Debug, PartialEq, Eq, Structural)]
pub enum MuxPhase {
    /// Before a pass over the tracks.
    Top,
    Polling,
    /// A packet or a frame is with the sink.
    Writing { frame: bool, stream: u32, pts: Option<i64> },
    /// Something else is with the sink; the stream that a failure belongs to.
    Telling { stream: u32 },
    /// Progress is being reported.
    Reporting,
    Stopped,
}

pub enum MuxCommand {
    /// Look into the queue of a track, without waiting.
    Poll { track: usize },
    WritePacket { stream_index: u32 },
    WriteFrame,
    StreamUpdate,
    Barrier(BarrierKind),
    EndOfStream { track: usize },
    /// Report progress, if there is room for it.
    Report(Progress),
    /// Wait a moment.
    Park,
    /// Nothing more comes, or the pipeline is stopping.
    Stop,
}

pub enum MuxReply<E> {
    Start,
    Packet { stream: u32, pts: Option<i64> },
    Frame { stream: u32, pts: Option<i64> },
    Update { stream: u32 },
    Barrier(BarrierKind),
    StreamEnd,
    Eof,
    Empty,
    /// The sending end of the queue is gone.
    Disconnected,
    Done,
    Error(E),
}

/// Looks into the queues of the tracks in turn, never waiting for one while
/// another has something, until all are at their end.
pub struct MuxLoop {
    pub eof: Vec<bool>,
    pub at: usize,
    /// Whether this pass has found anything.
    pub progress: bool,
    /// Whether anybody wants to hear of progress.
    pub reports: bool,
    pub phase: MuxPhase,
}

#[verifier::ext_equal]
pub struct MuxView {
    pub eof: Seq<bool>,
    pub at: int,
    pub progress: bool,
    pub reports: bool,
    pub phase: MuxPhase,
}

impl View for MuxLoop {
    type V = MuxView;

    open spec fn view(&self) -> MuxView {
        MuxView {
            eof: self.eof@,
            at: self.at as int,
            progress: self.progress,
            reports: self.reports,
            phase: self.phase,
        }
    }
}

/// The first track at or after `from` that is not at its end.
pub open spec fn live_from(eof: Seq<bool>, from: int) -> int
    decreases eof.len() - from,
{
    if from < 0 || from >= eof.len() {
        eof.len() as int
    } else if !eof[from] {
        from
    } else {
        live_from(eof, from + 1)
    }
}

impl MuxView {
    /// A new pass, unless all tracks are at their end or the pipeline is
    /// stopping.
    pub open spec fn pass<E>(self, shared: Shared<E>) -> (MuxView, MuxCommand) {
        let first = live_from(self.eof, 0);
        if first >= self.eof.len() || shared.abort.cancelled {
            (MuxView { phase: MuxPhase::Stopped, ..self }, MuxCommand::Stop)
        } else {
            (
                MuxView { at: first, progress: false, phase: MuxPhase::Polling, ..self },
                MuxCommand::Poll { track: first as usize },
            )
        }
    }

    /// The next track of this pass. After a pass that found nothing the loop
    /// waits a moment.
    pub open spec fn poll<E>(self, shared: Shared<E>, from: int) -> (MuxView, MuxCommand) {
        let next = live_from(self.eof, from);
        if next < self.eof.len() {
            (
                MuxView { at: next, phase: MuxPhase::Polling, ..self },
                MuxCommand::Poll { track: next as usize },
            )
        } else if !self.progress && live_from(self.eof, 0) < self.eof.len() {
            (MuxView { phase: MuxPhase::Top, ..self }, MuxCommand::Park)
        } else {
            self.pass(shared)
        }
    }

    /// The sink took it; go on with the next track.
    pub open spec fn next<E>(self, shared: Shared<E>) -> (MuxView, Shared<E>, MuxCommand) {
        let (v, c) = self.poll(shared, self.at + 1);
        (v, shared, c)
    }

    /// The sink failed: the pipeline stops.
    pub open spec fn failed<E>(self, shared: Shared<E>, stream: u32, error: E) -> (
        MuxView,
        Shared<E>,
        MuxCommand,
    ) {
        (
            MuxView { phase: MuxPhase::Stopped, ..self },
            Shared {
                abort: shared.abort.recorded(
                    StageFailure::at(FailureStage::Sink, Some(stream), Cause::Raised(error)),
                ),
                ..shared
            },
            MuxCommand::Stop,
        )
    }

    /// One exchange: the outcome of the awaited call, then the next call. The
    /// time since the start goes into what is reported.
    pub open spec fn step<E>(self, shared: Shared<E>, reply: MuxReply<E>, elapsed: u64) -> (
        MuxView,
        Shared<E>,
        MuxCommand,
    ) {
        match (self.phase, reply) {
            (MuxPhase::Top, _) => {
                let (v, c) = self.pass(shared);
                (v, shared, c)
            },
            (MuxPhase::Polling, MuxReply::Packet { stream, pts }) => (
                MuxView {
                    progress: true,
                    phase: MuxPhase::Writing { frame: false, stream, pts },
                    ..self
                },
                shared,
                MuxCommand::WritePacket { stream_index: stream },
            ),
            (MuxPhase::Polling, MuxReply::Frame { stream, pts }) => (
                MuxView {
                    progress: true,
                    phase: MuxPhase::Writing { frame: true, stream, pts },
                    ..self
                },
                shared,
                MuxCommand::WriteFrame,
            ),
            (MuxPhase::Polling, MuxReply::Update { stream }) => (
                MuxView { progress: true, phase: MuxPhase::Telling { stream }, ..self },
                shared,
                MuxCommand::StreamUpdate,
            ),
            (MuxPhase::Polling, MuxReply::Barrier(b)) => (
                MuxView {
                    progress: true,
                    phase: MuxPhase::Telling { stream: self.at as u32 },
                    ..self
                },
                shared,
                MuxCommand::Barrier(b),
            ),
            (MuxPhase::Polling, MuxReply::StreamEnd) => (
                MuxView {
                    progress: true,
                    phase: MuxPhase::Telling { stream: self.at as u32 },
                    ..self
                },
                shared,
                MuxCommand::EndOfStream { track: self.at as usize },
            ),
            (MuxPhase::Polling, MuxReply::Eof) => MuxView {
                eof: self.eof.update(self.at, true),
                progress: true,
                ..self
            }.next(shared),
            // A worker that is gone without a word will send nothing more.
            (MuxPhase::Polling, MuxReply::Disconnected) => MuxView {
                eof: self.eof.update(self.at, true),
                ..self
            }.next(shared),
            (MuxPhase::Polling, _) => self.next(shared),
            (MuxPhase::Writing { stream, .. }, MuxReply::Error(e)) => self.failed(
                shared,
                stream,
                e,
            ),
            (MuxPhase::Writing { frame, pts, .. }, _) => {
                let after = Shared {
                    counters: if frame {
                        PipelineCounters {
                            frames_written: wrapped(shared.counters.frames_written + 1),
                            ..shared.counters
                        }
                    } else {
                        shared.counters
                    },
                    ..shared
                };
                if self.reports {
                    (
                        MuxView { phase: MuxPhase::Reporting, ..self },
                        after,
                        MuxCommand::Report(
                            after.counters.progress_spec(after.budget, pts, false, elapsed),
                        ),
                    )
                } else {
                    self.next(after)
                }
            },
            (MuxPhase::Telling { stream }, MuxReply::Error(e)) => self.failed(shared, stream, e),
            (MuxPhase::Telling { .. }, _) => self.next(shared),
            // A report that finds no room is dropped.
            (MuxPhase::Reporting, _) => self.next(shared),
            (MuxPhase::Stopped, _) => (self, shared, MuxCommand::Stop),
        }
    }

    pub open spec fn phase_wf(self) -> bool {
        &&& self.eof.len() <= u32::MAX
        &&& match self.phase {
            MuxPhase::Polling
            | MuxPhase::Writing { .. }
            | MuxPhase::Telling { .. }
            | MuxPhase::Reporting => self.at < self.eof.len(),
            _ => true,
        }
    }
}

impl MuxLoop {
    pub open spec fn wf(self) -> bool {
        self@.phase_wf()
    }

    /// A loop over `tracks` queues.
    pub fn new(tracks: u32, reports: bool) -> (r: Self)
        ensures
            r.wf(),
            r@ == (MuxView {
                eof: Seq::new(tracks as nat, |i: int| false),
                at: 0,
                progress: false,
                reports,
                phase: MuxPhase::Top,
            }),
    {
        let mut eof: Vec<bool> = Vec::new();
        let mut i: u32 = 0;
        while i < tracks
            invariant
                i <= tracks,
                eof@.len() == i,
                forall|j: int| 0 <= j < i ==> !(#[trigger] eof@[j]),
            decreases tracks - i,
        {
            eof.push(false);
            i += 1;
        }
        assert(eof@ =~= Seq::new(tracks as nat, |i: int| false));
        MuxLoop { eof, at: 0, progress: false, reports, phase: MuxPhase::Top }
    }

    fn find_live(&self, from: usize) -> (r: usize)
        requires
            from <= self.eof@.len(),
        ensures
            r == live_from(self.eof@, from as int),
            r <= self.eof@.len(),
    {
        let mut i: usize = from;
        while i < self.eof.len()
            invariant
                i <= self.eof@.len(),
                live_from(self.eof@, i as int) == live_from(self.eof@, from as int),
            decreases self.eof@.len() - i,
        {
            if !self.eof[i] {
                return i;
            }
            i += 1;
        }
        i
    }

    fn pass<E>(&mut self, shared: &Shared<E>) -> (r: MuxCommand)
        requires
            old(self).eof@.len() <= u32::MAX,
        ensures
            final(self).wf(),
            (final(self)@, r) == old(self)@.pass(*shared),
    {
        let first: usize = self.find_live(0);
        if first >= self.eof.len() || shared.abort.is_aborted() {
            self.phase = MuxPhase::Stopped;
            MuxCommand::Stop
        } else {
            self.at = first;
            self.progress = false;
            self.phase = MuxPhase::Polling;
            MuxCommand::Poll { track: first }
        }
    }

    fn go_on<E>(&mut self, shared: &Shared<E>) -> (r: MuxCommand)
        requires
            old(self).eof@.len() <= u32::MAX,
            old(self).at < old(self).eof@.len(),
        ensures
            final(self).wf(),
            (final(self)@, *shared, r) == old(self)@.next(*shared),
    {
        let next: usize = self.find_live(self.at + 1);
        if next < self.eof.len() {
            self.at = next;
            self.phase = MuxPhase::Polling;
            MuxCommand::Poll { track: next }
        } else if !self.progress && self.find_live(0) < self.eof.len() {
            self.phase = MuxPhase::Top;
            MuxCommand::Park
        } else {
            self.pass(shared)
        }
    }

    fn fail<E>(&mut self, shared: &mut Shared<E>, stream: u32, error: E) -> (r: MuxCommand)
        requires
            old(self).wf(),
        ensures
            final(self).wf(),
            (final(self)@, *final(shared), r) == old(self)@.failed(*old(shared), stream, error),
    {
        shared.abort.record_failure(
            StageFailure::new(FailureStage::Sink, Some(stream), Cause::Raised(error)),
        );
        self.phase = MuxPhase::Stopped;
        MuxCommand::Stop
    }

    fn found<E>(&mut self, shared: &mut Shared<E>, reply: MuxReply<E>) -> (r: MuxCommand)
        requires
            old(self).wf(),
            old(self).phase is Polling,
        ensures
            final(self).wf(),
            forall|elapsed: u64|
                (final(self)@, *final(shared), r) == #[trigger] old(self)@.step(
                    *old(shared),
                    reply,
                    elapsed,
                ),
    {
        match reply {
            MuxReply::Packet { stream, pts } => {
                self.progress = true;
                self.phase = MuxPhase::Writing { frame: false, stream, pts };
                MuxCommand::WritePacket { stream_index: stream }
            },
            MuxReply::Frame { stream, pts } => {
                self.progress = true;
                self.phase = MuxPhase::Writing { frame: true, stream, pts };
                MuxCommand::WriteFrame
            },
            MuxReply::Update { stream } => {
                self.progress = true;
                self.phase = MuxPhase::Telling { stream };
                MuxCommand::StreamUpdate
            },
            MuxReply::Barrier(b) => {
                self.progress = true;
                self.phase = MuxPhase::Telling { stream: self.at as u32 };
                MuxCommand::Barrier(b)
            },
            MuxReply::StreamEnd => {
                self.progress = true;
                self.phase = MuxPhase::Telling { stream: self.at as u32 };
                MuxCommand::EndOfStream { track: self.at }
            },
            MuxReply::Eof => {
                self.eof.set(self.at, true);
                self.progress = true;
                self.go_on(shared)
            },
            MuxReply::Disconnected => {
                self.eof.set(self.at, true);
                self.go_on(shared)
            },
            _ => self.go_on(shared),
        }
    }

    /// Takes the outcome of the call that was asked for, and asks for the next.
    pub fn step<E>(&mut self, shared: &mut Shared<E>, reply: MuxReply<E>, elapsed: u64) -> (r:
        MuxCommand)
        requires
            old(self).wf(),
        ensures
            final(self).wf(),
            (final(self)@, *final(shared), r) == old(self)@.step(*old(shared), reply, elapsed),
    {
        match self.phase {
            MuxPhase::Top => self.pass(shared),
            MuxPhase::Polling => self.found(shared, reply),
            MuxPhase::Writing { frame, stream, pts } => match reply {
                MuxReply::Error(e) => self.fail(shared, stream, e),
                _ => {
                    if frame {
                        shared.counters.frames_written =
                        shared.counters.frames_written.wrapping_add(1);
                    }
                    if self.reports {
                        self.phase = MuxPhase::Reporting;
                        MuxCommand::Report(
                            shared.counters.progress(&shared.budget, pts, false, elapsed),
                        )
                    } else {
                        self.go_on(shared)
                    }
                },
            },
            MuxPhase::Telling { stream } => match reply {
                MuxReply::Error(e) => self.fail(shared, stream, e),
                _ => self.go_on(shared),
            },
            MuxPhase::Reporting => self.go_on(shared),
            MuxPhase::Stopped => MuxCommand::Stop,
        }
    }
}

/// The first track that is not at its end: it is not, and all before it are.
pub(crate) proof fn live_from_range(eof: Seq<bool>, from: int)
    requires
        0 <= from <= eof.len(),
    ensures
        from <= live_from(eof, from) <= eof.len(),
        live_from(eof, from) < eof.len() ==> !eof[live_from(eof, from)],
        forall|i: int| from <= i < live_from(eof, from) ==> #[trigger] eof[i],
    decreases eof.len() - from,
{
    if from < eof.len() && eof[from] {
        live_from_range(eof, from + 1);
    }
}

/// A queue at its end is never looked into again, and without a stop request the
/// loop ends only when every queue is at its end.
pub proof fn mux_serves_every_track<E>(v: MuxView, shared: Shared<E>)
    requires
        v.eof.len() <= usize::MAX,
    ensures
        match v.pass(shared).1 {
            MuxCommand::Poll { track } => track < v.eof.len() && !v.eof[track as int]
                && !shared.abort.cancelled,
            MuxCommand::Stop => shared.abort.cancelled || forall|i: int|
                0 <= i < v.eof.len() ==> #[trigger] v.eof[i],
            _ => false,
        },
{
    live_from_range(v.eof, 0);
}

/// An empty queue does not hold up the others: the loop goes on to the next track
/// that is not at its end, and waits only after a whole pass without a find.
pub proof fn empty_queue_holds_up_nobody<E>(v: MuxView, shared: Shared<E>, elapsed: u64)
    requires
        v.phase is Polling,
        0 <= v.at < v.eof.len() <= usize::MAX,
    ensures
        ({
            let (w, s, command) = v.step(shared, MuxReply::Empty, elapsed);
            &&& s == shared
            &&& command is Park ==> !v.progress && forall|i: int|
                v.at < i < v.eof.len() ==> #[trigger] v.eof[i]
            &&& (exists|i: int| v.at < i < v.eof.len() && !(#[trigger] v.eof[i])) ==> command
                is Poll && v.at < command->Poll_track
        }),
{
    live_from_range(v.eof, v.at + 1);
    live_from_range(v.eof, 0);
}

/// What a queue delivers is reported to have been written only once the sink has
/// taken it, and a sink that fails is blamed on the stream it failed for.
pub proof fn sink_failure_is_recorded<E>(
    v: MuxView,
    shared: Shared<E>,
    stream: u32,
    frame: bool,
    pts: Option<i64>,
    error: E,
    elapsed: u64,
)
    requires
        v.phase == (MuxPhase::Writing { frame, stream, pts }),
        shared.abort.first is None,
    ensures
        ({
            let (w, s, command) = v.step(shared, MuxReply::Error(error), elapsed);
            &&& command is Stop
            &&& s.counters == shared.counters
            &&& s.abort.cancelled
            &&& s.abort.first == Some(
                StageFailure::at(FailureStage::Sink, Some(stream), Cause::Raised(error)),
            )
        }),
{
}

/// The tracks take turns: whatever became of the one whose turn it was, what it had was
/// written, told or reported, or it is at its end, the next one behind it that is not at
/// its end is looked into; behind the last, the first. The loop waits only where a whole
/// pass found nothing, and stops only where all are at their end or it is to stop.
pub proof fn tracks_take_turns<E>(v: MuxView, shared: Shared<E>, reply: MuxReply<E>, elapsed: u64)
    requires
        0 <= v.at < v.eof.len() <= usize::MAX,
        v.phase is Polling && (reply is Eof || reply is Disconnected || reply is Empty) || (v.phase
            is Writing && !v.reports || v.phase is Telling || v.phase is Reporting) && !(reply
            is Error),
    ensures
        ({
            let (w, s, c) = v.step(shared, reply, elapsed);
            &&& c is Poll ==> {
                let t = c->Poll_track;
                &&& t < w.eof.len() && !w.eof[t as int] && w.at == t
                &&& v.at < t ==> forall|i: int| v.at < i < t ==> #[trigger] w.eof[i]
                &&& t <= v.at ==> forall|i: int|
                    v.at < i < w.eof.len() || 0 <= i < t ==> #[trigger] w.eof[i]
            }
            &&& c is Poll || c is Park || c is Stop
            &&& c is Park ==> !v.progress && !(v.phase is Polling && reply is Eof) && forall|i: int|
                v.at < i < w.eof.len() ==> #[trigger] w.eof[i]
            &&& c is Stop ==> s.abort.cancelled || forall|i: int|
                0 <= i < w.eof.len() ==> #[trigger] w.eof[i]
        }),
{
    let w = v.step(shared, reply, elapsed).0;
    live_from_range(w.eof, v.at + 1);
    live_from_range(w.eof, 0);
}

} // verus!
