//! The worker that runs the frames of a track through one filter or conversion.

use crate::failure::{Cause, FailureStage, StageFailure};
use crate::media::MediaType;
use crate::pump::{frame_stage_failure_kind, stage_kind, Extra, FilterEmissions};
use crate::staged::{
    deliver, delivered, goes_on, BarrierKind, Downstream, Item, Sent, Shared,
};
use crate::track::FrameStage;
use crate::workers::{flushes, Msg};
use vstd::prelude::*;

verus! {

/// What a frame worker does once its pending frames are handed on.
#[derive(Clone, Copy, Debug, PartialEq, Eq, Structural)]
pub enum Then {
    /// Takes the next message.
    Receive,
    /// Says that the stream is over for now.
    StreamEnd,
    /// Ends.
    End,
}

#[derive(Clone, Copy, Debug, PartialEq, Eq, Structural)]
pub enum FramePhase {
    Receiving,
    Materialising,
    Running,
    Flushing { then: Then },
    WritingExtra { then: Then },
    Writing { then: Then },
    Resetting { barrier: BarrierKind },
    ExtraBarrier { barrier: BarrierKind },
    Signalling,
    Ending,
    Finished,
}

/// Runs frames through one stage. Extra frames go to the output's sink, each under
/// the stream index of its port, where the output has a place for them.
pub struct FrameWorker<F> {
    pub track: u32,
    pub stage: FrameStage,
    pub to: Downstream,
    pub extras_base: Option<u32>,
    pub extras: Vec<Extra<F>>,
    pub primary: Vec<F>,
    pub phase: FramePhase,
}

#[verifier::ext_equal]
pub struct FrameWorkerView<F> {
    pub track: u32,
    pub stage: FrameStage,
    pub to: Downstream,
    pub extras_base: Option<u32>,
    pub extras: Seq<Extra<F>>,
    pub primary: Seq<F>,
    pub phase: FramePhase,
}

impl<F> View for FrameWorker<F> {
    type V = FrameWorkerView<F>;

    open spec fn view(&self) -> FrameWorkerView<F> {
        FrameWorkerView {
            track: self.track,
            stage: self.stage,
            to: self.to,
            extras_base: self.extras_base,
            extras: self.extras@,
            primary: self.primary@,
            phase: self.phase,
        }
    }
}

/// The stream index of a port's extra frames: the first port that has any comes
/// first, the others follow.
pub open spec fn extra_stream(base: u32, port: usize) -> u32 {
    (base + (port - 1)) as u32
}

/// Every extra frame has a stream index.
pub open spec fn numbered<F>(base: Option<u32>, extras: Seq<Extra<F>>) -> bool {
    base matches Some(b) ==> forall|i: int|
        0 <= i < extras.len() ==> 1 <= (#[trigger] extras[i]).port && b + (extras[i].port - 1)
            <= u32::MAX
}

pub enum FrameCommand<F, E> {
    Receive,
    /// Bring the received frame into plain memory.
    Materialise,
    RunStage(F),
    FlushStage,
    ResetStage,
    WriteFrame(F),
    /// Hand a frame to the output's sink as a stream of its own.
    WriteExtra { stream: u32, kind: MediaType, frame: F },
    /// Hand a barrier to the output's sink on the way of the extra frames.
    SendExtraBarrier(BarrierKind),
    SendBarrier(BarrierKind),
    SendStreamEnd,
    SendEof,
    Finished,
    Failed(StageFailure<E>),
}

pub enum FrameReply<F, E> {
    Start,
    Received(Msg),
    Frame(F),
    Emitted(FilterEmissions<F>),
    Error(E),
    Done,
    Sent(Sent<E>),
}

impl<F> FrameWorkerView<F> {
    pub open spec fn at(self, phase: FramePhase) -> FrameWorkerView<F> {
        FrameWorkerView { phase, ..self }
    }

    pub open spec fn ending<E>(self, shared: Shared<E>) -> (
        FrameWorkerView<F>,
        Shared<E>,
        FrameCommand<F, E>,
    ) {
        (self.at(FramePhase::Ending), shared, FrameCommand::SendEof)
    }

    pub open spec fn top<E>(self, shared: Shared<E>) -> (
        FrameWorkerView<F>,
        Shared<E>,
        FrameCommand<F, E>,
    ) {
        if shared.abort.cancelled {
            self.ending(shared)
        } else {
            (self.at(FramePhase::Receiving), shared, FrameCommand::Receive)
        }
    }

    pub open spec fn failed<E>(self, shared: Shared<E>, at: FailureStage, error: E) -> (
        FrameWorkerView<F>,
        Shared<E>,
        FrameCommand<F, E>,
    ) {
        (
            self.at(FramePhase::Finished),
            shared,
            FrameCommand::Failed(StageFailure::at(at, Some(self.track), Cause::Raised(error))),
        )
    }

    /// Hands on what the stage made: extra frames first, then the others, then
    /// what comes after.
    pub open spec fn handing<E>(self, shared: Shared<E>, then: Then) -> (
        FrameWorkerView<F>,
        Shared<E>,
        FrameCommand<F, E>,
    ) {
        if self.extras.len() > 0 && self.extras_base is Some {
            (
                FrameWorkerView {
                    extras: self.extras.remove(0),
                    phase: FramePhase::WritingExtra { then },
                    ..self
                },
                shared,
                FrameCommand::WriteExtra {
                    stream: extra_stream(self.extras_base->0, self.extras[0].port),
                    kind: self.extras[0].kind,
                    frame: self.extras[0].frame,
                },
            )
        } else if self.primary.len() > 0 {
            (
                FrameWorkerView {
                    extras: Seq::empty(),
                    primary: self.primary.remove(0),
                    phase: FramePhase::Writing { then },
                    ..self
                },
                shared,
                FrameCommand::WriteFrame(self.primary[0]),
            )
        } else {
            FrameWorkerView { extras: Seq::empty(), ..self }.continuing(shared, then)
        }
    }

    pub open spec fn continuing<E>(self, shared: Shared<E>, then: Then) -> (
        FrameWorkerView<F>,
        Shared<E>,
        FrameCommand<F, E>,
    ) {
        match then {
            Then::Receive => self.top(shared),
            Then::StreamEnd => if shared.abort.cancelled {
                self.ending(shared)
            } else {
                (self.at(FramePhase::Signalling), shared, FrameCommand::SendStreamEnd)
            },
            Then::End => self.ending(shared),
        }
    }

    /// One exchange: the outcome of the awaited call, then the next call.
    pub open spec fn step<E>(self, shared: Shared<E>, reply: FrameReply<F, E>) -> (
        FrameWorkerView<F>,
        Shared<E>,
        FrameCommand<F, E>,
    ) {
        match (self.phase, reply) {
            (_, FrameReply::Start) => self.top(shared),
            (FramePhase::Receiving, FrameReply::Received(msg)) => match msg {
                Msg::Data { .. } => (
                    self.at(FramePhase::Materialising),
                    shared,
                    FrameCommand::Materialise,
                ),
                Msg::StreamUpdate => self.top(shared),
                // A conversion holds nothing that a seek would make void.
                Msg::Barrier(barrier) => if flushes(barrier) && self.stage is Filter {
                    (
                        self.at(FramePhase::Resetting { barrier }),
                        shared,
                        FrameCommand::ResetStage,
                    )
                } else {
                    self.passing(shared, barrier)
                },
                Msg::StreamEnd => (
                    self.at(FramePhase::Flushing { then: Then::StreamEnd }),
                    shared,
                    FrameCommand::FlushStage,
                ),
                Msg::Eof => (
                    self.at(FramePhase::Flushing { then: Then::End }),
                    shared,
                    FrameCommand::FlushStage,
                ),
                Msg::Disconnected => self.ending(shared),
            },
            (FramePhase::Materialising, FrameReply::Frame(f)) => (
                self.at(FramePhase::Running),
                shared,
                FrameCommand::RunStage(f),
            ),
            (FramePhase::Materialising, FrameReply::Error(e)) => self.failed(
                shared,
                FailureStage::Convert,
                e,
            ),
            (FramePhase::Running, FrameReply::Emitted(out)) => FrameWorkerView {
                extras: out.extras@,
                primary: out.primary@,
                ..self
            }.handing(shared, Then::Receive),
            (FramePhase::Running, FrameReply::Error(e)) => self.failed(
                shared,
                stage_kind(self.stage),
                e,
            ),
            (FramePhase::Flushing { then }, FrameReply::Emitted(out)) => FrameWorkerView {
                extras: out.extras@,
                primary: out.primary@,
                ..self
            }.handing(shared, then),
            (FramePhase::Flushing { .. }, FrameReply::Error(e)) => self.failed(
                shared,
                stage_kind(self.stage),
                e,
            ),
            (FramePhase::WritingExtra { then }, FrameReply::Sent(sent)) => {
                let after = delivered(shared, Downstream::Channel, Item::Signal, sent);
                if goes_on(sent) {
                    self.handing(after, then)
                } else {
                    FrameWorkerView { extras: Seq::empty(), ..self }.handing(after, then)
                }
            },
            (FramePhase::Writing { then }, FrameReply::Sent(sent)) => {
                let after = delivered(shared, self.to, Item::Frame, sent);
                if goes_on(sent) {
                    self.handing(after, then)
                } else {
                    FrameWorkerView { primary: Seq::empty(), ..self }.continuing(after, then)
                }
            },
            (FramePhase::Resetting { barrier }, _) => self.passing(shared, barrier),
            (FramePhase::ExtraBarrier { barrier }, _) => (
                self.at(FramePhase::Signalling),
                shared,
                FrameCommand::SendBarrier(barrier),
            ),
            (FramePhase::Signalling, FrameReply::Sent(sent)) => {
                let after = delivered(shared, self.to, Item::Signal, sent);
                if goes_on(sent) {
                    self.top(after)
                } else {
                    self.ending(after)
                }
            },
            _ => (self.at(FramePhase::Finished), shared, FrameCommand::Finished),
        }
    }

    /// A barrier goes on, on the way of the extra frames too where there is one.
    pub open spec fn passing<E>(self, shared: Shared<E>, barrier: BarrierKind) -> (
        FrameWorkerView<F>,
        Shared<E>,
        FrameCommand<F, E>,
    ) {
        if self.extras_base is Some {
            (
                self.at(FramePhase::ExtraBarrier { barrier }),
                shared,
                FrameCommand::SendExtraBarrier(barrier),
            )
        } else {
            (self.at(FramePhase::Signalling), shared, FrameCommand::SendBarrier(barrier))
        }
    }
}

impl<F> FrameWorker<F> {
    pub open spec fn wf(self) -> bool {
        numbered(self@.extras_base, self@.extras)
    }

    /// A worker for a stage of a track; `extras_base` is the index of the stage's
    /// first extra stream where it has any.
    pub fn new(track: u32, stage: FrameStage, to: Downstream, extras_base: Option<u32>) -> (r: Self)
        ensures
            r.wf(),
            r@ == (FrameWorkerView::<F> {
                track,
                stage,
                to,
                extras_base,
                extras: Seq::empty(),
                primary: Seq::empty(),
                phase: FramePhase::Receiving,
            }),
    {
        let r = FrameWorker {
            track,
            stage,
            to,
            extras_base,
            extras: Vec::new(),
            primary: Vec::new(),
            phase: FramePhase::Receiving,
        };
        assert(r@.extras =~= Seq::<Extra<F>>::empty());
        assert(r@.primary =~= Seq::<F>::empty());
        r
    }

    fn end<E>(&mut self) -> (r: FrameCommand<F, E>)
        ensures
            old(self).wf() ==> final(self).wf(),
            forall|shared: Shared<E>|
                (final(self)@, shared, r) == #[trigger] old(self)@.ending(shared),
    {
        self.phase = FramePhase::Ending;
        FrameCommand::SendEof
    }

    fn next<E>(&mut self, shared: &Shared<E>) -> (r: FrameCommand<F, E>)
        ensures
            old(self).wf() ==> final(self).wf(),
            (final(self)@, *shared, r) == old(self)@.top(*shared),
    {
        if shared.abort.is_aborted() {
            self.end()
        } else {
            self.phase = FramePhase::Receiving;
            FrameCommand::Receive
        }
    }

    fn fail<E>(&mut self, at: FailureStage, error: E) -> (r: FrameCommand<F, E>)
        ensures
            old(self).wf() ==> final(self).wf(),
            forall|shared: Shared<E>|
                (final(self)@, shared, r) == #[trigger] old(self)@.failed(shared, at, error),
    {
        self.phase = FramePhase::Finished;
        FrameCommand::Failed(StageFailure::new(at, Some(self.track), Cause::Raised(error)))
    }

    fn go_on<E>(&mut self, shared: &Shared<E>, then: Then) -> (r: FrameCommand<F, E>)
        ensures
            old(self).wf() ==> final(self).wf(),
            (final(self)@, *shared, r) == old(self)@.continuing(*shared, then),
    {
        match then {
            Then::Receive => self.next(shared),
            Then::StreamEnd => if shared.abort.is_aborted() {
                self.end()
            } else {
                self.phase = FramePhase::Signalling;
                FrameCommand::SendStreamEnd
            },
            Then::End => self.end(),
        }
    }

    fn hand<E>(&mut self, shared: &Shared<E>, then: Then) -> (r: FrameCommand<F, E>)
        requires
            old(self).wf(),
        ensures
            final(self).wf(),
            (final(self)@, *shared, r) == old(self)@.handing(*shared, then),
    {
        if self.extras.len() > 0 {
            if let Some(base) = self.extras_base {
                let ghost all = self.extras@;
                let extra = self.extras.remove(0);
                assert(all[0] == extra);
                assert forall|i: int| 0 <= i < self.extras@.len() implies 1 <= (
                #[trigger] self.extras@[i]).port && base + (self.extras@[i].port - 1)
                    <= u32::MAX by {
                    assert(self.extras@[i] == all[i + 1]);
                }
                let stream: u32 = base + (extra.port - 1) as u32;
                self.phase = FramePhase::WritingExtra { then };
                return FrameCommand::WriteExtra { stream, kind: extra.kind, frame: extra.frame };
            }
        }
        self.extras = Vec::new();
        assert(self.extras@ =~= Seq::<Extra<F>>::empty());
        if self.primary.len() > 0 {
            let frame = self.primary.remove(0);
            self.phase = FramePhase::Writing { then };
            FrameCommand::WriteFrame(frame)
        } else {
            self.go_on(shared, then)
        }
    }

    fn pass<E>(&mut self, barrier: BarrierKind) -> (r: FrameCommand<F, E>)
        ensures
            old(self).wf() ==> final(self).wf(),
            forall|shared: Shared<E>|
                (final(self)@, shared, r) == #[trigger] old(self)@.passing(shared, barrier),
    {
        if self.extras_base.is_some() {
            self.phase = FramePhase::ExtraBarrier { barrier };
            FrameCommand::SendExtraBarrier(barrier)
        } else {
            self.phase = FramePhase::Signalling;
            FrameCommand::SendBarrier(barrier)
        }
    }

    fn received<E>(&mut self, shared: &Shared<E>, msg: Msg) -> (r: FrameCommand<F, E>)
        requires
            old(self).phase is Receiving,
        ensures
            old(self).wf() ==> final(self).wf(),
            (final(self)@, *shared, r) == old(self)@.step(*shared, FrameReply::Received(msg)),
    {
        match msg {
            Msg::Data { .. } => {
                self.phase = FramePhase::Materialising;
                FrameCommand::Materialise
            },
            Msg::StreamUpdate => self.next(shared),
            Msg::Barrier(barrier) => {
                let reset = match (barrier, &self.stage) {
                    (BarrierKind::SeekFlush { .. }, FrameStage::Filter) => true,
                    _ => false,
                };
                if reset {
                    self.phase = FramePhase::Resetting { barrier };
                    FrameCommand::ResetStage
                } else {
                    self.pass(barrier)
                }
            },
            Msg::StreamEnd => {
                self.phase = FramePhase::Flushing { then: Then::StreamEnd };
                FrameCommand::FlushStage
            },
            Msg::Eof => {
                self.phase = FramePhase::Flushing { then: Then::End };
                FrameCommand::FlushStage
            },
            Msg::Disconnected => self.end(),
        }
    }

    fn sent<E>(&mut self, shared: &mut Shared<E>, sent: Sent<E>) -> (r: FrameCommand<F, E>)
        requires
            old(self).wf(),
            sent is Failed ==> old(self).to is Independent && !(old(self).phase is WritingExtra),
        ensures
            final(self).wf(),
            (final(self)@, *final(shared), r) == old(self)@.step(
                *old(shared),
                FrameReply::Sent(sent),
            ),
    {
        match self.phase {
            FramePhase::WritingExtra { then } => {
                if !deliver(shared, Downstream::Channel, Item::Signal, sent) {
                    self.extras = Vec::new();
                    assert(self.extras@ =~= Seq::<Extra<F>>::empty());
                }
                self.hand(shared, then)
            },
            FramePhase::Writing { then } => {
                if deliver(shared, self.to, Item::Frame, sent) {
                    self.hand(shared, then)
                } else {
                    self.primary = Vec::new();
                    assert(self.primary@ =~= Seq::<F>::empty());
                    self.go_on(shared, then)
                }
            },
            FramePhase::Resetting { barrier } => self.pass(barrier),
            FramePhase::ExtraBarrier { barrier } => {
                self.phase = FramePhase::Signalling;
                FrameCommand::SendBarrier(barrier)
            },
            FramePhase::Signalling => {
                if deliver(shared, self.to, Item::Signal, sent) {
                    self.next(shared)
                } else {
                    self.end()
                }
            },
            _ => {
                self.phase = FramePhase::Finished;
                FrameCommand::Finished
            },
        }
    }

    /// Takes the outcome of the call that was asked for, and asks for the next.
    pub fn step<E>(&mut self, shared: &mut Shared<E>, reply: FrameReply<F, E>) -> (r: FrameCommand<
        F,
        E,
    >)
        requires
            old(self).wf(),
            reply matches FrameReply::Sent(Sent::Failed(_)) ==> old(self).to is Independent && !(
            old(self).phase is WritingExtra),
            reply matches FrameReply::Emitted(out) ==> numbered(old(self).extras_base, out.extras@),
        ensures
            final(self).wf(),
            (final(self)@, *final(shared), r) == old(self)@.step(*old(shared), reply),
    {
        match reply {
            FrameReply::Start => self.next(shared),
            FrameReply::Sent(s) => self.sent(shared, s),
            reply => match self.phase {
                FramePhase::Receiving => match reply {
                    FrameReply::Received(msg) => self.received(shared, msg),
                    _ => {
                        self.phase = FramePhase::Finished;
                        FrameCommand::Finished
                    },
                },
                FramePhase::Materialising => match reply {
                    FrameReply::Frame(f) => {
                        self.phase = FramePhase::Running;
                        FrameCommand::RunStage(f)
                    },
                    FrameReply::Error(e) => self.fail(FailureStage::Convert, e),
                    _ => {
                        self.phase = FramePhase::Finished;
                        FrameCommand::Finished
                    },
                },
                FramePhase::Running => match reply {
                    FrameReply::Emitted(out) => {
                        self.extras = out.extras;
                        self.primary = out.primary;
                        self.hand(shared, Then::Receive)
                    },
                    FrameReply::Error(e) => {
                        let at = frame_stage_failure_kind(&self.stage);
                        self.fail(at, e)
                    },
                    _ => {
                        self.phase = FramePhase::Finished;
                        FrameCommand::Finished
                    },
                },
                FramePhase::Flushing { then } => match reply {
                    FrameReply::Emitted(out) => {
                        self.extras = out.extras;
                        self.primary = out.primary;
                        self.hand(shared, then)
                    },
                    FrameReply::Error(e) => {
                        let at = frame_stage_failure_kind(&self.stage);
                        self.fail(at, e)
                    },
                    _ => {
                        self.phase = FramePhase::Finished;
                        FrameCommand::Finished
                    },
                },
                FramePhase::Resetting { barrier } => self.pass(barrier),
                FramePhase::ExtraBarrier { barrier } => {
                    self.phase = FramePhase::Signalling;
                    FrameCommand::SendBarrier(barrier)
                },
                _ => {
                    self.phase = FramePhase::Finished;
                    FrameCommand::Finished
                },
            },
        }
    }
}

/// What a filter puts out on its declared ports has stream indices, where the
/// output has numbered that many ports.
pub proof fn declared_ports_are_numbered<F>(
    out: FilterEmissions<F>,
    ports: Seq<MediaType>,
    port: usize,
    frame: F,
    base: u32,
)
    requires
        numbered(Some(base), out.extras@),
        0 < port < ports.len(),
        base + (ports.len() - 1) <= u32::MAX + 1,
    ensures
        numbered(
            Some(base),
            out.extras@.push(Extra { port, kind: ports[port as int], frame }),
        ),
{
}

/// The worker after its next `k` pending frames were taken downstream.
pub open spec fn after_writes<F, E>(
    v: FrameWorkerView<F>,
    shared: Shared<E>,
    then: Then,
    k: nat,
) -> (FrameWorkerView<F>, Shared<E>, FrameCommand<F, E>)
    decreases k,
{
    if k == 0 {
        v.handing(shared, then)
    } else {
        let (w, s, _) = after_writes(v, shared, then, (k - 1) as nat);
        w.step(s, FrameReply::Sent(Sent::Delivered))
    }
}

/// What a stage makes of a frame goes on in the order it was made, each frame
/// once, and only then does the worker take the next message.
pub proof fn frames_go_on_in_order<F, E>(
    v: FrameWorkerView<F>,
    shared: Shared<E>,
    then: Then,
    k: nat,
)
    requires
        v.extras.len() == 0,
        k <= v.primary.len(),
    ensures
        ({
            let (w, s, command) = after_writes(v, shared, then, k);
            &&& w.to == v.to
            &&& w.extras_base == v.extras_base
            &&& w.extras.len() == 0
            &&& s.abort == shared.abort
            &&& k < v.primary.len() ==> {
                &&& command == FrameCommand::<F, E>::WriteFrame(v.primary[k as int])
                &&& w.primary == v.primary.skip(k as int + 1)
                &&& w.phase == (FramePhase::Writing { then })
            }
            &&& k == v.primary.len() ==> !(command is WriteFrame) && w.primary.len() == 0
        }),
    decreases k,
{
    if k > 0 {
        frames_go_on_in_order(v, shared, then, (k - 1) as nat);
        let (w, s, _) = after_writes(v, shared, then, (k - 1) as nat);
        assert(w.primary == v.primary.skip(k as int));
        if k < v.primary.len() {
            assert(v.primary.skip(k as int).remove(0) =~= v.primary.skip(k as int + 1));
        }
    } else if v.primary.len() > 0 {
        assert(v.primary.remove(0) =~= v.primary.skip(1));
    }
}

/// Extra frames go out first, in the order they were made, each under the stream
/// index of its port: frames of different ports never share one.
pub proof fn extras_go_out_by_port<F, E>(
    v: FrameWorkerView<F>,
    shared: Shared<E>,
    then: Then,
    k: nat,
)
    requires
        v.extras_base is Some,
        numbered(v.extras_base, v.extras),
        k < v.extras.len(),
    ensures
        ({
            let (w, s, command) = after_writes(v, shared, then, k);
            &&& s == shared
            &&& w.extras_base == v.extras_base
            &&& w.primary == v.primary
            &&& w.extras == v.extras.skip(k as int + 1)
            &&& w.phase == (FramePhase::WritingExtra { then })
            &&& command matches FrameCommand::WriteExtra { stream, kind, frame } && stream
                == v.extras_base->0 + (v.extras[k as int].port - 1) && kind
                == v.extras[k as int].kind && frame == v.extras[k as int].frame
        }),
    decreases k,
{
    if k > 0 {
        extras_go_out_by_port(v, shared, then, (k - 1) as nat);
        assert(v.extras.skip(k as int).remove(0) =~= v.extras.skip(k as int + 1));
        assert(v.extras.skip(k as int)[0] == v.extras[k as int]);
    } else {
        assert(v.extras.remove(0) =~= v.extras.skip(1));
    }
    assert(1 <= v.extras[k as int].port);
}

} // verus!
