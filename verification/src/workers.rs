//! The workers between a source and the sink of a track: what each asks for
//! next, given what it received and what became of the last call.

use crate::staged::{
    deliver, delivered, goes_on, wrapped, BarrierKind, Downstream, Item, PipelineCounters, Sent,
    Shared,
};
use vstd::prelude::*;

verus! {

/// What a worker finds in its queue; the payload stays with the caller.
#[derive(Clone, Copy, Debug, PartialEq, Eq, Structural)]
pub enum Msg {
    /// A packet of so many bytes, or a frame.
    Data { bytes: u64 },
    StreamUpdate,
    Barrier(BarrierKind),
    /// The stream is over for now; a seek may resume it.
    StreamEnd,
    Eof,
    /// The sending end of the queue is gone.
    Disconnected,
}

/// Whether what was on its way before the barrier is void.
pub open spec fn flushes(b: BarrierKind) -> bool {
    b is SeekFlush
}

/// The shared state after bytes have left the packet queues.
pub open spec fn freed<E>(shared: Shared<E>, bytes: u64) -> Shared<E> {
    Shared { budget: shared.budget.released(bytes), ..shared }
}

pub open spec fn one_more_decoded<E>(shared: Shared<E>) -> Shared<E> {
    Shared {
        counters: PipelineCounters {
            frames_decoded: wrapped(shared.counters.frames_decoded + 1),
            ..shared.counters
        },
        ..shared
    }
}

pub open spec fn one_more_skipped<E>(shared: Shared<E>) -> Shared<E> {
    Shared {
        counters: PipelineCounters {
            packets_skipped: wrapped(shared.counters.packets_skipped + 1),
            ..shared.counters
        },
        ..shared
    }
}

// Copying.

#[derive(Clone, Copy, Debug, PartialEq, Eq, Structural)]
pub enum CopyPhase {
    Receiving,
    Writing,
    Signalling,
    Ending,
    Finished,
}

/// Hands the packets of a track on as they are.
#[derive(Clone, Copy, Debug, PartialEq, Eq, Structural)]
pub struct CopyStage {
    pub to: Downstream,
    pub phase: CopyPhase,
}

#[derive(Clone, Copy, Debug, PartialEq, Eq, Structural)]
pub enum CopyCommand {
    Receive,
    WritePacket,
    SendBarrier(BarrierKind),
    SendStreamEnd,
    SendEof,
    Finished,
}

pub enum CopyReply<E> {
    Start,
    Received(Msg),
    Sent(Sent<E>),
}

impl CopyStage {
    pub open spec fn at(self, phase: CopyPhase) -> CopyStage {
        CopyStage { phase, ..self }
    }

    pub open spec fn top<E>(self, shared: Shared<E>) -> (CopyStage, Shared<E>, CopyCommand) {
        if shared.abort.cancelled {
            (self.at(CopyPhase::Ending), shared, CopyCommand::SendEof)
        } else {
            (self.at(CopyPhase::Receiving), shared, CopyCommand::Receive)
        }
    }

    pub open spec fn after<E>(self, shared: Shared<E>, item: Item, sent: Sent<E>) -> (
        CopyStage,
        Shared<E>,
        CopyCommand,
    ) {
        let shared = delivered(shared, self.to, item, sent);
        if goes_on(sent) {
            self.top(shared)
        } else {
            (self.at(CopyPhase::Ending), shared, CopyCommand::SendEof)
        }
    }

    /// One exchange: the outcome of the awaited call, then the next call.
    pub open spec fn step_spec<E>(self, shared: Shared<E>, reply: CopyReply<E>) -> (
        CopyStage,
        Shared<E>,
        CopyCommand,
    ) {
        match (self.phase, reply) {
            (_, CopyReply::Start) => self.top(shared),
            (CopyPhase::Receiving, CopyReply::Received(msg)) => match msg {
                Msg::Data { bytes } => (
                    self.at(CopyPhase::Writing),
                    freed(shared, bytes),
                    CopyCommand::WritePacket,
                ),
                Msg::StreamUpdate => self.top(shared),
                Msg::Barrier(b) => (
                    self.at(CopyPhase::Signalling),
                    shared,
                    CopyCommand::SendBarrier(b),
                ),
                Msg::StreamEnd => (
                    self.at(CopyPhase::Signalling),
                    shared,
                    CopyCommand::SendStreamEnd,
                ),
                Msg::Eof | Msg::Disconnected => (
                    self.at(CopyPhase::Ending),
                    shared,
                    CopyCommand::SendEof,
                ),
            },
            (CopyPhase::Writing, CopyReply::Sent(sent)) => self.after(
                shared,
                Item::CopiedPacket,
                sent,
            ),
            (CopyPhase::Signalling, CopyReply::Sent(sent)) => self.after(shared, Item::Signal, sent),
            _ => (self.at(CopyPhase::Finished), shared, CopyCommand::Finished),
        }
    }

    pub fn new(to: Downstream) -> (r: Self)
        ensures
            r == (CopyStage { to, phase: CopyPhase::Receiving }),
    {
        CopyStage { to, phase: CopyPhase::Receiving }
    }

    fn next<E>(&mut self, shared: &mut Shared<E>) -> (r: CopyCommand)
        ensures
            (*final(self), *final(shared), r) == old(self).top(*old(shared)),
    {
        if shared.abort.is_aborted() {
            self.phase = CopyPhase::Ending;
            CopyCommand::SendEof
        } else {
            self.phase = CopyPhase::Receiving;
            CopyCommand::Receive
        }
    }

    fn delivered<E>(&mut self, shared: &mut Shared<E>, item: Item, sent: Sent<E>) -> (r: CopyCommand)
        requires
            sent is Failed ==> old(self).to is Independent,
        ensures
            (*final(self), *final(shared), r) == old(self).after(*old(shared), item, sent),
    {
        if deliver(shared, self.to, item, sent) {
            self.next(shared)
        } else {
            self.phase = CopyPhase::Ending;
            CopyCommand::SendEof
        }
    }

    /// Takes the outcome of the call that was asked for, and asks for the next.
    pub fn step<E>(&mut self, shared: &mut Shared<E>, reply: CopyReply<E>) -> (r: CopyCommand)
        requires
            reply matches CopyReply::Sent(Sent::Failed(_)) ==> old(self).to is Independent,
        ensures
            (*final(self), *final(shared), r) == old(self).step_spec(*old(shared), reply),
    {
        match reply {
            CopyReply::Start => self.next(shared),
            CopyReply::Received(msg) => match self.phase {
                CopyPhase::Receiving => match msg {
                    Msg::Data { bytes } => {
                        shared.budget.release(bytes);
                        self.phase = CopyPhase::Writing;
                        CopyCommand::WritePacket
                    },
                    Msg::StreamUpdate => self.next(shared),
                    Msg::Barrier(b) => {
                        self.phase = CopyPhase::Signalling;
                        CopyCommand::SendBarrier(b)
                    },
                    Msg::StreamEnd => {
                        self.phase = CopyPhase::Signalling;
                        CopyCommand::SendStreamEnd
                    },
                    Msg::Eof | Msg::Disconnected => {
                        self.phase = CopyPhase::Ending;
                        CopyCommand::SendEof
                    },
                },
                _ => {
                    self.phase = CopyPhase::Finished;
                    CopyCommand::Finished
                },
            },
            CopyReply::Sent(sent) => match self.phase {
                CopyPhase::Writing => self.delivered(shared, Item::CopiedPacket, sent),
                CopyPhase::Signalling => self.delivered(shared, Item::Signal, sent),
                _ => {
                    self.phase = CopyPhase::Finished;
                    CopyCommand::Finished
                },
            },
        }
    }
}

// Handing frames on without processing.

#[derive(Clone, Copy, Debug, PartialEq, Eq, Structural)]
pub enum FanoutPhase {
    Receiving,
    Writing,
    Signalling,
    Ending,
    Finished,
}

/// Hands the frames of a track on as they are.
#[derive(Clone, Copy, Debug, PartialEq, Eq, Structural)]
pub struct FanoutStage {
    pub to: Downstream,
    pub phase: FanoutPhase,
}

#[derive(Clone, Copy, Debug, PartialEq, Eq, Structural)]
pub enum FanoutCommand {
    Receive,
    WriteFrame,
    /// Hand the stream update on that was received.
    SendUpdate,
    SendBarrier(BarrierKind),
    SendStreamEnd,
    SendEof,
    Finished,
}

pub enum FanoutReply<E> {
    Start,
    Received(Msg),
    Sent(Sent<E>),
}

impl FanoutStage {
    pub open spec fn at(self, phase: FanoutPhase) -> FanoutStage {
        FanoutStage { phase, ..self }
    }

    pub open spec fn top<E>(self, shared: Shared<E>) -> (FanoutStage, Shared<E>, FanoutCommand) {
        if shared.abort.cancelled {
            (self.at(FanoutPhase::Ending), shared, FanoutCommand::SendEof)
        } else {
            (self.at(FanoutPhase::Receiving), shared, FanoutCommand::Receive)
        }
    }

    pub open spec fn after<E>(self, shared: Shared<E>, item: Item, sent: Sent<E>) -> (
        FanoutStage,
        Shared<E>,
        FanoutCommand,
    ) {
        let shared = delivered(shared, self.to, item, sent);
        if goes_on(sent) {
            self.top(shared)
        } else {
            (self.at(FanoutPhase::Ending), shared, FanoutCommand::SendEof)
        }
    }

    /// One exchange: the outcome of the awaited call, then the next call.
    pub open spec fn step_spec<E>(self, shared: Shared<E>, reply: FanoutReply<E>) -> (
        FanoutStage,
        Shared<E>,
        FanoutCommand,
    ) {
        match (self.phase, reply) {
            (_, FanoutReply::Start) => self.top(shared),
            (FanoutPhase::Receiving, FanoutReply::Received(msg)) => match msg {
                Msg::Data { .. } => (
                    self.at(FanoutPhase::Writing),
                    shared,
                    FanoutCommand::WriteFrame,
                ),
                Msg::StreamUpdate => (
                    self.at(FanoutPhase::Signalling),
                    shared,
                    FanoutCommand::SendUpdate,
                ),
                Msg::Barrier(b) => (
                    self.at(FanoutPhase::Signalling),
                    shared,
                    FanoutCommand::SendBarrier(b),
                ),
                Msg::StreamEnd => (
                    self.at(FanoutPhase::Signalling),
                    shared,
                    FanoutCommand::SendStreamEnd,
                ),
                Msg::Eof | Msg::Disconnected => (
                    self.at(FanoutPhase::Ending),
                    shared,
                    FanoutCommand::SendEof,
                ),
            },
            (FanoutPhase::Writing, FanoutReply::Sent(sent)) => self.after(
                shared,
                Item::Frame,
                sent,
            ),
            (FanoutPhase::Signalling, FanoutReply::Sent(sent)) => self.after(
                shared,
                Item::Signal,
                sent,
            ),
            _ => (self.at(FanoutPhase::Finished), shared, FanoutCommand::Finished),
        }
    }

    pub fn new(to: Downstream) -> (r: Self)
        ensures
            r == (FanoutStage { to, phase: FanoutPhase::Receiving }),
    {
        FanoutStage { to, phase: FanoutPhase::Receiving }
    }

    fn next<E>(&mut self, shared: &mut Shared<E>) -> (r: FanoutCommand)
        ensures
            (*final(self), *final(shared), r) == old(self).top(*old(shared)),
    {
        if shared.abort.is_aborted() {
            self.phase = FanoutPhase::Ending;
            FanoutCommand::SendEof
        } else {
            self.phase = FanoutPhase::Receiving;
            FanoutCommand::Receive
        }
    }

    fn delivered<E>(&mut self, shared: &mut Shared<E>, item: Item, sent: Sent<E>) -> (r:
        FanoutCommand)
        requires
            sent is Failed ==> old(self).to is Independent,
        ensures
            (*final(self), *final(shared), r) == old(self).after(*old(shared), item, sent),
    {
        if deliver(shared, self.to, item, sent) {
            self.next(shared)
        } else {
            self.phase = FanoutPhase::Ending;
            FanoutCommand::SendEof
        }
    }

    /// Takes the outcome of the call that was asked for, and asks for the next.
    pub fn step<E>(&mut self, shared: &mut Shared<E>, reply: FanoutReply<E>) -> (r: FanoutCommand)
        requires
            reply matches FanoutReply::Sent(Sent::Failed(_)) ==> old(self).to is Independent,
        ensures
            (*final(self), *final(shared), r) == old(self).step_spec(*old(shared), reply),
    {
        match reply {
            FanoutReply::Start => self.next(shared),
            FanoutReply::Received(msg) => match self.phase {
                FanoutPhase::Receiving => match msg {
                    Msg::Data { .. } => {
                        self.phase = FanoutPhase::Writing;
                        FanoutCommand::WriteFrame
                    },
                    Msg::StreamUpdate => {
                        self.phase = FanoutPhase::Signalling;
                        FanoutCommand::SendUpdate
                    },
                    Msg::Barrier(b) => {
                        self.phase = FanoutPhase::Signalling;
                        FanoutCommand::SendBarrier(b)
                    },
                    Msg::StreamEnd => {
                        self.phase = FanoutPhase::Signalling;
                        FanoutCommand::SendStreamEnd
                    },
                    Msg::Eof | Msg::Disconnected => {
                        self.phase = FanoutPhase::Ending;
                        FanoutCommand::SendEof
                    },
                },
                _ => {
                    self.phase = FanoutPhase::Finished;
                    FanoutCommand::Finished
                },
            },
            FanoutReply::Sent(sent) => match self.phase {
                FanoutPhase::Writing => self.delivered(shared, Item::Frame, sent),
                FanoutPhase::Signalling => self.delivered(shared, Item::Signal, sent),
                _ => {
                    self.phase = FanoutPhase::Finished;
                    FanoutCommand::Finished
                },
            },
        }
    }
}

} // verus!
