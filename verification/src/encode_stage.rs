//! The worker that encodes the frames of a track.

use crate::failure::{Cause, FailureStage, StageFailure};
use crate::staged::{
    deliver, delivered, goes_on, BarrierKind, Downstream, Item, Sent, Shared,
};
use crate::workers::{flushes, Msg};
use vstd::prelude::*;

verus! {

/// What an encode worker does once the encoder has nothing more to hand out.
#[derive(Clone, Copy, Debug, PartialEq, Eq, Structural)]
pub enum AfterPackets {
    Receive,
    Barrier(BarrierKind),
    End,
}

#[derive(Clone, Copy, Debug, PartialEq, Eq, Structural)]
pub enum EncodePhase {
    Receiving,
    Materialising,
    SendingFrame,
    Flushing { then: AfterPackets },
    ReceivingPacket { then: AfterPackets },
    Writing { then: AfterPackets },
    Signalling,
    Ending,
    Finished,
}

/// Encodes the frames of a track.
#[derive(Clone, Copy, Debug, PartialEq, Eq, Structural)]
pub struct EncodeStage {
    pub track: u32,
    pub to: Downstream,
    pub phase: EncodePhase,
}

pub enum EncodeCommand<F, E> {
    Receive,
    /// Bring the received frame into plain memory.
    Materialise,
    SendFrame(F),
    FlushEncoder,
    ReceivePacket,
    /// Hand the encoder's packet on.
    WritePacket,
    SendBarrier(BarrierKind),
    SendStreamEnd,
    SendEof,
    Finished,
    Failed(StageFailure<E>),
}

pub enum EncodeReply<F, E> {
    Start,
    Received(Msg),
    Frame(F),
    Packet,
    NoMore,
    Done,
    Error(E),
    Sent(Sent<E>),
}

impl EncodeStage {
    pub open spec fn at(self, phase: EncodePhase) -> EncodeStage {
        EncodeStage { phase, ..self }
    }

    pub open spec fn ending<F, E>(self, shared: Shared<E>) -> (
        EncodeStage,
        Shared<E>,
        EncodeCommand<F, E>,
    ) {
        (self.at(EncodePhase::Ending), shared, EncodeCommand::SendEof)
    }

    pub open spec fn top<F, E>(self, shared: Shared<E>) -> (
        EncodeStage,
        Shared<E>,
        EncodeCommand<F, E>,
    ) {
        if shared.abort.cancelled {
            self.ending(shared)
        } else {
            (self.at(EncodePhase::Receiving), shared, EncodeCommand::Receive)
        }
    }

    pub open spec fn failed<F, E>(self, shared: Shared<E>, at: FailureStage, error: E) -> (
        EncodeStage,
        Shared<E>,
        EncodeCommand<F, E>,
    ) {
        (
            self.at(EncodePhase::Finished),
            shared,
            EncodeCommand::Failed(StageFailure::at(at, Some(self.track), Cause::Raised(error))),
        )
    }

    pub open spec fn continuing<F, E>(self, shared: Shared<E>, then: AfterPackets) -> (
        EncodeStage,
        Shared<E>,
        EncodeCommand<F, E>,
    ) {
        match then {
            AfterPackets::Receive => self.top(shared),
            AfterPackets::Barrier(b) => (
                self.at(EncodePhase::Signalling),
                shared,
                EncodeCommand::SendBarrier(b),
            ),
            AfterPackets::End => self.ending(shared),
        }
    }

    /// One exchange: the outcome of the awaited call, then the next call.
    pub open spec fn step_spec<F, E>(self, shared: Shared<E>, reply: EncodeReply<F, E>) -> (
        EncodeStage,
        Shared<E>,
        EncodeCommand<F, E>,
    ) {
        match (self.phase, reply) {
            (_, EncodeReply::Start) => self.top(shared),
            (EncodePhase::Receiving, EncodeReply::Received(msg)) => match msg {
                Msg::Data { .. } => (
                    self.at(EncodePhase::Materialising),
                    shared,
                    EncodeCommand::Materialise,
                ),
                Msg::StreamUpdate => self.top(shared),
                // A seek that moved the source first takes what the encoder has.
                Msg::Barrier(b) => if flushes(b) {
                    (
                        self.at(EncodePhase::Flushing { then: AfterPackets::Barrier(b) }),
                        shared,
                        EncodeCommand::FlushEncoder,
                    )
                } else {
                    (self.at(EncodePhase::Signalling), shared, EncodeCommand::SendBarrier(b))
                },
                Msg::StreamEnd => (
                    self.at(EncodePhase::Signalling),
                    shared,
                    EncodeCommand::SendStreamEnd,
                ),
                Msg::Eof => (
                    self.at(EncodePhase::Flushing { then: AfterPackets::End }),
                    shared,
                    EncodeCommand::FlushEncoder,
                ),
                Msg::Disconnected => self.ending(shared),
            },
            (EncodePhase::Materialising, EncodeReply::Frame(f)) => (
                self.at(EncodePhase::SendingFrame),
                shared,
                EncodeCommand::SendFrame(f),
            ),
            (EncodePhase::Materialising, EncodeReply::Error(e)) => self.failed(
                shared,
                FailureStage::Convert,
                e,
            ),
            (EncodePhase::SendingFrame, EncodeReply::Error(e)) => self.failed(shared, FailureStage::Encode, e),
            (EncodePhase::SendingFrame, _) => (
                self.at(EncodePhase::ReceivingPacket { then: AfterPackets::Receive }),
                shared,
                EncodeCommand::ReceivePacket,
            ),
            // At the end an encoder that cannot be flushed fails the track; at a
            // seek it does not.
            (
                EncodePhase::Flushing { then: AfterPackets::End },
                EncodeReply::Error(e),
            ) => self.failed(shared, FailureStage::Encode, e),
            (EncodePhase::Flushing { then }, _) => (
                self.at(EncodePhase::ReceivingPacket { then }),
                shared,
                EncodeCommand::ReceivePacket,
            ),
            (EncodePhase::ReceivingPacket { then }, EncodeReply::Packet) => (
                self.at(EncodePhase::Writing { then }),
                shared,
                EncodeCommand::WritePacket,
            ),
            (EncodePhase::ReceivingPacket { .. }, EncodeReply::Error(e)) => self.failed(shared, FailureStage::Encode, e),
            (EncodePhase::ReceivingPacket { then }, _) => self.continuing(shared, then),
            (EncodePhase::Writing { then }, EncodeReply::Sent(sent)) => {
                let after = delivered(shared, self.to, Item::EncodedPacket, sent);
                if goes_on(sent) {
                    (
                        self.at(EncodePhase::ReceivingPacket { then }),
                        after,
                        EncodeCommand::ReceivePacket,
                    )
                } else {
                    self.ending(after)
                }
            },
            (EncodePhase::Signalling, EncodeReply::Sent(sent)) => {
                let after = delivered(shared, self.to, Item::Signal, sent);
                if goes_on(sent) {
                    self.top(after)
                } else {
                    self.ending(after)
                }
            },
            _ => (self.at(EncodePhase::Finished), shared, EncodeCommand::Finished),
        }
    }

    pub fn new(track: u32, to: Downstream) -> (r: Self)
        ensures
            r == (EncodeStage { track, to, phase: EncodePhase::Receiving }),
    {
        EncodeStage { track, to, phase: EncodePhase::Receiving }
    }

    fn end<F, E>(&mut self) -> (r: EncodeCommand<F, E>)
        ensures
            forall|shared: Shared<E>|
                (*final(self), shared, r) == #[trigger] old(self).ending::<F, E>(shared),
    {
        self.phase = EncodePhase::Ending;
        EncodeCommand::SendEof
    }

    fn next<F, E>(&mut self, shared: &Shared<E>) -> (r: EncodeCommand<F, E>)
        ensures
            (*final(self), *shared, r) == old(self).top::<F, E>(*shared),
    {
        if shared.abort.is_aborted() {
            self.end()
        } else {
            self.phase = EncodePhase::Receiving;
            EncodeCommand::Receive
        }
    }

    fn fail<F, E>(&mut self, at: FailureStage, error: E) -> (r: EncodeCommand<F, E>)
        ensures
            forall|shared: Shared<E>|
                (*final(self), shared, r) == #[trigger] old(self).failed::<F, E>(shared, at, error),
    {
        self.phase = EncodePhase::Finished;
        EncodeCommand::Failed(StageFailure::new(at, Some(self.track), Cause::Raised(error)))
    }

    fn go_on<F, E>(&mut self, shared: &Shared<E>, then: AfterPackets) -> (r: EncodeCommand<F, E>)
        ensures
            (*final(self), *shared, r) == old(self).continuing::<F, E>(*shared, then),
    {
        match then {
            AfterPackets::Receive => self.next(shared),
            AfterPackets::Barrier(b) => {
                self.phase = EncodePhase::Signalling;
                EncodeCommand::SendBarrier(b)
            },
            AfterPackets::End => self.end(),
        }
    }

    fn ask<F, E>(&mut self, then: AfterPackets) -> (r: EncodeCommand<F, E>)
        ensures
            *final(self) == old(self).at(EncodePhase::ReceivingPacket { then }),
            r == EncodeCommand::<F, E>::ReceivePacket,
    {
        self.phase = EncodePhase::ReceivingPacket { then };
        EncodeCommand::ReceivePacket
    }

    fn received<F, E>(&mut self, shared: &Shared<E>, msg: Msg) -> (r: EncodeCommand<F, E>)
        requires
            old(self).phase is Receiving,
        ensures
            (*final(self), *shared, r) == old(self).step_spec::<F, E>(
                *shared,
                EncodeReply::Received(msg),
            ),
    {
        match msg {
            Msg::Data { .. } => {
                self.phase = EncodePhase::Materialising;
                EncodeCommand::Materialise
            },
            Msg::StreamUpdate => self.next(shared),
            Msg::Barrier(b) => match b {
                BarrierKind::SeekFlush { .. } => {
                    self.phase = EncodePhase::Flushing { then: AfterPackets::Barrier(b) };
                    EncodeCommand::FlushEncoder
                },
                BarrierKind::SeekRejected { .. } => {
                    self.phase = EncodePhase::Signalling;
                    EncodeCommand::SendBarrier(b)
                },
            },
            Msg::StreamEnd => {
                self.phase = EncodePhase::Signalling;
                EncodeCommand::SendStreamEnd
            },
            Msg::Eof => {
                self.phase = EncodePhase::Flushing { then: AfterPackets::End };
                EncodeCommand::FlushEncoder
            },
            Msg::Disconnected => self.end(),
        }
    }

    /// Takes the outcome of the call that was asked for, and asks for the next.
    pub fn step<F, E>(&mut self, shared: &mut Shared<E>, reply: EncodeReply<F, E>) -> (r:
        EncodeCommand<F, E>)
        requires
            reply matches EncodeReply::Sent(Sent::Failed(_)) ==> old(self).to is Independent,
        ensures
            (*final(self), *final(shared), r) == old(self).step_spec(*old(shared), reply),
    {
        match self.phase {
            EncodePhase::Receiving => match reply {
                EncodeReply::Start => self.next(shared),
                EncodeReply::Received(msg) => self.received(shared, msg),
                _ => {
                    self.phase = EncodePhase::Finished;
                    EncodeCommand::Finished
                },
            },
            EncodePhase::Materialising => match reply {
                EncodeReply::Start => self.next(shared),
                EncodeReply::Frame(f) => {
                    self.phase = EncodePhase::SendingFrame;
                    EncodeCommand::SendFrame(f)
                },
                EncodeReply::Error(e) => self.fail(FailureStage::Convert, e),
                _ => {
                    self.phase = EncodePhase::Finished;
                    EncodeCommand::Finished
                },
            },
            EncodePhase::SendingFrame => match reply {
                EncodeReply::Start => self.next(shared),
                EncodeReply::Error(e) => self.fail(FailureStage::Encode, e),
                _ => self.ask(AfterPackets::Receive),
            },
            EncodePhase::Flushing { then } => match reply {
                EncodeReply::Start => self.next(shared),
                EncodeReply::Error(e) => match then {
                    AfterPackets::End => self.fail(FailureStage::Encode, e),
                    _ => self.ask(then),
                },
                _ => self.ask(then),
            },
            EncodePhase::ReceivingPacket { then } => match reply {
                EncodeReply::Start => self.next(shared),
                EncodeReply::Packet => {
                    self.phase = EncodePhase::Writing { then };
                    EncodeCommand::WritePacket
                },
                EncodeReply::Error(e) => self.fail(FailureStage::Encode, e),
                _ => self.go_on(shared, then),
            },
            EncodePhase::Writing { then } => match reply {
                EncodeReply::Start => self.next(shared),
                EncodeReply::Sent(sent) => {
                    if deliver(shared, self.to, Item::EncodedPacket, sent) {
                        self.ask(then)
                    } else {
                        self.end()
                    }
                },
                _ => {
                    self.phase = EncodePhase::Finished;
                    EncodeCommand::Finished
                },
            },
            EncodePhase::Signalling => match reply {
                EncodeReply::Start => self.next(shared),
                EncodeReply::Sent(sent) => {
                    if deliver(shared, self.to, Item::Signal, sent) {
                        self.next(shared)
                    } else {
                        self.end()
                    }
                },
                _ => {
                    self.phase = EncodePhase::Finished;
                    EncodeCommand::Finished
                },
            },
            _ => match reply {
                EncodeReply::Start => self.next(shared),
                _ => {
                    self.phase = EncodePhase::Finished;
                    EncodeCommand::Finished
                },
            },
        }
    }
}

/// An encoder is asked for packets until it has none, before the worker takes
/// the next message; each packet that arrives is counted.
pub proof fn encoder_is_emptied<F, E>(stage: EncodeStage, shared: Shared<E>, then: AfterPackets)
    requires
        stage.phase == (EncodePhase::ReceivingPacket { then }),
    ensures
        ({
            let (writing, s, command) = stage.step_spec::<F, E>(shared, EncodeReply::Packet);
            let (again, after, next) = writing.step_spec::<F, E>(
                s,
                EncodeReply::Sent(Sent::Delivered),
            );
            &&& command == EncodeCommand::<F, E>::WritePacket
            &&& next == EncodeCommand::<F, E>::ReceivePacket
            &&& again == stage
            &&& after.counters.packets_encoded == crate::staged::wrapped(
                shared.counters.packets_encoded + 1,
            )
            &&& after.abort == shared.abort
        }),
{
}

} // verus!
