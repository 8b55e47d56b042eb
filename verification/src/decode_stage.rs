//! The worker that decodes the packets of a track.

use crate::failure::{FailureStage, StageFailure};
use crate::media::{pixel_code, CodecParameters, StreamInfo};
use crate::staged::{
    deliver, delivered, goes_on, BarrierKind, Downstream, Fault, Item, Sent, Shared,
};
use crate::workers::{flushes, freed, one_more_decoded, one_more_skipped, Msg};
use vstd::prelude::*;

verus! {

#[derive(Clone, Copy, Debug, PartialEq, Eq, Structural)]
pub enum DecodePhase {
    Receiving,
    SendingPacket,
    /// The stream's new description is on its way.
    Updating,
    /// Taking the frames of a packet; whether there was one already.
    ReceivingFrame { produced: bool },
    Writing,
    Resetting { barrier: BarrierKind },
    Signalling,
    /// The stream is over, for good or until a seek.
    Flushing { last: bool },
    ReceivingTail { last: bool },
    WritingTail { last: bool },
    Ending,
    Finished,
}

/// Decodes the packets of a track. Where the frames go straight to a sink, the
/// sink also hears what the decoder says of them, before the first frame it is
/// true of.
pub struct DecodeStage {
    pub track: u32,
    pub to: Downstream,
    /// The output stream, where its sink is to hear of changes.
    pub template: Option<StreamInfo>,
    /// What the sink was told last.
    pub last: Option<CodecParameters>,
    pub phase: DecodePhase,
}

pub enum DecodeCommand<F, E> {
    Receive,
    SendPacket,
    SendUpdate(StreamInfo),
    ReceiveFrame,
    WriteFrame(F),
    ResetDecoder,
    FlushDecoder,
    SendBarrier(BarrierKind),
    SendStreamEnd,
    SendEof,
    Finished,
    Failed(StageFailure<E>),
}

pub enum DecodeReply<F, E> {
    Start,
    Received(Msg),
    /// The decoder took the packet; what it says of its frames.
    Accepted { params: Option<CodecParameters> },
    Fault(Fault<E>),
    Frame(F),
    NeedMore,
    Eof,
    Done,
    Sent(Sent<E>),
}

/// Whether the sink has to hear of a description.
pub open spec fn is_news(last: Option<CodecParameters>, params: CodecParameters) -> bool {
    match last {
        Some(l) => !l@.same_core(params@),
        None => true,
    }
}

impl DecodeStage {
    pub open spec fn at(self, phase: DecodePhase) -> DecodeStage {
        DecodeStage { phase, ..self }
    }

    pub open spec fn ending<F, E>(self, shared: Shared<E>) -> (
        DecodeStage,
        Shared<E>,
        DecodeCommand<F, E>,
    ) {
        (self.at(DecodePhase::Ending), shared, DecodeCommand::SendEof)
    }

    pub open spec fn top<F, E>(self, shared: Shared<E>) -> (
        DecodeStage,
        Shared<E>,
        DecodeCommand<F, E>,
    ) {
        if shared.abort.cancelled {
            self.ending(shared)
        } else {
            (self.at(DecodePhase::Receiving), shared, DecodeCommand::Receive)
        }
    }

    pub open spec fn taking<F, E>(self, shared: Shared<E>, phase: DecodePhase) -> (
        DecodeStage,
        Shared<E>,
        DecodeCommand<F, E>,
    ) {
        if shared.abort.cancelled {
            self.ending(shared)
        } else {
            (self.at(phase), shared, DecodeCommand::ReceiveFrame)
        }
    }

    /// What follows a packet that the decoder took.
    pub open spec fn accepted<F, E>(self, shared: Shared<E>, params: Option<CodecParameters>) -> (
        DecodeStage,
        Shared<E>,
        DecodeCommand<F, E>,
    ) {
        match (self.template, params) {
            (Some(t), Some(p)) if is_news(self.last, p) => {
                let stream = StreamInfo { params: p, ..t };
                (
                    DecodeStage {
                        template: Some(stream),
                        phase: DecodePhase::Updating,
                        ..self
                    },
                    shared,
                    DecodeCommand::SendUpdate(stream),
                )
            },
            _ => self.taking(shared, DecodePhase::ReceivingFrame { produced: false }),
        }
    }

    /// What follows a packet that the decoder did not take: an answer to an
    /// abort ends the worker quietly, giving up without one fails it, and
    /// anything else only skips the packet.
    pub open spec fn refused<F, E>(self, shared: Shared<E>, fault: Fault<E>) -> (
        DecodeStage,
        Shared<E>,
        DecodeCommand<F, E>,
    ) {
        if fault.cancelled && shared.abort.cancelled {
            self.ending(shared)
        } else if fault.cancelled {
            (
                self.at(DecodePhase::Finished),
                shared,
                DecodeCommand::Failed(
                    StageFailure::at(FailureStage::Decode, Some(self.track), fault.cause),
                ),
            )
        } else {
            self.top(one_more_skipped(shared))
        }
    }

    /// What follows the last frame that the decoder held.
    pub open spec fn drained<F, E>(self, shared: Shared<E>, last: bool) -> (
        DecodeStage,
        Shared<E>,
        DecodeCommand<F, E>,
    ) {
        if last {
            self.ending(shared)
        } else {
            (self.at(DecodePhase::Signalling), shared, DecodeCommand::SendStreamEnd)
        }
    }

    /// One exchange: the outcome of the awaited call, then the next call.
    pub open spec fn step_spec<F, E>(self, shared: Shared<E>, reply: DecodeReply<F, E>) -> (
        DecodeStage,
        Shared<E>,
        DecodeCommand<F, E>,
    ) {
        match (self.phase, reply) {
            (_, DecodeReply::Start) => self.top(shared),
            (DecodePhase::Receiving, DecodeReply::Received(msg)) => match msg {
                Msg::Data { bytes } => (
                    self.at(DecodePhase::SendingPacket),
                    freed(shared, bytes),
                    DecodeCommand::SendPacket,
                ),
                Msg::StreamUpdate => self.top(shared),
                Msg::Barrier(barrier) => if flushes(barrier) {
                    (
                        self.at(DecodePhase::Resetting { barrier }),
                        shared,
                        DecodeCommand::ResetDecoder,
                    )
                } else {
                    (
                        self.at(DecodePhase::Signalling),
                        shared,
                        DecodeCommand::SendBarrier(barrier),
                    )
                },
                Msg::StreamEnd => (
                    self.at(DecodePhase::Flushing { last: false }),
                    shared,
                    DecodeCommand::FlushDecoder,
                ),
                Msg::Eof => (
                    self.at(DecodePhase::Flushing { last: true }),
                    shared,
                    DecodeCommand::FlushDecoder,
                ),
                Msg::Disconnected => self.ending(shared),
            },
            (DecodePhase::SendingPacket, DecodeReply::Accepted { params }) => self.accepted(
                shared,
                params,
            ),
            (DecodePhase::SendingPacket, DecodeReply::Fault(fault)) => self.refused(shared, fault),
            (DecodePhase::Updating, DecodeReply::Sent(sent)) => {
                let after = delivered(shared, self.to, Item::Signal, sent);
                if goes_on(sent) {
                    DecodeStage {
                        last: match self.template {
                            Some(t) => Some(t.params),
                            None => self.last,
                        },
                        ..self
                    }.taking(after, DecodePhase::ReceivingFrame { produced: false })
                } else {
                    self.ending(after)
                }
            },
            (DecodePhase::ReceivingFrame { produced }, DecodeReply::Frame(f)) => (
                self.at(DecodePhase::Writing),
                one_more_decoded(shared),
                DecodeCommand::WriteFrame(f),
            ),
            (DecodePhase::ReceivingFrame { produced }, DecodeReply::NeedMore) => self.top(shared),
            (DecodePhase::ReceivingFrame { produced }, DecodeReply::Eof) => self.ending(shared),
            (DecodePhase::ReceivingFrame { produced }, DecodeReply::Fault(_)) => self.top(
                if produced {
                    shared
                } else {
                    one_more_skipped(shared)
                },
            ),
            (DecodePhase::Writing, DecodeReply::Sent(sent)) => {
                let after = delivered(shared, self.to, Item::Frame, sent);
                if goes_on(sent) {
                    self.taking(after, DecodePhase::ReceivingFrame { produced: true })
                } else {
                    self.ending(after)
                }
            },
            // Whether the decoder could be reset does not matter.
            (DecodePhase::Resetting { barrier }, _) => (
                self.at(DecodePhase::Signalling),
                shared,
                DecodeCommand::SendBarrier(barrier),
            ),
            (DecodePhase::Signalling, DecodeReply::Sent(sent)) => {
                let after = delivered(shared, self.to, Item::Signal, sent);
                if goes_on(sent) {
                    self.top(after)
                } else {
                    self.ending(after)
                }
            },
            // What the decoder still holds is taken even where flushing failed.
            (DecodePhase::Flushing { last }, _) => self.taking(
                shared,
                DecodePhase::ReceivingTail { last },
            ),
            (DecodePhase::ReceivingTail { last }, DecodeReply::Frame(f)) => (
                self.at(DecodePhase::WritingTail { last }),
                one_more_decoded(shared),
                DecodeCommand::WriteFrame(f),
            ),
            (DecodePhase::ReceivingTail { last }, _) => self.drained(shared, last),
            (DecodePhase::WritingTail { last }, DecodeReply::Sent(sent)) => {
                let after = delivered(shared, self.to, Item::Frame, sent);
                if goes_on(sent) {
                    self.taking(after, DecodePhase::ReceivingTail { last })
                } else {
                    self.ending(after)
                }
            },
            _ => (self.at(DecodePhase::Finished), shared, DecodeCommand::Finished),
        }
    }

    /// A worker for a track; `template` is the output stream where its sink is to
    /// hear of changes.
    pub fn new(track: u32, to: Downstream, template: Option<StreamInfo>) -> (r: Self)
        ensures
            r == (DecodeStage { track, to, template, last: None, phase: DecodePhase::Receiving }),
    {
        DecodeStage { track, to, template, last: None, phase: DecodePhase::Receiving }
    }

    fn end<F, E>(&mut self) -> (r: DecodeCommand<F, E>)
        ensures
            forall|shared: Shared<E>|
                (*final(self), shared, r) == #[trigger] old(self).ending::<F, E>(shared),
    {
        self.phase = DecodePhase::Ending;
        DecodeCommand::SendEof
    }

    fn next<F, E>(&mut self, shared: &Shared<E>) -> (r: DecodeCommand<F, E>)
        ensures
            (*final(self), *shared, r) == old(self).top::<F, E>(*shared),
    {
        if shared.abort.is_aborted() {
            self.end()
        } else {
            self.phase = DecodePhase::Receiving;
            DecodeCommand::Receive
        }
    }

    fn take<F, E>(&mut self, shared: &Shared<E>, phase: DecodePhase) -> (r: DecodeCommand<F, E>)
        ensures
            (*final(self), *shared, r) == old(self).taking::<F, E>(*shared, phase),
    {
        if shared.abort.is_aborted() {
            self.end()
        } else {
            self.phase = phase;
            DecodeCommand::ReceiveFrame
        }
    }

    fn accept<F, E>(&mut self, shared: &Shared<E>, params: Option<CodecParameters>) -> (r:
        DecodeCommand<F, E>)
        ensures
            (*final(self), *shared, r) == old(self).accepted::<F, E>(*shared, params),
    {
        let news = match (&self.template, &params) {
            (Some(_), Some(p)) => match &self.last {
                Some(l) => !l.matches_core(p),
                None => true,
            },
            _ => false,
        };
        if news {
            if let Some(p) = params {
                if let Some(mut stream) = self.template.take() {
                    stream.params = p;
                    let copy = stream.clone();
                    self.template = Some(stream);
                    self.phase = DecodePhase::Updating;
                    return DecodeCommand::SendUpdate(copy);
                }
            }
        }
        self.take(shared, DecodePhase::ReceivingFrame { produced: false })
    }

    fn refuse<F, E>(&mut self, shared: &mut Shared<E>, fault: Fault<E>) -> (r: DecodeCommand<F, E>)
        ensures
            (*final(self), *final(shared), r) == old(self).refused::<F, E>(*old(shared), fault),
    {
        if fault.cancelled && shared.abort.is_aborted() {
            self.end()
        } else if fault.cancelled {
            self.phase = DecodePhase::Finished;
            DecodeCommand::Failed(
                StageFailure::new(FailureStage::Decode, Some(self.track), fault.cause),
            )
        } else {
            shared.counters.packets_skipped = shared.counters.packets_skipped.wrapping_add(1);
            self.next(shared)
        }
    }

    fn received<F, E>(&mut self, shared: &mut Shared<E>, msg: Msg) -> (r: DecodeCommand<F, E>)
        requires
            old(self).phase is Receiving,
        ensures
            (*final(self), *final(shared), r) == old(self).step_spec::<F, E>(
                *old(shared),
                DecodeReply::Received(msg),
            ),
    {
        match msg {
            Msg::Data { bytes } => {
                shared.budget.release(bytes);
                self.phase = DecodePhase::SendingPacket;
                DecodeCommand::SendPacket
            },
            Msg::StreamUpdate => self.next(shared),
            Msg::Barrier(barrier) => match barrier {
                BarrierKind::SeekFlush { .. } => {
                    self.phase = DecodePhase::Resetting { barrier };
                    DecodeCommand::ResetDecoder
                },
                BarrierKind::SeekRejected { .. } => {
                    self.phase = DecodePhase::Signalling;
                    DecodeCommand::SendBarrier(barrier)
                },
            },
            Msg::StreamEnd => {
                self.phase = DecodePhase::Flushing { last: false };
                DecodeCommand::FlushDecoder
            },
            Msg::Eof => {
                self.phase = DecodePhase::Flushing { last: true };
                DecodeCommand::FlushDecoder
            },
            Msg::Disconnected => self.end(),
        }
    }

    fn sent<F, E>(&mut self, shared: &mut Shared<E>, sent: Sent<E>) -> (r: DecodeCommand<F, E>)
        requires
            sent is Failed ==> old(self).to is Independent,
        ensures
            (*final(self), *final(shared), r) == old(self).step_spec::<F, E>(
                *old(shared),
                DecodeReply::Sent(sent),
            ),
    {
        match self.phase {
            DecodePhase::Updating => {
                if deliver(shared, self.to, Item::Signal, sent) {
                    match &self.template {
                        Some(t) => {
                            self.last = Some(t.params.clone());
                        },
                        None => {},
                    }
                    self.take(shared, DecodePhase::ReceivingFrame { produced: false })
                } else {
                    self.end()
                }
            },
            DecodePhase::Writing => {
                if deliver(shared, self.to, Item::Frame, sent) {
                    self.take(shared, DecodePhase::ReceivingFrame { produced: true })
                } else {
                    self.end()
                }
            },
            DecodePhase::Signalling => {
                if deliver(shared, self.to, Item::Signal, sent) {
                    self.next(shared)
                } else {
                    self.end()
                }
            },
            DecodePhase::WritingTail { last } => {
                if deliver(shared, self.to, Item::Frame, sent) {
                    self.take(shared, DecodePhase::ReceivingTail { last })
                } else {
                    self.end()
                }
            },
            DecodePhase::Resetting { barrier } => {
                self.phase = DecodePhase::Signalling;
                DecodeCommand::SendBarrier(barrier)
            },
            DecodePhase::Flushing { last } => self.take(
                shared,
                DecodePhase::ReceivingTail { last },
            ),
            DecodePhase::ReceivingTail { last } => self.drain(last),
            _ => {
                self.phase = DecodePhase::Finished;
                DecodeCommand::Finished
            },
        }
    }

    fn drain<F, E>(&mut self, last: bool) -> (r: DecodeCommand<F, E>)
        ensures
            forall|shared: Shared<E>|
                (*final(self), shared, r) == #[trigger] old(self).drained::<F, E>(shared, last),
    {
        if last {
            self.end()
        } else {
            self.phase = DecodePhase::Signalling;
            DecodeCommand::SendStreamEnd
        }
    }

    /// Takes the outcome of the call that was asked for, and asks for the next.
    pub fn step<F, E>(&mut self, shared: &mut Shared<E>, reply: DecodeReply<F, E>) -> (r:
        DecodeCommand<F, E>)
        requires
            reply matches DecodeReply::Sent(Sent::Failed(_)) ==> old(self).to is Independent,
        ensures
            (*final(self), *final(shared), r) == old(self).step_spec(*old(shared), reply),
    {
        match reply {
            DecodeReply::Start => self.next(shared),
            DecodeReply::Sent(s) => self.sent(shared, s),
            reply => match self.phase {
                DecodePhase::Receiving => match reply {
                    DecodeReply::Received(msg) => self.received(shared, msg),
                    _ => {
                        self.phase = DecodePhase::Finished;
                        DecodeCommand::Finished
                    },
                },
                DecodePhase::SendingPacket => match reply {
                    DecodeReply::Accepted { params } => self.accept(shared, params),
                    DecodeReply::Fault(fault) => self.refuse(shared, fault),
                    _ => {
                        self.phase = DecodePhase::Finished;
                        DecodeCommand::Finished
                    },
                },
                DecodePhase::ReceivingFrame { produced } => match reply {
                    DecodeReply::Frame(f) => {
                        shared.counters.frames_decoded =
                        shared.counters.frames_decoded.wrapping_add(1);
                        self.phase = DecodePhase::Writing;
                        DecodeCommand::WriteFrame(f)
                    },
                    DecodeReply::NeedMore => self.next(shared),
                    DecodeReply::Eof => self.end(),
                    DecodeReply::Fault(_) => {
                        if !produced {
                            shared.counters.packets_skipped =
                            shared.counters.packets_skipped.wrapping_add(1);
                        }
                        self.next(shared)
                    },
                    _ => {
                        self.phase = DecodePhase::Finished;
                        DecodeCommand::Finished
                    },
                },
                DecodePhase::Resetting { barrier } => {
                    self.phase = DecodePhase::Signalling;
                    DecodeCommand::SendBarrier(barrier)
                },
                DecodePhase::Flushing { last } => self.take(
                    shared,
                    DecodePhase::ReceivingTail { last },
                ),
                DecodePhase::ReceivingTail { last } => match reply {
                    DecodeReply::Frame(f) => {
                        shared.counters.frames_decoded =
                        shared.counters.frames_decoded.wrapping_add(1);
                        self.phase = DecodePhase::WritingTail { last };
                        DecodeCommand::WriteFrame(f)
                    },
                    _ => self.drain(last),
                },
                _ => {
                    self.phase = DecodePhase::Finished;
                    DecodeCommand::Finished
                },
            },
        }
    }
}

/// A sink that is to hear of changes hears what the decoder says of its frames
/// before it gets the first frame after a packet, and again only when that
/// changes.
pub proof fn update_precedes_frames<F, E>(
    stage: DecodeStage,
    shared: Shared<E>,
    params: CodecParameters,
)
    requires
        stage.phase is SendingPacket,
        stage.template is Some,
        !shared.abort.cancelled,
    ensures
        ({
            let (next, after, command) = stage.step_spec::<F, E>(
                shared,
                DecodeReply::Accepted { params: Some(params) },
            );
            &&& after == shared
            &&& is_news(stage.last, params) ==> command == DecodeCommand::<F, E>::SendUpdate(
                StreamInfo { params, ..stage.template->0 },
            )
            &&& !is_news(stage.last, params) ==> command == DecodeCommand::<F, E>::ReceiveFrame
            &&& is_news(stage.last, params) ==> ({
                let (told, _, then) = next.step_spec::<F, E>(
                    after,
                    DecodeReply::Sent(Sent::Delivered),
                );
                then == DecodeCommand::<F, E>::ReceiveFrame && !is_news(told.last, params)
            })
        }),
{
}

/// A packet that the decoder refuses does not end the stream, unless the decoder
/// says that it gave up; it is counted, once.
pub proof fn bad_packet_is_skipped<F, E>(stage: DecodeStage, shared: Shared<E>, fault: Fault<E>)
    requires
        stage.phase is SendingPacket || (stage.phase == DecodePhase::ReceivingFrame {
            produced: false,
        }),
        !fault.cancelled,
        !shared.abort.cancelled,
    ensures
        ({
            let (next, after, command) = stage.step_spec::<F, E>(
                shared,
                DecodeReply::Fault(fault),
            );
            &&& command == DecodeCommand::<F, E>::Receive
            &&& after == one_more_skipped(shared)
        }),
{
}

/// A decoder error after a frame of the same packet is not counted as a skip.
pub proof fn partial_output_is_no_skip<F, E>(stage: DecodeStage, shared: Shared<E>, fault: Fault<E>)
    requires
        stage.phase == (DecodePhase::ReceivingFrame { produced: true }),
        !shared.abort.cancelled,
    ensures
        stage.step_spec::<F, E>(shared, DecodeReply::Fault(fault)).1 == shared,
        stage.step_spec::<F, E>(shared, DecodeReply::Fault(fault)).2 == (DecodeCommand::<
            F,
            E,
        >::Receive),
{
}

/// Once an abort is requested, a worker that would take more work ends instead.
pub proof fn abort_ends_the_decoder<F, E>(
    stage: DecodeStage,
    shared: Shared<E>,
    reply: DecodeReply<F, E>,
)
    requires
        shared.abort.cancelled,
        !(stage.phase is Receiving),
    ensures
        ({
            let command = stage.step_spec(shared, reply).2;
            !(command is Receive) && !(command is ReceiveFrame)
        }),
{
}

/// Two descriptions of a stream say different things of what a decoder makes: the
/// coding, the sound's rate, channels or sample layout, or the picture's size or pixel
/// format.
pub open spec fn says_otherwise(a: CodecParameters, b: CodecParameters) -> bool {
    ||| a.codec_id@ != b.codec_id@
    ||| a.sample_rate != b.sample_rate
    ||| a.channels != b.channels
    ||| a.sample_format != b.sample_format
    ||| a.width != b.width
    ||| a.height != b.height
    ||| a.pixel_format is Some != b.pixel_format is Some
    ||| a.pixel_format is Some && pixel_code(a.pixel_format->0) != pixel_code(b.pixel_format->0)
}

/// Where the sink is to hear of changes, it hears what the decoder says now, before
/// anything that the decoder makes of the packet, whenever that is not what it heard
/// last in coding, sample rate, channels, sample format, width, height or pixel format;
/// it is told everything that the decoder says, and the rest of the stream stays. Where
/// all of these agree, or nobody is to hear, it is told nothing.
pub proof fn sink_hears_of_changes<F, E>(
    stage: DecodeStage,
    shared: Shared<E>,
    said: Option<CodecParameters>,
)
    requires
        stage.phase is SendingPacket,
    ensures
        ({
            let command = stage.step_spec::<F, E>(
                shared,
                DecodeReply::Accepted { params: said },
            ).2;
            &&& stage.template is None || said is None ==> !(command is SendUpdate)
            &&& stage.template is Some && said is Some && stage.last is Some
                && !says_otherwise(stage.last->0, said->0) ==> !(command is SendUpdate)
            &&& stage.template is Some && said is Some && (stage.last is None || says_otherwise(
                stage.last->0,
                said->0,
            )) ==> {
                &&& command is SendUpdate
                &&& command->SendUpdate_0.params == said->0
                &&& command->SendUpdate_0.index == stage.template->0.index
                &&& command->SendUpdate_0.time_base == stage.template->0.time_base
                &&& command->SendUpdate_0.duration == stage.template->0.duration
                &&& command->SendUpdate_0.start_time == stage.template->0.start_time
            }
        }),
{
}

/// What the sink heard last is what it was told last: it changes when an update has
/// reached it, to what that update said, and at no other time.
pub proof fn sink_remembers_what_it_heard<F, E>(
    stage: DecodeStage,
    shared: Shared<E>,
    reply: DecodeReply<F, E>,
)
    ensures
        ({
            let (next, _, command) = stage.step_spec(shared, reply);
            &&& command is SendUpdate ==> next.template is Some && next.template->0
                == command->SendUpdate_0
            &&& stage.phase is Updating && reply == DecodeReply::<F, E>::Sent(Sent::Delivered)
                && stage.template is Some ==> next.last == Some(stage.template->0.params)
            &&& !(stage.phase is Updating && reply is Sent) ==> next.last == stage.last
            &&& !(command is SendUpdate) ==> next.template == stage.template
        }),
{
}

/// A decoder that says something else after a later packet is heard again: over two
/// packets that it takes, the second update is sent exactly where what it says then
/// differs from what it said first.
pub proof fn second_change_is_heard<F, E>(
    stage: DecodeStage,
    shared: spec_fn(nat) -> Shared<E>,
    first: CodecParameters,
    second: CodecParameters,
    bytes: u64,
)
    requires
        forall|i: nat| !(#[trigger] shared(i)).abort.cancelled,
        stage.phase is SendingPacket,
        stage.template is Some,
        stage.last is None || says_otherwise(stage.last->0, first),
    ensures
        ({
            let (s1, _, c1) = stage.step_spec::<F, E>(
                shared(0),
                DecodeReply::Accepted { params: Some(first) },
            );
            let (s2, _, c2) = s1.step_spec::<F, E>(shared(1), DecodeReply::Sent(Sent::Delivered));
            let (s3, _, c3) = s2.step_spec::<F, E>(shared(2), DecodeReply::NeedMore);
            let (s4, _, c4) = s3.step_spec::<F, E>(
                shared(3),
                DecodeReply::Received(Msg::Data { bytes }),
            );
            let (s5, _, c5) = s4.step_spec::<F, E>(
                shared(4),
                DecodeReply::Accepted { params: Some(second) },
            );
            &&& c1 is SendUpdate && c1->SendUpdate_0.params == first
            &&& c2 is ReceiveFrame && c3 is Receive && c4 is SendPacket
            &&& if says_otherwise(first, second) {
                c5 is SendUpdate && c5->SendUpdate_0.params == second
            } else {
                c5 is ReceiveFrame
            }
        }),
{
    assert(!shared(1).abort.cancelled && !shared(2).abort.cancelled);
    assert(!shared(4).abort.cancelled);
}

} // verus!
