//! A seek shows on every track exactly once: each worker hands a barrier on
//! unchanged, after what came before it and before what comes after it.

use crate::decode_stage::{DecodeCommand, DecodePhase, DecodeReply, DecodeStage};
use crate::encode_stage::{AfterPackets, EncodeCommand, EncodePhase, EncodeReply, EncodeStage};
use crate::frame_stage::{FrameCommand, FramePhase, FrameReply, FrameWorkerView};
use crate::parity::staged_packets;
use crate::staged::{BarrierKind, Sent, Shared};
use crate::workers::{
    CopyCommand, CopyPhase, CopyReply, CopyStage, FanoutCommand, FanoutPhase, FanoutReply,
    FanoutStage, Msg,
};
use vstd::prelude::*;

verus! {

/// A copying worker hands a barrier on, and then takes the next message.
pub proof fn copy_passes_barrier<E>(v: CopyStage, shared: Shared<E>, b: BarrierKind)
    requires
        v.phase is Receiving,
        !shared.abort.cancelled,
    ensures
        ({
            let (w, s, c) = v.step_spec(shared, CopyReply::Received(Msg::Barrier(b)));
            let (x, t, d) = w.step_spec(s, CopyReply::Sent(Sent::Delivered));
            &&& c == CopyCommand::SendBarrier(b)
            &&& d == CopyCommand::Receive
            &&& s == shared
            &&& t == shared
            &&& x == v
        }),
{
}

/// A worker that hands frames on hands a barrier on, and then takes the next
/// message.
pub proof fn fanout_passes_barrier<E>(v: FanoutStage, shared: Shared<E>, b: BarrierKind)
    requires
        v.phase is Receiving,
        !shared.abort.cancelled,
    ensures
        ({
            let (w, s, c) = v.step_spec(shared, FanoutReply::Received(Msg::Barrier(b)));
            let (x, t, d) = w.step_spec(s, FanoutReply::Sent(Sent::Delivered));
            &&& c == FanoutCommand::SendBarrier(b)
            &&& d == FanoutCommand::Receive
            &&& s == shared
            &&& t == shared
            &&& x == v
        }),
{
}

/// A decoding worker resets its decoder exactly where the source moved, then
/// hands the barrier on, and then takes the next message.
pub proof fn decoder_passes_barrier<F, E>(
    v: DecodeStage,
    shared: Shared<E>,
    b: BarrierKind,
    reset: DecodeReply<F, E>,
)
    requires
        v.phase is Receiving,
        !shared.abort.cancelled,
        !(reset is Start),
    ensures
        ({
            let (w, s, c) = v.step_spec::<F, E>(shared, DecodeReply::Received(Msg::Barrier(b)));
            let (w, s, c) = if b is SeekFlush {
                w.step_spec(s, reset)
            } else {
                (w, s, c)
            };
            let (x, t, d) = w.step_spec::<F, E>(s, DecodeReply::Sent(Sent::Delivered));
            &&& v.step_spec::<F, E>(shared, DecodeReply::Received(Msg::Barrier(b))).2
                is ResetDecoder <==> b is SeekFlush
            &&& c == DecodeCommand::<F, E>::SendBarrier(b)
            &&& d == DecodeCommand::<F, E>::Receive
            &&& t == shared
            &&& x == v
        }),
{
}

/// A frame worker resets a filter exactly where the source moved, then hands the
/// barrier on, on the way of its extra frames too where it has one, and then
/// takes the next message.
pub proof fn frame_worker_passes_barrier<F, E>(
    v: FrameWorkerView<F>,
    shared: Shared<E>,
    b: BarrierKind,
    reply: FrameReply<F, E>,
)
    requires
        v.phase is Receiving,
        !shared.abort.cancelled,
        !(reply is Start),
    ensures
        ({
            let (w, s, c) = v.step::<E>(shared, FrameReply::Received(Msg::Barrier(b)));
            let (w, s, c) = if b is SeekFlush && v.stage is Filter {
                w.step(s, reply)
            } else {
                (w, s, c)
            };
            let (y, u, e) = if v.extras_base is Some {
                w.step(s, reply)
            } else {
                (w, s, c)
            };
            let (x, t, d) = y.step::<E>(u, FrameReply::Sent(Sent::Delivered));
            &&& v.step::<E>(shared, FrameReply::Received(Msg::Barrier(b))).2 is ResetStage <==> (b
                is SeekFlush && v.stage is Filter)
            &&& v.extras_base is Some ==> c == FrameCommand::<F, E>::SendExtraBarrier(b)
            &&& e == FrameCommand::<F, E>::SendBarrier(b)
            &&& d == FrameCommand::<F, E>::Receive
            &&& t == shared
            &&& x == v
        }),
{
}

/// An encoding worker empties its encoder exactly where the source moved, then
/// hands the barrier on, and then takes the next message.
pub proof fn encoder_passes_barrier<F, E>(
    v: EncodeStage,
    shared: Shared<E>,
    b: BarrierKind,
    flushed: EncodeReply<F, E>,
    n: nat,
)
    requires
        v.phase is Receiving,
        !shared.abort.cancelled,
        !(flushed is Start),
        shared.counters.snapshot_spec().has_room(n as int),
    ensures
        b is SeekRejected ==> ({
            let (w, s, c) = v.step_spec::<F, E>(shared, EncodeReply::Received(Msg::Barrier(b)));
            let (x, t, d) = w.step_spec::<F, E>(s, EncodeReply::Sent(Sent::Delivered));
            &&& c == EncodeCommand::<F, E>::SendBarrier(b)
            &&& d == EncodeCommand::<F, E>::Receive
            &&& x == v
            &&& t == shared
        }),
        b is SeekFlush ==> ({
            let (w, s, c) = v.step_spec::<F, E>(shared, EncodeReply::Received(Msg::Barrier(b)));
            let (w, s, e) = w.step_spec(s, flushed);
            let (w, s, _) = staged_packets::<F, E>(w, s, n);
            let (w, s, f) = w.step_spec::<F, E>(s, EncodeReply::NoMore);
            let (x, t, d) = w.step_spec::<F, E>(s, EncodeReply::Sent(Sent::Delivered));
            &&& c == EncodeCommand::<F, E>::FlushEncoder
            &&& e == EncodeCommand::<F, E>::ReceivePacket
            &&& f == EncodeCommand::<F, E>::SendBarrier(b)
            &&& d == EncodeCommand::<F, E>::Receive
            &&& x == v
            &&& t.abort == shared.abort
        }),
{
    if b is SeekFlush {
        let (w, s, _) = v.step_spec::<F, E>(shared, EncodeReply::Received(Msg::Barrier(b)));
        let (w, s, _) = w.step_spec(s, flushed);
        assert(w.phase == (EncodePhase::ReceivingPacket { then: AfterPackets::Barrier(b) }));
        staged_packets_return::<F, E>(w, s, n);
    }
}

proof fn staged_packets_return<F, E>(stage: EncodeStage, shared: Shared<E>, n: nat)
    requires
        stage.phase is ReceivingPacket,
        shared.counters.snapshot_spec().has_room(n as int),
    ensures
        staged_packets::<F, E>(stage, shared, n).0 == stage,
        staged_packets::<F, E>(stage, shared, n).1.abort == shared.abort,
    decreases n,
{
    if n > 0 {
        staged_packets_return::<F, E>(stage, shared, (n - 1) as nat);
    }
}

/// A worker that has told the next one of the end is finished, and stays so: the
/// end is told once.
pub proof fn workers_end_once<F, E>(
    shared: Shared<E>,
    copy: CopyStage,
    copy_reply: CopyReply<E>,
    fanout: FanoutStage,
    fanout_reply: FanoutReply<E>,
    decode: DecodeStage,
    decode_reply: DecodeReply<F, E>,
    frame: FrameWorkerView<F>,
    frame_reply: FrameReply<F, E>,
    encode: EncodeStage,
    encode_reply: EncodeReply<F, E>,
)
    requires
        !(copy_reply is Start),
        !(fanout_reply is Start),
        !(decode_reply is Start),
        !(frame_reply is Start),
        !(encode_reply is Start),
    ensures
        copy.phase is Ending || copy.phase is Finished ==> copy.step_spec(shared, copy_reply) == (
            copy.at(CopyPhase::Finished),
            shared,
            CopyCommand::Finished,
        ),
        fanout.phase is Ending || fanout.phase is Finished ==> fanout.step_spec(
            shared,
            fanout_reply,
        ) == (fanout.at(FanoutPhase::Finished), shared, FanoutCommand::Finished),
        decode.phase is Ending || decode.phase is Finished ==> decode.step_spec(
            shared,
            decode_reply,
        ) == (decode.at(DecodePhase::Finished), shared, DecodeCommand::<F, E>::Finished),
        frame.phase is Ending || frame.phase is Finished ==> frame.step(shared, frame_reply) == (
            frame.at(FramePhase::Finished),
            shared,
            FrameCommand::<F, E>::Finished,
        ),
        encode.phase is Ending || encode.phase is Finished ==> encode.step_spec(
            shared,
            encode_reply,
        ) == (encode.at(EncodePhase::Finished), shared, EncodeCommand::<F, E>::Finished),
{
}

} // verus!
