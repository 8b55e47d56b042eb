//! A stop brings every worker to its end: once it was asked for, each exchange of a
//! worker brings it nearer to its end, whatever comes of its calls, and none takes up
//! new work.

use crate::decode_stage::{DecodePhase, DecodeReply, DecodeStage};
use crate::encode_stage::{EncodePhase, EncodeReply, EncodeStage};
use crate::frame_stage::{FramePhase, FrameReply, FrameWorkerView};
use crate::mux::{live_from_range, MuxPhase, MuxReply, MuxView};
use crate::source_stage::{route_from, SourcePhase, SourceReply, SourceView};
use crate::staged::{wrapped, PipelineCounters, Shared};
use crate::whole_source::route_from_range;
use crate::workers::{
    CopyPhase, CopyReply, CopyStage, FanoutPhase, FanoutReply, FanoutStage,
};
use vstd::prelude::*;

verus! {

/// One distance from the end is less than another.
pub open spec fn nearer(a: (nat, int), b: (nat, int)) -> bool {
    0 <= a.1 && (a.0 < b.0 || (a.0 == b.0 && a.1 < b.1))
}

/// How far a source worker is from its end, once a stop was asked for.
pub open spec fn source_distance(v: SourceView) -> (nat, int) {
    let n = v.routes.len() as int;
    match v.phase {
        SourcePhase::Forwarding { sibling, .. } => (9, v.siblings - sibling),
        SourcePhase::Seeking { .. } => (8, 0),
        SourcePhase::Barrier { route, .. } => (7, n - route),
        SourcePhase::Polling => (6, 0),
        SourcePhase::Reading => (5, 0),
        SourcePhase::Sending { route, .. } => (4, n - route),
        SourcePhase::Ending { route } => (3, n - route),
        SourcePhase::Top => (2, 0),
        SourcePhase::Eof { route } => (1, n - route),
        SourcePhase::Finished => (0, 0),
    }
}

/// Once a stop was asked for, every exchange brings a source worker nearer to its end,
/// unless it finds another seek request; and it neither waits nor reads, except once
/// where it had already come to look for a seek.
pub proof fn stop_ends_the_source<E>(v: SourceView, shared: Shared<E>, reply: SourceReply<E>)
    requires
        shared.abort.cancelled,
        v.phase_wf(),
        v.routes.len() <= usize::MAX,
        0 <= v.siblings <= usize::MAX,
        !(v.phase is Finished),
        !(reply is Seek),
    ensures
        source_nears_its_end(v, shared, reply),
{
    match v.phase {
        SourcePhase::Reading => stop_ends_the_reading(v, shared, reply),
        SourcePhase::Sending { stream, bytes, route } => {
            if reply is Sent {
                stop_ends_the_sending(v, shared, stream, bytes, route + 1);
            }
        },
        SourcePhase::Forwarding { .. }
        | SourcePhase::Seeking { .. }
        | SourcePhase::Barrier { .. } => stop_ends_the_seeking(v, shared, reply),
        _ => {},
    }
}

/// An exchange of a source worker that was asked to stop.
pub open spec fn source_nears_its_end<E>(
    v: SourceView,
    shared: Shared<E>,
    reply: SourceReply<E>,
) -> bool {
    let (w, after, command) = v.step(shared, reply);
    &&& nearer(source_distance(w), source_distance(v))
    &&& after.abort.cancelled
    &&& w.phase_wf()
    &&& command is Park || command is ReadPacket || command is ReadFrame ==> v.phase is Polling
}

proof fn stop_ends_the_seeking<E>(v: SourceView, shared: Shared<E>, reply: SourceReply<E>)
    requires
        shared.abort.cancelled,
        v.phase_wf(),
        v.routes.len() <= usize::MAX,
        0 <= v.siblings <= usize::MAX,
        v.phase is Forwarding || v.phase is Seeking || v.phase is Barrier,
    ensures
        source_nears_its_end(v, shared, reply),
{
}

proof fn stop_ends_the_reading<E>(v: SourceView, shared: Shared<E>, reply: SourceReply<E>)
    requires
        shared.abort.cancelled,
        v.routes.len() <= usize::MAX,
        v.phase is Reading,
    ensures
        source_nears_its_end(v, shared, reply),
{
    match reply {
        SourceReply::Packet { stream, bytes } => {
            stop_ends_the_sending(v, packet_counted(shared), stream, bytes, 0);
        },
        SourceReply::Frame => {
            stop_ends_the_sending(v, frame_counted(shared), 0, 0, 0);
        },
        _ => {},
    }
}

pub open spec fn packet_counted<E>(s: Shared<E>) -> Shared<E> {
    Shared {
        counters: PipelineCounters {
            packets_read: wrapped(s.counters.packets_read + 1),
            ..s.counters
        },
        ..s
    }
}

pub open spec fn frame_counted<E>(s: Shared<E>) -> Shared<E> {
    Shared {
        counters: PipelineCounters {
            frames_decoded: wrapped(s.counters.frames_decoded + 1),
            ..s.counters
        },
        ..s
    }
}

/// What was read still goes to its routes; then the end is told.
proof fn stop_ends_the_sending<E>(
    v: SourceView,
    shared: Shared<E>,
    stream: u32,
    bytes: u64,
    from: int,
)
    requires
        shared.abort.cancelled,
        v.routes.len() <= usize::MAX,
        0 <= from <= v.routes.len(),
    ensures
        ({
            let (w, after, command) = v.send(shared, stream, bytes, from);
            &&& nearer(source_distance(w), (4, v.routes.len() - from + 1))
            &&& after.abort.cancelled
            &&& w.phase_wf()
            &&& command is SendData || command is SendEof || command is Finished
        }),
{
    route_from_range(v, stream, from);
    let r = route_from(v, stream, from);
    assert(r < v.routes.len() ==> r as usize as int == r);
}

/// How far a copying worker is from its end, once a stop was asked for.
pub open spec fn copy_distance(v: CopyStage) -> (nat, int) {
    match v.phase {
        CopyPhase::Receiving => (3, 0),
        CopyPhase::Writing | CopyPhase::Signalling => (2, 0),
        CopyPhase::Ending => (1, 0),
        CopyPhase::Finished => (0, 0),
    }
}

/// Once a stop was asked for, every exchange brings a copying worker nearer to its end,
/// and it receives nothing more.
pub proof fn stop_ends_the_copier<E>(v: CopyStage, shared: Shared<E>, reply: CopyReply<E>)
    requires
        shared.abort.cancelled,
        !(v.phase is Finished),
        !(reply is Start),
    ensures
        ({
            let (w, after, command) = v.step_spec(shared, reply);
            &&& nearer(copy_distance(w), copy_distance(v))
            &&& after.abort.cancelled
            &&& !(command is Receive)
        }),
{
}

/// How far a worker that hands frames on is from its end, once a stop was asked for.
pub open spec fn fanout_distance(v: FanoutStage) -> (nat, int) {
    match v.phase {
        FanoutPhase::Receiving => (3, 0),
        FanoutPhase::Writing | FanoutPhase::Signalling => (2, 0),
        FanoutPhase::Ending => (1, 0),
        FanoutPhase::Finished => (0, 0),
    }
}

/// Once a stop was asked for, every exchange brings a worker that hands frames on nearer
/// to its end, and it receives nothing more.
pub proof fn stop_ends_the_forwarder<E>(v: FanoutStage, shared: Shared<E>, reply: FanoutReply<E>)
    requires
        shared.abort.cancelled,
        !(v.phase is Finished),
        !(reply is Start),
    ensures
        ({
            let (w, after, command) = v.step_spec(shared, reply);
            &&& nearer(fanout_distance(w), fanout_distance(v))
            &&& after.abort.cancelled
            &&& !(command is Receive)
        }),
{
}

/// How far a decoding worker is from its end, once a stop was asked for.
pub open spec fn decode_distance(v: DecodeStage) -> (nat, int) {
    match v.phase {
        DecodePhase::Receiving => (6, 0),
        DecodePhase::SendingPacket
        | DecodePhase::Resetting { .. }
        | DecodePhase::Flushing { .. } => (5, 0),
        DecodePhase::Updating => (4, 0),
        DecodePhase::ReceivingFrame { .. } | DecodePhase::ReceivingTail { .. } => (3, 0),
        DecodePhase::Writing | DecodePhase::WritingTail { .. } | DecodePhase::Signalling => (2, 0),
        DecodePhase::Ending => (1, 0),
        DecodePhase::Finished => (0, 0),
    }
}

/// Once a stop was asked for, every exchange brings a decoding worker nearer to its end,
/// and it neither receives anything more nor asks the decoder for more.
pub proof fn stop_ends_the_decoder<F, E>(
    v: DecodeStage,
    shared: Shared<E>,
    reply: DecodeReply<F, E>,
)
    requires
        shared.abort.cancelled,
        !(v.phase is Finished),
        !(reply is Start),
    ensures
        ({
            let (w, after, command) = v.step_spec(shared, reply);
            &&& nearer(decode_distance(w), decode_distance(v))
            &&& after.abort.cancelled
            &&& !(command is Receive) && !(command is ReceiveFrame)
        }),
{
}

/// How far a worker that runs a frame stage is from its end, once a stop was asked for.
pub open spec fn frame_distance<F>(v: FrameWorkerView<F>) -> (nat, int) {
    match v.phase {
        FramePhase::Receiving => (7, 0),
        FramePhase::Materialising | FramePhase::Resetting { .. } => (6, 0),
        FramePhase::Running
        | FramePhase::Flushing { .. }
        | FramePhase::ExtraBarrier { .. } => (5, 0),
        FramePhase::WritingExtra { .. } | FramePhase::Writing { .. } => (
            4,
            (v.extras.len() + v.primary.len()) as int,
        ),
        FramePhase::Signalling => (2, 0),
        FramePhase::Ending => (1, 0),
        FramePhase::Finished => (0, 0),
    }
}

/// Once a stop was asked for, every exchange brings a worker that runs a frame stage
/// nearer to its end, and it receives nothing more: what the stage made already is still
/// handed on.
pub proof fn stop_ends_the_stage<F, E>(
    v: FrameWorkerView<F>,
    shared: Shared<E>,
    reply: FrameReply<F, E>,
)
    requires
        shared.abort.cancelled,
        !(v.phase is Finished),
        !(reply is Start),
    ensures
        ({
            let (w, after, command) = v.step(shared, reply);
            &&& nearer(frame_distance(w), frame_distance(v))
            &&& after.abort.cancelled
            &&& !(command is Receive)
        }),
{
}

/// How far an encoding worker is from its end, once a stop was asked for.
pub open spec fn encode_distance(v: EncodeStage) -> (nat, int) {
    match v.phase {
        EncodePhase::Receiving => (7, 0),
        EncodePhase::Materialising => (6, 0),
        EncodePhase::SendingFrame | EncodePhase::Flushing { .. } => (5, 0),
        EncodePhase::Writing { .. } => (4, 0),
        EncodePhase::ReceivingPacket { .. } => (3, 0),
        EncodePhase::Signalling => (2, 0),
        EncodePhase::Ending => (1, 0),
        EncodePhase::Finished => (0, 0),
    }
}

/// Once a stop was asked for, every exchange brings an encoding worker nearer to its end,
/// unless the encoder hands out one more packet; and it receives nothing more.
pub proof fn stop_ends_the_encoder<F, E>(
    v: EncodeStage,
    shared: Shared<E>,
    reply: EncodeReply<F, E>,
)
    requires
        shared.abort.cancelled,
        !(v.phase is Finished),
        !(reply is Start),
    ensures
        ({
            let (w, after, command) = v.step_spec(shared, reply);
            &&& !(v.phase is ReceivingPacket && reply is Packet) ==> nearer(
                encode_distance(w),
                encode_distance(v),
            )
            &&& after.abort.cancelled
            &&& !(command is Receive)
        }),
{
}

/// How far the loop that feeds the sink is from its end, once a stop was asked for.
pub open spec fn mux_distance(v: MuxView) -> (nat, int) {
    let left = v.eof.len() - v.at;
    match v.phase {
        MuxPhase::Polling => (2, 4 * left + 3),
        MuxPhase::Writing { .. } | MuxPhase::Telling { .. } => (2, 4 * left + 2),
        MuxPhase::Reporting => (2, 4 * left + 1),
        MuxPhase::Top => (1, 0),
        MuxPhase::Stopped => (0, 0),
    }
}

/// Once a stop was asked for, every exchange brings the loop that feeds the sink nearer
/// to its end: it looks into the queues that it has not looked into on this pass, and
/// begins no other.
pub proof fn stop_ends_the_sink_loop<E>(
    v: MuxView,
    shared: Shared<E>,
    reply: MuxReply<E>,
    elapsed: u64,
)
    requires
        shared.abort.cancelled,
        v.phase_wf(),
        0 <= v.at,
        !(v.phase is Stopped),
    ensures
        ({
            let (w, after, command) = v.step(shared, reply, elapsed);
            &&& nearer(mux_distance(w), mux_distance(v))
            &&& after.abort.cancelled
            &&& w.phase_wf()
            &&& 0 <= w.at
        }),
{
    if !(v.phase is Top) {
        live_from_range(v.eof, v.at + 1);
        live_from_range(v.eof.update(v.at, true), v.at + 1);
    }
}

} // verus!
