//! How workers deal with failures, with the end of a stream, and with what they
//! account for.

use crate::decode_stage::{DecodeCommand, DecodePhase, DecodeReply, DecodeStage};
use crate::encode_stage::{AfterPackets, EncodeCommand, EncodePhase, EncodeReply, EncodeStage};
use crate::failure::{Cause, StageFailure};
use crate::frame_stage::{FrameCommand, FramePhase, FrameReply, FrameWorkerView, Then};
use crate::mux::{MuxPhase, MuxReply, MuxView};
use crate::source_stage::{SourcePhase, SourceReply, SourceView};
use crate::staged::{BarrierKind, Fault, QueueBudget, Sent, Shared};
use crate::workers::{
    CopyCommand, CopyReply, CopyStage, FanoutReply, FanoutStage, Msg,
};
use vstd::prelude::*;

verus! {

/// The second budget has so many bytes fewer than the first, as far as they are counted.
pub open spec fn frees(before: QueueBudget, after: QueueBudget, bytes: u64) -> bool {
    &&& after.max == before.max
    &&& before.max == 0 ==> after.in_flight == before.in_flight
    &&& before.max > 0 && bytes <= before.in_flight ==> after.in_flight == before.in_flight - bytes
    &&& before.max > 0 && bytes > before.in_flight ==> after.in_flight == 0
}

/// The second budget has so many bytes more than the first, as far as they are counted.
/// Left out are totals beyond 64 bits.
pub open spec fn takes_in(before: QueueBudget, after: QueueBudget, bytes: u64) -> bool {
    &&& after.max == before.max
    &&& before.max == 0 ==> after.in_flight == before.in_flight
    &&& before.max > 0 && before.in_flight + bytes <= u64::MAX ==> after.in_flight
        == before.in_flight + bytes
}

/// A failure of this track, with this error.
pub open spec fn is_failure<E>(f: StageFailure<E>, track: u32, error: Cause<E>) -> bool {
    &&& f.track == Some(track)
    &&& f.error == error
}

/// A packet that a worker takes from its queue leaves the bytes that are queued, once,
/// and changes nothing else; a frame does not count among them.
pub proof fn taken_bytes_are_freed<F, E>(
    copy: CopyStage,
    decode: DecodeStage,
    fanout: FanoutStage,
    frame: FrameWorkerView<F>,
    encode: EncodeStage,
    shared: Shared<E>,
    bytes: u64,
)
    requires
        copy.phase is Receiving,
        decode.phase is Receiving,
        fanout.phase is Receiving,
        frame.phase is Receiving,
        encode.phase is Receiving,
    ensures
        ({
            let (_, s, c) = copy.step_spec(shared, CopyReply::Received(Msg::Data { bytes }));
            &&& c is WritePacket
            &&& frees(shared.budget, s.budget, bytes)
            &&& s.counters == shared.counters && s.abort == shared.abort
        }),
        ({
            let (_, s, c) = decode.step_spec::<F, E>(
                shared,
                DecodeReply::Received(Msg::Data { bytes }),
            );
            &&& c is SendPacket
            &&& frees(shared.budget, s.budget, bytes)
            &&& s.counters == shared.counters && s.abort == shared.abort
        }),
        ({
            let (_, s, c) = fanout.step_spec(shared, FanoutReply::Received(Msg::Data { bytes }));
            c is WriteFrame && s == shared
        }),
        ({
            let (_, s, c) = frame.step::<E>(shared, FrameReply::Received(Msg::Data { bytes }));
            c is Materialise && s == shared
        }),
        ({
            let (_, s, c) = encode.step_spec::<F, E>(
                shared,
                EncodeReply::Received(Msg::Data { bytes }),
            );
            c is Materialise && s == shared
        }),
{
}

/// The end of a stream that may go on after a seek is handed on: at once by those that
/// hold nothing back and by the encoder, which goes on with what comes after the seek; and
/// by a decoder and a frame stage once they have nothing more. None of them ends by it.
pub proof fn stream_end_is_handed_on<F, E>(
    copy: CopyStage,
    decode: DecodeStage,
    fanout: FanoutStage,
    frame: FrameWorkerView<F>,
    encode: EncodeStage,
    shared: Shared<E>,
)
    requires
        copy.phase is Receiving,
        decode.phase is Receiving,
        fanout.phase is Receiving,
        frame.phase is Receiving,
        encode.phase is Receiving,
        !shared.abort.cancelled,
    ensures
        ({
            let (v, s, c) = copy.step_spec(shared, CopyReply::Received(Msg::StreamEnd));
            let (w, t, d) = v.step_spec(s, CopyReply::Sent(Sent::Delivered));
            c is SendStreamEnd && d is Receive && t == shared && w == copy
        }),
        ({
            let (v, s, c) = fanout.step_spec(shared, FanoutReply::Received(Msg::StreamEnd));
            let (w, t, d) = v.step_spec(s, FanoutReply::Sent(Sent::Delivered));
            c is SendStreamEnd && d is Receive && t == shared && w == fanout
        }),
        ({
            let (v, s, c) = encode.step_spec::<F, E>(
                shared,
                EncodeReply::Received(Msg::StreamEnd),
            );
            let (w, t, d) = v.step_spec::<F, E>(s, EncodeReply::Sent(Sent::Delivered));
            c is SendStreamEnd && d is Receive && t == shared && w == encode
        }),
        ({
            let (v, s, c) = decode.step_spec::<F, E>(
                shared,
                DecodeReply::Received(Msg::StreamEnd),
            );
            let (w, t, d) = v.step_spec::<F, E>(s, DecodeReply::Done);
            let (x, u, e) = w.step_spec::<F, E>(t, DecodeReply::Eof);
            let (y, r, f) = x.step_spec::<F, E>(u, DecodeReply::Sent(Sent::Delivered));
            &&& c is FlushDecoder && d is ReceiveFrame && e is SendStreamEnd && f is Receive
            &&& r == shared && y == decode
        }),
{
}

/// A frame stage that holds nothing back hands on, when it is flushed, just what is to
/// follow: that the stream is over for now, or that it is over; where it is to stop, it
/// ends either way.
pub proof fn flushed_stage_goes_on<F, E>(
    frame: FrameWorkerView<F>,
    shared: Shared<E>,
    out: crate::pump::FilterEmissions<F>,
    then: Then,
)
    requires
        frame.phase == (FramePhase::Flushing { then }),
        out.primary@.len() == 0,
        out.extras@.len() == 0,
    ensures
        ({
            let (_, s, c) = frame.step::<E>(shared, FrameReply::Emitted(out));
            &&& s == shared
            &&& then is StreamEnd && !shared.abort.cancelled ==> c is SendStreamEnd
            &&& then is StreamEnd && shared.abort.cancelled ==> c is SendEof
            &&& then is End ==> c is SendEof
        }),
        ({
            let receiving = frame.at(FramePhase::Receiving);
            let (v, _, c) = receiving.step::<E>(shared, FrameReply::Received(Msg::StreamEnd));
            let (w, _, d) = receiving.step::<E>(shared, FrameReply::Received(Msg::Eof));
            &&& c is FlushStage && v.phase == (FramePhase::Flushing { then: Then::StreamEnd })
            &&& d is FlushStage && w.phase == (FramePhase::Flushing { then: Then::End })
        }),
{
}

/// A call that fails fails the worker with the very error, at the stage that the call
/// belongs to and on the worker's own track, and changes nothing else: bringing a frame
/// into plain memory belongs to conversion, a filter's calls to the filter, an encoder's
/// to the encoder. Only the encoder that fails to give up what it has at a seek goes on.
pub proof fn failing_calls_fail_the_worker<F, E>(
    frame: FrameWorkerView<F>,
    encode: EncodeStage,
    shared: Shared<E>,
    e: E,
)
    ensures
        frame.phase is Materialising || frame.phase is Running || frame.phase is Flushing ==> ({
            let (v, s, c) = frame.step::<E>(shared, FrameReply::Error(e));
            &&& c is Failed && is_failure(c->Failed_0, frame.track, Cause::Raised(e))
            &&& frame.phase is Materialising ==> c->Failed_0.stage is Convert
            &&& !(frame.phase is Materialising) && frame.stage is Filter
                ==> c->Failed_0.stage is Filter
            &&& !(frame.phase is Materialising) && frame.stage is PixConvert
                ==> c->Failed_0.stage is Convert
            &&& v.phase is Finished && s == shared
        }),
        encode.phase is Materialising || encode.phase is SendingFrame || encode.phase
            is ReceivingPacket || encode.phase == (EncodePhase::Flushing {
            then: AfterPackets::End,
        }) ==> ({
            let (v, s, c) = encode.step_spec::<F, E>(shared, EncodeReply::Error(e));
            &&& c is Failed && is_failure(c->Failed_0, encode.track, Cause::Raised(e))
            &&& encode.phase is Materialising ==> c->Failed_0.stage is Convert
            &&& !(encode.phase is Materialising) ==> c->Failed_0.stage is Encode
            &&& v.phase is Finished && s == shared
        }),
        encode.phase is Flushing && !(encode.phase->Flushing_then is End) ==> ({
            let (v, s, c) = encode.step_spec::<F, E>(shared, EncodeReply::Error(e));
            c is ReceivePacket && s == shared && v.phase is ReceivingPacket
        }),
{
}

/// A packet that the decoder does not take is skipped, and counted as that once. Only a
/// decoder that gave up fails the worker, at decoding and with its own error; and not even
/// that where it answers the call to stop, which ends the worker.
pub proof fn refused_packets_are_skipped<F, E>(
    decode: DecodeStage,
    shared: Shared<E>,
    fault: Fault<E>,
)
    requires
        decode.phase is SendingPacket,
        shared.counters.packets_skipped < u64::MAX,
    ensures
        ({
            let (v, s, c) = decode.step_spec::<F, E>(shared, DecodeReply::Fault(fault));
            &&& !fault.cancelled ==> {
                &&& s.counters.packets_skipped == shared.counters.packets_skipped + 1
                &&& s.counters.packets_read == shared.counters.packets_read
                &&& s.counters.frames_decoded == shared.counters.frames_decoded
                &&& s.counters.frames_written == shared.counters.frames_written
                &&& s.counters.packets_copied == shared.counters.packets_copied
                &&& s.counters.packets_encoded == shared.counters.packets_encoded
                &&& s.budget == shared.budget && s.abort == shared.abort
                &&& !shared.abort.cancelled ==> c is Receive
                &&& shared.abort.cancelled ==> c is SendEof
            }
            &&& fault.cancelled && shared.abort.cancelled ==> c is SendEof && s == shared
            &&& fault.cancelled && !shared.abort.cancelled ==> {
                &&& c is Failed && is_failure(c->Failed_0, decode.track, fault.cause)
                &&& c->Failed_0.stage is Decode
                &&& v.phase is Finished && s == shared
            }
        }),
{
}

/// A decoder that fails while its frames are taken skips the packet, unless it has made a
/// frame of it; each frame is counted as decoded when it is there, once.
pub proof fn frames_are_counted_as_decoded<F, E>(
    decode: DecodeStage,
    shared: Shared<E>,
    fault: Fault<E>,
    f: F,
    produced: bool,
)
    requires
        decode.phase == (DecodePhase::ReceivingFrame { produced }),
        shared.counters.packets_skipped < u64::MAX,
        shared.counters.frames_decoded < u64::MAX,
    ensures
        ({
            let (v, s, c) = decode.step_spec::<F, E>(shared, DecodeReply::Frame(f));
            &&& c is WriteFrame && c->WriteFrame_0 == f
            &&& s.counters.frames_decoded == shared.counters.frames_decoded + 1
            &&& s.counters.packets_skipped == shared.counters.packets_skipped
            &&& s.counters.frames_written == shared.counters.frames_written
            &&& s.budget == shared.budget && s.abort == shared.abort
        }),
        ({
            let (v, s, c) = decode.step_spec::<F, E>(shared, DecodeReply::Fault(fault));
            &&& produced ==> s == shared
            &&& !produced ==> s.counters.packets_skipped == shared.counters.packets_skipped + 1
            &&& s.counters.frames_decoded == shared.counters.frames_decoded
            &&& !shared.abort.cancelled ==> c is Receive
        }),
        decode.step_spec::<F, E>(shared, DecodeReply::NeedMore).1 == shared,
        !shared.abort.cancelled ==> decode.step_spec::<F, E>(shared, DecodeReply::NeedMore).2
            is Receive,
{
}

/// A worker whose queue downstream is gone, or whose sink has failed, tells the end and
/// takes nothing more, and everybody stops; what failed first stays what failed first.
pub proof fn lost_delivery_ends_the_worker<F, E>(
    copy: CopyStage,
    decode: DecodeStage,
    fanout: FanoutStage,
    frame: FrameWorkerView<F>,
    encode: EncodeStage,
    shared: Shared<E>,
    sent: Sent<E>,
)
    requires
        !(sent is Delivered),
    ensures
        copy.phase is Writing || copy.phase is Signalling ==> ({
            let (v, s, c) = copy.step_spec(shared, CopyReply::Sent(sent));
            &&& c is SendEof && v.phase is Ending && s.abort.cancelled
            &&& shared.abort.first is Some ==> s.abort.first == shared.abort.first
            &&& s.counters == shared.counters && s.budget == shared.budget
        }),
        fanout.phase is Writing || fanout.phase is Signalling ==> ({
            let (v, s, c) = fanout.step_spec(shared, FanoutReply::Sent(sent));
            &&& c is SendEof && v.phase is Ending && s.abort.cancelled
            &&& shared.abort.first is Some ==> s.abort.first == shared.abort.first
            &&& s.counters == shared.counters && s.budget == shared.budget
        }),
        decode.phase is Writing || decode.phase is WritingTail || decode.phase is Signalling
            || decode.phase is Updating ==> ({
            let (v, s, c) = decode.step_spec::<F, E>(shared, DecodeReply::Sent(sent));
            &&& c is SendEof && v.phase is Ending && s.abort.cancelled
            &&& v.last == decode.last
            &&& s.counters == shared.counters && s.budget == shared.budget
        }),
        encode.phase is Writing || encode.phase is Signalling ==> ({
            let (v, s, c) = encode.step_spec::<F, E>(shared, EncodeReply::Sent(sent));
            &&& c is SendEof && v.phase is Ending && s.abort.cancelled
            &&& s.counters == shared.counters && s.budget == shared.budget
        }),
        frame.phase is Writing || frame.phase is Signalling ==> ({
            let (v, s, c) = frame.step::<E>(shared, FrameReply::Sent(sent));
            &&& c is SendEof && v.phase is Ending && s.abort.cancelled
            &&& s.counters == shared.counters && s.budget == shared.budget
        }),
        frame.phase is WritingExtra ==> ({
            let (v, s, c) = frame.step::<E>(shared, FrameReply::Sent(sent));
            &&& !(c is WriteExtra) && v.extras.len() == 0 && s.abort.cancelled
            &&& frame.primary.len() > 0 ==> c is WriteFrame && c->WriteFrame_0 == frame.primary[0]
        }),
{
}

/// Everybody ends when it is to stop, instead of taking the next message; whoever is not
/// stopped takes it.
pub proof fn stop_goes_before_everything<F, E>(
    copy: CopyStage,
    decode: DecodeStage,
    fanout: FanoutStage,
    frame: FrameWorkerView<F>,
    encode: EncodeStage,
    source: SourceView,
    shared: Shared<E>,
)
    ensures
        shared.abort.cancelled ==> {
            &&& copy.step_spec(shared, CopyReply::Start).2 is SendEof
            &&& decode.step_spec::<F, E>(shared, DecodeReply::Start).2 is SendEof
            &&& fanout.step_spec(shared, FanoutReply::Start).2 is SendEof
            &&& frame.step::<E>(shared, FrameReply::Start).2 is SendEof
            &&& encode.step_spec::<F, E>(shared, EncodeReply::Start).2 is SendEof
            &&& source.phase is Top && source.routes.len() > 0 ==> source.step(
                shared,
                SourceReply::Start,
            ).2 is SendEof
        },
        !shared.abort.cancelled ==> {
            &&& copy.step_spec(shared, CopyReply::Start).2 is Receive
            &&& decode.step_spec::<F, E>(shared, DecodeReply::Start).2 is Receive
            &&& fanout.step_spec(shared, FanoutReply::Start).2 is Receive
            &&& frame.step::<E>(shared, FrameReply::Start).2 is Receive
            &&& encode.step_spec::<F, E>(shared, EncodeReply::Start).2 is Receive
        },
{
}

/// What a sink of frames is told of their shape goes on as it came; the other workers
/// keep it to themselves and take the next message.
pub proof fn shapes_are_handed_on<F, E>(
    copy: CopyStage,
    decode: DecodeStage,
    fanout: FanoutStage,
    frame: FrameWorkerView<F>,
    encode: EncodeStage,
    shared: Shared<E>,
)
    requires
        copy.phase is Receiving,
        decode.phase is Receiving,
        fanout.phase is Receiving,
        frame.phase is Receiving,
        encode.phase is Receiving,
        !shared.abort.cancelled,
    ensures
        fanout.step_spec(shared, FanoutReply::Received(Msg::StreamUpdate)).2 is SendUpdate,
        copy.step_spec(shared, CopyReply::Received(Msg::StreamUpdate)) == (
            copy,
            shared,
            CopyCommand::Receive,
        ),
        decode.step_spec::<F, E>(shared, DecodeReply::Received(Msg::StreamUpdate)) == (
            decode,
            shared,
            DecodeCommand::<F, E>::Receive,
        ),
        frame.step::<E>(shared, FrameReply::Received(Msg::StreamUpdate)) == (
            frame,
            shared,
            FrameCommand::<F, E>::Receive,
        ),
        encode.step_spec::<F, E>(shared, EncodeReply::Received(Msg::StreamUpdate)) == (
            encode,
            shared,
            EncodeCommand::<F, E>::Receive,
        ),
{
}

/// A source counts what it reads when it has read it, a packet as read and a frame as
/// decoded; a packet is among the queued bytes once for each route before it is handed
/// over, and no longer where it does not arrive, which stops everybody. A frame is never
/// among them.
pub proof fn source_keeps_account<E>(
    v: SourceView,
    shared: Shared<E>,
    stream: u32,
    bytes: u64,
    route: usize,
)
    requires
        v.routes.len() <= usize::MAX,
        shared.counters.packets_read < u64::MAX,
        shared.counters.frames_decoded < u64::MAX,
    ensures
        v.phase is Reading && !v.frames ==> ({
            let (w, s, c) = v.step(shared, SourceReply::Packet { stream, bytes });
            &&& s.counters.packets_read == shared.counters.packets_read + 1
            &&& s.counters.frames_decoded == shared.counters.frames_decoded
            &&& s.counters.packets_copied == shared.counters.packets_copied
            &&& s.counters.packets_encoded == shared.counters.packets_encoded
            &&& s.counters.frames_written == shared.counters.frames_written
            &&& s.counters.packets_skipped == shared.counters.packets_skipped
            &&& c is SendData ==> takes_in(shared.budget, s.budget, bytes)
            &&& !(c is SendData) ==> s.budget == shared.budget
            &&& s.abort == shared.abort
        }),
        v.phase is Reading && v.frames ==> ({
            let (w, s, c) = v.step(shared, SourceReply::Frame);
            &&& s.counters.frames_decoded == shared.counters.frames_decoded + 1
            &&& s.counters.packets_read == shared.counters.packets_read
            &&& s.counters.frames_written == shared.counters.frames_written
            &&& s.counters.packets_skipped == shared.counters.packets_skipped
            &&& s.budget == shared.budget && s.abort == shared.abort
        }),
        v.phase == (SourcePhase::Sending { stream, bytes, route }) ==> ({
            let (w, s, c) = v.step(shared, SourceReply::Sent);
            &&& s.counters == shared.counters && s.abort == shared.abort
            &&& c is SendData && !v.frames ==> takes_in(shared.budget, s.budget, bytes)
            &&& !(c is SendData) || v.frames ==> s.budget == shared.budget
        }),
        v.phase == (SourcePhase::Sending { stream, bytes, route }) ==> ({
            let (w, s, c) = v.step(shared, SourceReply::Closed);
            &&& s.counters == shared.counters
            &&& s.abort.cancelled && s.abort.first == shared.abort.first
            &&& !v.frames ==> frees(shared.budget, s.budget, bytes)
            &&& v.frames ==> s.budget == shared.budget
            &&& v.routes.len() > 0 ==> c is SendEof && c->SendEof_route == 0
        }),
{
}

/// A source that fails says so, as itself and without a track, with the very error. One
/// at its end tells its routes: that nothing more comes, or, where it stays for a seek,
/// that this is all for now. One that finds a route gone in telling so stops everybody and
/// is done.
pub proof fn source_tells_how_it_ended<E>(v: SourceView, shared: Shared<E>, e: E)
    requires
        v.routes.len() > 0,
    ensures
        v.phase is Reading ==> ({
            let (w, s, c) = v.step(shared, SourceReply::Error(e));
            &&& c is Failed && c->Failed_0.error == Cause::Raised(e)
            &&& c->Failed_0.stage is Source && c->Failed_0.track is None
            &&& w.phase is Finished && s == shared
        }),
        v.phase is Reading ==> ({
            let (w, s, c) = v.step(shared, SourceReply::<E>::Eof);
            &&& v.park_at_eof ==> c is SendStreamEnd && c->SendStreamEnd_route == 0
            &&& !v.park_at_eof ==> c is SendEof && c->SendEof_route == 0
            &&& s == shared
        }),
        v.phase is Barrier || v.phase is Ending ==> ({
            let (w, s, c) = v.step(shared, SourceReply::<E>::Closed);
            &&& c is Finished && w.phase is Finished
            &&& s.abort.cancelled && s.abort.first == shared.abort.first
            &&& s.counters == shared.counters && s.budget == shared.budget
        }),
{
}

/// A source that stays for a seek tells route after route, each once, that this is all
/// for now, and is then at its end.
pub proof fn all_routes_hear_of_the_pause<E>(v: SourceView, shared: Shared<E>, route: usize)
    requires
        v.phase == (SourcePhase::Ending { route }),
        route < v.routes.len() <= usize::MAX,
        !shared.abort.cancelled,
        !shared.budget.full(),
    ensures
        ({
            let (w, s, c) = v.step(shared, SourceReply::<E>::Sent);
            &&& s == shared
            &&& route + 1 < v.routes.len() ==> c is SendStreamEnd && c->SendStreamEnd_route
                == route + 1 && w.ended == v.ended
            &&& route + 1 == v.routes.len() ==> w.ended && (v.has_seek ==> c is PollSeek) && (
            !v.has_seek ==> c is Park)
        }),
{
}

/// Everything that a queue holds goes to the sink as what it is: a packet under its
/// stream's index, a frame, a change of shape, a barrier, the end of a stream of that
/// track. An end, or a worker that is gone, ends only that track, and nothing else does.
pub proof fn sink_gets_what_is_queued<E>(
    v: MuxView,
    shared: Shared<E>,
    stream: u32,
    pts: Option<i64>,
    b: BarrierKind,
    elapsed: u64,
)
    requires
        v.phase is Polling,
        0 <= v.at < v.eof.len() <= u32::MAX,
    ensures
        ({
            let (w, s, c) = v.step(shared, MuxReply::Packet { stream, pts }, elapsed);
            c is WritePacket && c->stream_index == stream && s == shared && w.eof == v.eof
        }),
        ({
            let (w, s, c) = v.step(shared, MuxReply::Frame { stream, pts }, elapsed);
            c is WriteFrame && s == shared && w.eof == v.eof
        }),
        ({
            let (w, s, c) = v.step(shared, MuxReply::Update { stream }, elapsed);
            c is StreamUpdate && s == shared && w.eof == v.eof
        }),
        ({
            let (w, s, c) = v.step(shared, MuxReply::<E>::Barrier(b), elapsed);
            c is Barrier && c->Barrier_0 == b && s == shared && w.eof == v.eof
        }),
        ({
            let (w, s, c) = v.step(shared, MuxReply::<E>::StreamEnd, elapsed);
            c is EndOfStream && c->EndOfStream_track == v.at && s == shared && w.eof == v.eof
        }),
        ({
            let (w, s, _) = v.step(shared, MuxReply::<E>::Eof, elapsed);
            let (x, t, _) = v.step(shared, MuxReply::<E>::Disconnected, elapsed);
            &&& s == shared && t == shared
            &&& w.eof.len() == v.eof.len() && x.eof.len() == v.eof.len()
            &&& w.eof[v.at] && x.eof[v.at]
            &&& forall|i: int|
                0 <= i < v.eof.len() && i != v.at ==> w.eof[i] == #[trigger] v.eof[i] && x.eof[i]
                    == v.eof[i]
        }),
        v.step(shared, MuxReply::<E>::Empty, elapsed).0.eof == v.eof,
{
}

/// What the sink took is reported where somebody wants to hear of it: with its position,
/// the time, and the counters, in which a frame counts as written and a packet does not.
pub proof fn report_follows_the_write<E>(
    v: MuxView,
    shared: Shared<E>,
    stream: u32,
    frame: bool,
    pts: Option<i64>,
    elapsed: u64,
)
    requires
        v.phase == (MuxPhase::Writing { frame, stream, pts }),
        shared.counters.frames_written < u64::MAX,
    ensures
        ({
            let (w, s, c) = v.step(shared, MuxReply::<E>::Done, elapsed);
            &&& s.counters.frames_written == shared.counters.frames_written + (if frame {
                1int
            } else {
                0
            })
            &&& s.counters.packets_read == shared.counters.packets_read
            &&& s.counters.packets_copied == shared.counters.packets_copied
            &&& s.counters.packets_encoded == shared.counters.packets_encoded
            &&& s.counters.frames_decoded == shared.counters.frames_decoded
            &&& s.counters.packets_skipped == shared.counters.packets_skipped
            &&& s.budget == shared.budget && s.abort == shared.abort
            &&& c is Report <==> v.reports
            &&& v.reports ==> c->Report_0.pts == pts && !c->Report_0.eof
                && c->Report_0.elapsed_micros == elapsed && c->Report_0.frames
                == s.counters.frames_written
        }),
{
}

/// A sink that fails on a change of shape, a barrier or the end of a stream is blamed on
/// the track that it came from, or on the stream that changed; the failure stops everybody,
/// and an earlier one stays the first.
pub proof fn failing_signals_are_blamed<E>(
    v: MuxView,
    shared: Shared<E>,
    stream: u32,
    b: BarrierKind,
    e: E,
    elapsed: u64,
)
    requires
        v.phase is Polling,
        0 <= v.at < v.eof.len() <= u32::MAX,
    ensures
        ({
            let (w, s, _) = v.step(shared, MuxReply::<E>::Update { stream }, elapsed);
            let (_, t, d) = w.step(s, MuxReply::Error(e), elapsed);
            &&& d is Stop && t.abort.cancelled && t.counters == shared.counters
            &&& shared.abort.first is Some ==> t.abort.first == shared.abort.first
            &&& shared.abort.first is None ==> t.abort.first is Some && is_failure(
                t.abort.first->0,
                stream,
                Cause::Raised(e),
            ) && t.abort.first->0.stage is Sink
        }),
        ({
            let (w, s, _) = v.step(shared, MuxReply::<E>::Barrier(b), elapsed);
            let (_, t, d) = w.step(s, MuxReply::Error(e), elapsed);
            &&& d is Stop && t.abort.cancelled
            &&& shared.abort.first is None ==> t.abort.first is Some && is_failure(
                t.abort.first->0,
                v.at as u32,
                Cause::Raised(e),
            ) && t.abort.first->0.stage is Sink
        }),
        ({
            let (w, s, _) = v.step(shared, MuxReply::<E>::StreamEnd, elapsed);
            let (_, t, d) = w.step(s, MuxReply::Error(e), elapsed);
            &&& d is Stop && t.abort.cancelled
            &&& shared.abort.first is None ==> t.abort.first is Some && is_failure(
                t.abort.first->0,
                v.at as u32,
                Cause::Raised(e),
            ) && t.abort.first->0.stage is Sink
        }),
{
}

/// The end of the data makes those that hold something back give it up first, a decoder,
/// a stage and an encoder, and is handed on at once by the others. Where the sender is gone
/// without a word, and where a decoder says that its stream is over, the end is handed on
/// as it is.
pub proof fn end_of_data_is_handed_on<F, E>(
    copy: CopyStage,
    decode: DecodeStage,
    fanout: FanoutStage,
    frame: FrameWorkerView<F>,
    encode: EncodeStage,
    shared: Shared<E>,
)
    requires
        copy.phase is Receiving,
        decode.phase is Receiving,
        fanout.phase is Receiving,
        frame.phase is Receiving,
        encode.phase is Receiving,
    ensures
        copy.step_spec(shared, CopyReply::Received(Msg::Eof)).2 is SendEof,
        fanout.step_spec(shared, FanoutReply::Received(Msg::Eof)).2 is SendEof,
        decode.step_spec::<F, E>(shared, DecodeReply::Received(Msg::Eof)).2 is FlushDecoder,
        frame.step::<E>(shared, FrameReply::Received(Msg::Eof)).2 is FlushStage,
        encode.step_spec::<F, E>(shared, EncodeReply::Received(Msg::Eof)).2 is FlushEncoder,
        copy.step_spec(shared, CopyReply::Received(Msg::Disconnected)).2 is SendEof,
        fanout.step_spec(shared, FanoutReply::Received(Msg::Disconnected)).2 is SendEof,
        decode.step_spec::<F, E>(shared, DecodeReply::Received(Msg::Disconnected)).2 is SendEof,
        frame.step::<E>(shared, FrameReply::Received(Msg::Disconnected)).2 is SendEof,
        encode.step_spec::<F, E>(shared, EncodeReply::Received(Msg::Disconnected)).2 is SendEof,
        ({
            let taking = decode.at(DecodePhase::ReceivingFrame { produced: false });
            let more = decode.at(DecodePhase::ReceivingFrame { produced: true });
            &&& taking.step_spec::<F, E>(shared, DecodeReply::Eof).2 is SendEof
            &&& more.step_spec::<F, E>(shared, DecodeReply::Eof).2 is SendEof
            &&& taking.step_spec::<F, E>(shared, DecodeReply::Eof).1 == shared
        }),
{
}

/// What a decoder still holds at the end is taken whatever became of flushing it, each
/// frame counted as decoded once, until it has none or fails; then the end is handed on,
/// or, where the stream may go on, that it is over for now.
pub proof fn decoder_is_emptied_at_the_end<F, E>(
    decode: DecodeStage,
    shared: Shared<E>,
    flushed: DecodeReply<F, E>,
    fault: Fault<E>,
    f: F,
    last: bool,
)
    requires
        !shared.abort.cancelled,
        !(flushed is Start),
        shared.counters.frames_decoded < u64::MAX,
    ensures
        decode.phase == (DecodePhase::Flushing { last }) ==> ({
            let (v, s, c) = decode.step_spec(shared, flushed);
            c is ReceiveFrame && s == shared && v.phase == (DecodePhase::ReceivingTail { last })
        }),
        decode.phase == (DecodePhase::ReceivingTail { last }) ==> ({
            let (v, s, c) = decode.step_spec::<F, E>(shared, DecodeReply::Frame(f));
            let (w, t, d) = decode.step_spec::<F, E>(shared, DecodeReply::Fault(fault));
            let (x, u, e) = decode.step_spec::<F, E>(shared, DecodeReply::Eof);
            &&& c is WriteFrame && c->WriteFrame_0 == f
            &&& s.counters.frames_decoded == shared.counters.frames_decoded + 1
            &&& s.counters.packets_skipped == shared.counters.packets_skipped
            &&& t == shared && u == shared
            &&& last ==> d is SendEof && e is SendEof
            &&& !last ==> d is SendStreamEnd && e is SendStreamEnd
        }),
{
}

/// An encoder gives up what it still holds at the end, packet by packet, and then hands
/// the end on; at a seek it hands on the barrier that made it do so, and goes on.
pub proof fn encoder_is_emptied_at_the_end<F, E>(
    encode: EncodeStage,
    shared: Shared<E>,
    flushed: EncodeReply<F, E>,
    b: BarrierKind,
)
    requires
        encode.phase is Receiving,
        !(flushed is Start || flushed is Error),
        b is SeekFlush,
    ensures
        ({
            let (v, s, c) = encode.step_spec::<F, E>(shared, EncodeReply::Received(Msg::Eof));
            let (w, t, d) = v.step_spec(s, flushed);
            let (x, u, e) = w.step_spec::<F, E>(t, EncodeReply::NoMore);
            let (_, r, f) = w.step_spec::<F, E>(t, EncodeReply::Packet);
            &&& c is FlushEncoder && d is ReceivePacket && e is SendEof && f is WritePacket
            &&& u == shared && r == shared && x.phase is Ending
        }),
        ({
            let (v, s, c) = encode.step_spec::<F, E>(
                shared,
                EncodeReply::Received(Msg::Barrier(b)),
            );
            let (w, t, d) = v.step_spec(s, flushed);
            let (_, u, e) = w.step_spec::<F, E>(t, EncodeReply::NoMore);
            &&& c is FlushEncoder && d is ReceivePacket
            &&& e is SendBarrier && e->SendBarrier_0 == b && u == shared
        }),
{
}

/// Between what it reads, a source looks up: it ends where it is to stop, waits where the
/// queues are full, looks for a seek where any can come, and only then reads on. It also
/// looks for a seek while it stays at its end.
pub proof fn source_looks_up_between_reads<E>(
    v: SourceView,
    shared: Shared<E>,
    stream: u32,
    bytes: u64,
    route: usize,
)
    requires
        v.phase == (SourcePhase::Sending { stream, bytes, route }),
        route + 1 == v.routes.len() <= usize::MAX,
    ensures
        ({
            let (w, s, c) = v.step(shared, SourceReply::<E>::Sent);
            let full = !v.frames && 0 < shared.budget.max <= shared.budget.in_flight;
            &&& s == shared
            &&& shared.abort.cancelled ==> c is SendEof && c->SendEof_route == 0
            &&& !shared.abort.cancelled && full ==> c is Park
            &&& !shared.abort.cancelled && !full && v.has_seek ==> c is PollSeek
            &&& !shared.abort.cancelled && !full && !v.has_seek && !v.ended && v.frames ==> c
                is ReadFrame
            &&& !shared.abort.cancelled && !full && !v.has_seek && !v.ended && !v.frames ==> c
                is ReadPacket
        }),
        ({
            let top = v.at(SourcePhase::Top);
            let (_, _, c) = top.step(shared, SourceReply::<E>::Start);
            !shared.abort.cancelled && !shared.budget.full() && v.has_seek ==> c is PollSeek
        }),
{
}

/// A frame that was brought into plain memory is the one that the stage or the encoder
/// gets. What a stage makes of a frame, and what it gives up when it is flushed, all goes
/// out: extra frames first where there is a place for them, then the others.
pub proof fn emissions_go_out<F, E>(
    frame: FrameWorkerView<F>,
    encode: EncodeStage,
    shared: Shared<E>,
    f: F,
    out: crate::pump::FilterEmissions<F>,
)
    ensures
        frame.phase is Materialising ==> ({
            let (_, s, c) = frame.step::<E>(shared, FrameReply::Frame(f));
            c is RunStage && c->RunStage_0 == f && s == shared
        }),
        encode.phase is Materialising ==> ({
            let (_, s, c) = encode.step_spec::<F, E>(shared, EncodeReply::Frame(f));
            c is SendFrame && c->SendFrame_0 == f && s == shared
        }),
        frame.phase is Running || frame.phase is Flushing ==> ({
            let (w, s, c) = frame.step::<E>(shared, FrameReply::Emitted(out));
            let extras = out.extras@.len() > 0 && frame.extras_base is Some;
            &&& s == shared
            &&& extras ==> {
                &&& c is WriteExtra && c->WriteExtra_frame == out.extras@[0].frame
                &&& c->WriteExtra_kind == out.extras@[0].kind
                &&& w.extras.len() == out.extras@.len() - 1
                &&& forall|i: int|
                    0 <= i < w.extras.len() ==> #[trigger] w.extras[i] == out.extras@[i + 1]
                &&& w.primary == out.primary@
            }
            &&& !extras && out.primary@.len() > 0 ==> {
                &&& c is WriteFrame && c->WriteFrame_0 == out.primary@[0]
                &&& w.primary.len() == out.primary@.len() - 1
                &&& forall|i: int|
                    0 <= i < w.primary.len() ==> #[trigger] w.primary[i] == out.primary@[i + 1]
            }
            &&& !extras && out.primary@.len() == 0 && frame.phase is Running
                && !shared.abort.cancelled ==> c is Receive
        }),
{
}

} // verus!
