//! One thread or many, step by step: what a packet or a frame adds to the counters
//! depends only on what decoder and encoder make of it, and a failure is put down
//! to the same stage.

use crate::decode_stage::{DecodeCommand, DecodePhase, DecodeReply, DecodeStage};
use crate::encode_stage::{AfterPackets, EncodeCommand, EncodePhase, EncodeReply, EncodeStage};
use crate::failure::{Cause, FailureStage, StageFailure};
use crate::frame_stage::{FrameCommand, FrameReply, FrameWorkerView};
use crate::mux::{MuxPhase, MuxReply, MuxView};
use crate::pump::{
    no_work, packet_mode, stage_kind, Command, Mode, PumpTrackView, PumpView, Reply, Waiting,
};
use crate::staged::{Fault, Sent, Shared};
use crate::stats::ExecutorStats;
use crate::workers::{CopyCommand, CopyReply, CopyStage, Msg};
use vstd::prelude::*;

verus! {

/// The counters with so many frames decoded more, and so many written.
pub open spec fn with_frames(stats: ExecutorStats, decoded: nat, written: nat) -> ExecutorStats {
    ExecutorStats {
        frames_decoded: (stats.frames_decoded + decoded) as u64,
        frames_written: (stats.frames_written + written) as u64,
        ..stats
    }
}

/// How many of `n` frames a decoder's deliveries count as written: all where it
/// delivers to a sink, else none, as they are counted where they reach one.
pub open spec fn written_by(stage: DecodeStage, n: nat) -> nat {
    if stage.to is Independent {
        n
    } else {
        0
    }
}

/// What a packet adds to the counters: the frames that came out of it, and a skip
/// where the decoder failed on it before its first frame.
pub open spec fn packet_counts(
    stats: ExecutorStats,
    accepted: bool,
    frames: nat,
    written: nat,
    failed: bool,
) -> ExecutorStats {
    if !accepted || (failed && frames == 0) {
        ExecutorStats {
            packets_skipped: (stats.packets_skipped + 1) as u64,
            ..stats
        }
    } else {
        with_frames(stats, frames, written)
    }
}

/// On one thread: the track after the decoder handed out these frames and the
/// sink took them.
pub open spec fn serial_frames<F, E>(v: PumpView<F>, stats: ExecutorStats, frames: Seq<F>) -> (
    PumpView<F>,
    ExecutorStats,
    Command<F, E>,
)
    decreases frames.len(),
{
    if frames.len() == 0 {
        (v, stats, Command::ReceiveFrame)
    } else {
        let (w, s, _) = serial_frames::<F, E>(v, stats, frames.drop_last());
        let (w, s, _) = w.step::<E>(s, Reply::Frame(frames.last()));
        w.step::<E>(s, Reply::Done)
    }
}

/// On one thread: the counters after a packet.
pub open spec fn serial_packet<F, E>(
    track: PumpTrackView,
    stats: ExecutorStats,
    accepted: bool,
    frames: Seq<F>,
    failed: bool,
    error: E,
) -> (ExecutorStats, Command<F, E>) {
    let (v, s, _) = PumpView::<F>::started(track, packet_mode(track), None).step::<E>(
        stats,
        Reply::Start,
    );
    let (v, s, c) = v.step::<E>(
        s,
        if accepted {
            Reply::Done
        } else {
            Reply::Error(error)
        },
    );
    if !accepted {
        (s, c)
    } else {
        let (v, s, _) = serial_frames::<F, E>(v, s, frames);
        let (v, s, c) = v.step::<E>(
            s,
            if failed {
                Reply::Error(error)
            } else {
                Reply::NoMore
            },
        );
        (s, c)
    }
}

/// On a thread of its own: the decoder after it handed out these frames and the
/// sink took them.
pub open spec fn staged_frames<F, E>(stage: DecodeStage, shared: Shared<E>, frames: Seq<F>) -> (
    DecodeStage,
    Shared<E>,
    DecodeCommand<F, E>,
)
    decreases frames.len(),
{
    if frames.len() == 0 {
        (stage, shared, DecodeCommand::ReceiveFrame)
    } else {
        let (w, s, _) = staged_frames::<F, E>(stage, shared, frames.drop_last());
        let (w, s, _) = w.step_spec::<F, E>(s, DecodeReply::Frame(frames.last()));
        w.step_spec::<F, E>(s, DecodeReply::Sent(Sent::Delivered))
    }
}

/// On a thread of its own: the shared state after a packet.
pub open spec fn staged_packet<F, E>(
    stage: DecodeStage,
    shared: Shared<E>,
    accepted: bool,
    frames: Seq<F>,
    failed: bool,
    fault: Fault<E>,
) -> (Shared<E>, DecodeCommand<F, E>) {
    let (w, s, c) = stage.step_spec::<F, E>(
        shared,
        if accepted {
            DecodeReply::Accepted { params: None }
        } else {
            DecodeReply::Fault(fault)
        },
    );
    if !accepted {
        (s, c)
    } else {
        let (w, s, _) = staged_frames::<F, E>(w, s, frames);
        let (w, s, c) = w.step_spec::<F, E>(
            s,
            if failed {
                DecodeReply::Fault(fault)
            } else {
                DecodeReply::NeedMore
            },
        );
        (s, c)
    }
}

proof fn serial_frames_counts<F, E>(v: PumpView<F>, stats: ExecutorStats, frames: Seq<F>)
    requires
        v.track.direct(),
        v.waiting is ReceiveFrame,
        v.mode is Receive,
        no_work(v),
        stats.has_room(frames.len() as int),
    ensures
        serial_frames::<F, E>(v, stats, frames) == (
            PumpView::<F> {
                mode: if frames.len() > 0 {
                    Mode::Receive { produced: true }
                } else {
                    v.mode
                },
                ..v
            },
            with_frames(stats, frames.len(), frames.len()),
            Command::<F, E>::ReceiveFrame,
        ),
    decreases frames.len(),
{
    if frames.len() > 0 {
        serial_frames_counts::<F, E>(v, stats, frames.drop_last());
        let (w, s, _) = serial_frames::<F, E>(v, stats, frames.drop_last());
        let (x, t, _) = w.step::<E>(s, Reply::Frame(frames.last()));
        let (y, u, _) = x.step::<E>(t, Reply::Done);
        assert(y =~= PumpView::<F> { mode: Mode::Receive { produced: true }, ..v });
    }
}

proof fn staged_frames_counts<F, E>(stage: DecodeStage, shared: Shared<E>, frames: Seq<F>)
    requires
        stage.phase is ReceivingFrame,
        !shared.abort.cancelled,
        shared.counters.snapshot_spec().has_room(frames.len() as int),
    ensures
        ({
            let (w, s, c) = staged_frames::<F, E>(stage, shared, frames);
            &&& c == DecodeCommand::<F, E>::ReceiveFrame
            &&& w == (DecodeStage {
                phase: if frames.len() > 0 {
                    DecodePhase::ReceivingFrame { produced: true }
                } else {
                    stage.phase
                },
                ..stage
            })
            &&& s.abort == shared.abort
            &&& s.budget == shared.budget
            &&& s.counters.snapshot_spec() == with_frames(
                shared.counters.snapshot_spec(),
                frames.len(),
                written_by(stage, frames.len()),
            )
        }),
    decreases frames.len(),
{
    if frames.len() > 0 {
        staged_frames_counts::<F, E>(stage, shared, frames.drop_last());
    }
}

/// A packet counts the same on one thread and on many, whatever the decoder makes
/// of it: refuses it, hands out frames, fails at once, or fails after some
/// frames. Only where the sink is fed from a queue are its frames counted as
/// written later, one by one, as the sink takes them. Left out are decoders that
/// say they gave up, and counters at the end of their range.
pub proof fn packets_count_alike<F, E>(
    track: PumpTrackView,
    stage: DecodeStage,
    shared: Shared<E>,
    accepted: bool,
    frames: Seq<F>,
    failed: bool,
    error: E,
)
    requires
        track.direct(),
        track.has_decoder,
        !track.copy,
        stage.phase is SendingPacket,
        !shared.abort.cancelled,
        shared.counters.snapshot_spec().has_room(frames.len() as int + 1),
    ensures
        ({
            let fault = Fault { cause: Cause::Raised(error), cancelled: false };
            let stats = shared.counters.snapshot_spec();
            let (serial, done) = serial_packet(track, stats, accepted, frames, failed, error);
            let (staged, next) = staged_packet(stage, shared, accepted, frames, failed, fault);
            let n = frames.len();
            &&& serial == packet_counts(stats, accepted, n, n, failed)
            &&& staged.counters.snapshot_spec() == packet_counts(
                stats,
                accepted,
                n,
                written_by(stage, n),
                failed,
            )
            &&& stage.to is Independent ==> staged.counters.snapshot_spec() == serial
            &&& done is Finished
            &&& next is Receive
            &&& staged.abort == shared.abort
        }),
{
    let fault = Fault { cause: Cause::Raised(error), cancelled: false };
    let stats = shared.counters.snapshot_spec();
    let (v, s, _) = PumpView::<F>::started(track, packet_mode(track), None).step::<E>(
        stats,
        Reply::Start,
    );
    assert(s == stats);
    if accepted {
        let (v, s, _) = v.step::<E>(s, Reply::Done);
        serial_frames_counts::<F, E>(v, s, frames);
        let (w, t, _) = stage.step_spec::<F, E>(shared, DecodeReply::Accepted { params: None });
        assert(t == shared);
        staged_frames_counts::<F, E>(w, t, frames);
    }
}

/// A frame that reached the queue of the sink is counted as written when the sink
/// takes it, and a packet is not counted again there.
pub proof fn queued_frames_count_at_the_sink<E>(
    v: MuxView,
    shared: Shared<E>,
    frame: bool,
    stream: u32,
    pts: Option<i64>,
    elapsed: u64,
)
    requires
        v.phase == (MuxPhase::Writing { frame, stream, pts }),
        shared.counters.snapshot_spec().has_room(1),
    ensures
        v.step(shared, MuxReply::<E>::Done, elapsed).1.counters.snapshot_spec() == with_frames(
            shared.counters.snapshot_spec(),
            0,
            if frame {
                1
            } else {
                0
            },
        ),
{
}

/// The counters with so many encoded packets more.
pub open spec fn with_packets(stats: ExecutorStats, n: nat) -> ExecutorStats {
    ExecutorStats { packets_encoded: (stats.packets_encoded + n) as u64, ..stats }
}

/// On one thread: the track after the encoder handed out so many packets and the
/// sink took them.
pub open spec fn serial_packets<F, E>(v: PumpView<F>, stats: ExecutorStats, n: nat) -> (
    PumpView<F>,
    ExecutorStats,
    Command<F, E>,
)
    decreases n,
{
    if n == 0 {
        (v, stats, Command::ReceivePacket)
    } else {
        let (w, s, _) = serial_packets::<F, E>(v, stats, (n - 1) as nat);
        let (w, s, _) = w.step::<E>(s, Reply::Packet);
        w.step::<E>(s, Reply::Done)
    }
}

/// On a thread of its own: the encoder after it handed out so many packets and
/// the sink took them.
pub open spec fn staged_packets<F, E>(stage: EncodeStage, shared: Shared<E>, n: nat) -> (
    EncodeStage,
    Shared<E>,
    EncodeCommand<F, E>,
)
    decreases n,
{
    if n == 0 {
        (stage, shared, EncodeCommand::ReceivePacket)
    } else {
        let (w, s, _) = staged_packets::<F, E>(stage, shared, (n - 1) as nat);
        let (w, s, _) = w.step_spec::<F, E>(s, EncodeReply::Packet);
        w.step_spec::<F, E>(s, EncodeReply::Sent(Sent::Delivered))
    }
}

/// What an encoder makes of a frame counts the same on one thread and on many.
/// Left out are counters at the end of their range.
pub proof fn encoded_packets_count_alike<F, E>(
    v: PumpView<F>,
    stage: EncodeStage,
    shared: Shared<E>,
    n: nat,
)
    requires
        v.waiting is ReceivePacket,
        !(v.mode is FlushStages),
        v.receiving,
        !v.packet,
        v.extras.len() == 0,
        stage.phase is ReceivingPacket,
        !shared.abort.cancelled,
        shared.counters.snapshot_spec().has_room(n as int),
    ensures
        ({
            let stats = shared.counters.snapshot_spec();
            let (w, serial, c) = serial_packets::<F, E>(v, stats, n);
            let (x, staged, d) = staged_packets::<F, E>(stage, shared, n);
            &&& serial == with_packets(stats, n)
            &&& staged.counters.snapshot_spec() == serial
            &&& staged.abort == shared.abort
            &&& c is ReceivePacket
            &&& d is ReceivePacket
            &&& w == v
            &&& x == stage
        }),
    decreases n,
{
    if n > 0 {
        encoded_packets_count_alike::<F, E>(v, stage, shared, (n - 1) as nat);
        let stats = shared.counters.snapshot_spec();
        let (w, s, _) = serial_packets::<F, E>(v, stats, (n - 1) as nat);
        let (x, t, _) = w.step::<E>(s, Reply::Packet);
        let (y, u, _) = x.step::<E>(t, Reply::Done);
        assert(y =~= v);
    }
}

/// A copied packet counts the same on one thread and on many.
pub proof fn copies_count_alike<F, E>(
    track: PumpTrackView,
    stage: CopyStage,
    shared: Shared<E>,
    bytes: u64,
)
    requires
        track.copy,
        stage.phase is Receiving,
        !shared.abort.cancelled,
        shared.counters.snapshot_spec().has_room(1),
    ensures
        ({
            let stats = shared.counters.snapshot_spec();
            let (v, s, c) = PumpView::<F>::started(track, packet_mode(track), None).step::<E>(
                stats,
                Reply::Start,
            );
            let (_, serial, done) = v.step::<E>(s, Reply::Done);
            let (w, t, d) = stage.step_spec::<E>(shared, CopyReply::Received(Msg::Data { bytes }));
            let (_, staged, next) = w.step_spec::<E>(t, CopyReply::Sent(Sent::Delivered));
            &&& c == Command::<F, E>::CopyPacket { stream_index: track.index, kind: track.kind }
            &&& d == CopyCommand::WritePacket
            &&& serial.packets_copied == stats.packets_copied + 1
            &&& staged.counters.snapshot_spec() == serial
            &&& done is Finished
            &&& next == CopyCommand::Receive
        }),
{
}

/// A failing call is put down to the same stage and track on one thread and on
/// many: a frame that cannot be brought into plain memory, a frame stage that
/// fails on a frame or when flushed, and an encoder that fails on a frame, on a
/// packet or at the end.
pub proof fn failures_are_attributed_alike<F, E>(
    v: PumpView<F>,
    worker: FrameWorkerView<F>,
    encoder: EncodeStage,
    shared: Shared<E>,
    stats: ExecutorStats,
    at: usize,
    error: E,
)
    requires
        at < v.track.stages.len(),
        worker.track == v.track.index,
        worker.stage == v.track.stages[at as int],
        encoder.track == v.track.index,
    ensures
        ({
            let failed = |stage: FailureStage|
                Command::<F, E>::Failed(
                    StageFailure::at(stage, Some(v.track.index), Cause::Raised(error)),
                );
            let at_worker = |stage: FailureStage|
                FrameCommand::<F, E>::Failed(
                    StageFailure::at(stage, Some(v.track.index), Cause::Raised(error)),
                );
            let at_encoder = |stage: FailureStage|
                EncodeCommand::<F, E>::Failed(
                    StageFailure::at(stage, Some(v.track.index), Cause::Raised(error)),
                );
            let kind = stage_kind(v.track.stages[at as int]);
            let convert = FailureStage::Convert;
            let encode = FailureStage::Encode;
            &&& v.waiting is Materialise ==> v.step(stats, Reply::Error(error)).2 == failed(convert)
            &&& v.waiting == (Waiting::RunStage { stage: at }) ==> v.step(
                stats,
                Reply::Error(error),
            ).2 == failed(kind)
            &&& v.waiting == (Waiting::FlushStage { stage: at }) ==> v.step(
                stats,
                Reply::Error(error),
            ).2 == failed(kind)
            &&& v.waiting is SendFrame || v.waiting is ReceivePacket || v.waiting is FlushEncoder
                ==> v.step(stats, Reply::Error(error)).2 == failed(encode)
            &&& worker.phase is Materialising ==> worker.step(shared, FrameReply::Error(error)).2
                == at_worker(convert)
            &&& worker.phase is Running || worker.phase is Flushing ==> worker.step(
                shared,
                FrameReply::Error(error),
            ).2 == at_worker(kind)
            &&& encoder.phase is Materialising ==> encoder.step_spec(
                shared,
                EncodeReply::<F, E>::Error(error),
            ).2 == at_encoder(convert)
            &&& encoder.phase is SendingFrame || encoder.phase is ReceivingPacket || encoder.phase
                == (EncodePhase::Flushing { then: AfterPackets::End }) ==> encoder.step_spec(
                shared,
                EncodeReply::<F, E>::Error(error),
            ).2 == at_encoder(encode)
        }),
{
}

} // verus!
