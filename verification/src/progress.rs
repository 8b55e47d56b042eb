//! Progress only moves forward: whatever a worker does, no counter goes back, a
//! stop that was asked for stays, and the first failure is kept.

use crate::decode_stage::{DecodeReply, DecodeStage};
use crate::encode_stage::{EncodeReply, EncodeStage};
use crate::frame_stage::{FrameReply, FrameWorkerView};
use crate::mux::{MuxReply, MuxView};
use crate::source_stage::{SourceReply, SourceView};
use crate::staged::{PipelineCounters, Progress, QueueBudget, Shared};
use crate::workers::{CopyReply, CopyStage, FanoutReply, FanoutStage};
use vstd::prelude::*;

verus! {

/// A later state of what the workers share.
pub open spec fn moves_on<E>(before: Shared<E>, after: Shared<E>) -> bool {
    &&& before.counters.snapshot_spec().at_most(after.counters.snapshot_spec())
    &&& before.abort.cancelled ==> after.abort.cancelled
    &&& before.abort.first is Some ==> after.abort.first == before.abort.first
    &&& before.abort.first is None && after.abort.first is Some ==> after.abort.cancelled
    &&& before.budget.max == after.budget.max
}

/// A source worker moves the shared state on, with every exchange, and counts
/// nothing but packets read and frames that need no decoding. Left out are
/// counters at the end of their range.
#[verifier::rlimit(40)]
pub proof fn source_moves_on<E>(shared: Shared<E>, v: SourceView, reply: SourceReply<E>)
    requires
        shared.counters.snapshot_spec().has_room(1),
    ensures
        moves_on(shared, v.step(shared, reply).1),
        ({
            let after = v.step(shared, reply).1;
            after.counters == (PipelineCounters {
                packets_read: after.counters.packets_read,
                frames_decoded: after.counters.frames_decoded,
                ..shared.counters
            })
        }),
{
}

/// A copying worker moves the shared state on, with every exchange, and counts
/// nothing but copied packets: an output that only copies skips and encodes none.
/// Left out are counters at the end of their range.
pub proof fn copy_moves_on<E>(shared: Shared<E>, v: CopyStage, reply: CopyReply<E>)
    requires
        shared.counters.snapshot_spec().has_room(1),
    ensures
        moves_on(shared, v.step_spec(shared, reply).1),
        ({
            let after = v.step_spec(shared, reply).1;
            after.counters == (PipelineCounters {
                packets_copied: after.counters.packets_copied,
                ..shared.counters
            })
        }),
{
}

/// A worker that hands frames on moves the shared state on, with every exchange,
/// and counts nothing but written frames. Left out are counters at the end of
/// their range.
pub proof fn fanout_moves_on<E>(shared: Shared<E>, v: FanoutStage, reply: FanoutReply<E>)
    requires
        shared.counters.snapshot_spec().has_room(1),
    ensures
        moves_on(shared, v.step_spec(shared, reply).1),
        ({
            let after = v.step_spec(shared, reply).1;
            after.counters == (PipelineCounters {
                frames_written: after.counters.frames_written,
                ..shared.counters
            })
        }),
{
}

/// A decoding worker moves the shared state on, with every exchange, and counts
/// nothing but frames and skipped packets: an output without copying workers
/// copies none. Left out are counters at the end of their range.
pub proof fn decoder_moves_on<F, E>(shared: Shared<E>, v: DecodeStage, reply: DecodeReply<F, E>)
    requires
        shared.counters.snapshot_spec().has_room(1),
    ensures
        moves_on(shared, v.step_spec(shared, reply).1),
        ({
            let after = v.step_spec(shared, reply).1;
            after.counters == (PipelineCounters {
                frames_decoded: after.counters.frames_decoded,
                frames_written: after.counters.frames_written,
                packets_skipped: after.counters.packets_skipped,
                ..shared.counters
            })
        }),
{
}

/// A worker that runs a frame stage moves the shared state on, with every
/// exchange, and counts nothing but written frames. Left out are counters at the
/// end of their range.
pub proof fn frame_worker_moves_on<F, E>(shared: Shared<E>, v: FrameWorkerView<F>, reply: FrameReply<F, E>)
    requires
        shared.counters.snapshot_spec().has_room(1),
    ensures
        moves_on(shared, v.step(shared, reply).1),
        ({
            let after = v.step(shared, reply).1;
            after.counters == (PipelineCounters {
                frames_written: after.counters.frames_written,
                ..shared.counters
            })
        }),
{
}

/// An encoding worker moves the shared state on, with every exchange, and counts
/// nothing but encoded packets. Left out are counters at the end of their range.
pub proof fn encoder_moves_on<F, E>(shared: Shared<E>, v: EncodeStage, reply: EncodeReply<F, E>)
    requires
        shared.counters.snapshot_spec().has_room(1),
    ensures
        moves_on(shared, v.step_spec(shared, reply).1),
        ({
            let after = v.step_spec(shared, reply).1;
            after.counters == (PipelineCounters {
                packets_encoded: after.counters.packets_encoded,
                ..shared.counters
            })
        }),
{
}

/// The loop that feeds the sink moves the shared state on, with every exchange,
/// and counts nothing but written frames. Left out are counters at the end of
/// their range.
pub proof fn mux_moves_on<E>(shared: Shared<E>, v: MuxView, reply: MuxReply<E>, elapsed: u64)
    requires
        shared.counters.snapshot_spec().has_room(1),
    ensures
        moves_on(shared, v.step(shared, reply, elapsed).1),
        ({
            let after = v.step(shared, reply, elapsed).1;
            after.counters == (PipelineCounters {
                frames_written: after.counters.frames_written,
                ..shared.counters
            })
        }),
{
}

/// Moving on is transitive: it holds over any number of exchanges.
pub proof fn moving_on_adds_up<E>(a: Shared<E>, b: Shared<E>, c: Shared<E>)
    requires
        moves_on(a, b),
        moves_on(b, c),
    ensures
        moves_on(a, c),
{
}

/// Reports made one after the other never go back.
pub proof fn reports_never_go_back(
    before: PipelineCounters,
    after: PipelineCounters,
    budget: QueueBudget,
    pts: Option<i64>,
    eof: bool,
    earlier: u64,
    later: u64,
)
    requires
        before.snapshot_spec().at_most(after.snapshot_spec()),
        earlier <= later,
    ensures
        ({
            let p: Progress = before.progress_spec(budget, pts, false, earlier);
            let q: Progress = after.progress_spec(budget, pts, eof, later);
            &&& p.frames <= q.frames
            &&& p.elapsed_micros <= q.elapsed_micros
            &&& p.packets_skipped <= q.packets_skipped
            &&& p.packets_read <= q.packets_read
            &&& p.packets_encoded <= q.packets_encoded
            &&& p.packets_copied <= q.packets_copied
        }),
{
}

/// A packet entering or leaving the queues between source and workers.
pub enum QueueEvent {
    Enters(u64),
    Leaves(u64),
}

/// The budget after a number of such events.
pub open spec fn budget_after(budget: QueueBudget, events: Seq<QueueEvent>) -> QueueBudget
    decreases events.len(),
{
    if events.len() == 0 {
        budget
    } else {
        let b = budget_after(budget, events.drop_last());
        match events.last() {
            QueueEvent::Enters(n) => b.admitted(n),
            QueueEvent::Leaves(n) => b.released(n),
        }
    }
}

/// Bytes in the queues after a number of such events.
pub open spec fn queued(events: Seq<QueueEvent>) -> int
    decreases events.len(),
{
    if events.len() == 0 {
        0
    } else {
        queued(events.drop_last()) + match events.last() {
            QueueEvent::Enters(n) => n as int,
            QueueEvent::Leaves(n) => -(n as int),
        }
    }
}

/// Nothing leaves that has not entered, and what is in the queues can be counted.
pub open spec fn orderly(events: Seq<QueueEvent>) -> bool {
    forall|k: int|
        0 <= k <= events.len() ==> 0 <= #[trigger] queued(events.take(k)) <= u64::MAX
}

/// The budget knows how many bytes are in the queues, at any time; once every
/// packet that entered has left, that is none.
pub proof fn budget_tracks_the_queues(max: u64, events: Seq<QueueEvent>)
    requires
        max > 0,
        orderly(events),
    ensures
        budget_after(QueueBudget { in_flight: 0, max }, events) == (QueueBudget {
            in_flight: queued(events) as u64,
            max,
        }),
        queued(events) == 0 ==> budget_after(
            QueueBudget { in_flight: 0, max },
            events,
        ).in_flight_spec() == 0,
    decreases events.len(),
{
    assert(events.take(events.len() as int) =~= events);
    assert(0 <= queued(events.take(events.len() as int)) <= u64::MAX);
    if events.len() > 0 {
        let rest = events.drop_last();
        assert forall|k: int| 0 <= k <= rest.len() implies 0 <= #[trigger] queued(rest.take(k))
            <= u64::MAX by {
            assert(rest.take(k) =~= events.take(k));
            assert(0 <= queued(events.take(k)) <= u64::MAX);
        }
        budget_tracks_the_queues(max, rest);
    }
}

} // verus!
