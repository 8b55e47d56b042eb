//! The progress reports of a whole run, whatever order its workers take turns in.

use crate::decode_stage::{DecodePhase, DecodeReply, DecodeStage};
use crate::encode_stage::{EncodeReply, EncodeStage};
use crate::frame_stage::{FrameReply, FrameWorkerView};
use crate::mux::{MuxCommand, MuxReply, MuxView};
use crate::output::{OutputCommand, OutputReply, OutputView};
use crate::progress::{
    budget_after, budget_tracks_the_queues, copy_moves_on, decoder_moves_on, encoder_moves_on,
    fanout_moves_on, frame_worker_moves_on, mux_moves_on, orderly, queued, source_moves_on,
    QueueEvent,
};
use crate::source_stage::{SourceReply, SourceView};
use crate::staged::{Progress, QueueBudget, Shared};
use crate::workers::{CopyPhase, CopyReply, CopyStage, FanoutReply, FanoutStage, Msg};
use vstd::prelude::*;

verus! {

/// What a source worker puts into the queues, or takes back out of them.
pub open spec fn source_event<E>(v: SourceView, shared: Shared<E>, reply: SourceReply<E>) -> Option<
    QueueEvent,
> {
    let (w, _, command) = v.step(shared, reply);
    if v.frames {
        None
    } else if command is SendData && w.phase is Sending {
        Some(QueueEvent::Enters(w.phase->Sending_bytes))
    } else if v.phase is Sending && !(reply is Sent) {
        Some(QueueEvent::Leaves(v.phase->Sending_bytes))
    } else {
        None
    }
}

/// What a copying worker takes out of the queues.
pub open spec fn copy_event<E>(v: CopyStage, reply: CopyReply<E>) -> Option<QueueEvent> {
    match (v.phase, reply) {
        (CopyPhase::Receiving, CopyReply::Received(Msg::Data { bytes })) => Some(
            QueueEvent::Leaves(bytes),
        ),
        _ => None,
    }
}

/// What a decoding worker takes out of the queues.
pub open spec fn decode_event<F, E>(v: DecodeStage, reply: DecodeReply<F, E>) -> Option<QueueEvent> {
    match (v.phase, reply) {
        (DecodePhase::Receiving, DecodeReply::Received(Msg::Data { bytes })) => Some(
            QueueEvent::Leaves(bytes),
        ),
        _ => None,
    }
}

/// By how much an event changes what is in the queues.
pub open spec fn crossing(event: Option<QueueEvent>) -> int {
    match event {
        Some(QueueEvent::Enters(n)) => n as int,
        Some(QueueEvent::Leaves(n)) => -(n as int),
        None => 0,
    }
}

/// One exchange of one worker of an output, or of the loop that feeds its sink.
#[allow(inconsistent_fields)]
pub enum Exchange<F, E> {
    Source { v: SourceView, reply: SourceReply<E> },
    Copy { v: CopyStage, reply: CopyReply<E> },
    Fanout { v: FanoutStage, reply: FanoutReply<E> },
    Decode { v: DecodeStage, reply: DecodeReply<F, E> },
    Frame { v: FrameWorkerView<F>, reply: FrameReply<F, E> },
    Encode { v: EncodeStage, reply: EncodeReply<F, E> },
    Mux { v: MuxView, reply: MuxReply<E>, elapsed: u64 },
}

impl<F, E> Exchange<F, E> {
    /// What the workers share afterwards.
    pub open spec fn after(self, shared: Shared<E>) -> Shared<E> {
        match self {
            Exchange::Source { v, reply } => v.step(shared, reply).1,
            Exchange::Copy { v, reply } => v.step_spec(shared, reply).1,
            Exchange::Fanout { v, reply } => v.step_spec(shared, reply).1,
            Exchange::Decode { v, reply } => v.step_spec(shared, reply).1,
            Exchange::Frame { v, reply } => v.step(shared, reply).1,
            Exchange::Encode { v, reply } => v.step_spec(shared, reply).1,
            Exchange::Mux { v, reply, elapsed } => v.step(shared, reply, elapsed).1,
        }
    }

    /// What is reported.
    pub open spec fn report(self, shared: Shared<E>) -> Option<Progress> {
        match self {
            Exchange::Mux { v, reply, elapsed } => match v.step(shared, reply, elapsed).2 {
                MuxCommand::Report(p) => Some(p),
                _ => None,
            },
            _ => None,
        }
    }

    /// What enters or leaves the queues between source and workers.
    pub open spec fn queue_event(self, shared: Shared<E>) -> Option<QueueEvent> {
        match self {
            Exchange::Source { v, reply } => source_event(v, shared, reply),
            Exchange::Copy { v, reply } => copy_event(v, reply),
            Exchange::Decode { v, reply } => decode_event(v, reply),
            _ => None,
        }
    }
}

/// What the workers share after the first `k` exchanges.
pub open spec fn state_after<F, E>(start: Shared<E>, trace: Seq<Exchange<F, E>>, k: int) -> Shared<E>
    decreases k,
{
    if k <= 0 {
        start
    } else {
        trace[k - 1].after(state_after(start, trace, k - 1))
    }
}

/// What the `k`th exchange reports.
pub open spec fn report_at<F, E>(start: Shared<E>, trace: Seq<Exchange<F, E>>, k: int) -> Option<
    Progress,
> {
    trace[k].report(state_after(start, trace, k))
}

/// What the first `k` exchanges put into the queues and took out of them.
pub open spec fn queue_events<F, E>(start: Shared<E>, trace: Seq<Exchange<F, E>>, k: int) -> Seq<
    QueueEvent,
>
    decreases k,
{
    if k <= 0 {
        Seq::empty()
    } else {
        let rest = queue_events(start, trace, k - 1);
        match trace[k - 1].queue_event(state_after(start, trace, k - 1)) {
            Some(event) => rest.push(event),
            None => rest,
        }
    }
}

/// No counter is at the end of its range before an exchange.
pub open spec fn in_range<F, E>(start: Shared<E>, trace: Seq<Exchange<F, E>>) -> bool {
    forall|k: int|
        0 <= k < trace.len() ==> (#[trigger] state_after(
            start,
            trace,
            k,
        )).counters.snapshot_spec().has_room(1)
}

/// The clock that reports are stamped with does not go back, and stands at `end`
/// or earlier throughout.
pub open spec fn clock_runs<F, E>(trace: Seq<Exchange<F, E>>, end: u64) -> bool {
    &&& forall|i: int, j: int|
        0 <= i <= j < trace.len() && (#[trigger] trace[i]) is Mux && (#[trigger] trace[j]) is Mux
            ==> trace[i]->Mux_elapsed <= trace[j]->Mux_elapsed
    &&& forall|i: int|
        0 <= i < trace.len() && (#[trigger] trace[i]) is Mux ==> trace[i]->Mux_elapsed <= end
}

/// A report that is no later than another: no counter of it is greater.
pub open spec fn no_later(p: Progress, q: Progress) -> bool {
    &&& p.frames <= q.frames
    &&& p.elapsed_micros <= q.elapsed_micros
    &&& p.packets_skipped <= q.packets_skipped
    &&& p.packets_read <= q.packets_read
    &&& p.packets_encoded <= q.packets_encoded
    &&& p.packets_copied <= q.packets_copied
}

pub(crate) proof fn exchange_moves_on<F, E>(x: Exchange<F, E>, shared: Shared<E>)
    requires
        shared.counters.snapshot_spec().has_room(1),
    ensures
        shared.counters.snapshot_spec().at_most(x.after(shared).counters.snapshot_spec()),
        x.after(shared).budget.max == shared.budget.max,
{
    match x {
        Exchange::Source { v, reply } => source_moves_on(shared, v, reply),
        Exchange::Copy { v, reply } => copy_moves_on(shared, v, reply),
        Exchange::Fanout { v, reply } => fanout_moves_on(shared, v, reply),
        Exchange::Decode { v, reply } => decoder_moves_on(shared, v, reply),
        Exchange::Frame { v, reply } => frame_worker_moves_on(shared, v, reply),
        Exchange::Encode { v, reply } => encoder_moves_on(shared, v, reply),
        Exchange::Mux { v, reply, elapsed } => mux_moves_on(shared, v, reply, elapsed),
    }
}

#[verifier::rlimit(40)]
pub(crate) proof fn exchange_fills_the_queues<F, E>(x: Exchange<F, E>, shared: Shared<E>)
    ensures
        x.after(shared).budget == match x.queue_event(shared) {
            Some(QueueEvent::Enters(n)) => shared.budget.admitted(n),
            Some(QueueEvent::Leaves(n)) => shared.budget.released(n),
            None => shared.budget,
        },
{
}

pub proof fn counters_stay_ordered<F, E>(start: Shared<E>, trace: Seq<Exchange<F, E>>, i: int, j: int)
    requires
        0 <= i <= j <= trace.len(),
        in_range(start, trace),
    ensures
        state_after(start, trace, i).counters.snapshot_spec().at_most(
            state_after(start, trace, j).counters.snapshot_spec(),
        ),
        state_after(start, trace, j).budget.max == state_after(start, trace, i).budget.max,
    decreases j - i,
{
    if i < j {
        counters_stay_ordered(start, trace, i, j - 1);
        assert(state_after(start, trace, j - 1).counters.snapshot_spec().has_room(1));
        exchange_moves_on(trace[j - 1], state_after(start, trace, j - 1));
    }
}

proof fn budget_follows<F, E>(start: Shared<E>, trace: Seq<Exchange<F, E>>, k: int)
    requires
        0 <= k <= trace.len(),
    ensures
        state_after(start, trace, k).budget == budget_after(
            start.budget,
            queue_events(start, trace, k),
        ),
    decreases k,
{
    if k > 0 {
        budget_follows(start, trace, k - 1);
        let rest = queue_events(start, trace, k - 1);
        let state = state_after(start, trace, k - 1);
        exchange_fills_the_queues(trace[k - 1], state);
        match trace[k - 1].queue_event(state) {
            Some(event) => {
                assert(rest.push(event).drop_last() =~= rest);
            },
            None => {},
        }
    }
}

proof fn report_shows_the_state<F, E>(start: Shared<E>, trace: Seq<Exchange<F, E>>, k: int)
    requires
        0 <= k < trace.len(),
        report_at(start, trace, k) is Some,
    ensures
        trace[k] is Mux,
        ({
            let p = report_at(start, trace, k)->0;
            let after = state_after(start, trace, k + 1);
            p == after.counters.progress_spec(
                after.budget,
                p.pts,
                false,
                trace[k]->Mux_elapsed,
            )
        }),
{
}

/// Over a whole run, in whatever order its workers and the loop that feeds its
/// sink take turns: only the last report says that it is the end, and it names no
/// position; no counter, and no time, goes back from one report to a later one;
/// the last report holds the very counters that the run returns. Without a
/// ceiling on the queues no report sees a byte in them; and once everything that
/// entered the queues has left them, the last report sees none either. Left out
/// are counters at the end of their range.
pub proof fn reports_of_a_run<F, E>(
    start: Shared<E>,
    trace: Seq<Exchange<F, E>>,
    output: OutputView,
    done: Shared<E>,
    end: u64,
)
    requires
        in_range(start, trace),
        clock_runs(trace, end),
        output.phase is Finishing,
        output.reports,
        done.counters == state_after(start, trace, trace.len() as int).counters,
        done.budget == state_after(start, trace, trace.len() as int).budget,
    ensures
        ({
            let (w, s, command) = output.step(done, OutputReply::Done, end);
            let stats = done.counters.snapshot_spec();
            let last = command->ReportEnd_0;
            let events = queue_events(start, trace, trace.len() as int);
            &&& command is ReportEnd
            &&& last.eof && last.pts is None && last.elapsed_micros == end
            &&& last.frames == stats.frames_written && last.packets_read == stats.packets_read
            &&& last.packets_copied == stats.packets_copied
            &&& last.packets_encoded == stats.packets_encoded
            &&& last.packets_skipped == stats.packets_skipped
            &&& w.step(s, OutputReply::Done, end).2 == OutputCommand::<E>::Finished(stats)
            &&& forall|i: int|
                0 <= i < trace.len() && (#[trigger] report_at(start, trace, i)) is Some ==> {
                    &&& !(report_at(start, trace, i)->0).eof
                    &&& no_later(report_at(start, trace, i)->0, last)
                    &&& start.budget.max == 0 ==> (report_at(start, trace, i)->0).queue_bytes == 0
                }
            &&& forall|i: int, j: int|
                0 <= i <= j < trace.len() && (#[trigger] report_at(start, trace, i)) is Some && (
                #[trigger] report_at(start, trace, j)) is Some ==> no_later(
                    report_at(start, trace, i)->0,
                    report_at(start, trace, j)->0,
                )
            &&& start.budget.max == 0 ==> last.queue_bytes == 0
            &&& start.budget.in_flight == 0 && orderly(events) && queued(events) == 0
                ==> last.queue_bytes == 0
        }),
{
    let n = trace.len() as int;
    let (w, s, command) = output.step(done, OutputReply::Done, end);
    let last = command->ReportEnd_0;
    let events = queue_events(start, trace, n);
    assert forall|i: int|
        0 <= i < n && (#[trigger] report_at(start, trace, i)) is Some implies {
        &&& !(report_at(start, trace, i)->0).eof
        &&& no_later(report_at(start, trace, i)->0, last)
        &&& start.budget.max == 0 ==> (report_at(start, trace, i)->0).queue_bytes == 0
    } by {
        report_shows_the_state(start, trace, i);
        counters_stay_ordered(start, trace, 0, i + 1);
        counters_stay_ordered(start, trace, i + 1, n);
    }
    assert forall|i: int, j: int|
        0 <= i <= j < n && (#[trigger] report_at(start, trace, i)) is Some && (
        #[trigger] report_at(start, trace, j)) is Some implies no_later(
        report_at(start, trace, i)->0,
        report_at(start, trace, j)->0,
    ) by {
        report_shows_the_state(start, trace, i);
        report_shows_the_state(start, trace, j);
        counters_stay_ordered(start, trace, i + 1, j + 1);
    }
    counters_stay_ordered(start, trace, 0, n);
    budget_follows(start, trace, n);
    if start.budget.max > 0 && start.budget.in_flight == 0 && orderly(events) && queued(events)
        == 0 {
        let max = start.budget.max;
        assert(start.budget == (QueueBudget { in_flight: 0, max }));
        budget_tracks_the_queues(max, events);
    }
}

} // verus!
