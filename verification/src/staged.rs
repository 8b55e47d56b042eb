//! What the workers of one output share: counters, the byte budget of the packet
//! queues, the abort state, and the messages between them.

use crate::failure::{Cause, FailureStage, StageFailure};
use crate::error::JobError;
use crate::media::{StreamInfo, TimeBase};
use crate::stats::ExecutorStats;
use crate::track::{find_stream, stream_at};
use vstd::prelude::*;

verus! {

/// Marks a seek in the flow of packets and frames.
#[derive(Clone, Copy, Debug, PartialEq, Eq, Structural)]
pub enum BarrierKind {
    /// The source moved: what was on its way is void. `landed_pts`, in
    /// `time_base` ticks, is where it landed.
    SeekFlush { generation: u32, landed_pts: i64, time_base: TimeBase },
    /// The source did not move: what is on its way still counts.
    SeekRejected { generation: u32 },
}

impl BarrierKind {
    pub open spec fn generation_spec(self) -> u32 {
        match self {
            BarrierKind::SeekFlush { generation, .. } => generation,
            BarrierKind::SeekRejected { generation } => generation,
        }
    }

    /// The seek that the barrier answers.
    pub fn generation(&self) -> (r: u32)
        ensures
            r == self.generation_spec(),
    {
        match self {
            BarrierKind::SeekFlush { generation, .. } => *generation,
            BarrierKind::SeekRejected { generation } => *generation,
        }
    }
}

/// A request to move to a position.
#[derive(Clone, Copy, Debug, PartialEq, Eq, Structural)]
pub struct SeekCmd {
    pub stream_idx: u32,
    pub pts: i64,
    pub time_base: TimeBase,
    /// Stamped on every barrier that answers the request.
    pub generation: u32,
}

/// How far an output has got.
#[derive(Clone, Copy, Debug, PartialEq, Eq, Structural)]
pub struct Progress {
    pub pts: Option<i64>,
    pub frames: u64,
    pub eof: bool,
    /// Bytes in the packet queues; zero where they are not bounded by bytes.
    pub queue_bytes: u64,
    /// Time since the workers started.
    pub elapsed_micros: u64,
    pub packets_skipped: u64,
    pub packets_read: u64,
    pub packets_encoded: u64,
    pub packets_copied: u64,
}

impl Default for Progress {
    fn default() -> (r: Self)
        ensures
            r == (Progress {
                pts: None,
                frames: 0,
                eof: false,
                queue_bytes: 0,
                elapsed_micros: 0,
                packets_skipped: 0,
                packets_read: 0,
                packets_encoded: 0,
                packets_copied: 0,
            }),
    {
        Progress {
            pts: None,
            frames: 0,
            eof: false,
            queue_bytes: 0,
            elapsed_micros: 0,
            packets_skipped: 0,
            packets_read: 0,
            packets_encoded: 0,
            packets_copied: 0,
        }
    }
}

/// Packets that a queue holds by default.
pub const PACKET_CAP: usize = 16;

/// Frames that a queue holds by default.
pub const FRAME_CAP: usize = 8;

/// How many packets and frames the queues between workers hold.
#[derive(Clone, Copy, Debug, PartialEq, Eq, Structural)]
pub struct ChannelCaps {
    pub packets: usize,
    pub frames: usize,
}

impl Default for ChannelCaps {
    fn default() -> (r: Self)
        ensures
            r == (ChannelCaps { packets: 16, frames: 8 }),
    {
        ChannelCaps { packets: PACKET_CAP, frames: FRAME_CAP }
    }
}

/// The larger of a capacity and one.
pub open spec fn at_least_one(n: usize) -> usize {
    if n == 0 {
        1
    } else {
        n
    }
}

impl ChannelCaps {
    /// The capacities that are used: a queue always holds at least one element.
    pub fn resolved(&self) -> (r: (usize, usize))
        ensures
            r == (at_least_one(self.packets), at_least_one(self.frames)),
            self.packets > 0 ==> r.0 == self.packets,
            self.frames > 0 ==> r.1 == self.frames,
            self.packets == 0 ==> r.0 == 1,
            self.frames == 0 ==> r.1 == 1,
            r.0 >= 1,
            r.1 >= 1,
    {
        let packets: usize = if self.packets == 0 {
            1
        } else {
            self.packets
        };
        let frames: usize = if self.frames == 0 {
            1
        } else {
            self.frames
        };
        (packets, frames)
    }
}

/// Bytes in the packet queues, and the ceiling above which no more packets are
/// read. A ceiling of zero is none.
#[derive(Clone, Copy, Debug, PartialEq, Eq, Structural)]
pub struct QueueBudget {
    pub in_flight: u64,
    pub max: u64,
}

impl QueueBudget {
    pub open spec fn enabled_spec(self) -> bool {
        self.max > 0
    }

    pub open spec fn in_flight_spec(self) -> u64 {
        if self.enabled_spec() {
            self.in_flight
        } else {
            0
        }
    }

    /// The budget after `n` more bytes were queued.
    pub open spec fn admitted(self, n: u64) -> QueueBudget {
        if self.enabled_spec() {
            QueueBudget { in_flight: crate::staged::wrapped(self.in_flight + n), ..self }
        } else {
            self
        }
    }

    /// The budget after `n` bytes left the queues; never below zero.
    pub open spec fn released(self, n: u64) -> QueueBudget {
        if self.enabled_spec() {
            QueueBudget {
                in_flight: if self.in_flight >= n {
                    (self.in_flight - n) as u64
                } else {
                    0
                },
                ..self
            }
        } else {
            self
        }
    }

    /// A reader has to hold off.
    pub open spec fn full(self) -> bool {
        self.enabled_spec() && self.in_flight >= self.max
    }

    pub fn new(max: u64) -> (r: Self)
        ensures
            r == (QueueBudget { in_flight: 0, max }),
    {
        QueueBudget { in_flight: 0, max }
    }

    /// Whether there is a ceiling.
    pub fn enabled(&self) -> (r: bool)
        ensures
            r == self.enabled_spec(),
    {
        self.max > 0
    }

    /// Bytes in the packet queues; zero where there is no ceiling.
    pub fn in_flight(&self) -> (r: u64)
        ensures
            r == self.in_flight_spec(),
    {
        if self.enabled() {
            self.in_flight
        } else {
            0
        }
    }

    /// `n` bytes enter the packet queues.
    pub fn admit_bytes(&mut self, n: u64)
        ensures
            *final(self) == old(self).admitted(n),
    {
        if self.enabled() {
            self.in_flight = self.in_flight.wrapping_add(n);
        }
    }

    /// `n` bytes leave the packet queues.
    pub fn release(&mut self, n: u64)
        ensures
            *final(self) == old(self).released(n),
    {
        if self.enabled() {
            self.in_flight = if self.in_flight >= n {
                self.in_flight - n
            } else {
                0
            };
        }
    }

    /// Whether a reader has to hold off for now: the queues are at the ceiling,
    /// and nobody asked to stop.
    pub fn wait_below_ceiling<E>(&self, abort: &AbortState<E>) -> (r: bool)
        ensures
            r == (self.full() && !abort.cancelled),
    {
        self.enabled() && self.in_flight >= self.max && !abort.is_aborted()
    }
}

/// A counter's value after it has passed the end of its range.
pub open spec fn wrapped(n: int) -> u64 {
    (n % 0x1_0000_0000_0000_0000) as u64
}

/// What the workers of one output have done.
#[derive(Clone, Copy, Debug, PartialEq, Eq, Structural)]
pub struct PipelineCounters {
    pub packets_read: u64,
    pub packets_copied: u64,
    pub packets_encoded: u64,
    pub frames_decoded: u64,
    pub frames_written: u64,
    pub packets_skipped: u64,
}

impl Default for PipelineCounters {
    fn default() -> (r: Self)
        ensures
            r == (PipelineCounters {
                packets_read: 0,
                packets_copied: 0,
                packets_encoded: 0,
                frames_decoded: 0,
                frames_written: 0,
                packets_skipped: 0,
            }),
    {
        PipelineCounters {
            packets_read: 0,
            packets_copied: 0,
            packets_encoded: 0,
            frames_decoded: 0,
            frames_written: 0,
            packets_skipped: 0,
        }
    }
}

impl PipelineCounters {
    pub open spec fn snapshot_spec(self) -> ExecutorStats {
        ExecutorStats {
            packets_read: self.packets_read,
            packets_copied: self.packets_copied,
            packets_encoded: self.packets_encoded,
            frames_decoded: self.frames_decoded,
            frames_written: self.frames_written,
            packets_skipped: self.packets_skipped,
        }
    }

    /// The counters as they stand.
    pub fn snapshot(&self) -> (r: ExecutorStats)
        ensures
            r == self.snapshot_spec(),
    {
        ExecutorStats {
            packets_read: self.packets_read,
            packets_copied: self.packets_copied,
            packets_encoded: self.packets_encoded,
            frames_decoded: self.frames_decoded,
            frames_written: self.frames_written,
            packets_skipped: self.packets_skipped,
        }
    }

    /// How far the output has got.
    pub open spec fn progress_spec(
        self,
        budget: QueueBudget,
        pts: Option<i64>,
        eof: bool,
        elapsed_micros: u64,
    ) -> Progress {
        Progress {
            pts,
            frames: self.frames_written,
            eof,
            queue_bytes: budget.in_flight_spec(),
            elapsed_micros,
            packets_skipped: self.packets_skipped,
            packets_read: self.packets_read,
            packets_encoded: self.packets_encoded,
            packets_copied: self.packets_copied,
        }
    }

    /// Reports how far the output has got.
    pub fn progress(
        &self,
        budget: &QueueBudget,
        pts: Option<i64>,
        eof: bool,
        elapsed_micros: u64,
    ) -> (r: Progress)
        ensures
            r == self.progress_spec(*budget, pts, eof, elapsed_micros),
    {
        Progress {
            pts,
            frames: self.frames_written,
            eof,
            queue_bytes: budget.in_flight(),
            elapsed_micros,
            packets_skipped: self.packets_skipped,
            packets_read: self.packets_read,
            packets_encoded: self.packets_encoded,
            packets_copied: self.packets_copied,
        }
    }
}

/// Whether the workers are to stop, and the first failure among them.
pub struct AbortState<E> {
    pub cancelled: bool,
    pub first: Option<StageFailure<E>>,
}

impl<E> AbortState<E> {
    /// The state after a failure: the first one stays, and everybody stops.
    pub open spec fn recorded(self, failure: StageFailure<E>) -> AbortState<E> {
        AbortState {
            cancelled: true,
            first: match self.first {
                Some(f) => Some(f),
                None => Some(failure),
            },
        }
    }

    pub open spec fn aborted(self) -> AbortState<E> {
        AbortState { cancelled: true, ..self }
    }

    pub fn new() -> (r: Self)
        ensures
            r == (AbortState::<E> { cancelled: false, first: None }),
    {
        AbortState { cancelled: false, first: None }
    }

    /// Whether the workers are to stop.
    pub fn is_aborted(&self) -> (r: bool)
        ensures
            r == self.cancelled,
    {
        self.cancelled
    }

    /// Asks the workers to stop.
    pub fn request_abort(&mut self)
        ensures
            *final(self) == old(self).aborted(),
    {
        self.cancelled = true;
    }

    /// A worker failed.
    pub fn record_failure(&mut self, failure: StageFailure<E>)
        ensures
            *final(self) == old(self).recorded(failure),
    {
        if self.first.is_none() {
            self.first = Some(failure);
        }
        self.cancelled = true;
    }

    /// Takes the first failure out.
    pub fn take_failure(&mut self) -> (r: Option<StageFailure<E>>)
        ensures
            r == old(self).first,
            *final(self) == (AbortState::<E> { first: None, ..*old(self) }),
    {
        self.first.take()
    }
}

/// The state after several failures, one after the other.
pub open spec fn all_recorded<E>(start: AbortState<E>, failures: Seq<StageFailure<E>>) -> AbortState<
    E,
>
    decreases failures.len(),
{
    if failures.len() == 0 {
        start
    } else {
        all_recorded(start, failures.drop_last()).recorded(failures.last())
    }
}

/// However many failures follow, the first one is what is reported, and the
/// workers are told to stop.
pub proof fn first_failure_wins<E>(start: AbortState<E>, failures: Seq<StageFailure<E>>)
    requires
        start.first is None,
        failures.len() > 0,
    ensures
        all_recorded(start, failures).first == Some(failures[0]),
        all_recorded(start, failures).cancelled,
    decreases failures.len(),
{
    if failures.len() > 1 {
        first_failure_wins(start, failures.drop_last());
    } else {
        assert(all_recorded(start, failures.drop_last()) == start);
    }
}

/// An error of a source, codec, filter or sink, and what it means.
pub struct Fault<E> {
    pub cause: Cause<E>,
    /// It says that the call was given up because of an abort.
    pub cancelled: bool,
}

/// What the workers of one output share.
pub struct Shared<E> {
    pub counters: PipelineCounters,
    pub budget: QueueBudget,
    pub abort: AbortState<E>,
}

impl<E> Shared<E> {
    pub fn new(max_queue_bytes: u64) -> (r: Self)
        ensures
            r.counters.snapshot_spec() == ExecutorStats::zero(),
            r.budget == (QueueBudget { in_flight: 0, max: max_queue_bytes }),
            r.abort == (AbortState::<E> { cancelled: false, first: None }),
    {
        Shared {
            counters: PipelineCounters::default(),
            budget: QueueBudget::new(max_queue_bytes),
            abort: AbortState::new(),
        }
    }
}

/// Where a worker's results go.
#[derive(Clone, Copy, Debug, PartialEq, Eq, Structural)]
pub enum Downstream {
    /// The queue of the next worker.
    Channel,
    /// The queue that the output's sink is fed from.
    Aggregate { track: u32 },
    /// A sink of the track's own.
    Independent { track: u32 },
}

/// What became of something that was handed downstream.
pub enum Sent<E> {
    Delivered,
    /// The receiving end of the queue is gone.
    Closed,
    /// The track's own sink failed.
    Failed(Fault<E>),
}

/// What became of a delivery.
#[derive(Clone, Copy, Debug, PartialEq, Eq, Structural)]
pub enum DeliveryStatus {
    Delivered,
    Closed,
}

/// The abort state after a track's own sink gave a result: a failure is recorded
/// unless it only answers an abort.
pub open spec fn sink_recorded<E>(
    abort: AbortState<E>,
    track: u32,
    result: Result<(), Fault<E>>,
) -> AbortState<E> {
    match result {
        Ok(_) => abort,
        Err(fault) => if fault.cancelled && abort.cancelled {
            abort
        } else {
            abort.recorded(StageFailure::at(FailureStage::Sink, Some(track), fault.cause))
        },
    }
}

/// Takes the result of a track's own sink. A failure comes back as one that only
/// says that the pipeline is stopping.
pub fn record_sink_result<E>(
    abort: &mut AbortState<E>,
    track: u32,
    result: Result<(), Fault<E>>,
) -> (r: Result<DeliveryStatus, Fault<E>>)
    ensures
        *final(abort) == sink_recorded(*old(abort), track, result),
        match result {
            Ok(_) => r == Ok::<DeliveryStatus, Fault<E>>(DeliveryStatus::Delivered),
            Err(fault) => r == Err::<DeliveryStatus, Fault<E>>(
                if fault.cancelled && old(abort).cancelled {
                    fault
                } else {
                    Fault {
                        cause: Cause::Own(JobError::TrackSinkFailed),
                        cancelled: true,
                    }
                },
            ),
        },
        r matches Err(fault) ==> fault.cancelled && final(abort).cancelled,
{
    match result {
        Ok(_) => Ok(DeliveryStatus::Delivered),
        Err(fault) => {
            if fault.cancelled && abort.is_aborted() {
                Err(fault)
            } else {
                abort.record_failure(
                    StageFailure::new(FailureStage::Sink, Some(track), fault.cause),
                );
                Err(
                    Fault {
                        cause: Cause::Own(JobError::TrackSinkFailed),
                        cancelled: true,
                    },
                )
            }
        },
    }
}

/// What is handed downstream.
#[derive(Clone, Copy, Debug, PartialEq, Eq, Structural)]
pub enum Item {
    CopiedPacket,
    EncodedPacket,
    Frame,
    /// A stream update, a barrier, or the end of a stream that stays open.
    Signal,
}

/// The counters after an item reached its destination. A frame counts as written
/// only where that destination is a sink.
pub open spec fn counted(counters: PipelineCounters, to: Downstream, item: Item) -> PipelineCounters {
    match item {
        Item::CopiedPacket => PipelineCounters {
            packets_copied: wrapped(counters.packets_copied + 1),
            ..counters
        },
        Item::EncodedPacket => PipelineCounters {
            packets_encoded: wrapped(counters.packets_encoded + 1),
            ..counters
        },
        Item::Frame => if to is Independent {
            PipelineCounters {
                frames_written: wrapped(counters.frames_written + 1),
                ..counters
            }
        } else {
            counters
        },
        Item::Signal => counters,
    }
}

/// Whether a worker goes on after a delivery.
pub open spec fn goes_on<E>(sent: Sent<E>) -> bool {
    sent is Delivered
}

/// The shared state after a delivery: what arrived is counted, a closed queue
/// stops the pipeline, a failing sink is recorded.
pub open spec fn delivered<E>(
    shared: Shared<E>,
    to: Downstream,
    item: Item,
    sent: Sent<E>,
) -> Shared<E> {
    match sent {
        Sent::Delivered => Shared { counters: counted(shared.counters, to, item), ..shared },
        Sent::Closed => Shared { abort: shared.abort.aborted(), ..shared },
        Sent::Failed(fault) => Shared {
            abort: sink_recorded(
                shared.abort,
                match to {
                    Downstream::Independent { track } => track,
                    Downstream::Aggregate { track } => track,
                    Downstream::Channel => 0,
                },
                Err(fault),
            ),
            ..shared
        },
    }
}

/// Takes the outcome of a delivery; whether the worker goes on.
pub fn deliver<E>(shared: &mut Shared<E>, to: Downstream, item: Item, sent: Sent<E>) -> (r: bool)
    requires
        sent is Failed ==> to is Independent,
    ensures
        *final(shared) == delivered(*old(shared), to, item, sent),
        r == goes_on(sent),
        !r ==> final(shared).abort.cancelled,
{
    match sent {
        Sent::Delivered => {
            match item {
                Item::CopiedPacket => {
                    shared.counters.packets_copied = shared.counters.packets_copied.wrapping_add(1);
                },
                Item::EncodedPacket => {
                    shared.counters.packets_encoded = shared.counters.packets_encoded.wrapping_add(
                        1,
                    );
                },
                Item::Frame => match to {
                    Downstream::Independent { .. } => {
                        shared.counters.frames_written =
                        shared.counters.frames_written.wrapping_add(1);
                    },
                    _ => {},
                },
                Item::Signal => {},
            }
            true
        },
        Sent::Closed => {
            shared.abort.request_abort();
            false
        },
        Sent::Failed(fault) => {
            let track: u32 = match to {
                Downstream::Independent { track } => track,
                Downstream::Aggregate { track } => track,
                Downstream::Channel => 0,
            };
            match record_sink_result(&mut shared.abort, track, Err(fault)) {
                _ => {},
            }
            false
        },
    }
}

/// A worker that stops after a delivery leaves the pipeline stopping, and a
/// delivery never loses a failure that was recorded before.
pub proof fn delivery_keeps_first_failure<E>(
    shared: Shared<E>,
    to: Downstream,
    item: Item,
    sent: Sent<E>,
)
    ensures
        shared.abort.first is Some ==> delivered(shared, to, item, sent).abort.first
            == shared.abort.first,
        shared.abort.cancelled ==> delivered(shared, to, item, sent).abort.cancelled,
        !goes_on(sent) ==> delivered(shared, to, item, sent).abort.cancelled,
{
}

/// The stream of a source that a seek moves, and where to, on that stream's own
/// clock: the stream that was asked for where the source routes it, else the
/// first that it routes. Where the stream's clock is unknown the position is
/// left as it was given.
pub open spec fn seek_target(routes: Seq<u32>, streams: Seq<StreamInfo>, cmd: SeekCmd) -> (
    u32,
    i64,
    TimeBase,
) {
    let stream = if routes.contains(cmd.stream_idx) || routes.len() == 0 {
        cmd.stream_idx
    } else {
        routes[0]
    };
    let at = stream_at(streams, stream, 0);
    if 0 <= at < streams.len() {
        (
            stream,
            cmd.time_base.rescaled(cmd.pts, streams[at].time_base),
            streams[at].time_base,
        )
    } else {
        (stream, cmd.pts, cmd.time_base)
    }
}

/// Finds the stream of a source that a seek moves, and where to.
pub fn resolve_seek_target(routes: &Vec<u32>, streams: &Vec<StreamInfo>, cmd: &SeekCmd) -> (r: (
    u32,
    i64,
    TimeBase,
))
    ensures
        r == seek_target(routes@, streams@, *cmd),
{
    let mut routed = false;
    let mut i: usize = 0;
    while i < routes.len() && !routed
        invariant
            i <= routes.len(),
            routed ==> routes@.contains(cmd.stream_idx),
            !routed ==> forall|j: int| 0 <= j < i ==> routes@[j] != cmd.stream_idx,
        decreases routes.len() - i,
    {
        if routes[i] == cmd.stream_idx {
            assert(routes@[i as int] == cmd.stream_idx);
            routed = true;
        }
        i += 1;
    }
    let stream: u32 = if routed || routes.len() == 0 {
        cmd.stream_idx
    } else {
        routes[0]
    };
    match find_stream(streams, stream) {
        Some(at) => {
            let clock = streams[at].time_base;
            (stream, cmd.time_base.rescale(cmd.pts, clock), clock)
        },
        None => (stream, cmd.pts, cmd.time_base),
    }
}

/// Bytes that enter the queues and leave them again leave no trace, bytes that
/// leave twice cannot take the total below zero, and without a ceiling nothing
/// is counted and nobody waits. Left out are totals beyond 64 bits.
pub proof fn budget_balances(budget: QueueBudget, n: u64)
    requires
        budget.in_flight + n <= u64::MAX,
    ensures
        budget.admitted(n).released(n) == budget,
        budget.admitted(n).max == budget.max,
        budget.released(n).max == budget.max,
        budget.enabled_spec() ==> budget.admitted(n).in_flight == budget.in_flight + n,
        budget.released(n).in_flight <= budget.in_flight,
        budget.max == 0 ==> budget.admitted(n) == budget && budget.released(n) == budget
            && !budget.full() && budget.in_flight_spec() == 0,
{
}

/// A lone packet larger than the whole budget still enters: with nothing in the
/// queues a reader never waits.
pub proof fn empty_queues_never_wait(max: u64)
    ensures
        !(QueueBudget { in_flight: 0, max }).full(),
{
}

/// A seek lands every source on the same instant: whatever stream it moves, the
/// position is the requested one to within half a tick of that stream's clock,
/// and exactly the requested one on an equal clock. Left out are positions whose
/// conversion leaves the range.
pub proof fn seek_targets_one_instant(routes: Seq<u32>, streams: Seq<StreamInfo>, cmd: SeekCmd)
    ensures
        ({
            let (stream, pts, clock) = seek_target(routes, streams, cmd);
            let n = cmd.time_base.ticks_num(cmd.pts, clock);
            let d = cmd.time_base.ticks_den(clock);
            &&& routes.contains(cmd.stream_idx) ==> stream == cmd.stream_idx
            &&& routes.len() > 0 ==> routes.contains(stream)
            &&& d != 0 && crate::media::magnitude(n) <= u128::MAX && i64::MIN
                <= crate::media::nearest(n, d) <= i64::MAX ==> 2 * crate::media::magnitude(
                pts * d - n,
            ) <= crate::media::magnitude(d)
            &&& clock == cmd.time_base && d != 0 && crate::media::magnitude(n) <= u128::MAX ==> pts
                == cmd.pts
        }),
{
    let (stream, pts, clock) = seek_target(routes, streams, cmd);
    let n = cmd.time_base.ticks_num(cmd.pts, clock);
    let d = cmd.time_base.ticks_den(clock);
    if routes.len() > 0 && !routes.contains(cmd.stream_idx) {
        assert(routes[0] == stream);
    }
    let a = cmd.time_base.num as int;
    let b = cmd.time_base.den as int;
    if clock == cmd.time_base && d != 0 && crate::media::magnitude(n) <= u128::MAX {
        assert(a != 0 && b != 0) by (nonlinear_arith)
            requires
                b * a != 0,
        ;
        crate::media::rescale_to_same_clock(clock, cmd.pts);
    }
    if d != 0 && crate::media::magnitude(n) <= u128::MAX && i64::MIN <= crate::media::nearest(n, d)
        <= i64::MAX {
        crate::media::rescale_keeps_the_instant(cmd.time_base, cmd.pts, clock);
        let at = stream_at(streams, stream, 0);
        if !(0 <= at < streams.len()) {
            assert(clock == cmd.time_base);
            assert(a != 0 && b != 0) by (nonlinear_arith)
                requires
                    b * a != 0,
            ;
            crate::media::rescale_to_same_clock(clock, cmd.pts);
        }
    }
}

/// A seek moves a stream that the source routes: the one that was asked for, else the
/// first, and the one that was asked for where it routes none. The position is told on
/// the clock of the first stream with that index, and is left as it came where the source
/// has none.
pub proof fn seek_moves_a_routed_stream(
    routes: Seq<u32>,
    streams: Seq<StreamInfo>,
    cmd: SeekCmd,
    i: int,
)
    requires
        0 <= i <= streams.len(),
        forall|j: int|
            0 <= j < i ==> (#[trigger] streams[j]).index != seek_target(routes, streams, cmd).0,
        i < streams.len() ==> streams[i].index == seek_target(routes, streams, cmd).0,
    ensures
        ({
            let (stream, pts, clock) = seek_target(routes, streams, cmd);
            &&& routes.contains(cmd.stream_idx) ==> stream == cmd.stream_idx
            &&& routes.len() == 0 ==> stream == cmd.stream_idx
            &&& routes.len() > 0 && !routes.contains(cmd.stream_idx) ==> stream == routes[0]
            &&& i == streams.len() ==> pts == cmd.pts && clock == cmd.time_base
            &&& i < streams.len() ==> clock == streams[i].time_base && pts
                == cmd.time_base.rescaled(cmd.pts, streams[i].time_base)
        }),
{
    crate::track::stream_at_finds(streams, seek_target(routes, streams, cmd).0, 0);
}

/// What arrives is counted once, under what it is, and nothing else is: a packet that was
/// copied or encoded wherever it goes, a frame only at a track's own sink, a signal never.
/// What did not arrive is not counted.
pub proof fn arrivals_are_counted_once<E>(
    shared: Shared<E>,
    to: Downstream,
    item: Item,
    sent: Sent<E>,
)
    requires
        shared.counters.packets_copied < u64::MAX,
        shared.counters.packets_encoded < u64::MAX,
        shared.counters.frames_written < u64::MAX,
    ensures
        ({
            let a = shared.counters;
            let b = delivered(shared, to, item, sent).counters;
            &&& b.packets_read == a.packets_read
            &&& b.frames_decoded == a.frames_decoded
            &&& b.packets_skipped == a.packets_skipped
            &&& b.packets_copied - a.packets_copied == if sent is Delivered && item is CopiedPacket {
                1int
            } else {
                0
            }
            &&& b.packets_encoded - a.packets_encoded == if sent is Delivered
                && item is EncodedPacket {
                1int
            } else {
                0
            }
            &&& b.frames_written - a.frames_written == if sent is Delivered && item is Frame
                && to is Independent {
                1int
            } else {
                0
            }
        }),
        delivered(shared, to, item, sent).budget == shared.budget,
        sent is Delivered ==> delivered(shared, to, item, sent).abort == shared.abort,
{
}

/// A sink that fails is put down as such, under its track, unless something failed before
/// or it only answers the call to stop; and everybody stops. One that does not fail stops
/// nobody.
pub proof fn failing_sink_is_put_down<E>(abort: AbortState<E>, track: u32, fault: Fault<E>)
    ensures
        ({
            let a = sink_recorded(abort, track, Err(fault));
            &&& a.cancelled
            &&& abort.first is Some ==> a.first == abort.first
            &&& abort.first is None && fault.cancelled && abort.cancelled ==> a.first is None
            &&& abort.first is None && !(fault.cancelled && abort.cancelled) ==> {
                &&& a.first is Some
                &&& a.first->0.stage is Sink
                &&& a.first->0.track == Some(track)
                &&& a.first->0.error == fault.cause
            }
        }),
        sink_recorded(abort, track, Ok(())) == abort,
{
}

/// A report tells the counters as they stand, each under its own name, and as many bytes
/// as are queued where they are counted.
pub proof fn report_tells_the_counters(
    counters: PipelineCounters,
    budget: QueueBudget,
    pts: Option<i64>,
    eof: bool,
    elapsed: u64,
)
    ensures
        ({
            let p = counters.progress_spec(budget, pts, eof, elapsed);
            let s = counters.snapshot_spec();
            &&& p.frames == counters.frames_written == s.frames_written
            &&& p.packets_read == counters.packets_read == s.packets_read
            &&& p.packets_copied == counters.packets_copied == s.packets_copied
            &&& p.packets_encoded == counters.packets_encoded == s.packets_encoded
            &&& p.packets_skipped == counters.packets_skipped == s.packets_skipped
            &&& s.frames_decoded == counters.frames_decoded
            &&& p.pts == pts && p.eof == eof && p.elapsed_micros == elapsed
            &&& budget.max > 0 ==> p.queue_bytes == budget.in_flight
            &&& budget.max == 0 ==> p.queue_bytes == 0
        }),
{
}

/// A reader holds off exactly while there is a ceiling and as much is queued as that, or
/// more.
pub proof fn ceiling_holds_readers_off(budget: QueueBudget)
    ensures
        budget.full() <==> 0 < budget.max <= budget.in_flight,
{
}

} // verus!
