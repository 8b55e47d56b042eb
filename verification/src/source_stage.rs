//! The worker that reads a source and hands what it reads to the tracks.

use crate::failure::{Cause, FailureStage, StageFailure};
use crate::media::{StreamInfo, TimeBase};
use crate::staged::{
    resolve_seek_target, seek_target, wrapped, BarrierKind, PipelineCounters, SeekCmd, Shared,
};
use vstd::prelude::*;

verus! {

/// Where a source worker stands between the calls that it asks for.
#[derive(Clone, Copy, Debug, PartialEq, Eq, Structural)]
pub enum SourcePhase {
    /// Before the next seek or read.
    Top,
    Polling,
    /// A seek goes to the other sources, from this one on.
    Forwarding { cmd: SeekCmd, sibling: usize },
    /// The source is being moved; where it lands is on this clock.
    Seeking { generation: u32, clock: TimeBase },
    /// A barrier goes to the routes, from this one on.
    Barrier { kind: BarrierKind, route: usize },
    Reading,
    /// What was read goes to the routes that take it, from this one on.
    Sending { stream: u32, bytes: u64, route: usize },
    /// The routes hear that the source is at its end but stays, from this one on.
    Ending { route: usize },
    /// The routes hear that nothing more comes, from this one on.
    Eof { route: usize },
    Finished,
}

pub enum SourceCommand<E> {
    /// Wait a moment.
    Park,
    /// Look for a seek request.
    PollSeek,
    /// Hand a seek request on to another source.
    Forward { sibling: usize, cmd: SeekCmd },
    SeekTo { stream: u32, pts: i64 },
    SendBarrier { route: usize, kind: BarrierKind },
    ReadPacket,
    ReadFrame,
    /// Hand what was read to a route.
    SendData { route: usize },
    SendStreamEnd { route: usize },
    SendEof { route: usize },
    Finished,
    Failed(StageFailure<E>),
}

pub enum SourceReply<E> {
    Start,
    Done,
    NoSeek,
    Seek(SeekCmd),
    Landed(i64),
    Rejected,
    Packet { stream: u32, bytes: u64 },
    Frame,
    Eof,
    Error(E),
    Sent,
    /// The receiving end of the queue is gone.
    Closed,
}

pub struct SourceStage {
    /// Whether the source hands out decoded frames instead of packets.
    pub frames: bool,
    /// The stream of the source that each route takes.
    pub routes: Vec<u32>,
    pub streams: Vec<StreamInfo>,
    /// Whether seek requests reach this source.
    pub has_seek: bool,
    /// How many other sources this one hands seek requests on to.
    pub siblings: usize,
    /// Whether the source stays, at its end, for a seek.
    pub park_at_eof: bool,
    pub ended: bool,
    pub phase: SourcePhase,
}

#[verifier::ext_equal]
pub struct SourceView {
    pub frames: bool,
    pub routes: Seq<u32>,
    pub streams: Seq<StreamInfo>,
    pub has_seek: bool,
    pub siblings: int,
    pub park_at_eof: bool,
    pub ended: bool,
    pub phase: SourcePhase,
}

impl View for SourceStage {
    type V = SourceView;

    open spec fn view(&self) -> SourceView {
        SourceView {
            frames: self.frames,
            routes: self.routes@,
            streams: self.streams@,
            has_seek: self.has_seek,
            siblings: self.siblings as int,
            park_at_eof: self.park_at_eof,
            ended: self.ended,
            phase: self.phase,
        }
    }
}

/// The first route at or after `from` that takes a stream. Every route takes the
/// frames of a frame source.
pub open spec fn route_from(v: SourceView, stream: u32, from: int) -> int
    decreases v.routes.len() - from,
{
    if from < 0 || from >= v.routes.len() {
        v.routes.len() as int
    } else if v.frames || v.routes[from] == stream {
        from
    } else {
        route_from(v, stream, from + 1)
    }
}

pub open spec fn with_abort<E>(shared: Shared<E>) -> Shared<E> {
    Shared { abort: shared.abort.aborted(), ..shared }
}

impl SourceView {
    pub open spec fn at(self, phase: SourcePhase) -> SourceView {
        SourceView { phase, ..self }
    }

    /// Before anything else: stop where that was asked for, hold off where the
    /// queues are full, then look for a seek, then read.
    pub open spec fn top<E>(self, shared: Shared<E>) -> (SourceView, Shared<E>, SourceCommand<E>) {
        if shared.abort.cancelled {
            self.eof(shared, 0)
        } else if !self.frames && shared.budget.full() {
            (self.at(SourcePhase::Top), shared, SourceCommand::Park)
        } else if self.has_seek {
            (self.at(SourcePhase::Polling), shared, SourceCommand::PollSeek)
        } else {
            self.read(shared)
        }
    }

    pub open spec fn read<E>(self, shared: Shared<E>) -> (SourceView, Shared<E>, SourceCommand<E>) {
        if self.ended {
            (self.at(SourcePhase::Top), shared, SourceCommand::Park)
        } else {
            (
                self.at(SourcePhase::Reading),
                shared,
                if self.frames {
                    SourceCommand::ReadFrame
                } else {
                    SourceCommand::ReadPacket
                },
            )
        }
    }

    /// The end goes to route after route; the outcome does not matter.
    pub open spec fn eof<E>(self, shared: Shared<E>, route: int) -> (
        SourceView,
        Shared<E>,
        SourceCommand<E>,
    ) {
        if route < self.routes.len() {
            (
                self.at(SourcePhase::Eof { route: route as usize }),
                shared,
                SourceCommand::SendEof { route: route as usize },
            )
        } else {
            (self.at(SourcePhase::Finished), shared, SourceCommand::Finished)
        }
    }

    /// The source is at its end and stays.
    pub open spec fn ending<E>(self, shared: Shared<E>, route: int) -> (
        SourceView,
        Shared<E>,
        SourceCommand<E>,
    ) {
        if route < self.routes.len() {
            (
                self.at(SourcePhase::Ending { route: route as usize }),
                shared,
                SourceCommand::SendStreamEnd { route: route as usize },
            )
        } else {
            SourceView { ended: true, ..self }.top(shared)
        }
    }

    /// A seek goes to the other sources first, then moves this one. A source of
    /// frames cannot be moved.
    pub open spec fn forward<E>(self, shared: Shared<E>, cmd: SeekCmd, sibling: int) -> (
        SourceView,
        Shared<E>,
        SourceCommand<E>,
    ) {
        if sibling < self.siblings {
            (
                self.at(SourcePhase::Forwarding { cmd, sibling: sibling as usize }),
                shared,
                SourceCommand::Forward { sibling: sibling as usize, cmd },
            )
        } else if self.frames {
            self.barrier(shared, BarrierKind::SeekRejected { generation: cmd.generation }, 0)
        } else {
            let (stream, pts, clock) = seek_target(self.routes, self.streams, cmd);
            (
                self.at(SourcePhase::Seeking { generation: cmd.generation, clock }),
                shared,
                SourceCommand::SeekTo { stream, pts },
            )
        }
    }

    /// A barrier goes to route after route. A source that moved is no longer at
    /// its end.
    pub open spec fn barrier<E>(self, shared: Shared<E>, kind: BarrierKind, route: int) -> (
        SourceView,
        Shared<E>,
        SourceCommand<E>,
    ) {
        if route < self.routes.len() {
            (
                self.at(SourcePhase::Barrier { kind, route: route as usize }),
                shared,
                SourceCommand::SendBarrier { route: route as usize, kind },
            )
        } else {
            let moved = SourceView { ended: self.ended && !(kind is SeekFlush), ..self };
            (moved.at(SourcePhase::Polling), shared, SourceCommand::PollSeek)
        }
    }

    /// What was read goes to every route that takes it; a packet is counted into
    /// the queues before it is handed over.
    pub open spec fn send<E>(self, shared: Shared<E>, stream: u32, bytes: u64, from: int) -> (
        SourceView,
        Shared<E>,
        SourceCommand<E>,
    ) {
        let route = route_from(self, stream, from);
        if route < self.routes.len() {
            (
                self.at(SourcePhase::Sending { stream, bytes, route: route as usize }),
                if self.frames {
                    shared
                } else {
                    Shared { budget: shared.budget.admitted(bytes), ..shared }
                },
                SourceCommand::SendData { route: route as usize },
            )
        } else {
            self.top(shared)
        }
    }

    /// One exchange: the outcome of the awaited call, then the next call.
    pub open spec fn step<E>(self, shared: Shared<E>, reply: SourceReply<E>) -> (
        SourceView,
        Shared<E>,
        SourceCommand<E>,
    ) {
        match (self.phase, reply) {
            (SourcePhase::Top, _) => self.top(shared),
            (SourcePhase::Polling, SourceReply::Seek(cmd)) => self.forward(shared, cmd, 0),
            (SourcePhase::Polling, _) => self.read(shared),
            (SourcePhase::Forwarding { cmd, sibling }, _) => self.forward(
                shared,
                cmd,
                sibling + 1,
            ),
            (SourcePhase::Seeking { generation, clock }, SourceReply::Landed(landed_pts)) =>
                self.barrier(
                shared,
                BarrierKind::SeekFlush { generation, landed_pts, time_base: clock },
                0,
            ),
            (SourcePhase::Seeking { generation, .. }, _) => self.barrier(
                shared,
                BarrierKind::SeekRejected { generation },
                0,
            ),
            (SourcePhase::Barrier { kind, route }, SourceReply::Sent) => self.barrier(
                shared,
                kind,
                route + 1,
            ),
            // The tracks are gone: stop without a word.
            (SourcePhase::Barrier { .. }, _) => (
                self.at(SourcePhase::Finished),
                with_abort(shared),
                SourceCommand::Finished,
            ),
            (SourcePhase::Reading, SourceReply::Packet { stream, bytes }) => self.send(
                Shared {
                    counters: PipelineCounters {
                        packets_read: wrapped(shared.counters.packets_read + 1),
                        ..shared.counters
                    },
                    ..shared
                },
                stream,
                bytes,
                0,
            ),
            (SourcePhase::Reading, SourceReply::Frame) => self.send(
                Shared {
                    counters: PipelineCounters {
                        frames_decoded: wrapped(shared.counters.frames_decoded + 1),
                        ..shared.counters
                    },
                    ..shared
                },
                0,
                0,
                0,
            ),
            (SourcePhase::Reading, SourceReply::Error(e)) => (
                self.at(SourcePhase::Finished),
                shared,
                SourceCommand::Failed(
                    StageFailure::at(FailureStage::Source, None, Cause::Raised(e)),
                ),
            ),
            (SourcePhase::Reading, _) => if self.park_at_eof {
                self.ending(shared, 0)
            } else {
                self.eof(shared, 0)
            },
            (SourcePhase::Sending { stream, bytes, route }, SourceReply::Sent) => self.send(
                shared,
                stream,
                bytes,
                route + 1,
            ),
            // What did not arrive is taken out of the queues again.
            (SourcePhase::Sending { stream, bytes, route }, _) => self.top(
                with_abort(
                    if self.frames {
                        shared
                    } else {
                        Shared { budget: shared.budget.released(bytes), ..shared }
                    },
                ),
            ),
            (SourcePhase::Ending { route }, SourceReply::Sent) => self.ending(shared, route + 1),
            (SourcePhase::Ending { .. }, _) => (
                self.at(SourcePhase::Finished),
                with_abort(shared),
                SourceCommand::Finished,
            ),
            (SourcePhase::Eof { route }, _) => self.eof(shared, route + 1),
            (SourcePhase::Finished, _) => (self, shared, SourceCommand::Finished),
        }
    }

    pub open spec fn phase_wf(self) -> bool {
        match self.phase {
            SourcePhase::Forwarding { sibling, .. } => sibling < self.siblings,
            SourcePhase::Barrier { route, .. }
            | SourcePhase::Sending { route, .. }
            | SourcePhase::Ending { route }
            | SourcePhase::Eof { route } => route < self.routes.len(),
            _ => true,
        }
    }
}

impl SourceStage {
    pub open spec fn wf(self) -> bool {
        self@.phase_wf()
    }

    /// A worker that has not asked for anything yet.
    pub fn new(
        frames: bool,
        routes: Vec<u32>,
        streams: Vec<StreamInfo>,
        has_seek: bool,
        siblings: usize,
        park_at_eof: bool,
    ) -> (r: Self)
        ensures
            r.wf(),
            r@ == (SourceView {
                frames,
                routes: routes@,
                streams: streams@,
                has_seek,
                siblings: siblings as int,
                park_at_eof,
                ended: false,
                phase: SourcePhase::Top,
            }),
    {
        SourceStage {
            frames,
            routes,
            streams,
            has_seek,
            siblings,
            park_at_eof,
            ended: false,
            phase: SourcePhase::Top,
        }
    }

    fn top<E>(&mut self, shared: &mut Shared<E>) -> (r: SourceCommand<E>)
        ensures
            final(self).wf(),
            (final(self)@, *final(shared), r) == old(self)@.top(*old(shared)),
    {
        if shared.abort.is_aborted() {
            self.eof(0)
        } else if !self.frames && shared.budget.wait_below_ceiling(&shared.abort) {
            self.phase = SourcePhase::Top;
            SourceCommand::Park
        } else if self.has_seek {
            self.phase = SourcePhase::Polling;
            SourceCommand::PollSeek
        } else {
            self.read()
        }
    }

    fn read<E>(&mut self) -> (r: SourceCommand<E>)
        ensures
            final(self).wf(),
            forall|shared: Shared<E>|
                (final(self)@, shared, r) == #[trigger] old(self)@.read(shared),
    {
        if self.ended {
            self.phase = SourcePhase::Top;
            SourceCommand::Park
        } else {
            self.phase = SourcePhase::Reading;
            if self.frames {
                SourceCommand::ReadFrame
            } else {
                SourceCommand::ReadPacket
            }
        }
    }

    fn eof<E>(&mut self, route: usize) -> (r: SourceCommand<E>)
        ensures
            final(self).wf(),
            forall|shared: Shared<E>|
                (final(self)@, shared, r) == #[trigger] old(self)@.eof(shared, route as int),
    {
        if route < self.routes.len() {
            self.phase = SourcePhase::Eof { route };
            SourceCommand::SendEof { route }
        } else {
            self.phase = SourcePhase::Finished;
            SourceCommand::Finished
        }
    }

    fn ending<E>(&mut self, shared: &mut Shared<E>, route: usize) -> (r: SourceCommand<E>)
        ensures
            final(self).wf(),
            (final(self)@, *final(shared), r) == old(self)@.ending(*old(shared), route as int),
    {
        if route < self.routes.len() {
            self.phase = SourcePhase::Ending { route };
            SourceCommand::SendStreamEnd { route }
        } else {
            self.ended = true;
            self.top(shared)
        }
    }

    fn forward<E>(&mut self, cmd: SeekCmd, sibling: usize) -> (r: SourceCommand<E>)
        ensures
            final(self).wf(),
            forall|shared: Shared<E>|
                (final(self)@, shared, r) == #[trigger] old(self)@.forward(
                    shared,
                    cmd,
                    sibling as int,
                ),
    {
        if sibling < self.siblings {
            self.phase = SourcePhase::Forwarding { cmd, sibling };
            SourceCommand::Forward { sibling, cmd }
        } else if self.frames {
            self.barrier(BarrierKind::SeekRejected { generation: cmd.generation }, 0)
        } else {
            let (stream, pts, clock) = resolve_seek_target(&self.routes, &self.streams, &cmd);
            self.phase = SourcePhase::Seeking { generation: cmd.generation, clock };
            SourceCommand::SeekTo { stream, pts }
        }
    }

    fn barrier<E>(&mut self, kind: BarrierKind, route: usize) -> (r: SourceCommand<E>)
        ensures
            final(self).wf(),
            forall|shared: Shared<E>|
                (final(self)@, shared, r) == #[trigger] old(self)@.barrier(
                    shared,
                    kind,
                    route as int,
                ),
    {
        if route < self.routes.len() {
            self.phase = SourcePhase::Barrier { kind, route };
            SourceCommand::SendBarrier { route, kind }
        } else {
            match kind {
                BarrierKind::SeekFlush { .. } => {
                    self.ended = false;
                },
                BarrierKind::SeekRejected { .. } => {},
            }
            self.phase = SourcePhase::Polling;
            SourceCommand::PollSeek
        }
    }

    fn find_route(&self, stream: u32, from: usize) -> (r: usize)
        requires
            from <= self.routes@.len(),
        ensures
            r == route_from(self@, stream, from as int),
            r <= self.routes@.len(),
    {
        let mut i: usize = from;
        while i < self.routes.len()
            invariant
                i <= self.routes@.len(),
                route_from(self@, stream, i as int) == route_from(self@, stream, from as int),
            decreases self.routes@.len() - i,
        {
            if self.frames || self.routes[i] == stream {
                return i;
            }
            i += 1;
        }
        i
    }

    fn send<E>(&mut self, shared: &mut Shared<E>, stream: u32, bytes: u64, from: usize) -> (r:
        SourceCommand<E>)
        requires
            from <= old(self).routes@.len(),
        ensures
            final(self).wf(),
            (final(self)@, *final(shared), r) == old(self)@.send(
                *old(shared),
                stream,
                bytes,
                from as int,
            ),
    {
        let route: usize = self.find_route(stream, from);
        if route < self.routes.len() {
            if !self.frames {
                shared.budget.admit_bytes(bytes);
            }
            self.phase = SourcePhase::Sending { stream, bytes, route };
            SourceCommand::SendData { route }
        } else {
            self.top(shared)
        }
    }

    /// Takes the outcome of the call that was asked for, and asks for the next.
    pub fn step<E>(&mut self, shared: &mut Shared<E>, reply: SourceReply<E>) -> (r: SourceCommand<
        E,
    >)
        requires
            old(self).wf(),
        ensures
            final(self).wf(),
            (final(self)@, *final(shared), r) == old(self)@.step(*old(shared), reply),
    {
        let n: usize = self.routes.len();
        match self.phase {
            SourcePhase::Top => self.top(shared),
            SourcePhase::Polling => match reply {
                SourceReply::Seek(cmd) => self.forward(cmd, 0),
                _ => self.read(),
            },
            SourcePhase::Forwarding { cmd, sibling } => self.forward(cmd, sibling + 1),
            SourcePhase::Seeking { generation, clock } => match reply {
                SourceReply::Landed(landed_pts) => self.barrier(
                    BarrierKind::SeekFlush { generation, landed_pts, time_base: clock },
                    0,
                ),
                _ => self.barrier(BarrierKind::SeekRejected { generation }, 0),
            },
            SourcePhase::Barrier { kind, route } => match reply {
                SourceReply::Sent => {
                    assert(route < n);
                    self.barrier(kind, route + 1)
                },
                _ => {
                    shared.abort.request_abort();
                    self.phase = SourcePhase::Finished;
                    SourceCommand::Finished
                },
            },
            SourcePhase::Reading => match reply {
                SourceReply::Packet { stream, bytes } => {
                    shared.counters.packets_read = shared.counters.packets_read.wrapping_add(1);
                    self.send(shared, stream, bytes, 0)
                },
                SourceReply::Frame => {
                    shared.counters.frames_decoded = shared.counters.frames_decoded.wrapping_add(1);
                    self.send(shared, 0, 0, 0)
                },
                SourceReply::Error(e) => {
                    self.phase = SourcePhase::Finished;
                    SourceCommand::Failed(
                        StageFailure::new(FailureStage::Source, None, Cause::Raised(e)),
                    )
                },
                _ => if self.park_at_eof {
                    self.ending(shared, 0)
                } else {
                    self.eof(0)
                },
            },
            SourcePhase::Sending { stream, bytes, route } => match reply {
                SourceReply::Sent => {
                    assert(route < n);
                    self.send(shared, stream, bytes, route + 1)
                },
                _ => {
                    if !self.frames {
                        shared.budget.release(bytes);
                    }
                    shared.abort.request_abort();
                    self.top(shared)
                },
            },
            SourcePhase::Ending { route } => match reply {
                SourceReply::Sent => {
                    assert(route < n);
                    self.ending(shared, route + 1)
                },
                _ => {
                    shared.abort.request_abort();
                    self.phase = SourcePhase::Finished;
                    SourceCommand::Finished
                },
            },
            SourcePhase::Eof { route } => {
                assert(route < n);
                self.eof(route + 1)
            },
            SourcePhase::Finished => SourceCommand::Finished,
        }
    }
}

proof fn route_from_range(v: SourceView, stream: u32, from: int)
    requires
        0 <= from <= v.routes.len(),
    ensures
        from <= route_from(v, stream, from) <= v.routes.len(),
        route_from(v, stream, from) < v.routes.len() ==> v.frames || v.routes[route_from(
            v,
            stream,
            from,
        )] == stream,
        forall|i: int|
            from <= i < route_from(v, stream, from) ==> !v.frames && (#[trigger] v.routes[i])
                != stream,
    decreases v.routes.len() - from,
{
    if from < v.routes.len() && !v.frames && v.routes[from] != stream {
        route_from_range(v, stream, from + 1);
    }
}

/// What was read reaches every route that takes it, in order, and no other.
pub proof fn data_reaches_every_route<E>(
    v: SourceView,
    shared: Shared<E>,
    stream: u32,
    bytes: u64,
    from: int,
)
    requires
        0 <= from <= v.routes.len() <= usize::MAX,
    ensures
        match v.send(shared, stream, bytes, from).2 {
            SourceCommand::SendData { route } => {
                &&& from <= route < v.routes.len()
                &&& v.frames || v.routes[route as int] == stream
                &&& forall|i: int|
                    from <= i < route ==> !v.frames && (#[trigger] v.routes[i]) != stream
            },
            _ => forall|i: int|
                from <= i < v.routes.len() ==> !v.frames && (#[trigger] v.routes[i]) != stream,
        },
{
    route_from_range(v, stream, from);
}

/// The state of the worker after route after route has taken a barrier.
pub open spec fn after_barriers<E>(
    v: SourceView,
    shared: Shared<E>,
    kind: BarrierKind,
    sent: nat,
) -> (SourceView, Shared<E>, SourceCommand<E>)
    decreases sent,
{
    if sent == 0 {
        v.barrier(shared, kind, 0)
    } else {
        let (w, s, _) = after_barriers(v, shared, kind, (sent - 1) as nat);
        w.step(s, SourceReply::Sent)
    }
}

/// A seek is answered by exactly one barrier on each route, all of them the same,
/// and then the worker looks for the next seek.
pub proof fn one_barrier_per_route<E>(
    v: SourceView,
    shared: Shared<E>,
    kind: BarrierKind,
    k: nat,
)
    requires
        k <= v.routes.len() <= usize::MAX,
    ensures
        ({
            let (w, s, c) = after_barriers(v, shared, kind, k);
            &&& w.routes == v.routes
            &&& s == shared
            &&& k < v.routes.len() ==> c == SourceCommand::<E>::SendBarrier {
                route: k as usize,
                kind,
            } && w.phase == (SourcePhase::Barrier { kind, route: k as usize })
            &&& k == v.routes.len() ==> c == SourceCommand::<E>::PollSeek
        }),
    decreases k,
{
    if k > 0 {
        one_barrier_per_route(v, shared, kind, (k - 1) as nat);
    }
}

/// Whatever a source makes of a seek, the barrier that answers it carries the
/// request's generation; where it moved, the barrier carries where it landed, on
/// the clock of the stream that was moved; and a seek that is refused does not
/// end the stream.
pub proof fn seek_is_answered_by_its_generation<E>(
    v: SourceView,
    shared: Shared<E>,
    cmd: SeekCmd,
    reply: SourceReply<E>,
)
    requires
        v.routes.len() > 0,
    ensures
        v.frames ==> v.forward(shared, cmd, v.siblings).2 == (SourceCommand::<E>::SendBarrier {
            route: 0,
            kind: BarrierKind::SeekRejected { generation: cmd.generation },
        }),
        !v.frames ==> ({
            let (w, s, c) = v.forward(shared, cmd, v.siblings);
            let (stream, pts, clock) = seek_target(v.routes, v.streams, cmd);
            &&& c == SourceCommand::<E>::SeekTo { stream, pts }
            &&& w.step(s, reply).2 == SourceCommand::<E>::SendBarrier {
                route: 0,
                kind: match reply {
                    SourceReply::Landed(landed_pts) => BarrierKind::SeekFlush {
                        generation: cmd.generation,
                        landed_pts,
                        time_base: clock,
                    },
                    _ => BarrierKind::SeekRejected { generation: cmd.generation },
                },
            }
        }),
{
}

/// The other sources hear of a seek, each once and all before this one moves.
pub proof fn siblings_hear_first<E>(v: SourceView, shared: Shared<E>, cmd: SeekCmd, k: int)
    requires
        0 <= k <= v.siblings <= usize::MAX,
    ensures
        k < v.siblings ==> v.forward(shared, cmd, k).2 == (SourceCommand::<E>::Forward {
            sibling: k as usize,
            cmd,
        }),
        k == v.siblings ==> !(v.forward(shared, cmd, k).2 is Forward),
        k < v.siblings ==> forall|reply: SourceReply<E>|
            (#[trigger] v.forward(shared, cmd, k).0.step(shared, reply)) == v.forward(
                shared,
                cmd,
                k + 1,
            ),
{
}

/// The worker tells route after route, each once, that nothing more comes, and
/// is then finished, whatever the routes make of it.
pub proof fn end_is_told_once_per_route<E>(
    v: SourceView,
    shared: Shared<E>,
    route: int,
    reply: SourceReply<E>,
)
    requires
        0 <= route < v.routes.len() <= usize::MAX,
    ensures
        v.eof(shared, route).2 == (SourceCommand::<E>::SendEof { route: route as usize }),
        v.eof(shared, route).0.step(shared, reply).2 == (if route + 1 < v.routes.len() {
            SourceCommand::<E>::SendEof { route: (route + 1) as usize }
        } else {
            SourceCommand::Finished
        }),
{
}

/// A source that stays at its end reads again once a seek has moved it, and not
/// before.
pub proof fn parked_source_waits_for_seek<E>(v: SourceView, shared: Shared<E>, kind: BarrierKind)
    requires
        v.ended,
        v.has_seek,
        !shared.abort.cancelled,
    ensures
        v.at(SourcePhase::Polling).step(shared, SourceReply::NoSeek).2 == SourceCommand::<E>::Park,
        v.barrier(shared, kind, v.routes.len() as int).0.ended == !(kind is SeekFlush),
        v.barrier(shared, kind, v.routes.len() as int).0.step(shared, SourceReply::NoSeek).2 == (
        if !(kind is SeekFlush) {
            SourceCommand::<E>::Park
        } else if v.frames {
            SourceCommand::ReadFrame
        } else {
            SourceCommand::ReadPacket
        }),
{
}

/// While the queues hold as many bytes as they may, or more, nothing is read: the
/// worker waits until they hold less, or until it is to stop.
pub proof fn full_queues_stop_reading<E>(v: SourceView, shared: Shared<E>)
    requires
        !v.frames,
    ensures
        shared.budget.full() && !shared.abort.cancelled ==> v.top(shared)
            == (v.at(SourcePhase::Top), shared, SourceCommand::<E>::Park),
        shared.abort.cancelled ==> !(v.top(shared).2 is Park),
        !shared.budget.full() && !shared.abort.cancelled && !v.ended ==> !(v.top(shared).2 is Park),
{
}

} // verus!
