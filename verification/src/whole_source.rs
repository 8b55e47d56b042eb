//! The worker of a source, from its start to its end: what it hands to each of its
//! tracks, and what it adds to the counters and the queues, whatever the others do
//! meanwhile.

use crate::reports::{crossing, source_event};
use crate::scripted::{
    leading_adds_up, leads_to, nothing_leads_nowhere, one_turn_leads, Tally,
};
use crate::source_stage::{route_from, SourceCommand, SourcePhase, SourceReply, SourceView};
use crate::staged::{wrapped, PipelineCounters, Shared};
use crate::sums::{empty_ways_weigh_nothing, load, load_updated};
use crate::whole_staged::{gain, undisturbed};
use vstd::prelude::*;

verus! {

/// A packet as its source hands it out.
#[derive(Clone, Copy, Debug, PartialEq, Eq, Structural)]
pub struct SourcePacket {
    pub stream: u32,
    pub bytes: u64,
}

/// What a source hands out before its end.
pub enum Supply<F> {
    Packets(Seq<SourcePacket>),
    Frames(Seq<F>),
}

impl<F> Supply<F> {
    pub open spec fn len(self) -> nat {
        match self {
            Supply::Packets(p) => p.len(),
            Supply::Frames(f) => f.len(),
        }
    }

    /// Whether a track that takes this stream takes the `i`th packet or frame.
    pub open spec fn goes_to(self, stream: u32, i: int) -> bool {
        match self {
            Supply::Packets(p) => p[i].stream == stream,
            Supply::Frames(_) => true,
        }
    }

    /// The stream and the size of the `i`th packet or frame; frames are not measured.
    pub open spec fn item(self, i: int) -> SourcePacket {
        match self {
            Supply::Packets(p) => p[i],
            Supply::Frames(_) => SourcePacket { stream: 0, bytes: 0 },
        }
    }

    /// The sizes of what a track takes of the first `n` packets or frames.
    pub open spec fn share(self, stream: u32, n: nat) -> Seq<u64>
        decreases n,
    {
        if n == 0 {
            Seq::empty()
        } else {
            let before = self.share(stream, (n - 1) as nat);
            if self.goes_to(stream, n - 1) {
                before.push(self.item(n - 1).bytes)
            } else {
                before
            }
        }
    }

    /// What reading the first `n` packets or frames counts for.
    pub open spec fn reading(self, n: nat) -> Tally {
        match self {
            Supply::Packets(_) => Tally { read: n, ..Tally::none() },
            Supply::Frames(_) => Tally { decoded: n, ..Tally::none() },
        }
    }

    /// What each of several tracks takes of the first `n` packets or frames, the
    /// tracks before `from` one more.
    pub open spec fn shares(self, routes: Seq<u32>, n: nat, from: int) -> Seq<Seq<u64>> {
        Seq::new(
            routes.len(),
            |r: int| self.share(routes[r], if r < from { n + 1 } else { n }),
        )
    }
}

/// A source worker, and what it has handed to each of its routes.
#[verifier::ext_equal]
pub struct SourceSystem<E> {
    pub v: SourceView,
    pub now: nat,
    pub tally: Tally,
    /// The bytes that it has put into the queues.
    pub queued: int,
    /// How much has been read.
    pub read: nat,
    /// The sizes of what has been handed to each route.
    pub sent: Seq<Seq<u64>>,
    /// How many routes have been told that nothing more comes.
    pub told: nat,
    pub command: SourceCommand<E>,
}

/// What a source hands out, and the workers around it.
#[verifier::reject_recursive_types(F)]
#[verifier::reject_recursive_types(E)]
pub struct SourceScript<F, E> {
    pub supply: Supply<F>,
    pub shared: spec_fn(nat) -> Shared<E>,
}

/// The queues do not stay full: a source that finds them full has to wait, but not
/// forever.
pub open spec fn roomy<E>(shared: spec_fn(nat) -> Shared<E>) -> bool {
    exists|m: nat| #[trigger] roomy_from(shared, m)
}

pub open spec fn roomy_from<E>(shared: spec_fn(nat) -> Shared<E>, m: nat) -> bool {
    forall|i: nat| m <= i ==> !(#[trigger] shared(i)).budget.full()
}

/// What comes of a source worker's call.
pub open spec fn source_call<F, E>(supply: Supply<F>, y: SourceSystem<E>) -> (
    SourceSystem<E>,
    SourceReply<E>,
) {
    match y.command {
        SourceCommand::ReadPacket | SourceCommand::ReadFrame => if y.read < supply.len() {
            (
                SourceSystem { read: y.read + 1, ..y },
                match supply {
                    Supply::Packets(p) => SourceReply::Packet {
                        stream: p[y.read as int].stream,
                        bytes: p[y.read as int].bytes,
                    },
                    Supply::Frames(_) => SourceReply::Frame,
                },
            )
        } else {
            (y, SourceReply::Eof)
        },
        SourceCommand::PollSeek => (y, SourceReply::NoSeek),
        SourceCommand::SendData { route } => (
            SourceSystem {
                sent: y.sent.update(
                    route as int,
                    y.sent[route as int].push(y.v.phase->Sending_bytes),
                ),
                ..y
            },
            SourceReply::Sent,
        ),
        SourceCommand::SendEof { .. } => (
            SourceSystem { told: y.told + 1, ..y },
            SourceReply::Done,
        ),
        SourceCommand::SendBarrier { .. } | SourceCommand::SendStreamEnd { .. } => (
            y,
            SourceReply::Sent,
        ),
        _ => (y, SourceReply::Done),
    }
}

impl<F, E> SourceScript<F, E> {
    pub open spec fn answered(self, y: SourceSystem<E>, reply: SourceReply<E>) -> SourceSystem<E> {
        let before = (self.shared)(y.now);
        let (v, after, command) = y.v.step(before, reply);
        SourceSystem {
            v,
            now: y.now + 1,
            tally: y.tally.plus(gain(before, after)),
            queued: y.queued + crossing(source_event(y.v, before, reply)),
            command,
            ..y
        }
    }

    /// One call and what comes of it; nothing once the worker is finished.
    pub open spec fn turn(self, y: SourceSystem<E>) -> SourceSystem<E> {
        if y.command is Finished || y.command is Failed {
            y
        } else {
            let (z, reply) = source_call(self.supply, y);
            self.answered(z, reply)
        }
    }

    pub open spec fn turns(self) -> spec_fn(SourceSystem<E>) -> SourceSystem<E> {
        |y: SourceSystem<E>| self.turn(y)
    }

    /// A worker for this source, which does not stay at its end.
    pub open spec fn wf(self, v: SourceView) -> bool {
        &&& v.frames == (self.supply is Frames)
        &&& v.routes.len() <= usize::MAX
        &&& !v.park_at_eof
        &&& !v.ended
        &&& undisturbed(self.shared)
        &&& roomy(self.shared)
    }
}

/// A source worker that has handed on the first `n` packets or frames.
pub open spec fn source_has<F, E>(
    g: SourceScript<F, E>,
    routes: Seq<u32>,
    y: SourceSystem<E>,
    n: nat,
) -> bool {
    &&& g.wf(y.v)
    &&& y.v.routes == routes
    &&& y.read == n
    &&& y.sent == g.supply.shares(routes, n, 0)
    &&& y.queued == load(y.sent)
    &&& y.told == 0
    &&& y.tally == g.supply.reading(n)
}

/// A source worker about to read.
pub open spec fn source_reads<F, E>(
    g: SourceScript<F, E>,
    routes: Seq<u32>,
    y: SourceSystem<E>,
    n: nat,
) -> bool {
    &&& source_has(g, routes, y, n)
    &&& y.v.phase is Reading
    &&& y.command is ReadPacket || y.command is ReadFrame
}

/// A source worker that waits, looks for a seek or is about to read.
pub open spec fn source_between<F, E>(
    g: SourceScript<F, E>,
    routes: Seq<u32>,
    y: SourceSystem<E>,
    n: nat,
) -> bool {
    &&& source_has(g, routes, y, n)
    &&& {
        ||| y.v.phase is Top && y.command is Park
        ||| y.v.phase is Polling && y.command is PollSeek
        ||| source_reads(g, routes, y, n)
    }
}

/// A source worker that has nothing outstanding comes to read, once the queues have
/// room.
proof fn source_comes_to_read<F, E>(
    g: SourceScript<F, E>,
    routes: Seq<u32>,
    y: SourceSystem<E>,
    n: nat,
    m: nat,
)
    requires
        source_between(g, routes, y, n),
        roomy_from(g.shared, m),
    ensures
        exists|q: SourceSystem<E>| #[trigger]
            leads_to(g.turns(), y, q) && source_reads(g, routes, q, n),
    decreases
            if y.now < m {
                m - y.now
            } else {
                0
            },
            if y.v.phase is Top {
                2int
            } else if y.v.phase is Polling {
                1
            } else {
                0
            },
{
    if source_reads(g, routes, y, n) {
        nothing_leads_nowhere(g.turns(), y);
    } else {
        let q = g.turn(y);
        one_turn_leads(g.turns(), y);
        let shared = (g.shared)(y.now);
        assert(!shared.abort.cancelled);
        assert(m <= y.now ==> !shared.budget.full());
        assert(q.tally =~= y.tally);
        assert(source_between(g, routes, q, n));
        source_comes_to_read(g, routes, q, n, m);
        let r = choose|r: SourceSystem<E>| #[trigger]
            leads_to(g.turns(), q, r) && source_reads(g, routes, r, n);
        leading_adds_up(g.turns(), y, q, r);
    }
}

pub(crate) proof fn route_from_range(v: SourceView, stream: u32, from: int)
    requires
        0 <= from <= v.routes.len(),
    ensures
        from <= route_from(v, stream, from) <= v.routes.len(),
        route_from(v, stream, from) < v.routes.len() ==> v.frames || v.routes[route_from(
            v,
            stream,
            from,
        )] == stream,
        forall|i: int|
            from <= i < route_from(v, stream, from) ==> !v.frames && #[trigger] v.routes[i]
                != stream,
    decreases v.routes.len() - from,
{
    if from < v.routes.len() && !(v.frames || v.routes[from] == stream) {
        route_from_range(v, stream, from + 1);
    }
}

/// A source worker that hands what it read last to its routes, from one on.
pub open spec fn source_sends<F, E>(
    g: SourceScript<F, E>,
    routes: Seq<u32>,
    y: SourceSystem<E>,
    n: nat,
    from: int,
    u: SourceView,
    s: Shared<E>,
) -> bool {
    let item = g.supply.item(n as int);
    let sent = u.send(s, item.stream, item.bytes, from);
    &&& g.wf(u)
    &&& u.routes == routes
    &&& !s.abort.cancelled
    &&& y.v == sent.0
    &&& y.command == sent.2
    &&& y.read == n + 1
    &&& y.sent == g.supply.shares(routes, n, from)
    &&& y.queued == load(y.sent) + (if sent.0.phase is Sending && sent.2 is SendData {
        item.bytes as int
    } else {
        0
    })
    &&& y.told == 0
    &&& y.tally == g.supply.reading(n + 1)
}

proof fn source_serves_its_routes<F, E>(
    g: SourceScript<F, E>,
    routes: Seq<u32>,
    y: SourceSystem<E>,
    n: nat,
    from: int,
    u: SourceView,
    s: Shared<E>,
)
    requires
        source_sends(g, routes, y, n, from, u, s),
        0 <= from <= routes.len(),
        n < g.supply.len(),
    ensures
        exists|q: SourceSystem<E>| #[trigger]
            leads_to(g.turns(), y, q) && source_between(g, routes, q, n + 1),
    decreases routes.len() - from,
{
    let item = g.supply.item(n as int);
    let r = route_from(u, item.stream, from);
    route_from_range(u, item.stream, from);
    if r < routes.len() {
        assert(r as usize as int == r);
        let b = g.turn(y);
        one_turn_leads(g.turns(), y);
        let s1 = (g.shared)(y.now);
        assert(!s1.abort.cancelled);
        load_updated(y.sent, r, item.bytes);
        assert(b.tally =~= y.tally);
        assert(b.sent =~= g.supply.shares(routes, n, r + 1));
        let next = y.v.send(s1, item.stream, item.bytes, r + 1);
        assert(b.v == next.0 && b.command == next.2);
        assert(next.2 is SendData ==> next.0.phase is Sending && next.0.phase->Sending_bytes
            == item.bytes);
        assert(source_sends(g, routes, b, n, r + 1, y.v, s1));
        source_serves_its_routes(g, routes, b, n, r + 1, y.v, s1);
        let q = choose|q: SourceSystem<E>| #[trigger]
            leads_to(g.turns(), b, q) && source_between(g, routes, q, n + 1);
        leading_adds_up(g.turns(), y, b, q);
    } else {
        assert(y.sent =~= g.supply.shares(routes, n + 1, 0));
        nothing_leads_nowhere(g.turns(), y);
        assert(source_between(g, routes, y, n + 1));
    }
}

proof fn source_reads_on<F, E>(
    g: SourceScript<F, E>,
    routes: Seq<u32>,
    y: SourceSystem<E>,
    n: nat,
    m: nat,
)
    requires
        source_reads(g, routes, y, n),
        n <= g.supply.len(),
        roomy_from(g.shared, m),
    ensures
        exists|q: SourceSystem<E>| #[trigger]
            leads_to(g.turns(), y, q) && source_reads(g, routes, q, g.supply.len()),
    decreases g.supply.len() - n,
{
    if n == g.supply.len() {
        nothing_leads_nowhere(g.turns(), y);
    } else {
        let a = g.turn(y);
        one_turn_leads(g.turns(), y);
        let s0 = (g.shared)(y.now);
        assert(!s0.abort.cancelled);
        let s1 = source_counted(g, s0);
        let item = g.supply.item(n as int);
        let next = y.v.send(s1, item.stream, item.bytes, 0);
        assert(a.v == next.0 && a.command == next.2);
        assert(a.tally =~= g.supply.reading(n + 1));
        assert(next.2 is SendData ==> next.0.phase is Sending && next.0.phase->Sending_bytes
            == item.bytes);
        assert(source_sends(g, routes, a, n, 0, y.v, s1));
        source_serves_its_routes(g, routes, a, n, 0, y.v, s1);
        let b = choose|q: SourceSystem<E>| #[trigger]
            leads_to(g.turns(), a, q) && source_between(g, routes, q, n + 1);
        leading_adds_up(g.turns(), y, a, b);
        source_comes_to_read(g, routes, b, n + 1, m);
        let c = choose|q: SourceSystem<E>| #[trigger]
            leads_to(g.turns(), b, q) && source_reads(g, routes, q, n + 1);
        leading_adds_up(g.turns(), y, b, c);
        source_reads_on(g, routes, c, n + 1, m);
        let q = choose|q: SourceSystem<E>| #[trigger]
            leads_to(g.turns(), c, q) && source_reads(g, routes, q, g.supply.len());
        leading_adds_up(g.turns(), y, c, q);
    }
}

/// What the workers share once a source has counted what it read.
pub open spec fn source_counted<F, E>(g: SourceScript<F, E>, s: Shared<E>) -> Shared<E> {
    Shared {
        counters: match g.supply {
            Supply::Packets(_) => PipelineCounters {
                packets_read: wrapped(s.counters.packets_read + 1),
                ..s.counters
            },
            Supply::Frames(_) => PipelineCounters {
                frames_decoded: wrapped(s.counters.frames_decoded + 1),
                ..s.counters
            },
        },
        ..s
    }
}

/// A source worker that tells its routes the end, from one on.
pub open spec fn source_tells<E>(y: SourceSystem<E>, routes: Seq<u32>, from: int) -> bool {
    &&& y.v.routes == routes
    &&& y.told == from
    &&& if from < routes.len() {
        y.command == (SourceCommand::<E>::SendEof { route: from as usize }) && y.v.phase == (
        SourcePhase::Eof { route: from as usize })
    } else {
        y.command is Finished
    }
}

proof fn source_tells_its_routes<F, E>(
    g: SourceScript<F, E>,
    routes: Seq<u32>,
    y: SourceSystem<E>,
    from: int,
)
    requires
        source_tells(y, routes, from),
        0 <= from <= routes.len() <= usize::MAX,
    ensures
        exists|q: SourceSystem<E>| #[trigger]
            leads_to(g.turns(), y, q) && q.command is Finished && q.told == routes.len() && q.sent
                == y.sent && q.queued == y.queued && q.tally == y.tally,
    decreases routes.len() - from,
{
    if from < routes.len() {
        let b = g.turn(y);
        one_turn_leads(g.turns(), y);
        assert(b.tally =~= y.tally);
        assert(source_tells(b, routes, from + 1));
        source_tells_its_routes(g, routes, b, from + 1);
        let q = choose|q: SourceSystem<E>| #[trigger]
            leads_to(g.turns(), b, q) && q.command is Finished && q.told == routes.len() && q.sent
                == b.sent && q.queued == b.queued && q.tally == b.tally;
        leading_adds_up(g.turns(), y, b, q);
    } else {
        nothing_leads_nowhere(g.turns(), y);
    }
}

/// A source worker before it starts.
pub open spec fn source_idle<E>(v: SourceView) -> SourceSystem<E> {
    SourceSystem {
        v,
        now: 0,
        tally: Tally::none(),
        queued: 0,
        read: 0,
        sent: Seq::new(v.routes.len(), |r: int| Seq::empty()),
        told: 0,
        command: SourceCommand::Park,
    }
}

/// A source worker that starts.
pub open spec fn source_start<F, E>(g: SourceScript<F, E>, v: SourceView) -> SourceSystem<E> {
    g.answered(source_idle(v), SourceReply::Start)
}

/// A source worker at its end: it has handed every packet and frame to each route
/// that takes it, has told every route the end, and has counted just what it read
/// and what it put into the queues.
pub open spec fn source_done<F, E>(supply: Supply<F>, v: SourceView, q: SourceSystem<E>) -> bool {
    &&& q.command is Finished
    &&& q.told == v.routes.len()
    &&& q.sent == supply.shares(v.routes, supply.len(), 0)
    &&& q.queued == load(q.sent)
    &&& q.tally == supply.reading(supply.len())
}

/// A source worker runs to its end, waiting where the queues are full.
pub proof fn source_runs<F, E>(g: SourceScript<F, E>, v: SourceView)
    requires
        g.wf(v),
        v.phase is Top,
    ensures
        exists|q: SourceSystem<E>| #[trigger]
            leads_to(g.turns(), source_start(g, v), q) && source_done(g.supply, v, q),
{
    let routes = v.routes;
    let m = choose|m: nat| #[trigger] roomy_from(g.shared, m);
    let a = source_start(g, v);
    let first = (g.shared)(0);
    assert(!first.abort.cancelled);
    assert(a.tally =~= g.supply.reading(0));
    assert(a.sent =~= g.supply.shares(routes, 0, 0));
    empty_ways_weigh_nothing(a.sent);
    assert(source_between(g, routes, a, 0));
    source_comes_to_read(g, routes, a, 0, m);
    let b = choose|b: SourceSystem<E>| #[trigger]
        leads_to(g.turns(), a, b) && source_reads(g, routes, b, 0);
    source_reads_on(g, routes, b, 0, m);
    let c = choose|c: SourceSystem<E>| #[trigger]
        leads_to(g.turns(), b, c) && source_reads(g, routes, c, g.supply.len());
    leading_adds_up(g.turns(), a, b, c);
    let d = g.turn(c);
    one_turn_leads(g.turns(), c);
    leading_adds_up(g.turns(), a, c, d);
    assert(d.tally =~= c.tally);
    assert(source_tells(d, routes, 0));
    source_tells_its_routes(g, routes, d, 0);
    let q = choose|q: SourceSystem<E>| #[trigger]
        leads_to(g.turns(), d, q) && q.command is Finished && q.told == routes.len() && q.sent
            == d.sent && q.queued == d.queued && q.tally == d.tally;
    leading_adds_up(g.turns(), a, d, q);
}

} // verus!
