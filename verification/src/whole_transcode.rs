//! A whole run of a transcode into one container, given what its decoders and encoders do:
//! what is in the container, and what is counted.

use crate::scripted::{
    after_turns, leading_adds_up, leads_to, nothing_leads_nowhere, one_turn_leads, turns_add_up,
};
use crate::sums::{nothing_totals, total, total_updated};
use crate::transcode::{
    encoder_from, encoder_from_range, last_route, RemuxCommand, RemuxPhase, RemuxReply, RemuxRun,
    TranscodeCommand, TranscodePhase, TranscodeReply, TranscodeRoute, TranscodeStats,
    TranscodeView,
};
use vstd::prelude::*;

verus! {

/// The streams of the packets that a source hands out, and what the decoder and the encoder
/// of each route do, each as a function of what it was given before.
#[verifier::reject_recursive_types(F)]
pub struct CodingScript<F> {
    pub packets: Seq<u32>,
    /// The frames that the decoder of a route makes of its `k`th packet.
    pub made: spec_fn(int, nat) -> Seq<F>,
    /// The frames that it hands out once it is flushed.
    pub tail: spec_fn(int) -> Seq<F>,
    /// How many packets the encoder of a route makes of a frame, after earlier ones.
    pub coded: spec_fn(int, Seq<F>, F) -> nat,
    /// How many it hands out once it is flushed.
    pub kept: spec_fn(int, Seq<F>) -> nat,
}

/// A packet in the container: the stream that it is under, and where it comes from: it is
/// the packet at this position of the source, or one of an encoder.
#[derive(Clone, Copy, Debug, PartialEq, Eq, Structural)]
pub struct Entry {
    pub out_index: u32,
    pub copied: Option<usize>,
}

/// A transcode under way.
#[verifier::ext_equal]
pub struct CodingSystem<F, E> {
    pub run: TranscodeView,
    pub read: nat,
    /// How many packets the decoder of each route has been given.
    pub sent: Seq<nat>,
    /// The frames that the encoder of each route has been given.
    pub fed: Seq<Seq<F>>,
    pub pending: Seq<F>,
    pub coding: nat,
    /// Whether the container has its header, and its trailer.
    pub opened: bool,
    pub closed: bool,
    pub container: Seq<Entry>,
    pub command: TranscodeCommand<F, E>,
}

impl<F> CodingScript<F> {
    pub open spec fn answered<E>(
        self,
        y: CodingSystem<F, E>,
        reply: TranscodeReply<F, E>,
    ) -> CodingSystem<F, E> {
        let (run, command) = y.run.step(reply);
        CodingSystem { run, command, ..y }
    }

    /// One call and what comes of it; nothing once the run is finished.
    pub open spec fn turn<E>(self, y: CodingSystem<F, E>) -> CodingSystem<F, E> {
        match y.command {
            TranscodeCommand::WriteHeader => self.answered(
                CodingSystem { opened: true, ..y },
                TranscodeReply::Done,
            ),
            TranscodeCommand::Read => if y.read < self.packets.len() {
                self.answered(
                    CodingSystem { read: y.read + 1, ..y },
                    TranscodeReply::Packet { stream: self.packets[y.read as int] },
                )
            } else {
                self.answered(y, TranscodeReply::Eof)
            },
            TranscodeCommand::CopyPacket { out_index } => self.answered(
                CodingSystem {
                    container: y.container.push(
                        Entry { out_index, copied: Some((y.read - 1) as usize) },
                    ),
                    ..y
                },
                TranscodeReply::Done,
            ),
            TranscodeCommand::SendPacket { route } => self.answered(
                CodingSystem {
                    pending: (self.made)(route as int, y.sent[route as int]),
                    sent: y.sent.update(route as int, y.sent[route as int] + 1),
                    ..y
                },
                TranscodeReply::Done,
            ),
            TranscodeCommand::ReceiveFrame { .. } => if y.pending.len() > 0 {
                self.answered(
                    CodingSystem { pending: y.pending.skip(1), ..y },
                    TranscodeReply::Frame(y.pending[0]),
                )
            } else {
                self.answered(y, TranscodeReply::NoMore)
            },
            TranscodeCommand::SendFrame { route, frame } => {
                let fed = y.fed[route as int];
                self.answered(
                    CodingSystem {
                        coding: (self.coded)(route as int, fed, frame),
                        fed: y.fed.update(route as int, fed.push(frame)),
                        ..y
                    },
                    TranscodeReply::Done,
                )
            },
            TranscodeCommand::ReceivePacket { .. } => if y.coding > 0 {
                self.answered(
                    CodingSystem { coding: (y.coding - 1) as nat, ..y },
                    TranscodeReply::HavePacket,
                )
            } else {
                self.answered(y, TranscodeReply::NoMore)
            },
            TranscodeCommand::WritePacket { out_index } => self.answered(
                CodingSystem {
                    container: y.container.push(Entry { out_index, copied: None }),
                    ..y
                },
                TranscodeReply::Done,
            ),
            TranscodeCommand::FlushDecoder { route } => self.answered(
                CodingSystem { pending: (self.tail)(route as int), ..y },
                TranscodeReply::Done,
            ),
            TranscodeCommand::FlushEncoder { route } => self.answered(
                CodingSystem { coding: (self.kept)(route as int, y.fed[route as int]), ..y },
                TranscodeReply::Done,
            ),
            TranscodeCommand::WriteTrailer => self.answered(
                CodingSystem { closed: true, ..y },
                TranscodeReply::Done,
            ),
            TranscodeCommand::Finished(_) | TranscodeCommand::Failed(_) => y,
        }
    }

    pub open spec fn turns<E>(self) -> spec_fn(CodingSystem<F, E>) -> CodingSystem<F, E> {
        |y: CodingSystem<F, E>| self.turn(y)
    }

    /// How many packets an encoder makes of some frames, after earlier ones.
    pub open spec fn packets_of(self, route: int, fed: Seq<F>, frames: Seq<F>) -> nat
        decreases frames.len(),
    {
        if frames.len() == 0 {
            0
        } else {
            (self.coded)(route, fed, frames[0]) + self.packets_of(
                route,
                fed.push(frames[0]),
                frames.skip(1),
            )
        }
    }

    /// The frames that a decoder makes of its first `n` packets.
    pub open spec fn frames_of(self, route: int, n: nat) -> Seq<F>
        decreases n,
    {
        if n == 0 {
            Seq::empty()
        } else {
            self.frames_of(route, (n - 1) as nat) + (self.made)(route, (n - 1) as nat)
        }
    }
}

/// So many packets of an encoder, under one stream.
pub open spec fn encoded(out_index: u32, n: nat) -> Seq<Entry> {
    Seq::new(n, |i: int| Entry { out_index, copied: None })
}

/// A packet of an input stream takes this route: the last one for the stream.
pub open spec fn takes_route(routes: Seq<TranscodeRoute>, stream: u32, r: int) -> bool {
    &&& 0 <= r < routes.len()
    &&& routes[r].input == stream
    &&& forall|j: int| r < j < routes.len() ==> (#[trigger] routes[j]).input != stream
}

pub open spec fn has_route(routes: Seq<TranscodeRoute>, stream: u32) -> bool {
    exists|r: int| #[trigger] takes_route(routes, stream, r)
}

/// How many of the first `n` packets take a route.
pub open spec fn taken(routes: Seq<TranscodeRoute>, packets: Seq<u32>, r: int, n: nat) -> nat
    decreases n,
{
    if n == 0 {
        0
    } else {
        taken(routes, packets, r, (n - 1) as nat) + (if takes_route(routes, packets[n - 1], r) {
            1nat
        } else {
            0
        })
    }
}

proof fn last_route_is_taken(routes: Seq<TranscodeRoute>, stream: u32)
    ensures
        match last_route(routes, stream) {
            Some(r) => takes_route(routes, stream, r),
            None => !has_route(routes, stream),
        },
    decreases routes.len(),
{
    if routes.len() > 0 && routes.last().input != stream {
        let fewer = routes.drop_last();
        last_route_is_taken(fewer, stream);
        match last_route(fewer, stream) {
            Some(r) => {
                assert forall|j: int| r < j < routes.len() implies (#[trigger] routes[j]).input
                    != stream by {
                    if j < fewer.len() {
                        assert(fewer[j].input != stream);
                    }
                }
            },
            None => {
                if has_route(routes, stream) {
                    let r = choose|r: int| #[trigger] takes_route(routes, stream, r);
                    assert forall|j: int| r < j < fewer.len() implies (#[trigger] fewer[j]).input
                        != stream by {
                        assert(routes[j].input != stream);
                    }
                    assert(takes_route(fewer, stream, r));
                }
            },
        }
    }
}

proof fn only_one_route(routes: Seq<TranscodeRoute>, stream: u32, a: int, b: int)
    requires
        takes_route(routes, stream, a),
        takes_route(routes, stream, b),
    ensures
        a == b,
{
    if a < b {
        assert(routes[b].input != stream);
    } else if b < a {
        assert(routes[a].input != stream);
    }
}

/// What a packet puts into the container.
pub open spec fn entries_of<F>(
    g: CodingScript<F>,
    routes: Seq<TranscodeRoute>,
    r: int,
    i: nat,
) -> Seq<Entry> {
    if routes[r].reencode {
        let n = taken(routes, g.packets, r, i);
        encoded(
            routes[r].out_index,
            g.packets_of(r, g.frames_of(r, n), (g.made)(r, n)),
        )
    } else {
        seq![Entry { out_index: routes[r].out_index, copied: Some(i as usize) }]
    }
}

/// The container once the first `n` packets have been read: for each packet that has a
/// route, in order, the packet itself or what the encoder makes of it, under the stream
/// of the route.
pub open spec fn container_after<F>(
    g: CodingScript<F>,
    routes: Seq<TranscodeRoute>,
    n: nat,
) -> Seq<Entry>
    decreases n,
{
    if n == 0 {
        Seq::empty()
    } else {
        let i = (n - 1) as nat;
        let before = container_after(g, routes, i);
        if has_route(routes, g.packets[i as int]) {
            let r = choose|r: int| takes_route(routes, g.packets[i as int], r);
            before + entries_of(g, routes, r, i)
        } else {
            before
        }
    }
}

/// All frames of a route, those that the decoder holds at the end included.
pub open spec fn all_fed<F>(g: CodingScript<F>, routes: Seq<TranscodeRoute>, r: int) -> Seq<F> {
    g.frames_of(r, taken(routes, g.packets, r, g.packets.len())) + (g.tail)(r)
}

/// What is put into the container at the end of the source, by the first `k` routes: what
/// the encoders make of the frames that the decoders still held, and what they held
/// themselves.
pub open spec fn held_by<F>(g: CodingScript<F>, routes: Seq<TranscodeRoute>, k: int) -> Seq<Entry>
    decreases k,
{
    if k <= 0 {
        Seq::empty()
    } else {
        let r = k - 1;
        let before = held_by(g, routes, r);
        if routes[r].reencode {
            let n = taken(routes, g.packets, r, g.packets.len());
            before + encoded(
                routes[r].out_index,
                g.packets_of(r, g.frames_of(r, n), (g.tail)(r)) + (g.kept)(
                    r,
                    all_fed(g, routes, r),
                ),
            )
        } else {
            before
        }
    }
}

/// No counter comes to the end of its range, as the run goes on.
pub open spec fn keeps_room<F, E>(g: CodingScript<F>, y: CodingSystem<F, E>) -> bool {
    forall|n: nat| (#[trigger] after_turns(g.turns(), n, y)).run.stats.has_room(1)
}

proof fn room_is_kept<F, E>(g: CodingScript<F>, y: CodingSystem<F, E>, q: CodingSystem<F, E>)
    requires
        keeps_room(g, y),
        leads_to(g.turns(), y, q),
    ensures
        keeps_room(g, q),
        q.run.stats.has_room(1),
{
    let m = choose|m: nat| #[trigger] after_turns(g.turns(), m, y) == q;
    assert forall|n: nat| (#[trigger] after_turns(g.turns(), n, q)).run.stats.has_room(1) by {
        turns_add_up(g.turns(), m, n, y);
        assert(after_turns(g.turns(), m + n, y).run.stats.has_room(1));
    }
    assert(after_turns(g.turns(), 0, q).run.stats.has_room(1));
}

proof fn has_room_now<F, E>(g: CodingScript<F>, y: CodingSystem<F, E>)
    requires
        keeps_room(g, y),
    ensures
        y.run.stats.has_room(1),
{
    nothing_leads_nowhere(g.turns(), y);
    room_is_kept(g, y, y);
}

/// How many frames each encoder has been given.
pub open spec fn fed_each<F>(fed: Seq<Seq<F>>) -> Seq<int> {
    Seq::new(fed.len(), |r: int| fed[r].len() as int)
}

/// The counters say what was done: packets read, packets in the container, and frames that
/// went through an encoder.
pub open spec fn counts_right<F, E>(y: CodingSystem<F, E>) -> bool {
    &&& y.run.stats.packets_in == y.read
    &&& y.run.stats.packets_out == y.container.len()
    &&& y.run.stats.frames_decoded == total(fed_each(y.fed))
}

/// The run once an encoder has handed out `n` packets.
pub open spec fn wrote<F, E>(y: CodingSystem<F, E>, route: int, n: nat) -> CodingSystem<F, E> {
    CodingSystem {
        run: TranscodeView {
            stats: TranscodeStats {
                packets_out: (y.run.stats.packets_out + n) as u64,
                ..y.run.stats
            },
            ..y.run
        },
        coding: 0,
        container: y.container + encoded(y.run.routes[route].out_index, n),
        ..y
    }
}

proof fn packets_go_out<F, E>(
    g: CodingScript<F>,
    y: CodingSystem<F, E>,
    route: usize,
    tail: bool,
    last: bool,
)
    requires
        keeps_room(g, y),
        y.run.phase == (TranscodePhase::Packets { route, tail, last }),
        y.command == (TranscodeCommand::<F, E>::ReceivePacket { route }),
    ensures
        leads_to(g.turns(), y, wrote(y, route as int, y.coding)),
        y.run.stats.packets_out + y.coding <= u64::MAX,
    decreases y.coding,
{
    has_room_now(g, y);
    let q = wrote(y, route as int, y.coding);
    if y.coding == 0 {
        nothing_leads_nowhere(g.turns(), y);
        assert(q.container =~= y.container);
        assert(q =~= y);
    } else {
        let a = g.turn(y);
        one_turn_leads(g.turns(), y);
        let b = g.turn(a);
        one_turn_leads(g.turns(), a);
        leading_adds_up(g.turns(), y, a, b);
        room_is_kept(g, y, a);
        room_is_kept(g, y, b);
        packets_go_out(g, b, route, tail, last);
        let e = wrote(b, route as int, b.coding);
        assert(e.container =~= q.container);
        assert(e =~= q);
        leading_adds_up(g.turns(), y, b, q);
    }
}

/// The run once a decoder has handed out some frames.
pub open spec fn passed_on<F, E>(
    g: CodingScript<F>,
    y: CodingSystem<F, E>,
    route: int,
    frames: Seq<F>,
) -> CodingSystem<F, E> {
    let n = g.packets_of(route, y.fed[route], frames);
    let s = y.run.stats;
    CodingSystem {
        run: TranscodeView {
            stats: TranscodeStats {
                frames_decoded: (s.frames_decoded + frames.len()) as u64,
                packets_out: (s.packets_out + n) as u64,
                ..s
            },
            ..y.run
        },
        pending: Seq::empty(),
        fed: y.fed.update(route, y.fed[route] + frames),
        container: y.container + encoded(y.run.routes[route].out_index, n),
        ..y
    }
}

/// Every frame of a decoder goes through the encoder, in order, before anything else
/// happens.
proof fn frames_go_on<F, E>(g: CodingScript<F>, y: CodingSystem<F, E>, route: usize, tail: bool)
    requires
        keeps_room(g, y),
        route < y.fed.len(),
        y.run.phase == (TranscodePhase::Frames { route, tail }),
        y.command == (TranscodeCommand::<F, E>::ReceiveFrame { route }),
        y.coding == 0,
    ensures
        leads_to(g.turns(), y, passed_on(g, y, route as int, y.pending)),
        y.run.stats.frames_decoded + y.pending.len() <= u64::MAX,
        y.run.stats.packets_out + g.packets_of(route as int, y.fed[route as int], y.pending)
            <= u64::MAX,
    decreases y.pending.len(),
{
    let r = route as int;
    let goal = passed_on(g, y, r, y.pending);
    has_room_now(g, y);
    if y.pending.len() == 0 {
        nothing_leads_nowhere(g.turns(), y);
        assert(y.fed[r] + y.pending =~= y.fed[r]);
        assert(goal.fed =~= y.fed);
        assert(goal.container =~= y.container);
        assert(goal =~= y);
    } else {
        let f = y.pending[0];
        let rest = y.pending.skip(1);
        let a = g.turn(y);
        one_turn_leads(g.turns(), y);
        let b = g.turn(a);
        one_turn_leads(g.turns(), a);
        leading_adds_up(g.turns(), y, a, b);
        room_is_kept(g, y, b);
        packets_go_out(g, b, route, tail, false);
        let n = (g.coded)(r, y.fed[r], f);
        assert(b.coding == n);
        let c = wrote(b, r, n);
        leading_adds_up(g.turns(), y, b, c);
        let d = g.turn(c);
        one_turn_leads(g.turns(), c);
        leading_adds_up(g.turns(), y, c, d);
        room_is_kept(g, y, d);
        assert(d.fed[r] == y.fed[r].push(f));
        frames_go_on(g, d, route, tail);
        let end = passed_on(g, d, r, rest);
        assert(y.fed[r].push(f) + rest =~= y.fed[r] + y.pending);
        assert(end.fed =~= goal.fed);
        assert(end.container =~= goal.container);
        assert(end =~= goal);
        leading_adds_up(g.turns(), y, d, goal);
    }
}

/// A run that is about to read packet `i`.
pub open spec fn reads<F, E>(
    g: CodingScript<F>,
    routes: Seq<TranscodeRoute>,
    y: CodingSystem<F, E>,
    i: nat,
) -> bool {
    &&& keeps_room(g, y)
    &&& y.run.routes == routes
    &&& routes.len() <= usize::MAX
    &&& y.fed.len() == routes.len()
    &&& y.sent.len() == routes.len()
    &&& y.pending.len() == 0
    &&& y.coding == 0
    &&& y.opened && !y.closed
    &&& counts_right(y)
    &&& y.run.phase is Reading
    &&& y.command is Read
    &&& y.read == i
    &&& y.container == container_after(g, routes, i)
    &&& forall|r: int|
        0 <= r < routes.len() && (#[trigger] routes[r]).reencode ==> y.sent[r] == taken(
            routes,
            g.packets,
            r,
            i,
        ) && y.fed[r] == g.frames_of(r, y.sent[r])
}

proof fn fed_grows<F>(fed: Seq<Seq<F>>, r: int, frames: Seq<F>)
    requires
        0 <= r < fed.len(),
    ensures
        total(fed_each(fed.update(r, fed[r] + frames))) == total(fed_each(fed)) + frames.len(),
{
    let n = (fed[r] + frames).len() as int;
    assert(fed_each(fed.update(r, fed[r] + frames)) =~= fed_each(fed).update(r, n));
    total_updated(fed_each(fed), r, n);
}

/// A packet goes into the container, as it is or through its encoder.
proof fn packet_is_written<F, E>(
    g: CodingScript<F>,
    routes: Seq<TranscodeRoute>,
    y: CodingSystem<F, E>,
    i: nat,
    r: int,
) -> (q: CodingSystem<F, E>)
    requires
        reads(g, routes, y, i),
        i < g.packets.len(),
        takes_route(routes, g.packets[i as int], r),
    ensures
        leads_to(g.turns(), y, q),
        reads(g, routes, q, i + 1),
{
    let stream = g.packets[i as int];
    last_route_is_taken(routes, stream);
    only_one_route(routes, stream, r, last_route(routes, stream)->0);
    let chosen = choose|x: int| takes_route(routes, stream, x);
    only_one_route(routes, stream, r, chosen);
    has_room_now(g, y);
    assert(r as usize as int == r);
    assert(container_after(g, routes, i + 1) == container_after(g, routes, i) + entries_of(
        g,
        routes,
        r,
        i,
    ));
    let a = g.turn(y);
    one_turn_leads(g.turns(), y);
    let b = g.turn(a);
    one_turn_leads(g.turns(), a);
    leading_adds_up(g.turns(), y, a, b);
    room_is_kept(g, y, b);
    if routes[r].reencode {
        assert(a.command == (TranscodeCommand::<F, E>::SendPacket { route: r as usize }));
        assert(y.sent[r] == taken(routes, g.packets, r, i));
        let n = y.sent[r];
        let frames = (g.made)(r, n);
        assert(b.pending == frames && b.fed == y.fed);
        frames_go_on(g, b, r as usize, false);
        let c = passed_on(g, b, r, frames);
        leading_adds_up(g.turns(), y, b, c);
        let q = g.turn(c);
        one_turn_leads(g.turns(), c);
        leading_adds_up(g.turns(), y, c, q);
        room_is_kept(g, y, q);
        fed_grows(y.fed, r, frames);
        assert(g.frames_of(r, n + 1) == g.frames_of(r, n) + frames);
        assert forall|x: int| 0 <= x < routes.len() && (#[trigger] routes[x]).reencode implies
            q.sent[x] == taken(routes, g.packets, x, i + 1) && q.fed[x] == g.frames_of(
            x,
            q.sent[x],
        ) by {
            if x != r && takes_route(routes, stream, x) {
                only_one_route(routes, stream, r, x);
            }
        }
        q
    } else {
        assert forall|x: int| 0 <= x < routes.len() && (#[trigger] routes[x]).reencode implies
            b.sent[x] == taken(routes, g.packets, x, i + 1) && b.fed[x] == g.frames_of(
            x,
            b.sent[x],
        ) by {
            if takes_route(routes, stream, x) {
                only_one_route(routes, stream, r, x);
            }
        }
        assert(b.container =~= container_after(g, routes, i + 1));
        b
    }
}

proof fn source_is_read<F, E>(
    g: CodingScript<F>,
    routes: Seq<TranscodeRoute>,
    y: CodingSystem<F, E>,
    i: nat,
) -> (q: CodingSystem<F, E>)
    requires
        reads(g, routes, y, i),
        i <= g.packets.len(),
    ensures
        leads_to(g.turns(), y, q),
        reads(g, routes, q, g.packets.len()),
    decreases g.packets.len() - i,
{
    if i == g.packets.len() {
        nothing_leads_nowhere(g.turns(), y);
        y
    } else {
        let stream = g.packets[i as int];
        let a = if has_route(routes, stream) {
            let r = choose|r: int| takes_route(routes, stream, r);
            packet_is_written(g, routes, y, i, r)
        } else {
            last_route_is_taken(routes, stream);
            has_room_now(g, y);
            let q = g.turn(y);
            one_turn_leads(g.turns(), y);
            room_is_kept(g, y, q);
            assert forall|x: int| 0 <= x < routes.len() && (#[trigger] routes[x]).reencode implies
                q.sent[x] == taken(routes, g.packets, x, i + 1) && q.fed[x] == g.frames_of(
                x,
                q.sent[x],
            ) by {
                assert(!takes_route(routes, stream, x));
            }
            q
        };
        let q = source_is_read(g, routes, a, i + 1);
        leading_adds_up(g.turns(), y, a, q);
        q
    }
}

/// A run at the end of its source that empties its encoders, from route `k` on.
pub open spec fn empties<F, E>(
    g: CodingScript<F>,
    routes: Seq<TranscodeRoute>,
    y: CodingSystem<F, E>,
    k: int,
) -> bool {
    &&& keeps_room(g, y)
    &&& y.run.routes == routes
    &&& routes.len() <= usize::MAX
    &&& y.fed.len() == routes.len()
    &&& y.pending.len() == 0
    &&& y.coding == 0
    &&& y.opened && !y.closed
    &&& counts_right(y)
    &&& y.read == g.packets.len()
    &&& (y.run, y.command) == y.run.flushing::<F, E>(k)
    &&& y.container == container_after(g, routes, g.packets.len()) + held_by(g, routes, k)
    &&& forall|r: int|
        k <= r < routes.len() && (#[trigger] routes[r]).reencode ==> y.fed[r] == g.frames_of(
            r,
            taken(routes, g.packets, r, g.packets.len()),
        )
}

proof fn nothing_held_between<F>(
    g: CodingScript<F>,
    routes: Seq<TranscodeRoute>,
    k: int,
    m: int,
)
    requires
        0 <= k <= m <= routes.len(),
        forall|r: int| k <= r < m ==> !(#[trigger] routes[r]).reencode,
    ensures
        held_by(g, routes, m) == held_by(g, routes, k),
    decreases m - k,
{
    if k < m {
        nothing_held_between(g, routes, k, m - 1);
    }
}

proof fn encoders_are_emptied<F, E>(
    g: CodingScript<F>,
    routes: Seq<TranscodeRoute>,
    y: CodingSystem<F, E>,
    k: int,
) -> (q: CodingSystem<F, E>)
    requires
        empties(g, routes, y, k),
        0 <= k <= routes.len(),
    ensures
        leads_to(g.turns(), y, q),
        empties(g, routes, q, routes.len() as int),
    decreases routes.len() - k,
{
    let m = encoder_from(routes, k);
    encoder_from_range(routes, k);
    encoder_from_range(routes, routes.len() as int);
    nothing_held_between(g, routes, k, m);
    if m == routes.len() {
        nothing_leads_nowhere(g.turns(), y);
        y
    } else {
        let r = m as usize;
        assert(r as int == m);
        assert(routes[m].reencode);
        let frames = (g.tail)(m);
        let a = g.turn(y);
        one_turn_leads(g.turns(), y);
        room_is_kept(g, y, a);
        frames_go_on(g, a, r, true);
        let b = passed_on(g, a, m, frames);
        leading_adds_up(g.turns(), y, a, b);
        let c = g.turn(b);
        one_turn_leads(g.turns(), b);
        leading_adds_up(g.turns(), y, b, c);
        let d = g.turn(c);
        one_turn_leads(g.turns(), c);
        leading_adds_up(g.turns(), y, c, d);
        room_is_kept(g, y, d);
        packets_go_out(g, d, r, true, true);
        let e = wrote(d, m, d.coding);
        leading_adds_up(g.turns(), y, d, e);
        let f = g.turn(e);
        one_turn_leads(g.turns(), e);
        leading_adds_up(g.turns(), y, e, f);
        room_is_kept(g, y, f);
        fed_grows(y.fed, m, frames);
        let n = taken(routes, g.packets, m, g.packets.len());
        assert(y.fed[m] == g.frames_of(m, n));
        let out = routes[m].out_index;
        let x = g.packets_of(m, y.fed[m], frames);
        let z = (g.kept)(m, all_fed(g, routes, m));
        assert(d.coding == z);
        assert(encoded(out, x) + encoded(out, z) =~= encoded(out, x + z));
        assert(f.container =~= container_after(g, routes, g.packets.len()) + held_by(
            g,
            routes,
            m + 1,
        ));
        assert(empties(g, routes, f, m + 1));
        let q = encoders_are_emptied(g, routes, f, m + 1);
        leading_adds_up(g.turns(), y, f, q);
        q
    }
}

/// A run before its container is opened.
pub open spec fn coding_start<F, E>(routes: Seq<TranscodeRoute>) -> CodingSystem<F, E> {
    let (run, command) = TranscodeView {
        routes,
        stats: TranscodeStats::zero(),
        phase: TranscodePhase::Header,
    }.step(TranscodeReply::Start);
    CodingSystem {
        run,
        read: 0,
        sent: Seq::new(routes.len(), |r: int| 0nat),
        fed: Seq::new(routes.len(), |r: int| Seq::empty()),
        pending: Seq::empty(),
        coding: 0,
        opened: false,
        closed: false,
        container: Seq::empty(),
        command,
    }
}

/// A transcode opens its container, reads its source to the end, and closes the container.
/// In it is, for each packet in the order of the source, the packet itself or what its
/// encoder makes of its frames, under the stream of its route, and then what the encoders
/// make of all that decoders and encoders still held, route after route; packets of
/// streams without a route are left out. The counters are the packets of the source, the
/// packets in the container, and the frames that went through an encoder. Left out are
/// counters at the end of their range.
pub proof fn container_holds_everything<F, E>(g: CodingScript<F>, routes: Seq<TranscodeRoute>)
    requires
        routes.len() <= usize::MAX,
        keeps_room(g, coding_start::<F, E>(routes)),
    ensures
        exists|q: CodingSystem<F, E>| #[trigger]
            leads_to(g.turns(), coding_start::<F, E>(routes), q) && q.command
                == TranscodeCommand::<F, E>::Finished(q.run.stats) && counts_right(q) && q.opened
                && q.closed && q.read == g.packets.len() && q.container == container_after(
                g,
                routes,
                g.packets.len(),
            ) + held_by(g, routes, routes.len() as int),
{
    let a = coding_start::<F, E>(routes);
    let b = g.turn(a);
    one_turn_leads(g.turns(), a);
    room_is_kept(g, a, b);
    nothing_totals(fed_each(b.fed));
    assert(reads(g, routes, b, 0));
    let c = source_is_read(g, routes, b, 0);
    leading_adds_up(g.turns(), a, b, c);
    let d = g.turn(c);
    one_turn_leads(g.turns(), c);
    leading_adds_up(g.turns(), a, c, d);
    room_is_kept(g, a, d);
    assert(d.container =~= container_after(g, routes, g.packets.len()) + held_by(g, routes, 0));
    assert(empties(g, routes, d, 0)) by {
        encoder_from_range(routes, 0);
    }
    let e = encoders_are_emptied(g, routes, d, 0);
    leading_adds_up(g.turns(), a, d, e);
    encoder_from_range(routes, routes.len() as int);
    let q = g.turn(e);
    one_turn_leads(g.turns(), e);
    leading_adds_up(g.turns(), a, e, q);
}

/// A remux after `n` packets of a source: what was asked for, and how many packets were
/// written.
pub open spec fn remuxed<E>(v: RemuxRun, n: nat) -> (RemuxRun, RemuxCommand<E>, nat)
    decreases n,
{
    if n == 0 {
        let (w, _) = v.step_spec(RemuxReply::<E>::Start);
        let (x, c) = w.step_spec(RemuxReply::<E>::Done);
        (x, c, 0)
    } else {
        let (w, c, written) = remuxed::<E>(v, (n - 1) as nat);
        let (x, d) = w.step_spec(RemuxReply::<E>::Packet);
        let (z, e) = x.step_spec(RemuxReply::<E>::Done);
        (z, e, if d is WritePacket { written + 1 } else { written })
    }
}

/// A remux writes the header, every packet of its source, once each, and the trailer, and
/// says how many packets there were.
pub proof fn remux_writes_every_packet<E>(v: RemuxRun, n: nat)
    requires
        v == (RemuxRun { packets: 0, phase: RemuxPhase::Header }),
        n <= u64::MAX,
    ensures
        v.step_spec(RemuxReply::<E>::Start).1 is WriteHeader,
        ({
            let (w, c, written) = remuxed::<E>(v, n);
            let (x, d) = w.step_spec(RemuxReply::<E>::Eof);
            let (_, e) = x.step_spec(RemuxReply::<E>::Done);
            &&& c is Read
            &&& written == n
            &&& d is WriteTrailer
            &&& e == RemuxCommand::<E>::Finished(n as u64)
            &&& w.phase is Reading
            &&& w.packets == n
        }),
    decreases n,
{
    if n > 0 {
        remux_writes_every_packet::<E>(v, (n - 1) as nat);
    }
}

} // verus!
