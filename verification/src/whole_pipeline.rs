//! A whole run of the routes of one source, given what its decoders and encoders do: what
//! reaches each sink, and what is counted.

use crate::pipeline::{
    route_at, PipelineStats, Route, RouteMode, RunCommand, RunPhase, RunReply, RunView,
};
use crate::scripted::{
    after_turns, leading_adds_up, leads_to, nothing_leads_nowhere, one_turn_leads, turns_add_up,
};
use crate::sums::{nothing_totals, total, total_updated};
use vstd::prelude::*;

verus! {

/// The streams of the packets that a source hands out, and what the decoder and the encoder
/// of each route do, each as a function of what it was given before.
#[verifier::reject_recursive_types(F)]
pub struct RouteScript<F> {
    pub packets: Seq<u32>,
    /// The frames that the decoder of a route makes of its `k`th packet.
    pub made: spec_fn(int, nat) -> Seq<F>,
    /// The frames that it hands out once it is flushed.
    pub tail: spec_fn(int) -> Seq<F>,
    /// A frame in plain memory.
    pub plain: spec_fn(F) -> F,
    /// How many packets the encoder of a route makes of a frame, after earlier ones.
    pub coded: spec_fn(int, Seq<F>, F) -> nat,
    /// How many it hands out once it is flushed.
    pub kept: spec_fn(int, Seq<F>) -> nat,
}

/// What has been done on a route.
#[verifier::ext_equal]
pub struct Deeds<F> {
    /// How many packets its decoder has been given.
    pub sent: nat,
    /// Which packets of the source its sink has been given.
    pub copied: Seq<nat>,
    /// The frames that its sink has been given.
    pub shown: Seq<F>,
    /// The frames that its encoder has been given.
    pub fed: Seq<F>,
    /// How many packets of its encoder its sink has been given.
    pub written: nat,
}

/// A run under way.
#[verifier::ext_equal]
pub struct RouteSystem<F, E> {
    pub run: RunView,
    pub read: nat,
    pub deeds: Seq<Deeds<F>>,
    /// What the decoder at work has still to hand out.
    pub pending: Seq<F>,
    /// How many packets the encoder at work has still to hand out.
    pub coding: nat,
    /// The routes whose sinks were flushed, in order.
    pub flushed: Seq<usize>,
    pub command: RunCommand<F, E>,
}

impl<F> RouteScript<F> {
    pub open spec fn answered<E>(
        self,
        y: RouteSystem<F, E>,
        reply: RunReply<F, E>,
    ) -> RouteSystem<F, E> {
        let (run, command) = y.run.step(reply);
        RouteSystem { run, command, ..y }
    }

    /// One call and what comes of it; nothing once the run is finished.
    pub open spec fn turn<E>(self, y: RouteSystem<F, E>) -> RouteSystem<F, E> {
        match y.command {
            RunCommand::Read => if y.read < self.packets.len() {
                self.answered(
                    RouteSystem { read: y.read + 1, ..y },
                    RunReply::Packet { stream: self.packets[y.read as int] },
                )
            } else {
                self.answered(y, RunReply::Eof)
            },
            RunCommand::CopyPacket { route } => {
                let d = y.deeds[route as int];
                self.answered(
                    with_deeds(
                        y,
                        route as int,
                        Deeds { copied: d.copied.push((y.read - 1) as nat), ..d },
                    ),
                    RunReply::Done,
                )
            },
            RunCommand::SendPacket { route } => {
                let d = y.deeds[route as int];
                self.answered(
                    RouteSystem {
                        pending: (self.made)(route as int, d.sent),
                        ..with_deeds(y, route as int, Deeds { sent: d.sent + 1, ..d })
                    },
                    RunReply::Done,
                )
            },
            RunCommand::ReceiveFrame { .. } => if y.pending.len() > 0 {
                self.answered(
                    RouteSystem { pending: y.pending.skip(1), ..y },
                    RunReply::Frame(y.pending[0]),
                )
            } else {
                self.answered(y, RunReply::NoMore)
            },
            RunCommand::WriteFrame { route, frame } => {
                let d = y.deeds[route as int];
                self.answered(
                    with_deeds(y, route as int, Deeds { shown: d.shown.push(frame), ..d }),
                    RunReply::Done,
                )
            },
            RunCommand::Materialise { frame } => self.answered(
                y,
                RunReply::Frame((self.plain)(frame)),
            ),
            RunCommand::SendFrame { route, frame } => {
                let d = y.deeds[route as int];
                self.answered(
                    RouteSystem {
                        coding: (self.coded)(route as int, d.fed, frame),
                        ..with_deeds(y, route as int, Deeds { fed: d.fed.push(frame), ..d })
                    },
                    RunReply::Done,
                )
            },
            RunCommand::ReceivePacket { .. } => if y.coding > 0 {
                self.answered(
                    RouteSystem { coding: (y.coding - 1) as nat, ..y },
                    RunReply::HavePacket,
                )
            } else {
                self.answered(y, RunReply::NoMore)
            },
            RunCommand::WritePacket { route } => {
                let d = y.deeds[route as int];
                self.answered(
                    with_deeds(y, route as int, Deeds { written: d.written + 1, ..d }),
                    RunReply::Done,
                )
            },
            RunCommand::FlushDecoder { route } => self.answered(
                RouteSystem { pending: (self.tail)(route as int), ..y },
                RunReply::Done,
            ),
            RunCommand::FlushEncoder { route } => self.answered(
                RouteSystem {
                    coding: (self.kept)(route as int, y.deeds[route as int].fed),
                    ..y
                },
                RunReply::Done,
            ),
            RunCommand::FlushSink { route } => self.answered(
                RouteSystem { flushed: y.flushed.push(route), ..y },
                RunReply::Done,
            ),
            RunCommand::Finished(_) | RunCommand::Failed(_) => y,
        }
    }

    pub open spec fn turns<E>(self) -> spec_fn(RouteSystem<F, E>) -> RouteSystem<F, E> {
        |y: RouteSystem<F, E>| self.turn(y)
    }

    /// How many packets an encoder makes of some frames, after earlier ones.
    pub open spec fn packets_of(self, route: int, fed: Seq<F>, frames: Seq<F>) -> nat
        decreases frames.len(),
    {
        if frames.len() == 0 {
            0
        } else {
            (self.coded)(route, fed, frames[0]) + self.packets_of(
                route,
                fed.push(frames[0]),
                frames.skip(1),
            )
        }
    }

    /// Some frames in plain memory.
    pub open spec fn plain_frames(self, frames: Seq<F>) -> Seq<F> {
        Seq::new(frames.len(), |i: int| (self.plain)(frames[i]))
    }

    /// The frames that a decoder makes of its first `n` packets.
    pub open spec fn frames_of(self, route: int, n: nat) -> Seq<F>
        decreases n,
    {
        if n == 0 {
            Seq::empty()
        } else {
            self.frames_of(route, (n - 1) as nat) + (self.made)(route, (n - 1) as nat)
        }
    }
}

pub open spec fn with_deeds<F, E>(y: RouteSystem<F, E>, route: int, d: Deeds<F>) -> RouteSystem<
    F,
    E,
> {
    RouteSystem { deeds: y.deeds.update(route, d), ..y }
}

/// A packet of a stream goes down this route: the first one for the stream.
pub open spec fn is_way(routes: Seq<Route>, stream: u32, r: int) -> bool {
    &&& 0 <= r < routes.len()
    &&& routes[r].source_stream == stream
    &&& forall|j: int| 0 <= j < r ==> (#[trigger] routes[j]).source_stream != stream
}

/// A packet of a stream goes down some route.
pub open spec fn has_way(routes: Seq<Route>, stream: u32) -> bool {
    exists|r: int| #[trigger] is_way(routes, stream, r)
}

/// The positions of the packets that go down a route, among the first `n`.
pub open spec fn share_of(routes: Seq<Route>, packets: Seq<u32>, r: int, n: nat) -> Seq<nat>
    decreases n,
{
    if n == 0 {
        Seq::empty()
    } else {
        let before = share_of(routes, packets, r, (n - 1) as nat);
        if is_way(routes, packets[n - 1], r) {
            before.push((n - 1) as nat)
        } else {
            before
        }
    }
}

/// How many of the first `n` packets go down no route.
pub open spec fn lost(routes: Seq<Route>, packets: Seq<u32>, n: nat) -> nat
    decreases n,
{
    if n == 0 {
        0
    } else {
        lost(routes, packets, (n - 1) as nat) + (if has_way(routes, packets[n - 1]) {
            0nat
        } else {
            1
        })
    }
}

proof fn route_is_the_way(routes: Seq<Route>, stream: u32, from: int)
    requires
        0 <= from <= routes.len(),
        forall|j: int| 0 <= j < from ==> (#[trigger] routes[j]).source_stream != stream,
    ensures
        ({
            let r = route_at(routes, stream, from);
            &&& from <= r <= routes.len()
            &&& r < routes.len() ==> is_way(routes, stream, r)
            &&& r == routes.len() ==> !has_way(routes, stream)
        }),
    decreases routes.len() - from,
{
    if from < routes.len() && routes[from].source_stream != stream {
        route_is_the_way(routes, stream, from + 1);
    }
}

/// No counter comes to the end of its range, as the run goes on.
pub open spec fn keeps_room<F, E>(g: RouteScript<F>, y: RouteSystem<F, E>) -> bool {
    forall|n: nat| (#[trigger] after_turns(g.turns(), n, y)).run.stats.has_room(1)
}

proof fn room_is_kept<F, E>(g: RouteScript<F>, y: RouteSystem<F, E>, q: RouteSystem<F, E>)
    requires
        keeps_room(g, y),
        leads_to(g.turns(), y, q),
    ensures
        keeps_room(g, q),
        q.run.stats.has_room(1),
{
    let m = choose|m: nat| #[trigger] after_turns(g.turns(), m, y) == q;
    assert forall|n: nat| (#[trigger] after_turns(g.turns(), n, q)).run.stats.has_room(1) by {
        turns_add_up(g.turns(), m, n, y);
        assert(after_turns(g.turns(), m + n, y).run.stats.has_room(1));
    }
    assert(after_turns(g.turns(), 0, q).run.stats.has_room(1));
}

proof fn has_room_now<F, E>(g: RouteScript<F>, y: RouteSystem<F, E>)
    requires
        keeps_room(g, y),
    ensures
        y.run.stats.has_room(1),
{
    nothing_leads_nowhere(g.turns(), y);
    room_is_kept(g, y, y);
}

/// What each route counts for, by one of its deeds.
pub open spec fn each<F>(deeds: Seq<Deeds<F>>, count: spec_fn(Deeds<F>) -> int) -> Seq<int> {
    Seq::new(deeds.len(), |r: int| count(deeds[r]))
}

/// The counters say what was done: packets read and lost, packets handed on as they are,
/// frames shown or encoded, and encoded packets handed on.
pub open spec fn counts_right<F, E>(g: RouteScript<F>, y: RouteSystem<F, E>) -> bool {
    let s = y.run.stats;
    &&& s.packets_read == y.read
    &&& s.packets_dropped == lost(y.run.routes, g.packets, y.read)
    &&& s.packets_copied == total(each(y.deeds, |d: Deeds<F>| d.copied.len() as int))
    &&& s.frames_decoded == total(each(y.deeds, |d: Deeds<F>| (d.shown.len() + d.fed.len()) as int))
    &&& s.packets_encoded == total(each(y.deeds, |d: Deeds<F>| d.written as int))
}

proof fn one_deed_changes<F>(
    deeds: Seq<Deeds<F>>,
    r: int,
    d: Deeds<F>,
    count: spec_fn(Deeds<F>) -> int,
)
    requires
        0 <= r < deeds.len(),
    ensures
        total(each(deeds.update(r, d), count)) == total(each(deeds, count)) - count(deeds[r])
            + count(d),
{
    assert(each(deeds.update(r, d), count) =~= each(deeds, count).update(r, count(d)));
    total_updated(each(deeds, count), r, count(d));
}

proof fn deeds_change<F>(deeds: Seq<Deeds<F>>, r: int, d: Deeds<F>)
    requires
        0 <= r < deeds.len(),
    ensures
        ({
            let old = deeds[r];
            let now = deeds.update(r, d);
            let copied = |x: Deeds<F>| x.copied.len() as int;
            let frames = |x: Deeds<F>| (x.shown.len() + x.fed.len()) as int;
            let written = |x: Deeds<F>| x.written as int;
            &&& total(each(now, copied)) == total(each(deeds, copied)) - old.copied.len()
                + d.copied.len()
            &&& total(each(now, frames)) == total(each(deeds, frames)) - (old.shown.len()
                + old.fed.len()) + (d.shown.len() + d.fed.len())
            &&& total(each(now, written)) == total(each(deeds, written)) - old.written + d.written
        }),
{
    one_deed_changes(deeds, r, d, |x: Deeds<F>| x.copied.len() as int);
    one_deed_changes(deeds, r, d, |x: Deeds<F>| (x.shown.len() + x.fed.len()) as int);
    one_deed_changes(deeds, r, d, |x: Deeds<F>| x.written as int);
}

/// The run once an encoder has handed out `n` packets.
pub open spec fn wrote<F, E>(y: RouteSystem<F, E>, route: int, n: nat) -> RouteSystem<F, E> {
    let d = y.deeds[route];
    RouteSystem {
        run: RunView {
            stats: PipelineStats {
                packets_encoded: (y.run.stats.packets_encoded + n) as u64,
                ..y.run.stats
            },
            ..y.run
        },
        coding: 0,
        ..with_deeds(y, route, Deeds { written: d.written + n, ..d })
    }
}

proof fn packets_go_out<F, E>(
    g: RouteScript<F>,
    y: RouteSystem<F, E>,
    route: usize,
    tail: bool,
    last: bool,
)
    requires
        keeps_room(g, y),
        route < y.deeds.len(),
        y.run.phase == (RunPhase::Packets { route, tail, last }),
        y.command == (RunCommand::<F, E>::ReceivePacket { route }),
    ensures
        leads_to(g.turns(), y, wrote(y, route as int, y.coding)),
        y.run.stats.packets_encoded + y.coding <= u64::MAX,
    decreases y.coding,
{
    has_room_now(g, y);
    if y.coding == 0 {
        nothing_leads_nowhere(g.turns(), y);
        assert(y.deeds.update(route as int, y.deeds[route as int]) =~= y.deeds);
        assert(wrote(y, route as int, 0) =~= y);
    } else {
        let a = g.turn(y);
        one_turn_leads(g.turns(), y);
        let b = g.turn(a);
        one_turn_leads(g.turns(), a);
        leading_adds_up(g.turns(), y, a, b);
        room_is_kept(g, y, b);
        packets_go_out(g, b, route, tail, last);
        let q = wrote(y, route as int, y.coding);
        assert(wrote(b, route as int, b.coding).deeds =~= q.deeds);
        assert(wrote(b, route as int, b.coding) =~= q);
        leading_adds_up(g.turns(), y, b, q);
    }
}

/// The run once a decoder has handed out some frames.
pub open spec fn passed_on<F, E>(
    g: RouteScript<F>,
    y: RouteSystem<F, E>,
    route: int,
    frames: Seq<F>,
) -> RouteSystem<F, E> {
    let d = y.deeds[route];
    let plain = g.plain_frames(frames);
    let s = y.run.stats;
    if y.run.routes[route].mode is Transcode {
        let n = g.packets_of(route, d.fed, plain);
        RouteSystem {
            run: RunView {
                stats: PipelineStats {
                    frames_decoded: (s.frames_decoded + frames.len()) as u64,
                    packets_encoded: (s.packets_encoded + n) as u64,
                    ..s
                },
                ..y.run
            },
            pending: Seq::empty(),
            ..with_deeds(
                y,
                route,
                Deeds { fed: d.fed + plain, written: d.written + n, ..d },
            )
        }
    } else {
        RouteSystem {
            run: RunView {
                stats: PipelineStats {
                    frames_decoded: (s.frames_decoded + frames.len()) as u64,
                    ..s
                },
                ..y.run
            },
            pending: Seq::empty(),
            ..with_deeds(y, route, Deeds { shown: d.shown + frames, ..d })
        }
    }
}

/// One frame of a decoder goes on to the sink, or through the encoder.
proof fn frame_goes_on<F, E>(
    g: RouteScript<F>,
    y: RouteSystem<F, E>,
    route: usize,
    tail: bool,
) -> (q: RouteSystem<F, E>)
    requires
        keeps_room(g, y),
        route < y.deeds.len() == y.run.routes.len(),
        y.run.phase == (RunPhase::Frames { route, tail }),
        y.command == (RunCommand::<F, E>::ReceiveFrame { route }),
        y.coding == 0,
        y.pending.len() > 0,
    ensures
        leads_to(g.turns(), y, q),
        q == (RouteSystem {
            pending: y.pending.skip(1),
            ..passed_on(g, y, route as int, seq![y.pending[0]])
        }),
        y.run.stats.frames_decoded < u64::MAX,
        y.run.routes[route as int].mode is Transcode ==> y.run.stats.packets_encoded
            + g.packets_of(
            route as int,
            y.deeds[route as int].fed,
            g.plain_frames(seq![y.pending[0]]),
        ) <= u64::MAX,
{
    let r = route as int;
    let f = y.pending[0];
    let d = y.deeds[r];
    has_room_now(g, y);
    let a = g.turn(y);
    one_turn_leads(g.turns(), y);
    let b = g.turn(a);
    one_turn_leads(g.turns(), a);
    leading_adds_up(g.turns(), y, a, b);
    if y.run.routes[r].mode is Transcode {
        let c = g.turn(b);
        one_turn_leads(g.turns(), b);
        leading_adds_up(g.turns(), y, b, c);
        room_is_kept(g, y, c);
        packets_go_out(g, c, route, tail, false);
        let e = wrote(c, r, c.coding);
        leading_adds_up(g.turns(), y, c, e);
        let q = g.turn(e);
        one_turn_leads(g.turns(), e);
        leading_adds_up(g.turns(), y, e, q);
        let plain = g.plain_frames(seq![f]);
        assert(plain =~= seq![(g.plain)(f)]);
        assert(plain.skip(1) =~= Seq::empty());
        assert(g.packets_of(r, d.fed.push(plain[0]), plain.skip(1)) == 0);
        assert(g.packets_of(r, d.fed, plain) == (g.coded)(r, d.fed, (g.plain)(f)));
        assert(d.fed + plain =~= d.fed.push((g.plain)(f)));
        let goal = RouteSystem { pending: y.pending.skip(1), ..passed_on(g, y, r, seq![f]) };
        assert(q.deeds =~= goal.deeds);
        assert(q =~= goal);
        q
    } else {
        let goal = RouteSystem { pending: y.pending.skip(1), ..passed_on(g, y, r, seq![f]) };
        assert(d.shown + seq![f] =~= d.shown.push(f));
        assert(b.deeds =~= goal.deeds);
        assert(b =~= goal);
        b
    }
}

/// Every frame of a decoder goes on, in order, before anything else happens.
proof fn frames_go_on<F, E>(g: RouteScript<F>, y: RouteSystem<F, E>, route: usize, tail: bool)
    requires
        keeps_room(g, y),
        route < y.deeds.len() == y.run.routes.len(),
        y.run.phase == (RunPhase::Frames { route, tail }),
        y.command == (RunCommand::<F, E>::ReceiveFrame { route }),
        y.coding == 0,
    ensures
        leads_to(g.turns(), y, passed_on(g, y, route as int, y.pending)),
        y.run.stats.frames_decoded + y.pending.len() <= u64::MAX,
        y.run.routes[route as int].mode is Transcode ==> y.run.stats.packets_encoded
            + g.packets_of(
            route as int,
            y.deeds[route as int].fed,
            g.plain_frames(y.pending),
        ) <= u64::MAX,
    decreases y.pending.len(),
{
    let r = route as int;
    let d = y.deeds[r];
    let goal = passed_on(g, y, r, y.pending);
    let plain = g.plain_frames(y.pending);
    if y.pending.len() == 0 {
        has_room_now(g, y);
        nothing_leads_nowhere(g.turns(), y);
        assert(d.shown + y.pending =~= d.shown);
        assert(d.fed + plain =~= d.fed);
        assert(y.deeds.update(r, d) =~= y.deeds);
        assert(goal.deeds =~= y.deeds);
        assert(goal =~= y);
    } else {
        let f = y.pending[0];
        let rest = y.pending.skip(1);
        let q = frame_goes_on(g, y, route, tail);
        room_is_kept(g, y, q);
        frames_go_on(g, q, route, tail);
        let one = g.plain_frames(seq![f]);
        assert(one =~= seq![(g.plain)(f)]);
        assert(plain.skip(1) =~= g.plain_frames(rest));
        assert(plain[0] == (g.plain)(f));
        assert(one.skip(1) =~= Seq::empty());
        assert(g.packets_of(r, d.fed.push(one[0]), one.skip(1)) == 0);
        assert(d.fed + one =~= d.fed.push(plain[0]));
        assert(d.fed + one + g.plain_frames(rest) =~= d.fed + plain);
        assert(d.shown + seq![f] + rest =~= d.shown + y.pending);
        let end = passed_on(g, q, r, rest);
        assert(end.deeds =~= goal.deeds);
        assert(end =~= goal);
        leading_adds_up(g.turns(), y, q, goal);
    }
}

/// What has been done on a route once the first `i` packets of the source have gone their
/// ways: its sink has all that went down it, as it is, or every frame of it in order, or
/// what the encoder made of those.
pub open spec fn deeds_after<F>(g: RouteScript<F>, routes: Seq<Route>, r: int, i: nat) -> Deeds<F> {
    let share = share_of(routes, g.packets, r, i);
    match routes[r].mode {
        RouteMode::Copy => Deeds {
            sent: 0,
            copied: share,
            shown: Seq::empty(),
            fed: Seq::empty(),
            written: 0,
        },
        RouteMode::Decode => Deeds {
            sent: share.len(),
            copied: Seq::empty(),
            shown: g.frames_of(r, share.len()),
            fed: Seq::empty(),
            written: 0,
        },
        RouteMode::Transcode => {
            let fed = g.plain_frames(g.frames_of(r, share.len()));
            Deeds {
                sent: share.len(),
                copied: Seq::empty(),
                shown: Seq::empty(),
                fed,
                written: g.packets_of(r, Seq::empty(), fed),
            }
        },
    }
}

/// What has been done on a route in the end: what its decoder and its encoder still held
/// has reached its sink too.
pub open spec fn deeds_at_end<F>(g: RouteScript<F>, routes: Seq<Route>, r: int) -> Deeds<F> {
    let n = share_of(routes, g.packets, r, g.packets.len()).len();
    match routes[r].mode {
        RouteMode::Copy => deeds_after(g, routes, r, g.packets.len()),
        RouteMode::Decode => Deeds {
            sent: n,
            copied: Seq::empty(),
            shown: g.frames_of(r, n) + (g.tail)(r),
            fed: Seq::empty(),
            written: 0,
        },
        RouteMode::Transcode => {
            let fed = g.plain_frames(g.frames_of(r, n) + (g.tail)(r));
            Deeds {
                sent: n,
                copied: Seq::empty(),
                shown: Seq::empty(),
                fed,
                written: g.packets_of(r, Seq::empty(), fed) + (g.kept)(r, fed),
            }
        },
    }
}

/// Nothing is under way between two calls to the source or to a sink.
pub open spec fn at_rest<F, E>(g: RouteScript<F>, routes: Seq<Route>, y: RouteSystem<F, E>) -> bool {
    &&& keeps_room(g, y)
    &&& y.run.routes == routes
    &&& routes.len() <= usize::MAX
    &&& y.deeds.len() == routes.len()
    &&& y.pending.len() == 0
    &&& y.coding == 0
    &&& counts_right(g, y)
}

/// A run that is about to read packet `i`.
pub open spec fn reads<F, E>(
    g: RouteScript<F>,
    routes: Seq<Route>,
    y: RouteSystem<F, E>,
    i: nat,
) -> bool {
    &&& at_rest(g, routes, y)
    &&& y.run.phase is Reading
    &&& y.command is Read
    &&& y.read == i
    &&& y.flushed.len() == 0
    &&& forall|r: int|
        0 <= r < routes.len() ==> #[trigger] y.deeds[r] == deeds_after(g, routes, r, i)
}

proof fn packets_add_up<F>(g: RouteScript<F>, r: int, fed: Seq<F>, a: Seq<F>, b: Seq<F>)
    ensures
        g.packets_of(r, fed, a + b) == g.packets_of(r, fed, a) + g.packets_of(r, fed + a, b),
    decreases a.len(),
{
    if a.len() == 0 {
        assert(a + b =~= b);
        assert(fed + a =~= fed);
    } else {
        packets_add_up(g, r, fed.push(a[0]), a.skip(1), b);
        assert((a + b).skip(1) =~= a.skip(1) + b);
        assert(fed.push(a[0]) + a.skip(1) =~= fed + a);
    }
}

/// The counters stay right when frames of a decoder have gone on.
proof fn frames_count_right<F, E>(
    g: RouteScript<F>,
    y: RouteSystem<F, E>,
    route: int,
    frames: Seq<F>,
)
    requires
        counts_right(g, y),
        0 <= route < y.deeds.len(),
        y.run.stats.frames_decoded + frames.len() <= u64::MAX,
        y.run.routes[route].mode is Transcode ==> y.run.stats.packets_encoded + g.packets_of(
            route,
            y.deeds[route].fed,
            g.plain_frames(frames),
        ) <= u64::MAX,
    ensures
        counts_right(g, passed_on(g, y, route, frames)),
{
    let q = passed_on(g, y, route, frames);
    deeds_change(y.deeds, route, q.deeds[route]);
    assert(q.deeds =~= y.deeds.update(route, q.deeds[route]));
}

/// A packet that goes down a route with a decoder.
proof fn packet_is_decoded<F, E>(
    g: RouteScript<F>,
    routes: Seq<Route>,
    y: RouteSystem<F, E>,
    i: nat,
    r: int,
) -> (q: RouteSystem<F, E>)
    requires
        reads(g, routes, y, i),
        i < g.packets.len(),
        is_way(routes, g.packets[i as int], r),
        !(routes[r].mode is Copy),
    ensures
        leads_to(g.turns(), y, q),
        reads(g, routes, q, i + 1),
{
    let stream = g.packets[i as int];
    route_is_the_way(routes, stream, 0);
    only_one_way(routes, stream, r, route_at(routes, stream, 0));
    has_room_now(g, y);
    assert(r as usize as int == r);
    let d = y.deeds[r];
    assert(d == deeds_after(g, routes, r, i));
    let a = g.turn(y);
    one_turn_leads(g.turns(), y);
    assert(a.command == (RunCommand::<F, E>::SendPacket { route: r as usize }));
    let b = g.turn(a);
    one_turn_leads(g.turns(), a);
    leading_adds_up(g.turns(), y, a, b);
    room_is_kept(g, y, b);
    let frames = (g.made)(r, d.sent);
    assert(b.pending == frames);
    assert(b.deeds[r] == Deeds { sent: d.sent + 1, ..d });
    deeds_change(y.deeds, r, b.deeds[r]);
    assert(b.deeds =~= y.deeds.update(r, b.deeds[r]));
    assert(counts_right(g, b));
    frames_go_on(g, b, r as usize, false);
    frames_count_right(g, b, r, frames);
    let c = passed_on(g, b, r, frames);
    leading_adds_up(g.turns(), y, b, c);
    room_is_kept(g, y, c);
    let q = g.turn(c);
    one_turn_leads(g.turns(), c);
    leading_adds_up(g.turns(), y, c, q);
    room_is_kept(g, y, q);
    assert(q.run.phase is Reading && q.command is Read);
    let n = d.sent;
    assert(share_of(routes, g.packets, r, i + 1) == share_of(routes, g.packets, r, i).push(i));
    assert(g.frames_of(r, n + 1) == g.frames_of(r, n) + frames);
    let old = g.plain_frames(g.frames_of(r, n));
    assert(g.plain_frames(g.frames_of(r, n) + frames) =~= old + g.plain_frames(frames));
    packets_add_up(g, r, Seq::empty(), old, g.plain_frames(frames));
    assert(Seq::<F>::empty() + old =~= old);
    assert(q.deeds[r] =~= deeds_after(g, routes, r, i + 1));
    assert forall|x: int| 0 <= x < routes.len() implies #[trigger] q.deeds[x] == deeds_after(
        g,
        routes,
        x,
        i + 1,
    ) by {
        if x != r {
            assert(q.deeds[x] == y.deeds[x]);
            other_share_stays(routes, g.packets, r, x, i);
        }
    }
    assert(counts_right(g, q));
    q
}

proof fn only_one_way(routes: Seq<Route>, stream: u32, a: int, b: int)
    requires
        is_way(routes, stream, a),
        is_way(routes, stream, b) || b == routes.len() && !has_way(routes, stream),
    ensures
        a == b,
{
    if a < b && b < routes.len() {
        assert(routes[a].source_stream != stream);
    } else if b < a {
        assert(routes[b].source_stream != stream);
    }
}

proof fn other_share_stays(routes: Seq<Route>, packets: Seq<u32>, r: int, x: int, i: nat)
    requires
        is_way(routes, packets[i as int], r),
        0 <= x < routes.len(),
        x != r,
    ensures
        share_of(routes, packets, x, i + 1) == share_of(routes, packets, x, i),
{
    if is_way(routes, packets[i as int], x) {
        only_one_way(routes, packets[i as int], r, x);
    }
}

/// A packet that goes down a route as it is.
proof fn packet_is_copied<F, E>(
    g: RouteScript<F>,
    routes: Seq<Route>,
    y: RouteSystem<F, E>,
    i: nat,
    r: int,
) -> (q: RouteSystem<F, E>)
    requires
        reads(g, routes, y, i),
        i < g.packets.len(),
        is_way(routes, g.packets[i as int], r),
        routes[r].mode is Copy,
    ensures
        leads_to(g.turns(), y, q),
        reads(g, routes, q, i + 1),
{
    let stream = g.packets[i as int];
    route_is_the_way(routes, stream, 0);
    only_one_way(routes, stream, r, route_at(routes, stream, 0));
    has_room_now(g, y);
    assert(r as usize as int == r);
    let d = y.deeds[r];
    assert(d == deeds_after(g, routes, r, i));
    let a = g.turn(y);
    one_turn_leads(g.turns(), y);
    assert(a.command == (RunCommand::<F, E>::CopyPacket { route: r as usize }));
    let q = g.turn(a);
    one_turn_leads(g.turns(), a);
    leading_adds_up(g.turns(), y, a, q);
    room_is_kept(g, y, q);
    deeds_change(y.deeds, r, q.deeds[r]);
    assert(q.deeds =~= y.deeds.update(r, q.deeds[r]));
    assert forall|x: int| 0 <= x < routes.len() implies #[trigger] q.deeds[x] == deeds_after(
        g,
        routes,
        x,
        i + 1,
    ) by {
        if x != r {
            assert(q.deeds[x] == y.deeds[x]);
            other_share_stays(routes, g.packets, r, x, i);
        }
    }
    q
}

/// A packet that no route is for.
proof fn packet_is_lost<F, E>(
    g: RouteScript<F>,
    routes: Seq<Route>,
    y: RouteSystem<F, E>,
    i: nat,
) -> (q: RouteSystem<F, E>)
    requires
        reads(g, routes, y, i),
        i < g.packets.len(),
        !has_way(routes, g.packets[i as int]),
    ensures
        leads_to(g.turns(), y, q),
        reads(g, routes, q, i + 1),
{
    let stream = g.packets[i as int];
    route_is_the_way(routes, stream, 0);
    has_room_now(g, y);
    let q = g.turn(y);
    one_turn_leads(g.turns(), y);
    room_is_kept(g, y, q);
    assert forall|x: int| 0 <= x < routes.len() implies #[trigger] q.deeds[x] == deeds_after(
        g,
        routes,
        x,
        i + 1,
    ) by {
        assert(!is_way(routes, stream, x));
        assert(q.deeds[x] == y.deeds[x]);
    }
    q
}

proof fn source_is_read<F, E>(
    g: RouteScript<F>,
    routes: Seq<Route>,
    y: RouteSystem<F, E>,
    i: nat,
) -> (q: RouteSystem<F, E>)
    requires
        reads(g, routes, y, i),
        i <= g.packets.len(),
    ensures
        leads_to(g.turns(), y, q),
        reads(g, routes, q, g.packets.len()),
    decreases g.packets.len() - i,
{
    if i == g.packets.len() {
        nothing_leads_nowhere(g.turns(), y);
        y
    } else {
        let stream = g.packets[i as int];
        let a = if has_way(routes, stream) {
            let r = choose|r: int| #[trigger] is_way(routes, stream, r);
            if routes[r].mode is Copy {
                packet_is_copied(g, routes, y, i, r)
            } else {
                packet_is_decoded(g, routes, y, i, r)
            }
        } else {
            packet_is_lost(g, routes, y, i)
        };
        let q = source_is_read(g, routes, a, i + 1);
        leading_adds_up(g.turns(), y, a, q);
        q
    }
}

/// The first `n` routes, in order.
pub open spec fn in_order(n: int) -> Seq<usize> {
    Seq::new(n as nat, |r: int| r as usize)
}

/// A run at the end of its source that flushes its routes, route `k` next.
pub open spec fn flushes<F, E>(
    g: RouteScript<F>,
    routes: Seq<Route>,
    y: RouteSystem<F, E>,
    k: int,
) -> bool {
    &&& at_rest(g, routes, y)
    &&& y.read == g.packets.len()
    &&& y.flushed == in_order(k)
    &&& (y.run, y.command) == y.run.flushing::<F, E>(k)
    &&& forall|r: int| 0 <= r < k ==> #[trigger] y.deeds[r] == deeds_at_end(g, routes, r)
    &&& forall|r: int|
        k <= r < routes.len() ==> #[trigger] y.deeds[r] == deeds_after(
            g,
            routes,
            r,
            g.packets.len(),
        )
}

/// What a decoder and an encoder still held reaches the sink before it is flushed.
proof fn route_is_emptied<F, E>(
    g: RouteScript<F>,
    routes: Seq<Route>,
    y: RouteSystem<F, E>,
    k: int,
) -> (q: RouteSystem<F, E>)
    requires
        flushes(g, routes, y, k),
        0 <= k < routes.len(),
    ensures
        leads_to(g.turns(), y, q),
        at_rest(g, routes, q),
        q.read == y.read,
        q.flushed == y.flushed,
        q.run.phase == (RunPhase::FlushingSink { route: k as usize }),
        q.command == (RunCommand::<F, E>::FlushSink { route: k as usize }),
        q.deeds == y.deeds.update(k, deeds_at_end(g, routes, k)),
{
    assert(k as usize as int == k);
    let d = y.deeds[k];
    assert(d == deeds_after(g, routes, k, g.packets.len()));
    if routes[k].mode is Copy {
        nothing_leads_nowhere(g.turns(), y);
        assert(y.deeds.update(k, d) =~= y.deeds);
        y
    } else {
        let r = k as usize;
        let a = g.turn(y);
        one_turn_leads(g.turns(), y);
        room_is_kept(g, y, a);
        let frames = (g.tail)(k);
        assert(a.pending == frames);
        frames_go_on(g, a, r, true);
        frames_count_right(g, a, k, frames);
        let b = passed_on(g, a, k, frames);
        leading_adds_up(g.turns(), y, a, b);
        room_is_kept(g, y, b);
        let c = g.turn(b);
        one_turn_leads(g.turns(), b);
        leading_adds_up(g.turns(), y, b, c);
        room_is_kept(g, y, c);
        let n = d.sent;
        let old = g.plain_frames(g.frames_of(k, n));
        assert(g.plain_frames(g.frames_of(k, n) + frames) =~= old + g.plain_frames(frames));
        packets_add_up(g, k, Seq::empty(), old, g.plain_frames(frames));
        assert(Seq::<F>::empty() + old =~= old);
        if routes[k].mode is Transcode {
            let e = g.turn(c);
            one_turn_leads(g.turns(), c);
            leading_adds_up(g.turns(), y, c, e);
            room_is_kept(g, y, e);
            assert(e.command == (RunCommand::<F, E>::ReceivePacket { route: r }));
            packets_go_out(g, e, r, true, true);
            let f = wrote(e, k, e.coding);
            leading_adds_up(g.turns(), y, e, f);
            room_is_kept(g, y, f);
            deeds_change(e.deeds, k, f.deeds[k]);
            assert(f.deeds =~= e.deeds.update(k, f.deeds[k]));
            assert(counts_right(g, f));
            let q = g.turn(f);
            one_turn_leads(g.turns(), f);
            leading_adds_up(g.turns(), y, f, q);
            room_is_kept(g, y, q);
            assert(q.deeds =~= y.deeds.update(k, deeds_at_end(g, routes, k)));
            q
        } else {
            assert(c.deeds =~= y.deeds.update(k, deeds_at_end(g, routes, k)));
            c
        }
    }
}

proof fn routes_are_flushed<F, E>(
    g: RouteScript<F>,
    routes: Seq<Route>,
    y: RouteSystem<F, E>,
    k: int,
) -> (q: RouteSystem<F, E>)
    requires
        flushes(g, routes, y, k),
        0 <= k <= routes.len(),
    ensures
        leads_to(g.turns(), y, q),
        flushes(g, routes, q, routes.len() as int),
    decreases routes.len() - k,
{
    if k == routes.len() {
        nothing_leads_nowhere(g.turns(), y);
        y
    } else {
        let a = route_is_emptied(g, routes, y, k);
        let b = g.turn(a);
        one_turn_leads(g.turns(), a);
        leading_adds_up(g.turns(), y, a, b);
        room_is_kept(g, y, b);
        assert(b.flushed =~= in_order(k + 1));
        assert forall|r: int| k + 1 <= r < routes.len() implies #[trigger] b.deeds[r]
            == deeds_after(g, routes, r, g.packets.len()) by {
            assert(b.deeds[r] == y.deeds[r]);
        }
        assert forall|r: int| 0 <= r < k + 1 implies #[trigger] b.deeds[r] == deeds_at_end(
            g,
            routes,
            r,
        ) by {
            if r < k {
                assert(b.deeds[r] == y.deeds[r]);
            }
        }
        assert(flushes(g, routes, b, k + 1));
        let q = routes_are_flushed(g, routes, b, k + 1);
        leading_adds_up(g.turns(), y, b, q);
        q
    }
}

/// A run before its first read.
pub open spec fn run_start<F, E>(routes: Seq<Route>) -> RouteSystem<F, E> {
    let (run, command) = RunView {
        routes,
        stats: PipelineStats::zero(),
        phase: RunPhase::Reading,
    }.step(RunReply::Start);
    RouteSystem {
        run,
        read: 0,
        deeds: Seq::new(
            routes.len(),
            |r: int|
                Deeds {
                    sent: 0,
                    copied: Seq::empty(),
                    shown: Seq::empty(),
                    fed: Seq::empty(),
                    written: 0,
                },
        ),
        pending: Seq::empty(),
        coding: 0,
        flushed: Seq::empty(),
        command,
    }
}

/// A run reads its source to the end, and everything reaches the sink of its route, in
/// order and nothing twice: the packets of a copied stream as they are, every frame of a
/// decoded one, those that the decoder still held included, and every packet that an
/// encoder makes of the frames, those that it still held included. Then each sink is
/// flushed once, in the order of the routes. A packet goes down the first route for its
/// stream, and is dropped where there is none. The counters say just that. Left out are
/// counters at the end of their range.
pub proof fn everything_reaches_its_sink<F, E>(g: RouteScript<F>, routes: Seq<Route>)
    requires
        routes.len() <= usize::MAX,
        keeps_room(g, run_start::<F, E>(routes)),
    ensures
        exists|q: RouteSystem<F, E>| #[trigger]
            leads_to(g.turns(), run_start::<F, E>(routes), q) && q.command
                == RunCommand::<F, E>::Finished(q.run.stats) && counts_right(g, q) && q.read
                == g.packets.len() && q.flushed == in_order(routes.len() as int) && q.deeds
                == Seq::new(routes.len(), |r: int| deeds_at_end(g, routes, r)),
{
    let a = run_start::<F, E>(routes);
    has_room_now(g, a);
    assert forall|r: int| 0 <= r < routes.len() implies #[trigger] a.deeds[r] == deeds_after(
        g,
        routes,
        r,
        0,
    ) by {
        assert(g.plain_frames(g.frames_of(r, 0)) =~= Seq::empty());
        assert(a.deeds[r] =~= deeds_after(g, routes, r, 0));
    }
    nothing_totals(each(a.deeds, |d: Deeds<F>| d.copied.len() as int));
    nothing_totals(each(a.deeds, |d: Deeds<F>| (d.shown.len() + d.fed.len()) as int));
    nothing_totals(each(a.deeds, |d: Deeds<F>| d.written as int));
    assert(reads(g, routes, a, 0));
    let b = source_is_read(g, routes, a, 0);
    let c = g.turn(b);
    one_turn_leads(g.turns(), b);
    leading_adds_up(g.turns(), a, b, c);
    room_is_kept(g, a, c);
    assert(c.flushed =~= in_order(0));
    assert(flushes(g, routes, c, 0));
    let q = routes_are_flushed(g, routes, c, 0);
    leading_adds_up(g.turns(), a, c, q);
    assert(q.deeds =~= Seq::new(routes.len(), |r: int| deeds_at_end(g, routes, r)));
}

} // verus!
