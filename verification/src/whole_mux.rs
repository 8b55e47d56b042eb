//! The loop that feeds the sink of an output from the queues of its tracks, from its
//! start to its end.

use crate::mux::{live_from, live_from_range, MuxCommand, MuxPhase, MuxReply, MuxView};
use crate::scripted::{
    leading_adds_up, leads_to, nothing_leads_nowhere, one_turn_leads, Tally,
};
use crate::staged::Shared;
use crate::sums::{nothing_totals, total, total_of_naturals, total_updated};
use crate::whole_staged::{gain, undisturbed};
use vstd::prelude::*;

verus! {

/// What reaches the queue of a track at the output's sink.
#[derive(Clone, Copy, Debug, PartialEq, Eq, Structural)]
pub enum Queued {
    Frame { stream: u32, pts: Option<i64> },
    Packet { stream: u32, pts: Option<i64> },
    Update { stream: u32 },
}

/// The loop, and what will still reach the queue of each track.
#[verifier::ext_equal]
pub struct MuxSystem {
    pub v: MuxView,
    pub now: nat,
    pub tally: Tally,
    pub inboxes: Seq<Seq<Queued>>,
    /// How many frames the sink has been given.
    pub shown: nat,
    pub command: MuxCommand,
}

/// The clock, and when the loop finds nothing in a queue that something will still
/// reach: at any time, but not forever.
pub struct MuxClock {
    pub time: spec_fn(nat) -> u64,
    pub early: spec_fn(nat) -> bool,
    pub settled: nat,
}

impl MuxClock {
    pub open spec fn wf(self) -> bool {
        forall|i: nat| self.settled <= i ==> !(#[trigger] (self.early)(i))
    }
}

/// The loop's clock, and the workers around it.
#[verifier::reject_recursive_types(E)]
pub struct MuxScript<E> {
    pub clock: MuxClock,
    pub shared: spec_fn(nat) -> Shared<E>,
}

/// What comes of a call of the loop.
pub open spec fn mux_call<E>(clock: MuxClock, y: MuxSystem) -> (MuxSystem, MuxReply<E>) {
    match y.command {
        MuxCommand::Poll { track } => {
            let queue = y.inboxes[track as int];
            if (clock.early)(y.now) {
                (y, MuxReply::Empty)
            } else if queue.len() > 0 {
                (
                    MuxSystem { inboxes: y.inboxes.update(track as int, queue.skip(1)), ..y },
                    match queue[0] {
                        Queued::Frame { stream, pts } => MuxReply::Frame { stream, pts },
                        Queued::Packet { stream, pts } => MuxReply::Packet { stream, pts },
                        Queued::Update { stream } => MuxReply::Update { stream },
                    },
                )
            } else {
                (y, MuxReply::Eof)
            }
        },
        MuxCommand::WriteFrame => (MuxSystem { shown: y.shown + 1, ..y }, MuxReply::Done),
        _ => (y, MuxReply::Done),
    }
}

impl<E> MuxScript<E> {
    pub open spec fn answered(self, y: MuxSystem, reply: MuxReply<E>) -> MuxSystem {
        let before = (self.shared)(y.now);
        let (v, after, command) = y.v.step(before, reply, (self.clock.time)(y.now));
        MuxSystem { v, now: y.now + 1, tally: y.tally.plus(gain(before, after)), command, ..y }
    }

    /// One call and what comes of it; nothing once the loop has stopped.
    pub open spec fn turn(self, y: MuxSystem) -> MuxSystem {
        if y.command is Stop {
            y
        } else {
            let (z, reply) = mux_call(self.clock, y);
            self.answered(z, reply)
        }
    }

    pub open spec fn turns(self) -> spec_fn(MuxSystem) -> MuxSystem {
        |y: MuxSystem| self.turn(y)
    }
}

/// How many frames there are in a queue.
pub open spec fn frames_in(queue: Seq<Queued>) -> nat
    decreases queue.len(),
{
    if queue.len() == 0 {
        0
    } else {
        frames_in(queue.skip(1)) + (if queue[0] is Frame {
            1nat
        } else {
            0
        })
    }
}

/// How many frames there are in each of several queues.
pub open spec fn frames_each(queues: Seq<Seq<Queued>>) -> Seq<int> {
    Seq::new(queues.len(), |t: int| frames_in(queues[t]) as int)
}

/// How many frames there are in several queues.
pub open spec fn frames_in_all(queues: Seq<Seq<Queued>>) -> nat {
    total(frames_each(queues)) as nat
}

/// What the loop has still to find in each queue, the end included.
pub open spec fn to_find(queues: Seq<Seq<Queued>>, eof: Seq<bool>) -> Seq<int> {
    Seq::new(
        queues.len(),
        |t: int|
            queues[t].len() + (if eof[t] {
                0int
            } else {
                1
            }),
    )
}

proof fn frames_are_counted(queues: Seq<Seq<Queued>>)
    ensures
        frames_in_all(queues) == total(frames_each(queues)),
{
    total_of_naturals(frames_each(queues));
}

/// The loop between two calls: about to look into the queue of a track, about to look
/// again after a while, or stopped.
pub open spec fn mux_rests(v: MuxView, c: MuxCommand) -> bool {
    ||| c is Poll && c->Poll_track == v.at && v.phase is Polling && 0 <= v.at < v.eof.len()
        && !v.eof[v.at]
    ||| c is Park && v.phase is Top && live_from(v.eof, 0) < v.eof.len()
    ||| c is Stop && forall|t: int| 0 <= t < v.eof.len() ==> #[trigger] v.eof[t]
}

proof fn mux_goes_on<E>(v: MuxView, s: Shared<E>)
    requires
        !s.abort.cancelled,
        -1 <= v.at < v.eof.len() <= u32::MAX,
    ensures
        ({
            let (w, t, c) = v.next(s);
            &&& mux_rests(w, c)
            &&& w.eof == v.eof
            &&& t == s
        }),
{
    live_from_range(v.eof, v.at + 1);
    live_from_range(v.eof, 0);
}

/// The loop is in order: a queue at its end has nothing more to come.
pub open spec fn mux_fits(y: MuxSystem) -> bool {
    &&& y.inboxes.len() == y.v.eof.len() <= u32::MAX
    &&& forall|t: int|
        0 <= t < y.inboxes.len() && #[trigger] y.v.eof[t] ==> y.inboxes[t].len() == 0
    &&& mux_rests(y.v, y.command)
}

/// What the loop has given to the sink, from one state to another.
pub open spec fn muxed_since(y: MuxSystem, q: MuxSystem) -> bool {
    &&& q.shown + frames_in_all(q.inboxes) == y.shown + frames_in_all(y.inboxes)
    &&& q.tally.plus(Tally::of_written(frames_in_all(q.inboxes))) == y.tally.plus(
        Tally::of_written(frames_in_all(y.inboxes)),
    )
}

/// The loop with what it has taken out of the queue of a track, and gone on.
proof fn mux_takes_an_item<E>(g: MuxScript<E>, y: MuxSystem) -> (q: MuxSystem)
    requires
        undisturbed(g.shared),
        mux_fits(y),
        y.command is Poll,
        !(g.clock.early)(y.now),
        y.inboxes[y.v.at].len() > 0,
    ensures
        leads_to(g.turns(), y, q),
        mux_fits(q),
        muxed_since(y, q),
        q.now > y.now,
        total(to_find(q.inboxes, q.v.eof)) < total(to_find(y.inboxes, y.v.eof)),
{
    let at = y.v.at;
    let queue = y.inboxes[at];
    let n: nat = if queue[0] is Frame {
        1
    } else {
        0
    };
    let a = g.turn(y);
    one_turn_leads(g.turns(), y);
    assert(a.tally =~= y.tally);
    let b = g.turn(a);
    one_turn_leads(g.turns(), a);
    leading_adds_up(g.turns(), y, a, b);
    let s1 = (g.shared)(a.now);
    assert(!s1.abort.cancelled && s1.counters.snapshot_spec().has_room(1));
    assert(b.tally =~= y.tally.plus(Tally::of_written(n)));
    let after = a.v.step(s1, MuxReply::<E>::Done, (g.clock.time)(a.now)).1;
    mux_goes_on(a.v, after);
    let q = if b.command is Report {
        let c = g.turn(b);
        one_turn_leads(g.turns(), b);
        leading_adds_up(g.turns(), y, b, c);
        let s2 = (g.shared)(b.now);
        assert(!s2.abort.cancelled);
        assert(c.tally =~= b.tally);
        mux_goes_on(b.v, s2);
        c
    } else {
        b
    };
    assert(q.inboxes == y.inboxes.update(at, queue.skip(1)));
    assert(frames_each(q.inboxes) =~= frames_each(y.inboxes).update(
        at,
        frames_in(queue.skip(1)) as int,
    ));
    total_updated(frames_each(y.inboxes), at, frames_in(queue.skip(1)) as int);
    frames_are_counted(q.inboxes);
    frames_are_counted(y.inboxes);
    assert(to_find(q.inboxes, q.v.eof) =~= to_find(y.inboxes, y.v.eof).update(
        at,
        queue.len() as int,
    ));
    total_updated(to_find(y.inboxes, y.v.eof), at, queue.len() as int);
    assert(q.tally.plus(Tally::of_written(frames_in_all(q.inboxes))) =~= y.tally.plus(
        Tally::of_written(frames_in_all(y.inboxes)),
    ));
    q
}

/// The loop looks into a queue, or waits: what there is it takes.
proof fn mux_looks<E>(g: MuxScript<E>, y: MuxSystem) -> (q: MuxSystem)
    requires
        undisturbed(g.shared),
        mux_fits(y),
        !(y.command is Stop),
    ensures
        leads_to(g.turns(), y, q),
        mux_fits(q),
        muxed_since(y, q),
        q.now > y.now,
        total(to_find(q.inboxes, q.v.eof)) <= total(to_find(y.inboxes, y.v.eof)),
        y.command is Poll && !(g.clock.early)(y.now) ==> total(to_find(q.inboxes, q.v.eof))
            < total(to_find(y.inboxes, y.v.eof)),
        y.command is Park ==> !(q.command is Park),
{
    if y.command is Poll && !(g.clock.early)(y.now) && y.inboxes[y.v.at].len() > 0 {
        mux_takes_an_item(g, y)
    } else {
        let q = g.turn(y);
        one_turn_leads(g.turns(), y);
        let s = (g.shared)(y.now);
        assert(!s.abort.cancelled);
        assert(q.tally =~= y.tally);
        if y.command is Park {
            live_from_range(y.v.eof, 0);
        } else if (g.clock.early)(y.now) {
            mux_goes_on(y.v, s);
        } else {
            let over = MuxView {
                eof: y.v.eof.update(y.v.at, true),
                progress: true,
                ..y.v
            };
            mux_goes_on(over, s);
            assert(to_find(q.inboxes, q.v.eof) =~= to_find(y.inboxes, y.v.eof).update(y.v.at, 0));
            total_updated(to_find(y.inboxes, y.v.eof), y.v.at, 0);
        }
        q
    }
}

proof fn mux_looks_on<E>(g: MuxScript<E>, y: MuxSystem)
    requires
        undisturbed(g.shared),
        g.clock.wf(),
        mux_fits(y),
    ensures
        exists|q: MuxSystem| #[trigger]
            leads_to(g.turns(), y, q) && mux_fits(q) && q.command is Stop && muxed_since(y, q),
    decreases
            if y.now < g.clock.settled {
                g.clock.settled - y.now
            } else {
                0
            },
            total(to_find(y.inboxes, y.v.eof)),
            if y.command is Park {
                1int
            } else {
                0
            },
{
    if y.command is Stop {
        nothing_leads_nowhere(g.turns(), y);
    } else {
        let a = mux_looks(g, y);
        total_of_naturals(to_find(a.inboxes, a.v.eof));
        total_of_naturals(to_find(y.inboxes, y.v.eof));
        mux_looks_on(g, a);
        let q = choose|q: MuxSystem| #[trigger]
            leads_to(g.turns(), a, q) && mux_fits(q) && q.command is Stop && muxed_since(a, q);
        leading_adds_up(g.turns(), y, a, q);
    }
}

/// The loop before it starts.
pub open spec fn mux_idle(reports: bool, queues: Seq<Seq<Queued>>) -> MuxSystem {
    MuxSystem {
        v: MuxView {
            eof: Seq::new(queues.len(), |t: int| false),
            at: 0,
            progress: false,
            reports,
            phase: MuxPhase::Top,
        },
        now: 0,
        tally: Tally::none(),
        inboxes: queues,
        shown: 0,
        command: MuxCommand::Park,
    }
}

/// The loop that starts.
pub open spec fn mux_start<E>(
    g: MuxScript<E>,
    reports: bool,
    queues: Seq<Seq<Queued>>,
) -> MuxSystem {
    g.answered(mux_idle(reports, queues), MuxReply::Start)
}

/// The loop at its end: it has given the sink every frame of every queue, and has
/// counted just those.
pub open spec fn mux_done(queues: Seq<Seq<Queued>>, q: MuxSystem) -> bool {
    &&& q.command is Stop
    &&& q.shown == frames_in_all(queues)
    &&& q.tally == Tally::of_written(frames_in_all(queues))
}

/// The loop runs to its end, however often it finds nothing in between.
pub proof fn mux_runs<E>(g: MuxScript<E>, reports: bool, queues: Seq<Seq<Queued>>)
    requires
        undisturbed(g.shared),
        g.clock.wf(),
        queues.len() <= u32::MAX,
    ensures
        exists|q: MuxSystem| #[trigger]
            leads_to(g.turns(), mux_start(g, reports, queues), q) && mux_done(queues, q),
{
    let y = mux_start(g, reports, queues);
    let s0 = (g.shared)(0);
    assert(!s0.abort.cancelled);
    live_from_range(mux_idle(reports, queues).v.eof, 0);
    assert(y.tally =~= Tally::none());
    assert(mux_fits(y));
    mux_looks_on(g, y);
    let q = choose|q: MuxSystem| #[trigger]
        leads_to(g.turns(), y, q) && mux_fits(q) && q.command is Stop && muxed_since(y, q);
    assert forall|t: int| 0 <= t < q.inboxes.len() implies #[trigger] frames_each(q.inboxes)[t]
        == 0 by {
        assert(q.v.eof[t]);
    }
    nothing_totals(frames_each(q.inboxes));
    frames_are_counted(q.inboxes);
    let n = frames_in_all(queues);
    assert(Tally::none().plus(Tally::of_written(n)) == q.tally.plus(Tally::of_written(0)));
    assert(q.tally =~= Tally::of_written(n));
}

} // verus!
