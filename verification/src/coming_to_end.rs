//! The workers of an output can all come to their ends together: there is an order in
//! which they do, whatever the ceiling on the queues.

use crate::crew::{handed_on, member_ends, Member};
use crate::crew_order::{
    beginnings_agree, comes_to_its_end_alone, longer_by, on_its_own, one_more_goes, room_for_all,
    there_is_room,
};
use crate::crew_run::{
    crew_stays_sound, idle_workers_count_nothing, member_follows, turn_adds, Crew,
};
use crate::natural_end::{
    all_true, flows, in_hand, in_hands, nothing_waits, one_receiver, packets_to_come,
    queues_hold_what_waits, queues_never_owe, received, receiver_at, sent_so_far, sent_to,
    shares_begin_alike, track_stands, tracks_come_in_order, waiting, waitings,
};
use crate::output::{OutputCommand, OutputPhase, OutputView};
use crate::progress::QueueEvent;
use crate::queue_flow::{crew_stays_true, source_true, true_to};
use crate::reports::{crossing, exchange_fills_the_queues};
use crate::scripted::{leads_to, World};
use crate::serial::SerialCommand;
use crate::source_stage::{route_from, SourcePhase};
use crate::staged::{QueueBudget, Shared};
use crate::stats::ExecutorStats;
use crate::sums::{nothing_totals, total, total_of_naturals, total_updated};
use crate::whole_run::{
    all_members, conclusion, first_members, in_place, one_thread_or_many, route_of_a_track,
    routes_of, shown_each, source_in_place, source_members, track_members, tracks_members, Team,
};
use crate::whole_serial::{serial_start, OutputScript, SerialSystem};
use crate::whole_source::{route_from_range, SourceSystem, Supply};
use crate::whole_staged::sizes_of;
use crate::whole_track::untouched;
use vstd::prelude::*;

verus! {

/// All workers of an output, before they start.
pub open spec fn whole_crew<F, E>(
    o: OutputScript<F, E>,
    team: Team<F>,
    shared: Shared<E>,
) -> Crew<F, E> {
    Crew { members: all_members(o, team), shared }
}

/// Everybody is in place and ready, nothing is in the queues, and the counters have room
/// for all.
pub open spec fn set_up<F, E>(o: OutputScript<F, E>, team: Team<F>, shared: Shared<E>) -> bool {
    &&& o.wf()
    &&& in_place(o, team)
    &&& whole_crew(o, team, shared).ready()
    &&& room_for_all(whole_crew(o, team, shared))
    &&& shared.budget.in_flight == 0
}

/// The workers after a run.
pub open spec fn at_end<F, E>(
    o: OutputScript<F, E>,
    team: Team<F>,
    shared: Shared<E>,
    order: Seq<int>,
) -> Crew<F, E> {
    whole_crew(o, team, shared).after(order, order.len() as int)
}

/// A run in which whoever has a turn has something to do, and nobody receives what was
/// not sent.
pub open spec fn steady<F, E>(
    o: OutputScript<F, E>,
    team: Team<F>,
    shared: Shared<E>,
    order: Seq<int>,
) -> bool {
    &&& whole_crew(o, team, shared).orderly(order)
    &&& forall|j: int|
        0 <= j <= order.len() ==> flows(
            o,
            team,
            #[trigger] whole_crew(o, team, shared).after(order, j),
        )
}

proof fn everybody_is_true<F, E>(
    o: OutputScript<F, E>,
    team: Team<F>,
    shared: Shared<E>,
    order: Seq<int>,
    k: int,
)
    requires
        set_up(o, team, shared),
        whole_crew(o, team, shared).orderly(order),
        0 <= k <= order.len(),
    ensures
        all_true(o, team, whole_crew(o, team, shared).after(order, k)),
{
    crew_stays_true(whole_crew(o, team, shared), order, k);
}

/// A run goes on with one more turn.
proof fn goes_on_with<F, E>(
    o: OutputScript<F, E>,
    team: Team<F>,
    shared: Shared<E>,
    order: Seq<int>,
    i: int,
)
    requires
        set_up(o, team, shared),
        steady(o, team, shared, order),
        0 <= i < all_members(o, team).len(),
        !at_end(o, team, shared, order).members[i].over(),
        flows(o, team, at_end(o, team, shared, order).turned(i)),
    ensures
        steady(o, team, shared, order.push(i)),
        at_end(o, team, shared, order.push(i)) == at_end(o, team, shared, order).turned(i),
{
    let c = whole_crew(o, team, shared);
    let longer = order.push(i);
    one_more_goes(c, order, i);
    assert forall|j: int| 0 <= j <= longer.len() implies flows(
        o,
        team,
        #[trigger] c.after(longer, j),
    ) by {
        if j <= order.len() {
            beginnings_agree(c, order, longer, j);
            assert(flows(o, team, c.after(order, j)));
        }
    }
}

proof fn still_covered(before: QueueBudget, after: QueueBudget, e: Option<QueueEvent>, load: int)
    requires
        before.in_flight <= load,
        before.max == 0 ==> before.in_flight == 0,
        0 <= load + crossing(e),
        after == match e {
            Some(QueueEvent::Enters(n)) => before.admitted(n),
            Some(QueueEvent::Leaves(n)) => before.released(n),
            None => before,
        },
    ensures
        after.in_flight <= load + crossing(e),
        after.max == 0 ==> after.in_flight == 0,
{
}

/// What the budget says is in the queues is never more than what is there.
proof fn budget_is_covered<F, E>(
    o: OutputScript<F, E>,
    team: Team<F>,
    shared: Shared<E>,
    order: Seq<int>,
    k: int,
)
    requires
        set_up(o, team, shared),
        steady(o, team, shared, order),
        0 <= k <= order.len(),
    ensures
        ({
            let c = whole_crew(o, team, shared).after(order, k);
            &&& c.shared.budget.in_flight <= total(c.loads())
            &&& c.shared.budget.max == 0 ==> c.shared.budget.in_flight == 0
        }),
    decreases k,
{
    let start = whole_crew(o, team, shared);
    let c = start.after(order, k);
    idle_workers_count_nothing(start);
    if k > 0 {
        budget_is_covered(o, team, shared, order, k - 1);
        let before = start.after(order, k - 1);
        let i = order[k - 1];
        assert(0 <= i < start.members.len());
        crew_stays_sound(start, order, k - 1);
        turn_adds(before, i);
        exchange_fills_the_queues(before.members[i].exchange(), before.shared);
        everybody_is_true(o, team, shared, order, k);
        assert(flows(o, team, c));
        queues_never_owe(o, team, c);
        still_covered(
            before.shared.budget,
            c.shared.budget,
            before.members[i].exchange().queue_event(before.shared),
            total(before.loads()),
        );
    }
}

/// What a turn does to what a worker has still to receive.
proof fn turn_receives_at_most_one<F, E>(m: Member<F, E>, s: Shared<E>)
    requires
        !m.over(),
    ensures
        packets_to_come(m.turned(s)) <= packets_to_come(m) <= packets_to_come(m.turned(s)) + 1,
        m.turned(s) is Source <==> m is Source,
{
    reveal(Member::turned);
}

/// The receivers of different tracks stand in different places, behind the sources.
proof fn receivers_differ<F, E>(o: OutputScript<F, E>, team: Team<F>, t: int, u: int)
    requires
        o.wf(),
        0 <= t < u < o.tracks.len(),
        o.tracks[t].feed is Packets,
    ensures
        receiver_at(o, team, t) < receiver_at(o, team, u),
{
    assert(o.tracks[t].wf());
    one_receiver(o.tracks[t], (team.track)(t));
    track_stands(o, team, t, 0);
    tracks_come_in_order(o, team, t + 1, u);
}

/// Where a receiver stands, and what it is.
proof fn receiver_is_there<F, E>(o: OutputScript<F, E>, team: Team<F>, t: int)
    requires
        o.wf(),
        0 <= t < o.tracks.len(),
        o.tracks[t].feed is Packets,
    ensures
        o.supplies.len() <= receiver_at(o, team, t) < all_members(o, team).len(),
        all_members(o, team)[receiver_at(o, team, t)] == track_members(
            o.tracks[t],
            (team.track)(t),
        )[0],
        !(all_members(o, team)[receiver_at(o, team, t)] is Source),
{
    assert(o.tracks[t].wf());
    one_receiver(o.tracks[t], (team.track)(t));
    track_stands(o, team, t, 0);
}

/// A worker that receives packets has received them all once it is at its end.
proof fn receiver_ends_empty<F, E>(
    o: OutputScript<F, E>,
    team: Team<F>,
    shared: Shared<E>,
    order: Seq<int>,
    i: int,
)
    requires
        set_up(o, team, shared),
        whole_crew(o, team, shared).orderly(order),
        0 <= i < all_members(o, team).len(),
        at_end(o, team, shared, order).members[i].over(),
    ensures
        handed_on(all_members(o, team)[i], at_end(o, team, shared, order).members[i]),
        packets_to_come(at_end(o, team, shared, order).members[i]) == 0,
{
    let c = whole_crew(o, team, shared);
    let n = order.len() as int;
    member_follows(c, order, i, n);
    assert(c.members[i].ready());
    member_ends(c.members[i], c.seen(order, i, n), c.shared);
}

/// No more is sent to a track than it is to receive.
proof fn sent_is_no_more<F, E>(
    o: OutputScript<F, E>,
    team: Team<F>,
    c: Crew<F, E>,
    t: int,
)
    requires
        o.wf(),
        in_place(o, team),
        all_true(o, team, c),
        0 <= t < o.tracks.len(),
        o.tracks[t].feed is Packets,
    ensures
        sent_to(o, c, t).len() <= o.tracks[t].feed.len(),
{
    let g = o.tracks[t];
    let s = g.source as int;
    assert(g.wf() && g.fed_by(o.supplies[s]));
    source_stands(o, team, c, s);
    let n = sent_so_far(o, team, c, t);
    shares_begin_alike(o.supplies[s], g.stream, n, o.supplies[s].len());
}

proof fn source_stands<F, E>(o: OutputScript<F, E>, team: Team<F>, c: Crew<F, E>, s: int)
    requires
        all_true(o, team, c),
        0 <= s < o.supplies.len(),
    ensures
        s < c.members.len(),
        all_members(o, team)[s] == source_members(o, team)[s],
        true_to(source_members(o, team)[s], c.members[s]),
        c.members[s] is Source,
        c.members[s]->Source_supply == o.supplies[s],
        source_true(o.supplies[s], c.members[s]->Source_y),
{
    let a = source_members(o, team);
    let b = tracks_members(o, team, o.tracks.len() as int);
    assert(all_members(o, team)[s] == (a + b)[s]);
    assert(true_to(all_members(o, team)[s], c.members[s]));
}

/// A turn of a worker behind the sources keeps the queues flowing, as long as it does not
/// receive what was not sent.
proof fn receiving_flows<F, E>(
    o: OutputScript<F, E>,
    team: Team<F>,
    c: Crew<F, E>,
    i: int,
    t: int,
)
    requires
        o.wf(),
        c.members.len() == all_members(o, team).len(),
        flows(o, team, c),
        !c.members[i].over(),
        0 <= t < o.tracks.len(),
        o.tracks[t].feed is Packets,
        i == receiver_at(o, team, t),
        received(o, team, c, t) < sent_to(o, c, t).len(),
    ensures
        flows(o, team, c.turned(i)),
{
    let d = c.turned(i);
    receiver_is_there(o, team, t);
    turn_receives_at_most_one(c.members[i], c.shared);
    assert forall|u: int| 0 <= u < o.tracks.len() && (#[trigger] o.tracks[u]).feed is Packets implies {
        received(o, team, d, u) <= sent_to(o, d, u).len()
    } by {
        assert(o.tracks[u].wf());
        receiver_is_there(o, team, u);
        assert(received(o, team, c, u) <= sent_to(o, c, u).len());
        if u < t {
            receivers_differ(o, team, u, t);
        } else if u > t {
            receivers_differ(o, team, t, u);
        }
        assert(sent_to(o, d, u) == sent_to(o, c, u));
    }
}

/// A turn of the receiver of a track for which something waits.
proof fn receiver_takes_a_turn<F, E>(
    o: OutputScript<F, E>,
    team: Team<F>,
    shared: Shared<E>,
    order: Seq<int>,
    t: int,
)
    requires
        set_up(o, team, shared),
        steady(o, team, shared, order),
        0 <= t < o.tracks.len(),
        o.tracks[t].feed is Packets,
        received(o, team, at_end(o, team, shared, order), t) < sent_to(
            o,
            at_end(o, team, shared, order),
            t,
        ).len(),
    ensures
        ({
            let c = at_end(o, team, shared, order);
            let i = receiver_at(o, team, t);
            let d = at_end(o, team, shared, order.push(i));
            &&& o.supplies.len() <= i < c.members.len()
            &&& !c.members[i].over()
            &&& steady(o, team, shared, order.push(i))
            &&& d.members == c.members.update(i, d.members[i])
            &&& packets_to_come(d.members[i]) <= packets_to_come(c.members[i]) <= packets_to_come(
                d.members[i],
            ) + 1
            &&& sent_to(o, d, t) == sent_to(o, c, t)
        }),
{
    let c = at_end(o, team, shared, order);
    let i = receiver_at(o, team, t);
    receiver_is_there(o, team, t);
    everybody_is_true(o, team, shared, order, order.len() as int);
    if c.members[i].over() {
        receiver_ends_empty(o, team, shared, order, i);
        sent_is_no_more(o, team, c, t);
    }
    assert(flows(o, team, c));
    receiving_flows(o, team, c, i, t);
    goes_on_with(o, team, shared, order, i);
    turn_receives_at_most_one(c.members[i], c.shared);
    assert(o.tracks[t].wf());
}

/// A track for which something waits receives one more packet.
proof fn receives_one<F, E>(
    o: OutputScript<F, E>,
    team: Team<F>,
    shared: Shared<E>,
    order: Seq<int>,
    t: int,
    n: nat,
) -> (longer: Seq<int>)
    requires
        set_up(o, team, shared),
        steady(o, team, shared, order),
        0 <= t < o.tracks.len(),
        o.tracks[t].feed is Packets,
        received(o, team, at_end(o, team, shared, order), t) < sent_to(
            o,
            at_end(o, team, shared, order),
            t,
        ).len(),
        on_its_own(
            whole_crew(o, team, shared),
            order,
            receiver_at(o, team, t),
            n,
        ).members[receiver_at(o, team, t)].over(),
    ensures
        steady(o, team, shared, longer),
        ({
            let c = at_end(o, team, shared, order);
            let d = at_end(o, team, shared, longer);
            let i = receiver_at(o, team, t);
            &&& o.supplies.len() <= i < c.members.len()
            &&& d.members == c.members.update(i, d.members[i])
            &&& packets_to_come(d.members[i]) + 1 == packets_to_come(c.members[i])
        }),
    decreases n,
{
    let c = at_end(o, team, shared, order);
    let i = receiver_at(o, team, t);
    receiver_takes_a_turn(o, team, shared, order, t);
    assert(n > 0);
    let next = order.push(i);
    let d = at_end(o, team, shared, next);
    if packets_to_come(d.members[i]) < packets_to_come(c.members[i]) {
        next
    } else {
        longer_by(order, i, n);
        let longer = receives_one(o, team, shared, next, t, (n - 1) as nat);
        let e = at_end(o, team, shared, longer);
        assert(e.members =~= c.members.update(i, e.members[i]));
        longer
    }
}

/// Where the queues hold something that no source has in hand, something waits for a
/// track.
proof fn something_waits<F, E>(o: OutputScript<F, E>, team: Team<F>, c: Crew<F, E>) -> (t: int)
    requires
        o.wf(),
        in_place(o, team),
        all_true(o, team, c),
        flows(o, team, c),
        total(c.loads()) > 0,
        forall|s: int| 0 <= s < o.supplies.len() ==> in_hand(#[trigger] c.members[s]) == 0,
    ensures
        0 <= t < o.tracks.len(),
        o.tracks[t].feed is Packets,
        received(o, team, c, t) < sent_to(o, c, t).len(),
{
    let n = o.tracks.len() as int;
    queues_hold_what_waits(o, team, c);
    assert forall|s: int| 0 <= s < o.supplies.len() implies #[trigger] in_hands(o, c)[s] == 0 by {
        assert(in_hand(c.members[s]) == 0);
    }
    nothing_totals(in_hands(o, c));
    if forall|t: int| 0 <= t < n ==> #[trigger] waitings(o, team, c, n)[t] == 0 {
        nothing_totals(waitings(o, team, c, n));
    }
    let t = choose|t: int| 0 <= t < n && #[trigger] waitings(o, team, c, n)[t] != 0;
    nothing_waits(o, team, c, t);
    assert(waiting(o, team, c, t) != 0);
    assert(received(o, team, c, t) <= sent_to(o, c, t).len());
    t
}

/// How far a source worker is from its end, besides what it has still to read.
pub open spec fn source_rank<E>(y: SourceSystem<E>) -> int {
    let n = y.v.routes.len() as int;
    match y.v.phase {
        SourcePhase::Sending { route, .. } => n + 4 + (n - route),
        SourcePhase::Top => n + 3,
        SourcePhase::Polling => n + 2,
        SourcePhase::Reading => n + 1,
        SourcePhase::Eof { route } => n - route,
        _ => 0,
    }
}

/// A source worker that has not to wait gets nearer to its end, with every turn, and
/// takes back nothing that it sent.
proof fn source_gets_nearer<F, E>(supply: Supply<F>, y: SourceSystem<E>, s: Shared<E>)
    requires
        source_true(supply, y),
        !(y.command is Finished),
        !s.abort.cancelled,
        !(y.v.phase is Top && !y.v.frames && s.budget.full()),
    ensures
        ({
            let m = Member::<F, E>::Source { supply, y }.turned(s);
            let q = m->Source_y;
            &&& m is Source
            &&& q.read >= y.read
            &&& q.read == y.read ==> 0 <= source_rank(q) < source_rank(y)
        }),
{
    reveal(Member::turned);
    let n = y.v.routes.len() as int;
    match y.v.phase {
        SourcePhase::Sending { stream, bytes, route } => {
            route_from_range(y.v, stream, route + 1);
            let r = route_from(y.v, stream, route + 1);
            assert(r < n ==> r as usize as int == r);
        },
        SourcePhase::Reading => {
            let stream = if y.v.frames {
                0
            } else {
                supply.item(y.read as int).stream
            };
            route_from_range(y.v, stream, 0);
            let r = route_from(y.v, stream, 0);
            assert(r < n ==> r as usize as int == r);
        },
        _ => {},
    }
}

/// A source worker takes back nothing that it sent.
proof fn source_sends_on<F, E>(supply: Supply<F>, y: SourceSystem<E>, s: Shared<E>, r: int)
    requires
        source_true(supply, y),
        !(y.command is Finished),
        0 <= r < y.sent.len(),
    ensures
        ({
            let q = Member::<F, E>::Source { supply, y }.turned(s)->Source_y;
            q.sent.len() == y.sent.len() && q.sent[r].len() >= y.sent[r].len()
        }),
{
    reveal(Member::turned);
}

/// A turn of a source keeps the queues flowing.
proof fn sending_flows<F, E>(o: OutputScript<F, E>, team: Team<F>, c: Crew<F, E>, s: int)
    requires
        o.wf(),
        in_place(o, team),
        all_true(o, team, c),
        flows(o, team, c),
        0 <= s < o.supplies.len(),
        !c.members[s].over(),
    ensures
        flows(o, team, c.turned(s)),
{
    let d = c.turned(s);
    source_stands(o, team, c, s);
    let y = c.members[s]->Source_y;
    assert forall|u: int| 0 <= u < o.tracks.len() && (#[trigger] o.tracks[u]).feed is Packets implies {
        received(o, team, d, u) <= sent_to(o, d, u).len()
    } by {
        let src = o.tracks[u].source as int;
        assert(o.tracks[u].wf());
        receiver_is_there(o, team, u);
        assert(received(o, team, c, u) <= sent_to(o, c, u).len());
        if src == s {
            let r = routes_of(o, s, u).len() as int;
            route_of_a_track(o, u, o.tracks.len() as int);
            assert(source_in_place(o, s, (team.source)(s)));
            assert(y.v.routes == routes_of(o, s, o.tracks.len() as int));
            source_sends_on(o.supplies[s], y, c.shared, r);
        } else {
            assert(sent_to(o, d, u) == sent_to(o, c, u));
        }
    }
}

/// Whether a source has to wait for room in the queues.
pub open spec fn has_to_wait<F, E>(c: Crew<F, E>, s: int) -> bool {
    let y = c.members[s]->Source_y;
    y.v.phase is Top && !y.v.frames && c.shared.budget.full()
}

/// What each worker has still to receive.
pub open spec fn to_come<F, E>(c: Crew<F, E>) -> Seq<int> {
    Seq::new(c.members.len(), |i: int| packets_to_come(c.members[i]) as int)
}

/// What a source has still to read.
pub open spec fn to_read<F, E>(o: OutputScript<F, E>, c: Crew<F, E>, s: int) -> int {
    o.supplies[s].len() - c.members[s]->Source_y.read
}

/// Nearer to the end of a source: it has less to read, or is nearer to its next read, or
/// the tracks have less to receive.
pub open spec fn is_nearer<F, E>(
    o: OutputScript<F, E>,
    c: Crew<F, E>,
    d: Crew<F, E>,
    s: int,
) -> bool {
    let a = c.members[s]->Source_y;
    let b = d.members[s]->Source_y;
    &&& 0 <= to_read(o, d, s) <= to_read(o, c, s)
    &&& to_read(o, d, s) == to_read(o, c, s) ==> {
        ||| 0 <= source_rank(b) < source_rank(a)
        ||| source_rank(b) == source_rank(a) && 0 <= total(to_come(d)) < total(to_come(c))
    }
}

/// The other sources are left alone.
pub open spec fn others_stay<F, E>(
    o: OutputScript<F, E>,
    c: Crew<F, E>,
    d: Crew<F, E>,
    s: int,
) -> bool {
    &&& d.members.len() == c.members.len()
    &&& forall|x: int|
        0 <= x < o.supplies.len() && x != s ==> #[trigger] d.members[x] == c.members[x]
}

/// A turn of a source that has not to wait.
proof fn source_takes_a_turn<F, E>(
    o: OutputScript<F, E>,
    team: Team<F>,
    shared: Shared<E>,
    order: Seq<int>,
    s: int,
)
    requires
        set_up(o, team, shared),
        steady(o, team, shared, order),
        0 <= s < o.supplies.len(),
        !at_end(o, team, shared, order).members[s].over(),
        !has_to_wait(at_end(o, team, shared, order), s),
    ensures
        steady(o, team, shared, order.push(s)),
        others_stay(o, at_end(o, team, shared, order), at_end(o, team, shared, order.push(s)), s),
        is_nearer(o, at_end(o, team, shared, order), at_end(o, team, shared, order.push(s)), s),
{
    let start = whole_crew(o, team, shared);
    let c = at_end(o, team, shared, order);
    everybody_is_true(o, team, shared, order, order.len() as int);
    source_stands(o, team, c, s);
    assert(flows(o, team, c));
    sending_flows(o, team, c, s);
    goes_on_with(o, team, shared, order, s);
    there_is_room(start, order);
    source_gets_nearer(o.supplies[s], c.members[s]->Source_y, c.shared);
    let longer = order.push(s);
    let d = at_end(o, team, shared, longer);
    everybody_is_true(o, team, shared, longer, longer.len() as int);
    source_stands(o, team, d, s);
    turn_leaves_the_others(o, c, s);
}

proof fn turn_leaves_the_others<F, E>(o: OutputScript<F, E>, c: Crew<F, E>, s: int)
    requires
        0 <= s < o.supplies.len() <= c.members.len(),
    ensures
        others_stay(o, c, c.turned(s), s),
{
}

/// No source but this one has anything in hand.
pub open spec fn others_rest<F, E>(o: OutputScript<F, E>, c: Crew<F, E>, s: int) -> bool {
    forall|x: int| 0 <= x < o.supplies.len() && x != s ==> in_hand(#[trigger] c.members[x]) == 0
}

/// While a source has to wait, a track receives what waits for it.
proof fn queue_is_relieved<F, E>(
    o: OutputScript<F, E>,
    team: Team<F>,
    shared: Shared<E>,
    order: Seq<int>,
    s: int,
) -> (longer: Seq<int>)
    requires
        set_up(o, team, shared),
        steady(o, team, shared, order),
        0 <= s < o.supplies.len(),
        others_rest(o, at_end(o, team, shared, order), s),
        has_to_wait(at_end(o, team, shared, order), s),
    ensures
        steady(o, team, shared, longer),
        others_stay(o, at_end(o, team, shared, order), at_end(o, team, shared, longer), s),
        is_nearer(o, at_end(o, team, shared, order), at_end(o, team, shared, longer), s),
{
    let start = whole_crew(o, team, shared);
    let c = at_end(o, team, shared, order);
    let n = order.len() as int;
    everybody_is_true(o, team, shared, order, n);
    source_stands(o, team, c, s);
    budget_is_covered(o, team, shared, order, n);
    assert(flows(o, team, c));
    assert forall|x: int| 0 <= x < o.supplies.len() implies in_hand(#[trigger] c.members[x]) == 0 by {
        if x == s {
            assert(c.members[s]->Source_y.v.phase is Top);
        }
    }
    let t = something_waits(o, team, c);
    let i = receiver_at(o, team, t);
    receiver_is_there(o, team, t);
    comes_to_its_end_alone(start, order, i);
    let k = choose|k: nat| (#[trigger] on_its_own(start, order, i, k)).members[i].over();
    let longer = receives_one(o, team, shared, order, t, k);
    let d = at_end(o, team, shared, longer);
    let x = packets_to_come(d.members[i]) as int;
    assert(to_come(d) =~= to_come(c).update(i, x));
    total_updated(to_come(c), i, x);
    total_of_naturals(to_come(d));
    receiving_brings_nearer(o, c, d, s, i);
    longer
}

proof fn receiving_brings_nearer<F, E>(
    o: OutputScript<F, E>,
    c: Crew<F, E>,
    d: Crew<F, E>,
    s: int,
    i: int,
)
    requires
        0 <= s < o.supplies.len() <= i < c.members.len(),
        d.members == c.members.update(i, d.members[i]),
        to_read(o, c, s) >= 0,
        0 <= total(to_come(d)) < total(to_come(c)),
    ensures
        others_stay(o, c, d, s),
        is_nearer(o, c, d, s),
{
    assert(d.members[s] == c.members[s]);
}

/// A source goes on, or a track receives what makes it wait.
proof fn source_goes_on<F, E>(
    o: OutputScript<F, E>,
    team: Team<F>,
    shared: Shared<E>,
    order: Seq<int>,
    s: int,
) -> (next: Seq<int>)
    requires
        set_up(o, team, shared),
        steady(o, team, shared, order),
        0 <= s < o.supplies.len(),
        others_rest(o, at_end(o, team, shared, order), s),
        to_read(o, at_end(o, team, shared, order), s) >= 0,
        !at_end(o, team, shared, order).members[s].over(),
    ensures
        steady(o, team, shared, next),
        others_stay(o, at_end(o, team, shared, order), at_end(o, team, shared, next), s),
        is_nearer(o, at_end(o, team, shared, order), at_end(o, team, shared, next), s),
{
    if has_to_wait(at_end(o, team, shared, order), s) {
        queue_is_relieved(o, team, shared, order, s)
    } else {
        source_takes_a_turn(o, team, shared, order, s);
        order.push(s)
    }
}

proof fn others_rest_on<F, E>(o: OutputScript<F, E>, c: Crew<F, E>, d: Crew<F, E>, s: int)
    requires
        others_rest(o, c, s),
        others_stay(o, c, d, s),
    ensures
        others_rest(o, d, s),
{
    assert forall|x: int| 0 <= x < o.supplies.len() && x != s implies in_hand(
        #[trigger] d.members[x],
    ) == 0 by {
        assert(in_hand(c.members[x]) == 0);
    }
}

proof fn others_stay_on<F, E>(
    o: OutputScript<F, E>,
    c: Crew<F, E>,
    d: Crew<F, E>,
    e: Crew<F, E>,
    s: int,
)
    requires
        others_stay(o, c, d, s),
        others_stay(o, d, e, s),
    ensures
        others_stay(o, c, e, s),
{
    assert forall|x: int| 0 <= x < o.supplies.len() && x != s implies #[trigger] e.members[x]
        == c.members[x] by {
        assert(d.members[x] == c.members[x]);
    }
}

/// A source comes to its end, and the tracks receive meanwhile what makes it wait.
proof fn source_comes_through<F, E>(
    o: OutputScript<F, E>,
    team: Team<F>,
    shared: Shared<E>,
    order: Seq<int>,
    s: int,
) -> (longer: Seq<int>)
    requires
        set_up(o, team, shared),
        steady(o, team, shared, order),
        0 <= s < o.supplies.len(),
        others_rest(o, at_end(o, team, shared, order), s),
        to_read(o, at_end(o, team, shared, order), s) >= 0,
    ensures
        steady(o, team, shared, longer),
        at_end(o, team, shared, longer).members[s].over(),
        others_stay(o, at_end(o, team, shared, order), at_end(o, team, shared, longer), s),
    decreases
            to_read(o, at_end(o, team, shared, order), s),
            source_rank(at_end(o, team, shared, order).members[s]->Source_y),
            total(to_come(at_end(o, team, shared, order))),
{
    let c = at_end(o, team, shared, order);
    if c.members[s].over() {
        order
    } else {
        let next = source_goes_on(o, team, shared, order, s);
        let d = at_end(o, team, shared, next);
        others_rest_on(o, c, d, s);
        let longer = source_comes_through(o, team, shared, next, s);
        others_stay_on(o, c, d, at_end(o, team, shared, longer), s);
        longer
    }
}

/// The first `n` sources come to their ends, one after the other.
proof fn sources_come_through<F, E>(
    o: OutputScript<F, E>,
    team: Team<F>,
    shared: Shared<E>,
    n: int,
) -> (order: Seq<int>)
    requires
        set_up(o, team, shared),
        0 <= n <= o.supplies.len(),
    ensures
        steady(o, team, shared, order),
        ({
            let c = at_end(o, team, shared, order);
            &&& c.members.len() == all_members(o, team).len()
            &&& forall|s: int| 0 <= s < n ==> (#[trigger] c.members[s]).over()
            &&& forall|s: int|
                n <= s < o.supplies.len() ==> #[trigger] c.members[s] == all_members(o, team)[s]
        }),
    decreases n,
{
    let start = whole_crew(o, team, shared);
    if n == 0 {
        let order = Seq::<int>::empty();
        nothing_is_received_first(o, team, shared);
        order
    } else {
        let s = n - 1;
        let before = sources_come_through(o, team, shared, s);
        let c = at_end(o, team, shared, before);
        everybody_is_true(o, team, shared, before, before.len() as int);
        source_stands(o, team, c, s);
        assert(others_rest(o, c, s)) by {
            assert forall|x: int| 0 <= x < o.supplies.len() && x != s implies in_hand(
                #[trigger] c.members[x],
            ) == 0 by {
                source_stands(o, team, c, x);
                if x > s {
                    assert(c.members[x] == all_members(o, team)[x]);
                    assert(all_members(o, team)[x].ready());
                }
            }
        }
        let order = source_comes_through(o, team, shared, before, s);
        let d = at_end(o, team, shared, order);
        assert forall|x: int| 0 <= x < n implies (#[trigger] d.members[x]).over() by {
            if x != s {
                assert(d.members[x] == c.members[x]);
            }
        }
        assert forall|x: int| n <= x < o.supplies.len() implies #[trigger] d.members[x]
            == all_members(o, team)[x] by {
            assert(d.members[x] == c.members[x]);
        }
        order
    }
}

/// At first nothing is received.
proof fn nothing_is_received_first<F, E>(o: OutputScript<F, E>, team: Team<F>, shared: Shared<E>)
    requires
        set_up(o, team, shared),
    ensures
        steady(o, team, shared, Seq::empty()),
{
    let c = whole_crew(o, team, shared);
    assert forall|t: int| 0 <= t < o.tracks.len() && (#[trigger] o.tracks[t]).feed is Packets implies {
        received(o, team, c, t) <= sent_to(o, c, t).len()
    } by {
        let g = o.tracks[t];
        assert(g.wf());
        receiver_is_there(o, team, t);
        assert(sizes_of(g.feed->Packets_0).len() == g.feed.len());
        assert(track_members(g, (team.track)(t))[0] == c.members[receiver_at(o, team, t)]);
        first_receives_all(o, team, t);
    }
    assert(c.after(Seq::empty(), 0) == c);
}

/// The receiver of a track has the whole feed to come.
proof fn first_receives_all<F, E>(o: OutputScript<F, E>, team: Team<F>, t: int)
    requires
        o.wf(),
        0 <= t < o.tracks.len(),
        o.tracks[t].feed is Packets,
    ensures
        packets_to_come(track_members(o.tracks[t], (team.track)(t))[0]) == o.tracks[t].feed.len(),
{
    let g = o.tracks[t];
    let w = (team.track)(t);
    assert(g.wf());
    if !g.track.copy {
        assert(track_members(g, w)[0] == first_members(g, w)[0]);
    }
}

/// Once every source is at its end, everything is sent, and nobody can receive more.
proof fn all_is_sent<F, E>(
    o: OutputScript<F, E>,
    team: Team<F>,
    shared: Shared<E>,
    order: Seq<int>,
    d: Crew<F, E>,
)
    requires
        set_up(o, team, shared),
        whole_crew(o, team, shared).orderly(order),
        forall|s: int|
            0 <= s < o.supplies.len() ==> (#[trigger] at_end(o, team, shared, order).members[s]).over(),
        forall|s: int|
            0 <= s < o.supplies.len() ==> #[trigger] d.members[s] == at_end(
                o,
                team,
                shared,
                order,
            ).members[s],
    ensures
        flows(o, team, d),
{
    let c = at_end(o, team, shared, order);
    everybody_is_true(o, team, shared, order, order.len() as int);
    assert forall|t: int| 0 <= t < o.tracks.len() && (#[trigger] o.tracks[t]).feed is Packets implies {
        received(o, team, d, t) <= sent_to(o, d, t).len()
    } by {
        let g = o.tracks[t];
        let s = g.source as int;
        assert(g.wf() && g.fed_by(o.supplies[s]));
        source_stands(o, team, c, s);
        assert(c.members[s].over());
        receiver_ends_empty(o, team, shared, order, s);
        route_of_a_track(o, t, o.tracks.len() as int);
        assert(source_in_place(o, s, (team.source)(s)));
        assert(d.members[s] == c.members[s]);
        assert(sent_to(o, d, t) == sizes_of(g.feed->Packets_0));
    }
}

/// A worker behind the sources comes to its end by itself.
proof fn worker_comes_through<F, E>(
    o: OutputScript<F, E>,
    team: Team<F>,
    shared: Shared<E>,
    order: Seq<int>,
    i: int,
    n: nat,
) -> (longer: Seq<int>)
    requires
        set_up(o, team, shared),
        steady(o, team, shared, order),
        o.supplies.len() <= i < all_members(o, team).len(),
        forall|s: int|
            0 <= s < o.supplies.len() ==> (#[trigger] at_end(o, team, shared, order).members[s]).over(),
        on_its_own(whole_crew(o, team, shared), order, i, n).members[i].over(),
    ensures
        steady(o, team, shared, longer),
        ({
            let c = at_end(o, team, shared, order);
            let d = at_end(o, team, shared, longer);
            &&& d.members.len() == c.members.len()
            &&& d.members[i].over()
            &&& forall|x: int|
                0 <= x < c.members.len() && x != i ==> #[trigger] d.members[x] == c.members[x]
        }),
    decreases n,
{
    let c = at_end(o, team, shared, order);
    if c.members[i].over() {
        order
    } else {
        assert(n > 0);
        there_is_room(whole_crew(o, team, shared), order);
        let d = c.turned(i);
        all_is_sent(o, team, shared, order, d);
        goes_on_with(o, team, shared, order, i);
        longer_by(order, i, n);
        let next = order.push(i);
        assert forall|s: int| 0 <= s < o.supplies.len() implies (#[trigger] at_end(
            o,
            team,
            shared,
            next,
        ).members[s]).over() by {
            assert(c.members[s].over());
        }
        let longer = worker_comes_through(o, team, shared, next, i, (n - 1) as nat);
        let e = at_end(o, team, shared, longer);
        assert forall|x: int| 0 <= x < c.members.len() && x != i implies #[trigger] e.members[x]
            == c.members[x] by {
            assert(d.members[x] == c.members[x]);
        }
        longer
    }
}

/// The first `n` workers come to their ends.
proof fn workers_come_through<F, E>(
    o: OutputScript<F, E>,
    team: Team<F>,
    shared: Shared<E>,
    n: int,
) -> (order: Seq<int>)
    requires
        set_up(o, team, shared),
        o.supplies.len() <= n <= all_members(o, team).len(),
    ensures
        steady(o, team, shared, order),
        at_end(o, team, shared, order).members.len() == all_members(o, team).len(),
        forall|i: int|
            0 <= i < n ==> (#[trigger] at_end(o, team, shared, order).members[i]).over(),
    decreases n,
{
    if n == o.supplies.len() {
        sources_come_through(o, team, shared, n)
    } else {
        let i = n - 1;
        let start = whole_crew(o, team, shared);
        let before = workers_come_through(o, team, shared, i);
        let c = at_end(o, team, shared, before);
        behind_the_sources(o, team, i);
        comes_to_its_end_alone(start, before, i);
        let k = choose|k: nat| (#[trigger] on_its_own(start, before, i, k)).members[i].over();
        let order = worker_comes_through(o, team, shared, before, i, k);
        let d = at_end(o, team, shared, order);
        assert forall|x: int| 0 <= x < n implies (#[trigger] d.members[x]).over() by {
            if x != i {
                assert(d.members[x] == c.members[x]);
            }
        }
        order
    }
}

/// Behind the sources no worker reads a source.
proof fn behind_the_sources<F, E>(o: OutputScript<F, E>, team: Team<F>, i: int)
    requires
        o.wf(),
        o.supplies.len() <= i < all_members(o, team).len(),
    ensures
        !(all_members(o, team)[i] is Source),
{
    let a = source_members(o, team);
    let b = tracks_members(o, team, o.tracks.len() as int);
    let j = i - a.len();
    if j < b.len() {
        assert(all_members(o, team)[i] == b[j]);
        no_source_in_a_track(o, team, o.tracks.len() as int, j);
    }
}

proof fn no_source_in_a_track<F, E>(o: OutputScript<F, E>, team: Team<F>, n: int, j: int)
    requires
        o.wf(),
        0 <= n <= o.tracks.len(),
        0 <= j < tracks_members(o, team, n).len(),
    ensures
        !(tracks_members(o, team, n)[j] is Source),
    decreases n,
{
    let before = tracks_members(o, team, n - 1);
    if n > 0 {
        if j < before.len() {
            no_source_in_a_track(o, team, n - 1, j);
        } else {
            let g = o.tracks[n - 1];
            assert(g.wf());
            one_receiver(g, (team.track)(n - 1));
            assert(tracks_members(o, team, n)[j] == track_members(g, (team.track)(n - 1))[j
                - before.len()]);
        }
    }
}

/// A run on many threads can come to its end: whatever the tracks, the sources and the
/// ceiling on the queues, there is an order of turns after which every worker has come to
/// its end, in which whoever has a turn has something to do, and in which nobody receives
/// what was not sent. Left out are counters at the end of their range.
pub proof fn there_is_an_end<F, E>(o: OutputScript<F, E>, team: Team<F>, shared: Shared<E>)
    requires
        set_up(o, team, shared),
    ensures
        exists|order: Seq<int>| #[trigger]
            whole_crew(o, team, shared).orderly(order) && whole_crew(o, team, shared).after(
                order,
                order.len() as int,
            ).through() && steady(o, team, shared, order),
{
    let order = workers_come_through(o, team, shared, all_members(o, team).len() as int);
    let c = at_end(o, team, shared, order);
    assert forall|i: int| 0 <= i < c.members.len() implies (#[trigger] c.members[i]).through() by {
        assert(c.members[i].over());
    }
    assert(whole_crew(o, team, shared).orderly(order));
}

/// Both ways of running an output come to the same end: on one thread it runs to its end,
/// on many there is an order of turns in which it does, and both return the very same
/// counters and show the sink equally many frames. That every other order after which the
/// workers are done gives these counters too is `one_thread_or_many`.
pub proof fn both_ways_end_alike<F, E>(
    o: OutputScript<F, E>,
    worlds: Seq<World<F>>,
    discard_on_failure: bool,
    team: Team<F>,
    shared: Shared<E>,
    output: OutputView,
    time: u64,
)
    requires
        set_up(o, team, shared),
        shared.counters.snapshot_spec() == ExecutorStats::zero(),
        worlds.len() == o.tracks.len(),
        forall|t: int|
            0 <= t < o.tracks.len() ==> untouched(
                #[trigger] worlds[t],
                o.tracks[t].track.stages.len(),
            ),
        output.phase == (OutputPhase::Running { independent: team.sink is None }),
    ensures
        exists|order: Seq<int>, y: SerialSystem<F, E>|
            {
                let stats = at_end(o, team, shared, order).shared.counters.snapshot_spec();
                &&& #[trigger] steady(o, team, shared, order)
                &&& at_end(o, team, shared, order).through()
                &&& conclusion(output, at_end(o, team, shared, order).shared, time)
                    == OutputCommand::<E>::Finished(stats)
                &&& #[trigger] leads_to(
                    o.turns(),
                    serial_start(o, worlds, discard_on_failure),
                    y,
                )
                &&& y.command == SerialCommand::<E>::Finished(stats)
                &&& total(shown_each(y.worlds)) == stats.frames_written
            },
{
    there_is_an_end(o, team, shared);
    let crew = whole_crew(o, team, shared);
    let order = choose|order: Seq<int>| #[trigger]
        crew.orderly(order) && crew.after(order, order.len() as int).through() && steady(
            o,
            team,
            shared,
            order,
        );
    one_thread_or_many(
        o,
        worlds,
        discard_on_failure,
        team,
        shared,
        order,
        output,
        time,
    );
    let stats = at_end(o, team, shared, order).shared.counters.snapshot_spec();
    let y = choose|y: SerialSystem<F, E>| #[trigger]
        leads_to(o.turns(), serial_start(o, worlds, discard_on_failure), y) && y.pump is None
            && y.command == SerialCommand::<E>::Finished(stats) && total(shown_each(y.worlds))
            == stats.frames_written;
    assert(steady(o, team, shared, order));
}

} // verus!
