//! What a run that comes to its end by itself leaves in its queues: nothing.

use crate::crew::Member;
use crate::crew_run::{
    everybody_adds_up, idle_workers_count_nothing, loads_add_up, run_is_in_range, Crew,
};
use crate::output::{OutputReply, OutputView};
use crate::progress::{orderly, queued, QueueEvent};
use crate::queue_flow::{crew_stays_true, receiver_true, true_to};
use crate::reports::{clock_runs, queue_events, reports_of_a_run, state_after};
use crate::source_stage::SourcePhase;
use crate::staged::Shared;
use crate::stats::ExecutorStats;
use crate::sums::{
    load, nothing_totals, total, total_of_naturals, total_updated, totals_join, weight,
};
use crate::whole_run::{
    all_members, first_members, frames_weigh_nothing, in_place, last_members, route_of_a_track,
    routes_of, sink_members, source_in_place, source_members, stage_members,
    stages_follow_the_plan, team_is_due, track_members, tracks_members, Team, TrackWorkers,
};
use crate::whole_serial::{OutputScript, TrackScript};
use crate::whole_source::Supply;
use crate::whole_staged::sizes_of;
use vstd::prelude::*;

verus! {

/// Where the worker stands, among all of an output, that receives what a track's source
/// sends.
pub open spec fn receiver_at<F, E>(o: OutputScript<F, E>, team: Team<F>, t: int) -> int {
    (o.supplies.len() + tracks_members(o, team, t).len()) as int
}

/// The sizes of what has been sent to a track.
pub open spec fn sent_to<F, E>(o: OutputScript<F, E>, c: Crew<F, E>, t: int) -> Seq<u64> {
    let s = o.tracks[t].source as int;
    c.members[s]->Source_y.sent[routes_of(o, s, t).len() as int]
}

/// How many packets a worker has still to receive.
pub open spec fn packets_to_come<F, E>(m: Member<F, E>) -> nat {
    match m {
        Member::Copy { y, .. } => y.inbox.len(),
        Member::Decode { y, .. } => y.inbox.len(),
        _ => 0,
    }
}

/// A queue hands out only what was put into it: no track has received more packets than
/// were sent to it.
pub open spec fn flows<F, E>(o: OutputScript<F, E>, team: Team<F>, c: Crew<F, E>) -> bool {
    forall|t: int|
        0 <= t < o.tracks.len() && (#[trigger] o.tracks[t]).feed is Packets ==> {
            received(o, team, c, t) <= sent_to(o, c, t).len()
        }
}

/// What is in the queues can be counted.
pub open spec fn countable<F, E>(c: Crew<F, E>) -> bool {
    total(c.loads()) <= u64::MAX
}

proof fn more_weighs_more(sizes: Seq<u64>, m: int, n: int)
    requires
        0 <= m <= n <= sizes.len(),
    ensures
        weight(sizes.take(m)) <= weight(sizes.take(n)),
    decreases n - m,
{
    if m < n {
        more_weighs_more(sizes, m, n - 1);
        assert(sizes.take(n).drop_last() =~= sizes.take(n - 1));
    }
}

proof fn weight_splits(sizes: Seq<u64>, n: int)
    requires
        0 <= n <= sizes.len(),
    ensures
        weight(sizes) == weight(sizes.take(n)) + weight(sizes.skip(n)),
    decreases sizes.len() - n,
{
    if n == sizes.len() {
        assert(sizes.take(n) =~= sizes);
        assert(sizes.skip(n) =~= Seq::empty());
    } else {
        weight_splits(sizes.drop_last(), n);
        assert(sizes.drop_last().take(n) =~= sizes.take(n));
        assert(sizes.skip(n).drop_last() =~= sizes.drop_last().skip(n));
    }
}

/// A share of less is the beginning of a share of more.
pub(crate) proof fn shares_begin_alike<F>(supply: Supply<F>, stream: u32, m: nat, n: nat)
    requires
        m <= n,
    ensures
        ({
            let all = supply.share(stream, n);
            let some = supply.share(stream, m);
            some.len() <= all.len() && some == all.take(some.len() as int)
        }),
    decreases n,
{
    let all = supply.share(stream, n);
    let some = supply.share(stream, m);
    if m == n {
        assert(all.take(all.len() as int) =~= all);
    } else {
        shares_begin_alike(supply, stream, m, (n - 1) as nat);
        let before = supply.share(stream, (n - 1) as nat);
        assert(all.take(some.len() as int) =~= before.take(some.len() as int));
    }
}

/// What waits for a track in its queue: what was sent to it and not yet received.
pub open spec fn waiting<F, E>(
    o: OutputScript<F, E>,
    team: Team<F>,
    c: Crew<F, E>,
    t: int,
) -> int {
    weight(sent_to(o, c, t)) + (if o.tracks[t].feed is Packets {
        c.members[receiver_at(o, team, t)].queued()
    } else {
        0
    })
}

/// How many packets a track has received.
pub open spec fn received<F, E>(
    o: OutputScript<F, E>,
    team: Team<F>,
    c: Crew<F, E>,
    t: int,
) -> int {
    o.tracks[t].feed.len() - packets_to_come(c.members[receiver_at(o, team, t)])
}

/// What was sent to a track is the beginning of what its source hands out for it.
pub(crate) proof fn sent_so_far<F, E>(o: OutputScript<F, E>, team: Team<F>, c: Crew<F, E>, t: int) -> (n: nat)
    requires
        o.wf(),
        in_place(o, team),
        0 <= t < o.tracks.len(),
        o.tracks[t].source < c.members.len(),
        true_to(
            source_members(o, team)[o.tracks[t].source as int],
            c.members[o.tracks[t].source as int],
        ),
    ensures
        n <= o.supplies[o.tracks[t].source as int].len(),
        sent_to(o, c, t) == o.supplies[o.tracks[t].source as int].share(o.tracks[t].stream, n),
{
    let g = o.tracks[t];
    let s = g.source as int;
    assert(g.wf() && g.fed_by(o.supplies[s]));
    assert(source_in_place(o, s, (team.source)(s)));
    let y = c.members[s]->Source_y;
    let r = routes_of(o, s, t).len() as int;
    route_of_a_track(o, t, o.tracks.len() as int);
    if y.v.phase is Sending && r >= y.v.phase->Sending_route {
        (y.read - 1) as nat
    } else {
        y.read
    }
}

/// What a track has received weighs no more than what was sent to it, and just as much
/// once it has received all of that.
proof fn track_queue_holds<F, E>(
    o: OutputScript<F, E>,
    team: Team<F>,
    c: Crew<F, E>,
    t: int,
)
    requires
        o.wf(),
        in_place(o, team),
        0 <= t < o.tracks.len(),
        o.tracks[t].feed is Packets,
        o.tracks[t].source < c.members.len(),
        true_to(
            source_members(o, team)[o.tracks[t].source as int],
            c.members[o.tracks[t].source as int],
        ),
        true_to(
            track_members(o.tracks[t], (team.track)(t))[0],
            c.members[receiver_at(o, team, t)],
        ),
    ensures
        0 <= received(o, team, c, t) <= sent_to(o, c, t).len() ==> waiting(o, team, c, t) >= 0,
        received(o, team, c, t) == sent_to(o, c, t).len() ==> waiting(o, team, c, t) == 0,
        received(o, team, c, t) >= 0,
{
    let g = o.tracks[t];
    let s = g.source as int;
    let supply = o.supplies[s];
    let packets = g.feed->Packets_0;
    let sizes = sizes_of(packets);
    assert(g.wf() && g.fed_by(supply));
    let sent = sent_to(o, c, t);
    let n = sent_so_far(o, team, c, t);
    shares_begin_alike(supply, g.stream, n, supply.len());
    assert(sent == sizes.take(sent.len() as int));
    let m = c.members[receiver_at(o, team, t)];
    let left = match m {
        Member::Copy { y, .. } => y.inbox,
        Member::Decode { y, .. } => sizes_of(y.inbox),
        _ => Seq::empty(),
    };
    if g.track.copy {
        assert(m is Copy);
    } else {
        assert(m is Decode);
    }
    assert(receiver_true(sizes, left, m.queued()));
    let taken = sizes.len() - left.len();
    weight_splits(sizes, taken);
    if taken <= sent.len() {
        more_weighs_more(sizes, taken, sent.len() as int);
    }
}

/// Only the first worker of a track receives packets.
pub(crate) proof fn one_receiver<F, E>(g: TrackScript<F, E>, w: TrackWorkers<F>)
    requires
        g.wf(),
    ensures
        g.feed is Packets ==> track_members(g, w).len() > 0,
        forall|j: int|
            0 <= j < track_members(g, w).len() ==> {
                let m = #[trigger] track_members(g, w)[j];
                if j == 0 && g.feed is Packets {
                    m is Copy || m is Decode
                } else {
                    m is Frame || m is Encode || m is Fanout
                }
            },
{
    if !g.track.copy {
        let a = first_members(g, w);
        let b = stage_members(g, w, 0);
        let c = last_members(g, w);
        stages_follow_the_plan(g, w, 0);
        let n = g.track.stages.len() as int;
        let m = a.len() as int;
        assert forall|j: int| 0 <= j < track_members(g, w).len() implies {
            let x = #[trigger] track_members(g, w)[j];
            if j == 0 && g.feed is Packets {
                x is Copy || x is Decode
            } else {
                x is Frame || x is Encode || x is Fanout
            }
        } by {
            if j < m {
                assert(track_members(g, w)[j] == a[j]);
            } else if j < m + n {
                let k = j - m;
                assert(track_members(g, w)[j] == b[k - 0]);
            } else {
                assert(track_members(g, w)[j] == c[j - m - n]);
            }
        }
    }
}

/// The workers of the first tracks come first.
pub(crate) proof fn tracks_come_in_order<F, E>(o: OutputScript<F, E>, team: Team<F>, m: int, n: int)
    requires
        0 <= m <= n,
    ensures
        tracks_members(o, team, m).len() <= tracks_members(o, team, n).len(),
        forall|i: int|
            0 <= i < tracks_members(o, team, m).len() ==> #[trigger] tracks_members(o, team, n)[i]
                == tracks_members(o, team, m)[i],
    decreases n,
{
    if m < n {
        tracks_come_in_order(o, team, m, n - 1);
        let before = tracks_members(o, team, n - 1);
        assert forall|i: int| 0 <= i < tracks_members(o, team, m).len() implies #[trigger] tracks_members(
            o,
            team,
            n,
        )[i] == tracks_members(o, team, m)[i] by {
            assert(tracks_members(o, team, n)[i] == before[i]);
        }
    }
}

/// Where the workers of a track stand among all of an output.
pub(crate) proof fn track_stands<F, E>(o: OutputScript<F, E>, team: Team<F>, t: int, j: int)
    requires
        0 <= t < o.tracks.len(),
        0 <= j < track_members(o.tracks[t], (team.track)(t)).len(),
    ensures
        receiver_at(o, team, t) + j < all_members(o, team).len(),
        receiver_at(o, team, t) + j < receiver_at(o, team, t + 1) <= o.supplies.len()
            + tracks_members(o, team, o.tracks.len() as int).len(),
        all_members(o, team)[receiver_at(o, team, t) + j] == track_members(
            o.tracks[t],
            (team.track)(t),
        )[j],
{
    let n = o.tracks.len() as int;
    tracks_come_in_order(o, team, t + 1, n);
    let i = tracks_members(o, team, t).len() + j;
    assert(tracks_members(o, team, t + 1)[i] == track_members(o.tracks[t], (team.track)(t))[j]);
    assert(tracks_members(o, team, n)[i] == tracks_members(o, team, t + 1)[i]);
    let a = source_members(o, team);
    let b = tracks_members(o, team, n);
    assert(all_members(o, team)[a.len() + i] == (a + b)[a.len() + i]);
}

/// What has been sent to each of the first `n` tracks.
pub open spec fn sent_weights<F, E>(o: OutputScript<F, E>, c: Crew<F, E>, n: int) -> Seq<int> {
    Seq::new(n as nat, |t: int| weight(sent_to(o, c, t)))
}

/// The workers of an output at some moment, each true to its start.
pub open spec fn all_true<F, E>(o: OutputScript<F, E>, team: Team<F>, c: Crew<F, E>) -> bool {
    &&& c.members.len() == all_members(o, team).len()
    &&& forall|i: int|
        0 <= i < c.members.len() ==> true_to(all_members(o, team)[i], #[trigger] c.members[i])
}

/// A worker of a track that receives no packets leaves the packet queues alone.
proof fn others_take_nothing<F, E>(
    o: OutputScript<F, E>,
    team: Team<F>,
    c: Crew<F, E>,
    t: int,
    j: int,
)
    requires
        o.wf(),
        all_true(o, team, c),
        0 <= t < o.tracks.len(),
        0 <= j < track_members(o.tracks[t], (team.track)(t)).len(),
        !(j == 0 && o.tracks[t].feed is Packets),
    ensures
        receiver_at(o, team, t) + j < c.members.len(),
        c.members[receiver_at(o, team, t) + j].queued() == 0,
{
    let g = o.tracks[t];
    let w = (team.track)(t);
    assert(g.wf());
    one_receiver(g, w);
    track_stands(o, team, t, j);
    let m = track_members(g, w)[j];
    assert(m is Frame || m is Encode || m is Fanout);
    assert(true_to(m, c.members[receiver_at(o, team, t) + j]));
}

/// Nothing waits for a track that has received all that was sent to it, and never less
/// than nothing.
pub(crate) proof fn nothing_waits<F, E>(
    o: OutputScript<F, E>,
    team: Team<F>,
    c: Crew<F, E>,
    t: int,
)
    requires
        o.wf(),
        in_place(o, team),
        all_true(o, team, c),
        0 <= t < o.tracks.len(),
    ensures
        flows(o, team, c) ==> waiting(o, team, c, t) >= 0,
        o.tracks[t].feed is Packets && received(o, team, c, t) == sent_to(o, c, t).len()
            ==> waiting(o, team, c, t) == 0,
        o.tracks[t].feed is Frames ==> waiting(o, team, c, t) == 0,
        o.tracks[t].feed is Packets ==> receiver_at(o, team, t) < c.members.len(),
        o.tracks[t].feed is Packets ==> received(o, team, c, t) >= 0,
{
    let g = o.tracks[t];
    let w = (team.track)(t);
    let s = g.source as int;
    assert(g.wf() && g.fed_by(o.supplies[s]));
    one_receiver(g, w);
    let a = source_members(o, team);
    let b = tracks_members(o, team, o.tracks.len() as int);
    assert(all_members(o, team)[s] == (a + b)[s]);
    assert(true_to(a[s], c.members[s]));
    if g.feed is Packets {
        track_stands(o, team, t, 0);
        assert(true_to(track_members(g, w)[0], c.members[receiver_at(o, team, t)]));
        track_queue_holds(o, team, c, t);
        assert(flows(o, team, c) ==> received(o, team, c, t) <= sent_to(o, c, t).len());
    } else {
        let n = sent_so_far(o, team, c, t);
        frames_weigh_nothing(o.supplies[s], g.stream, n);
    }
}

/// What the workers of a track have taken out of the queues, and what waits for it, is
/// what was sent to it.
proof fn track_takes_what_was_sent<F, E>(
    o: OutputScript<F, E>,
    team: Team<F>,
    c: Crew<F, E>,
    t: int,
)
    requires
        o.wf(),
        in_place(o, team),
        all_true(o, team, c),
        0 <= t < o.tracks.len(),
    ensures
        receiver_at(o, team, t) <= receiver_at(o, team, t + 1) <= c.members.len(),
        total(c.loads().subrange(receiver_at(o, team, t), receiver_at(o, team, t + 1))) + weight(
            sent_to(o, c, t),
        ) == waiting(o, team, c, t),
{
    let g = o.tracks[t];
    let w = (team.track)(t);
    let x = receiver_at(o, team, t);
    let z = receiver_at(o, team, t + 1);
    tracks_come_in_order(o, team, t + 1, o.tracks.len() as int);
    assert(z == x + track_members(g, w).len());
    let here = c.loads().subrange(x, z);
    assert forall|j: int| 0 <= j < here.len() && !(j == 0 && g.feed is Packets) implies
        #[trigger] here[j] == 0 by {
        others_take_nothing(o, team, c, t, j);
    }
    if g.feed is Packets {
        assert(g.wf());
        one_receiver(g, w);
        assert(here[0] == c.members[x].queued());
        total_updated(here, 0, 0);
        nothing_totals(here.update(0, 0));
    } else {
        nothing_totals(here);
    }
}

/// What waits for each of the first `n` tracks.
pub open spec fn waitings<F, E>(
    o: OutputScript<F, E>,
    team: Team<F>,
    c: Crew<F, E>,
    n: int,
) -> Seq<int> {
    Seq::new(n as nat, |t: int| waiting(o, team, c, t))
}

/// The same of the first `n` tracks together.
proof fn tracks_take_what_was_sent<F, E>(
    o: OutputScript<F, E>,
    team: Team<F>,
    c: Crew<F, E>,
    n: int,
)
    requires
        o.wf(),
        in_place(o, team),
        all_true(o, team, c),
        0 <= n <= o.tracks.len(),
    ensures
        o.supplies.len() <= receiver_at(o, team, n) <= c.members.len(),
        total(c.loads().subrange(o.supplies.len() as int, receiver_at(o, team, n))) + total(
            sent_weights(o, c, n),
        ) == total(waitings(o, team, c, n)),
    decreases n,
{
    let ns = o.supplies.len() as int;
    let loads = c.loads();
    tracks_come_in_order(o, team, n, o.tracks.len() as int);
    if n == 0 {
        assert(loads.subrange(ns, ns) =~= Seq::empty());
        assert(sent_weights(o, c, 0) =~= Seq::empty());
        assert(waitings(o, team, c, 0) =~= Seq::empty());
    } else {
        let t = n - 1;
        tracks_take_what_was_sent(o, team, c, t);
        track_takes_what_was_sent(o, team, c, t);
        let x = receiver_at(o, team, t);
        let z = receiver_at(o, team, n);
        assert(loads.subrange(ns, z) =~= loads.subrange(ns, x) + loads.subrange(x, z));
        totals_join(loads.subrange(ns, x), loads.subrange(x, z));
        assert(sent_weights(o, c, n).drop_last() =~= sent_weights(o, c, t));
        assert(waitings(o, team, c, n).drop_last() =~= waitings(o, team, c, t));
    }
}

/// What the sources have sent on the routes of the first `n` tracks.
pub open spec fn sent_loads<F, E>(o: OutputScript<F, E>, c: Crew<F, E>, n: int) -> Seq<int> {
    Seq::new(
        o.supplies.len(),
        |s: int| load(c.members[s]->Source_y.sent.take(routes_of(o, s, n).len() as int)),
    )
}

proof fn sources_sent<F, E>(o: OutputScript<F, E>, c: Crew<F, E>, n: int)
    requires
        o.wf(),
        0 <= n <= o.tracks.len(),
        forall|s: int|
            0 <= s < o.supplies.len() ==> (#[trigger] c.members[s])->Source_y.sent.len()
                == routes_of(o, s, o.tracks.len() as int).len(),
    ensures
        total(sent_loads(o, c, n)) == total(sent_weights(o, c, n)),
    decreases n,
{
    if n == 0 {
        assert forall|s: int| 0 <= s < o.supplies.len() implies #[trigger] sent_loads(o, c, 0)[s]
            == 0 by {
            assert(c.members[s]->Source_y.sent.take(0).len() == 0);
        }
        nothing_totals(sent_loads(o, c, 0));
    } else {
        let t = n - 1;
        sources_sent(o, c, t);
        let g = o.tracks[t];
        let src = g.source as int;
        assert(g.wf());
        route_of_a_track(o, t, o.tracks.len() as int);
        let before = sent_loads(o, c, t);
        let x = before[src] + weight(sent_to(o, c, t));
        assert forall|s: int| 0 <= s < o.supplies.len() implies #[trigger] sent_loads(o, c, n)[s]
            == before.update(src, x)[s] by {
            if s == src {
                let sent = c.members[s]->Source_y.sent;
                let r = routes_of(o, s, t).len() as int;
                assert(sent.take(r + 1).drop_last() =~= sent.take(r));
            }
        }
        assert(sent_loads(o, c, n) =~= before.update(src, x));
        total_updated(before, src, x);
        assert(sent_weights(o, c, n).drop_last() =~= sent_weights(o, c, t));
    }
}

/// What a source has put into the queues and is just about to send.
pub open spec fn in_hand<F, E>(m: Member<F, E>) -> int {
    match m {
        Member::Source { y, .. } => match y.v.phase {
            SourcePhase::Sending { bytes, .. } => bytes as int,
            _ => 0,
        },
        _ => 0,
    }
}

/// The same of each source of an output.
pub open spec fn in_hands<F, E>(o: OutputScript<F, E>, c: Crew<F, E>) -> Seq<int> {
    Seq::new(o.supplies.len(), |s: int| in_hand(c.members[s]))
}

/// A source has put into the queues what it has sent, and what it has in hand.
proof fn source_put_what_it_sent<F, E>(
    o: OutputScript<F, E>,
    team: Team<F>,
    c: Crew<F, E>,
    s: int,
)
    requires
        o.wf(),
        in_place(o, team),
        all_true(o, team, c),
        0 <= s < o.supplies.len(),
    ensures
        s < c.members.len(),
        c.members[s]->Source_y.sent.len() == routes_of(o, s, o.tracks.len() as int).len(),
        sent_loads(o, c, o.tracks.len() as int)[s] + in_hand(c.members[s])
            == c.members[s].queued(),
{
    let n = o.tracks.len() as int;
    let a = source_members(o, team);
    let b = tracks_members(o, team, n);
    assert(all_members(o, team)[s] == (a + b)[s]);
    assert(true_to(a[s], c.members[s]));
    assert(source_in_place(o, s, (team.source)(s)));
    let y = c.members[s]->Source_y;
    assert(y.sent.take(routes_of(o, s, n).len() as int) =~= y.sent);
}

proof fn totals_add_up(a: Seq<int>, b: Seq<int>, c: Seq<int>)
    requires
        a.len() == b.len() == c.len(),
        forall|i: int| 0 <= i < a.len() ==> a[i] + b[i] == #[trigger] c[i],
    ensures
        total(a) + total(b) == total(c),
    decreases a.len(),
{
    if a.len() > 0 {
        totals_add_up(a.drop_last(), b.drop_last(), c.drop_last());
        assert(a.last() + b.last() == c.last());
    }
}

/// The sources have put into the queues what they have sent, and what they have in hand.
proof fn sources_put_what_they_sent<F, E>(o: OutputScript<F, E>, team: Team<F>, c: Crew<F, E>)
    requires
        o.wf(),
        in_place(o, team),
        all_true(o, team, c),
    ensures
        o.supplies.len() <= c.members.len(),
        total(c.loads().take(o.supplies.len() as int)) == total(
            sent_weights(o, c, o.tracks.len() as int),
        ) + total(in_hands(o, c)),
{
    let ns = o.supplies.len() as int;
    let n = o.tracks.len() as int;
    assert(all_members(o, team).len() >= ns);
    let put = c.loads().take(ns);
    assert forall|s: int| 0 <= s < ns implies (#[trigger] c.members[s])->Source_y.sent.len()
        == routes_of(o, s, n).len() by {
        source_put_what_it_sent(o, team, c, s);
    }
    assert forall|s: int| 0 <= s < ns implies sent_loads(o, c, n)[s] + in_hands(o, c)[s]
        == #[trigger] put[s] by {
        source_put_what_it_sent(o, team, c, s);
    }
    sources_sent(o, c, n);
    totals_add_up(sent_loads(o, c, n), in_hands(o, c), put);
}

/// The loop that feeds the sink leaves the packet queues alone.
proof fn sink_takes_nothing<F, E>(o: OutputScript<F, E>, team: Team<F>, c: Crew<F, E>)
    requires
        all_true(o, team, c),
    ensures
        receiver_at(o, team, o.tracks.len() as int) <= c.members.len(),
        total(c.loads().skip(receiver_at(o, team, o.tracks.len() as int))) == 0,
{
    let n = o.tracks.len() as int;
    let x = receiver_at(o, team, n);
    let a = source_members(o, team);
    let b = tracks_members(o, team, n);
    let d = sink_members::<F, E>(team);
    let rest = c.loads().skip(x);
    assert forall|i: int| 0 <= i < rest.len() implies #[trigger] rest[i] == 0 by {
        assert(all_members(o, team)[x + i] == ((a + b) + d)[x + i]);
        assert(true_to(d[i], c.members[x + i]));
    }
    nothing_totals(rest);
}

/// At every moment of a run, the queues hold what waits for the tracks, and what the
/// sources have in hand.
pub proof fn queues_hold_what_waits<F, E>(o: OutputScript<F, E>, team: Team<F>, c: Crew<F, E>)
    requires
        o.wf(),
        in_place(o, team),
        all_true(o, team, c),
    ensures
        total(c.loads()) == total(waitings(o, team, c, o.tracks.len() as int)) + total(
            in_hands(o, c),
        ),
{
    let ns = o.supplies.len() as int;
    let n = o.tracks.len() as int;
    let loads = c.loads();
    let x = receiver_at(o, team, n);
    tracks_take_what_was_sent(o, team, c, n);
    sources_put_what_they_sent(o, team, c);
    sink_takes_nothing(o, team, c);
    assert(loads =~= loads.take(ns) + loads.subrange(ns, x) + loads.skip(x));
    totals_join(loads.take(ns), loads.subrange(ns, x));
    totals_join(loads.take(ns) + loads.subrange(ns, x), loads.skip(x));
}

/// At no moment of a run is there less than nothing in the queues.
pub(crate) proof fn queues_never_owe<F, E>(o: OutputScript<F, E>, team: Team<F>, c: Crew<F, E>)
    requires
        o.wf(),
        in_place(o, team),
        all_true(o, team, c),
        flows(o, team, c),
    ensures
        total(c.loads()) >= 0,
{
    let n = o.tracks.len() as int;
    queues_hold_what_waits(o, team, c);
    assert forall|t: int| 0 <= t < n implies #[trigger] waitings(o, team, c, n)[t] >= 0 by {
        nothing_waits(o, team, c, t);
    }
    total_of_naturals(waitings(o, team, c, n));
    total_of_naturals(in_hands(o, c));
}

proof fn one_more_event(events: Seq<QueueEvent>, e: QueueEvent)
    requires
        orderly(events),
        0 <= queued(events.push(e)) <= u64::MAX,
    ensures
        orderly(events.push(e)),
{
    let all = events.push(e);
    assert forall|k: int| 0 <= k <= all.len() implies 0 <= #[trigger] queued(all.take(k))
        <= u64::MAX by {
        if k <= events.len() {
            assert(all.take(k) =~= events.take(k));
            assert(0 <= queued(events.take(k)) <= u64::MAX);
        } else {
            assert(all.take(k) =~= all);
        }
    }
}

/// The queues of a run are in order: nothing leaves them that has not entered.
proof fn run_is_orderly<F, E>(
    o: OutputScript<F, E>,
    team: Team<F>,
    shared: Shared<E>,
    order: Seq<int>,
    k: int,
)
    requires
        o.wf(),
        in_place(o, team),
        (Crew { members: all_members(o, team), shared }).ready(),
        (Crew { members: all_members(o, team), shared }).orderly(order),
        0 <= k <= order.len(),
        forall|j: int|
            0 <= j <= order.len() ==> {
                let c = #[trigger] (Crew { members: all_members(o, team), shared }).after(order, j);
                flows(o, team, c) && countable(c)
            },
    ensures
        orderly(
            queue_events(
                shared,
                (Crew { members: all_members(o, team), shared }).trace(order),
                k,
            ),
        ),
    decreases k,
{
    let start = Crew { members: all_members(o, team), shared };
    let trace = start.trace(order);
    let events = queue_events(shared, trace, k);
    let c = start.after(order, k);
    assert(flows(o, team, c) && countable(c));
    crew_stays_true(start, order, k);
    assert(all_true(o, team, c));
    queues_never_owe(o, team, c);
    loads_add_up(start, order, k);
    idle_workers_count_nothing(start);
    assert(0 <= queued(events) <= u64::MAX);
    if k > 0 {
        run_is_orderly(o, team, shared, order, k - 1);
        let rest = queue_events(shared, trace, k - 1);
        match trace[k - 1].queue_event(state_after(shared, trace, k - 1)) {
            Some(e) => one_more_event(rest, e),
            None => {},
        }
    } else {
        assert forall|j: int| 0 <= j <= events.len() implies 0 <= #[trigger] queued(
            events.take(j),
        ) <= u64::MAX by {
            assert(events.take(j) =~= events);
        }
    }
}

/// A natural end empties the queues between sources and workers: once each worker has
/// come to its end, or is telling it, with nobody stopped, everything that entered the
/// queues has left them, and the last progress report sees no byte in them. Of the queues
/// it takes only that they hand out no more than was put into them, and that the bytes in
/// them can be counted. Left out are counters at the end of their range.
pub proof fn natural_end_empties_the_queues<F, E>(
    o: OutputScript<F, E>,
    team: Team<F>,
    shared: Shared<E>,
    order: Seq<int>,
    output: OutputView,
    done: Shared<E>,
    time: u64,
)
    requires
        o.wf(),
        in_place(o, team),
        shared.counters.snapshot_spec() == ExecutorStats::zero(),
        !shared.abort.cancelled,
        shared.abort.first is None,
        shared.budget.in_flight == 0,
        (Crew { members: all_members(o, team), shared }).orderly(order),
        (Crew { members: all_members(o, team), shared }).after(order, order.len() as int).through(),
        forall|j: int|
            0 <= j <= order.len() ==> {
                let c = #[trigger] (Crew { members: all_members(o, team), shared }).after(order, j);
                flows(o, team, c) && countable(c)
            },
        clock_runs((Crew { members: all_members(o, team), shared }).trace(order), time),
        output.phase is Finishing,
        output.reports,
        done.counters == (Crew { members: all_members(o, team), shared }).after(
            order,
            order.len() as int,
        ).shared.counters,
        done.budget == (Crew { members: all_members(o, team), shared }).after(
            order,
            order.len() as int,
        ).shared.budget,
    ensures
        ({
            let crew = Crew { members: all_members(o, team), shared };
            let events = queue_events(shared, crew.trace(order), order.len() as int);
            let last = output.step(done, OutputReply::Done, time).2;
            &&& orderly(events)
            &&& queued(events) == 0
            &&& last is ReportEnd
            &&& last->ReportEnd_0.eof
            &&& last->ReportEnd_0.queue_bytes == 0
        }),
{
    let crew = Crew { members: all_members(o, team), shared };
    team_is_due(o, team);
    assert(crew.ready());
    everybody_adds_up(crew, order);
    run_is_in_range(crew, order);
    run_is_orderly(o, team, shared, order, order.len() as int);
    reports_of_a_run(shared, crew.trace(order), output, done, time);
}

} // verus!
