//! The queues between the sources and the tracks of an output, at every moment of a run:
//! what each holds, and that none holds less than nothing.

use crate::crew::Member;
use crate::crew_run::Crew;
use crate::source_stage::{route_from, SourceCommand, SourcePhase};
use crate::staged::Shared;
use crate::sums::{
    empty_ways_weigh_nothing, load, load_updated, weight, weight_from_the_front,
};
use crate::whole_source::{
    route_from_range, source_counted, SourceScript, SourceSystem, Supply,
};
use crate::whole_staged::sizes_of;
use vstd::prelude::*;

verus! {

/// A source worker at any moment: each route has been handed just what it takes of what
/// was read, up to the one that is served now; and the queues have got just that, and
/// what is on its way to that route.
pub open spec fn source_true<F, E>(supply: Supply<F>, y: SourceSystem<E>) -> bool {
    &&& y.v.frames == (supply is Frames)
    &&& y.v.routes.len() <= usize::MAX
    &&& !y.v.park_at_eof
    &&& !y.v.ended
    &&& y.read <= supply.len()
    &&& match y.v.phase {
        SourcePhase::Sending { stream, bytes, route } => {
            &&& y.read > 0
            &&& route < y.v.routes.len()
            &&& y.v.frames || y.v.routes[route as int] == stream
            &&& stream == supply.item(y.read - 1).stream
            &&& bytes == supply.item(y.read - 1).bytes
            &&& y.sent == supply.shares(y.v.routes, (y.read - 1) as nat, route as int)
            &&& y.queued == load(y.sent) + bytes
            &&& y.now > 0
            &&& y.command == (SourceCommand::<E>::SendData { route })
        },
        phase => {
            &&& y.sent == supply.shares(y.v.routes, y.read, 0)
            &&& y.queued == load(y.sent)
            &&& match phase {
                SourcePhase::Top => y.command is Park,
                SourcePhase::Polling => y.now > 0 && y.command is PollSeek,
                SourcePhase::Reading => y.now > 0 && (y.command is ReadPacket
                    || y.command is ReadFrame),
                SourcePhase::Eof { route } => y.now > 0 && y.command is SendEof && route
                    < y.v.routes.len(),
                SourcePhase::Finished => y.now > 0 && y.command is Finished,
                _ => false,
            }
        },
    }
}

/// What a source worker sends next, from a route on, leaves it true.
proof fn sending_stays_true<F, E>(
    supply: Supply<F>,
    y: SourceSystem<E>,
    s: Shared<E>,
    q: SourceSystem<E>,
    from: int,
)
    requires
        y.v.frames == (supply is Frames),
        y.v.routes.len() <= usize::MAX,
        !y.v.park_at_eof,
        !y.v.ended,
        0 < q.read <= supply.len(),
        0 <= from <= y.v.routes.len(),
        q.now > 0,
        q.sent == supply.shares(y.v.routes, (q.read - 1) as nat, from),
        ({
            let item = supply.item(q.read - 1);
            let next = y.v.send(s, item.stream, item.bytes, from);
            &&& q.v == next.0
            &&& q.command == next.2
            &&& q.queued == load(q.sent) + (if next.2 is SendData {
                item.bytes as int
            } else {
                0
            })
        }),
    ensures
        source_true(supply, q),
{
    let item = supply.item(q.read - 1);
    let r = route_from(y.v, item.stream, from);
    route_from_range(y.v, item.stream, from);
    if r < y.v.routes.len() {
        assert(r as usize as int == r);
        assert(q.sent =~= supply.shares(y.v.routes, (q.read - 1) as nat, r));
    } else {
        assert(q.sent =~= supply.shares(y.v.routes, q.read, 0));
    }
}

#[verifier::rlimit(40)]
proof fn source_stays_true<F, E>(supply: Supply<F>, y: SourceSystem<E>, s: Shared<E>)
    requires
        source_true(supply, y),
        !(y.command is Finished),
    ensures
        ({
            let m = Member::<F, E>::Source { supply, y }.turned(s);
            m is Source && m->Source_supply == supply && source_true(supply, m->Source_y)
                && m->Source_y.v.routes == y.v.routes
        }),
{
    reveal(Member::turned);
    let q = Member::<F, E>::Source { supply, y }.turned(s)->Source_y;
    match y.v.phase {
        SourcePhase::Sending { stream, bytes, route } => {
            load_updated(y.sent, route as int, bytes);
            assert(q.sent =~= supply.shares(y.v.routes, (y.read - 1) as nat, route + 1));
            sending_stays_true(supply, y, s, q, route + 1);
        },
        SourcePhase::Reading => {
            if y.read < supply.len() {
                let g = SourceScript { supply, shared: |i: nat| s };
                let s1 = source_counted(g, s);
                assert(q.sent == supply.shares(y.v.routes, (q.read - 1) as nat, 0));
                sending_stays_true(supply, y, s1, q, 0);
            }
        },
        _ => {},
    }
}

/// What a worker takes out of the queues, at any moment: just what it received.
pub open spec fn receiver_true(sizes: Seq<u64>, left: Seq<u64>, queued: int) -> bool {
    &&& left.len() <= sizes.len()
    &&& left == sizes.skip(sizes.len() - left.len())
    &&& queued == weight(left) - weight(sizes)
}

/// A worker at any moment after it was at its start in state `m`, as far as the queues
/// between source and workers are concerned.
pub open spec fn true_to<F, E>(m: Member<F, E>, now: Member<F, E>) -> bool {
    match (m, now) {
        (Member::Source { supply, y }, Member::Source { supply: s, y: q }) => s == supply
            && q.v.routes == y.v.routes && source_true(supply, q),
        (Member::Copy { y, .. }, Member::Copy { y: q, .. }) => receiver_true(
            y.inbox,
            q.inbox,
            q.queued,
        ) && (q.command is Receive ==> q.v.phase is Receiving || q.now == 0),
        (Member::Decode { y, .. }, Member::Decode { y: q, .. }) => receiver_true(
            sizes_of(y.inbox),
            sizes_of(q.inbox),
            q.queued,
        ) && (q.command is Receive ==> q.stage.phase is Receiving || q.now == 0),
        (Member::Frame { .. }, Member::Frame { .. }) => true,
        (Member::Encode { .. }, Member::Encode { .. }) => true,
        (Member::Fanout { .. }, Member::Fanout { .. }) => true,
        (Member::Mux { .. }, Member::Mux { .. }) => true,
        _ => false,
    }
}

proof fn receiving_stays_true(sizes: Seq<u64>, left: Seq<u64>, queued: int)
    requires
        receiver_true(sizes, left, queued),
        left.len() > 0,
    ensures
        receiver_true(sizes, left.skip(1), queued - left[0]),
{
    weight_from_the_front(left);
    assert(left.skip(1) =~= sizes.skip(sizes.len() - (left.len() - 1)));
}

proof fn starts_true<F, E>(m: Member<F, E>)
    requires
        m.ready(),
    ensures
        true_to(m, m),
{
    match m {
        Member::Source { supply, y } => {
            assert(y.sent =~= supply.shares(y.v.routes, 0, 0));
            empty_ways_weigh_nothing(y.sent);
        },
        Member::Copy { y, .. } => {
            assert(y.inbox =~= y.inbox.skip(0));
        },
        Member::Decode { y, .. } => {
            assert(sizes_of(y.inbox) =~= sizes_of(y.inbox).skip(0));
        },
        _ => {},
    }
}

proof fn stays_true<F, E>(m: Member<F, E>, now: Member<F, E>, s: Shared<E>)
    requires
        true_to(m, now),
        !now.over(),
    ensures
        true_to(m, now.turned(s)),
{
    reveal(Member::turned);
    match now {
        Member::Source { supply, y } => source_stays_true(supply, y, s),
        Member::Copy { y, .. } => {
            if y.now > 0 && y.command is Receive && y.inbox.len() > 0 {
                receiving_stays_true(m->Copy_y.inbox, y.inbox, y.queued);
            }
        },
        Member::Decode { y, .. } => {
            if y.now > 0 && y.command is Receive && y.inbox.len() > 0 {
                receiving_stays_true(sizes_of(m->Decode_y.inbox), sizes_of(y.inbox), y.queued);
                assert(sizes_of(y.inbox).skip(1) =~= sizes_of(y.inbox.skip(1)));
            }
        },
        _ => {},
    }
}

/// At any moment of a run, every worker is true to its start.
pub proof fn crew_stays_true<F, E>(c: Crew<F, E>, order: Seq<int>, k: int)
    requires
        c.ready(),
        c.orderly(order),
        0 <= k <= order.len(),
    ensures
        c.after(order, k).members.len() == c.members.len(),
        forall|i: int|
            0 <= i < c.members.len() ==> true_to(
                c.members[i],
                #[trigger] c.after(order, k).members[i],
            ),
    decreases k,
{
    if k > 0 {
        crew_stays_true(c, order, k - 1);
        let before = c.after(order, k - 1);
        let i = order[k - 1];
        assert(0 <= i < c.members.len());
        assert(true_to(c.members[i], before.members[i]));
        stays_true(c.members[i], before.members[i], before.shared);
        assert forall|j: int| 0 <= j < c.members.len() implies true_to(
            c.members[j],
            #[trigger] c.after(order, k).members[j],
        ) by {
            assert(true_to(c.members[j], before.members[j]));
        }
    } else {
        assert forall|i: int| 0 <= i < c.members.len() implies true_to(
            c.members[i],
            #[trigger] c.after(order, 0).members[i],
        ) by {
            assert(c.members[i].ready());
            starts_true(c.members[i]);
        }
    }
}

} // verus!
