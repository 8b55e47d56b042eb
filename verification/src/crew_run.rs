//! A whole run of the workers of an output: what they leave behind is what each of
//! them adds, in whatever order they take turns.

use crate::crew::{after_seeing, calm, handed_on, member_ends, took_turns, Member};
use crate::progress::queued;
use crate::reports::{
    crossing, exchange_moves_on, in_range, queue_events, state_after,
    Exchange,
};
use crate::scripted::Tally;
use crate::staged::Shared;
use crate::sums::{nothing_sums_up, nothing_totals, sum, sum_updated, total, total_updated};
use crate::whole_staged::gain;
use vstd::prelude::*;

verus! {

/// The workers of an output, and what they share.
#[verifier::reject_recursive_types(F)]
#[verifier::reject_recursive_types(E)]
pub struct Crew<F, E> {
    pub members: Seq<Member<F, E>>,
    pub shared: Shared<E>,
}

impl<F, E> Crew<F, E> {
    /// One of them takes a turn.
    pub open spec fn turned(self, i: int) -> Crew<F, E> {
        let m = self.members[i];
        Crew {
            members: self.members.update(i, m.turned(self.shared)),
            shared: m.exchange().after(self.shared),
        }
    }

    /// After the first `k` turns, taken in this order.
    pub open spec fn after(self, order: Seq<int>, k: int) -> Crew<F, E>
        decreases k,
    {
        if k <= 0 {
            self
        } else {
            self.after(order, k - 1).turned(order[k - 1])
        }
    }

    /// The exchanges of a run.
    pub open spec fn trace(self, order: Seq<int>) -> Seq<Exchange<F, E>> {
        Seq::new(order.len(), |k: int| self.after(order, k).members[order[k]].exchange())
    }

    /// What one of them sees in the first `k` turns.
    pub open spec fn seen(self, order: Seq<int>, i: int, k: int) -> Seq<Shared<E>>
        decreases k,
    {
        if k <= 0 {
            Seq::empty()
        } else if order[k - 1] == i {
            self.seen(order, i, k - 1).push(self.after(order, k - 1).shared)
        } else {
            self.seen(order, i, k - 1)
        }
    }

    /// What each of them has added to the counters.
    pub open spec fn tallies(self) -> Seq<Tally> {
        Seq::new(self.members.len(), |i: int| self.members[i].tally())
    }

    /// What each of them has put into the queues, less what it took out of them.
    pub open spec fn loads(self) -> Seq<int> {
        Seq::new(self.members.len(), |i: int| self.members[i].queued())
    }

    /// Nobody has started, nobody has been stopped, and there is room in the queues.
    pub open spec fn ready(self) -> bool {
        &&& forall|i: int| 0 <= i < self.members.len() ==> (#[trigger] self.members[i]).ready()
        &&& !self.shared.abort.cancelled
        &&& self.shared.abort.first is None
        &&& self.shared.counters.snapshot_spec().has_room(1)
        &&& !self.shared.budget.full()
    }

    /// Whoever has a turn has something to do, and no counter is at the end of its
    /// range before it.
    pub open spec fn orderly(self, order: Seq<int>) -> bool {
        forall|k: int|
            0 <= k < order.len() ==> {
                &&& 0 <= #[trigger] order[k] < self.members.len()
                &&& !self.after(order, k).members[order[k]].over()
                &&& self.after(order, k).shared.counters.snapshot_spec().has_room(1)
            }
    }

    /// Everybody has come to the end, or is telling it.
    pub open spec fn through(self) -> bool {
        forall|i: int| 0 <= i < self.members.len() ==> (#[trigger] self.members[i]).through()
    }
}

/// A worker is where its calls put it: whoever reads a source answers for what it hands
/// on.
pub open spec fn sound<F, E>(m: Member<F, E>) -> bool {
    match m {
        Member::Source { y, .. } => {
            &&& y.now == 0 ==> y.v.phase is Top
            &&& y.v.phase is Sending ==> y.command is SendData
            &&& y.v.phase is Barrier ==> y.command is SendBarrier
            &&& y.v.phase is Ending ==> y.command is SendStreamEnd
        },
        _ => true,
    }
}

#[verifier::rlimit(40)]
proof fn source_stays_sound<F, E>(m: Member<F, E>, s: Shared<E>)
    requires
        m is Source,
        sound(m),
        !m.over(),
    ensures
        sound(m.turned(s)),
        m.exchange().after(s).abort == s.abort,
        m.turned(s).tally() == m.tally().plus(gain(s, m.exchange().after(s))),
        m.turned(s).queued() == m.queued() + crossing(m.exchange().queue_event(s)),
{
    reveal(Member::turned);
    reveal(Member::exchange);
}

/// A turn adds to the worker's tally what its exchange adds to the counters, and to its
/// load what the exchange adds to the queues; and nobody is stopped by it.
pub open spec fn turn_agrees<F, E>(m: Member<F, E>, s: Shared<E>) -> bool {
    &&& m.exchange().after(s).abort == s.abort
    &&& m.turned(s).tally() == m.tally().plus(gain(s, m.exchange().after(s)))
    &&& m.turned(s).queued() == m.queued() + crossing(m.exchange().queue_event(s))
}

proof fn copy_turn_is_an_exchange<F, E>(m: Member<F, E>, s: Shared<E>)
    requires
        m is Copy,
        !m.over(),
    ensures
        turn_agrees(m, s),
        m.turned(s) is Copy,
{
    reveal(Member::turned);
    reveal(Member::exchange);
}

proof fn decode_turn_is_an_exchange<F, E>(m: Member<F, E>, s: Shared<E>)
    requires
        m is Decode,
        !m.over(),
    ensures
        turn_agrees(m, s),
        m.turned(s) is Decode,
{
    reveal(Member::turned);
    reveal(Member::exchange);
}

proof fn frame_turn_is_an_exchange<F, E>(m: Member<F, E>, s: Shared<E>)
    requires
        m is Frame,
        !m.over(),
    ensures
        turn_agrees(m, s),
        m.turned(s) is Frame,
{
    reveal(Member::turned);
    reveal(Member::exchange);
}

proof fn encode_turn_is_an_exchange<F, E>(m: Member<F, E>, s: Shared<E>)
    requires
        m is Encode,
        !m.over(),
    ensures
        turn_agrees(m, s),
        m.turned(s) is Encode,
{
    reveal(Member::turned);
    reveal(Member::exchange);
}

proof fn fanout_turn_is_an_exchange<F, E>(m: Member<F, E>, s: Shared<E>)
    requires
        m is Fanout,
        !m.over(),
    ensures
        turn_agrees(m, s),
        m.turned(s) is Fanout,
{
    reveal(Member::turned);
    reveal(Member::exchange);
}

proof fn mux_turn_is_an_exchange<F, E>(m: Member<F, E>, s: Shared<E>)
    requires
        m is Mux,
        !m.over(),
    ensures
        turn_agrees(m, s),
        m.turned(s) is Mux,
{
    reveal(Member::turned);
    reveal(Member::exchange);
}

/// A turn is an exchange: it adds to the worker's tally what the exchange adds to the
/// counters, and to its load what the exchange adds to the queues; and nobody is
/// stopped by it.
proof fn turn_is_an_exchange<F, E>(m: Member<F, E>, s: Shared<E>)
    requires
        sound(m),
        !m.over(),
    ensures
        sound(m.turned(s)),
        m.exchange().after(s).abort == s.abort,
        m.turned(s).tally() == m.tally().plus(gain(s, m.exchange().after(s))),
        m.turned(s).queued() == m.queued() + crossing(m.exchange().queue_event(s)),
{
    if m is Source {
        source_stays_sound(m, s);
    } else {
        match m {
            Member::Copy { .. } => copy_turn_is_an_exchange(m, s),
            Member::Decode { .. } => decode_turn_is_an_exchange(m, s),
            Member::Frame { .. } => frame_turn_is_an_exchange(m, s),
            Member::Encode { .. } => encode_turn_is_an_exchange(m, s),
            Member::Fanout { .. } => fanout_turn_is_an_exchange(m, s),
            _ => mux_turn_is_an_exchange(m, s),
        }
    }
}

/// A worker that is telling its end has no more to say: whatever it sees then, also
/// where everybody has been stopped meanwhile, it ends, and leaves everything as it is.
pub proof fn last_word_changes_nothing<F, E>(m: Member<F, E>, s: Shared<E>)
    requires
        m.telling(),
        m.now() > 0,
    ensures
        m.turned(s).over(),
        m.exchange().after(s) == s,
        m.turned(s).tally() == m.tally(),
        m.turned(s).queued() == m.queued(),
{
    reveal(Member::turned);
    reveal(Member::exchange);
    assert(m.turned(s).tally() =~= m.tally());
}

pub(crate) proof fn crew_stays_sound<F, E>(c: Crew<F, E>, order: Seq<int>, k: int)
    requires
        c.ready(),
        c.orderly(order),
        0 <= k <= order.len(),
    ensures
        c.after(order, k).members.len() == c.members.len(),
        c.after(order, k).shared.abort == c.shared.abort,
        forall|i: int|
            0 <= i < c.members.len() ==> sound(#[trigger] c.after(order, k).members[i]),
    decreases k,
{
    if k > 0 {
        crew_stays_sound(c, order, k - 1);
        let before = c.after(order, k - 1);
        let i = order[k - 1];
        assert(0 <= i < c.members.len());
        assert(sound(before.members[i]));
        turn_is_an_exchange(before.members[i], before.shared);
        assert forall|j: int| 0 <= j < c.members.len() implies sound(
            #[trigger] c.after(order, k).members[j],
        ) by {
            assert(sound(before.members[j]));
        }
    } else {
        assert forall|i: int| 0 <= i < c.members.len() implies sound(
            #[trigger] c.after(order, 0).members[i],
        ) by {
            assert(c.members[i].ready());
        }
    }
}

/// The workers share what their exchanges leave behind.
proof fn states_follow<F, E>(c: Crew<F, E>, order: Seq<int>, k: int)
    requires
        0 <= k <= order.len(),
    ensures
        state_after(c.shared, c.trace(order), k) == c.after(order, k).shared,
    decreases k,
{
    if k > 0 {
        states_follow(c, order, k - 1);
    }
}

/// No counter of a run is at the end of its range.
pub proof fn run_is_in_range<F, E>(c: Crew<F, E>, order: Seq<int>)
    requires
        c.orderly(order),
    ensures
        in_range(c.shared, c.trace(order)),
        state_after(c.shared, c.trace(order), order.len() as int) == c.after(
            order,
            order.len() as int,
        ).shared,
{
    let trace = c.trace(order);
    assert forall|k: int| 0 <= k < trace.len() implies (#[trigger] state_after(
        c.shared,
        trace,
        k,
    )).counters.snapshot_spec().has_room(1) by {
        states_follow(c, order, k);
        assert(0 <= order[k] < c.members.len());
    }
    states_follow(c, order, order.len() as int);
}

/// What a worker has become is what it made of what it saw.
pub(crate) proof fn member_follows<F, E>(c: Crew<F, E>, order: Seq<int>, i: int, k: int)
    requires
        c.ready(),
        c.orderly(order),
        0 <= k <= order.len(),
        0 <= i < c.members.len(),
    ensures
        c.after(order, k).members[i] == after_seeing(c.members[i], c.seen(order, i, k)),
        took_turns(c.members[i], c.seen(order, i, k)),
        forall|j: int|
            0 <= j < c.seen(order, i, k).len() ==> calm(#[trigger] c.seen(order, i, k)[j]),
    decreases k,
{
    if k > 0 {
        member_follows(c, order, i, k - 1);
        crew_stays_sound(c, order, k - 1);
        let before = c.after(order, k - 1);
        let seen = c.seen(order, i, k - 1);
        assert(0 <= order[k - 1] < c.members.len());
        if order[k - 1] == i {
            let all = seen.push(before.shared);
            assert(all.drop_last() =~= seen);
            assert forall|j: int| 0 <= j < all.len() implies !(#[trigger] after_seeing(
                c.members[i],
                all.take(j),
            )).over() by {
                if j < seen.len() {
                    assert(all.take(j) =~= seen.take(j));
                    assert(!after_seeing(c.members[i], seen.take(j)).over());
                } else {
                    assert(all.take(j) =~= seen);
                }
            }
            assert(calm(before.shared));
        }
    }
}

/// What one turn adds.
pub(crate) proof fn turn_adds<F, E>(c: Crew<F, E>, i: int)
    requires
        0 <= i < c.members.len(),
        sound(c.members[i]),
        !c.members[i].over(),
    ensures
        sum(c.turned(i).tallies()) == sum(c.tallies()).plus(gain(c.shared, c.turned(i).shared)),
        total(c.turned(i).loads()) == total(c.loads()) + crossing(
            c.members[i].exchange().queue_event(c.shared),
        ),
{
    let m = c.members[i];
    turn_is_an_exchange(m, c.shared);
    let after = c.turned(i);
    let g = gain(c.shared, after.shared);
    let t = m.tally().plus(g);
    let x = m.queued() + crossing(m.exchange().queue_event(c.shared));
    assert(after.tallies() =~= c.tallies().update(i, t));
    assert(after.loads() =~= c.loads().update(i, x));
    sum_updated(c.tallies(), i, t);
    total_updated(c.loads(), i, x);
    more_by_one(sum(after.tallies()), sum(c.tallies()), m.tally(), g);
}

proof fn more_by_one(a: Tally, b: Tally, t: Tally, g: Tally)
    requires
        a.plus(t) == b.plus(t.plus(g)),
    ensures
        a == b.plus(g),
{
    assert(a =~= b.plus(g));
}

/// The counters are what the workers have added.
pub open spec fn counted_so_far<E>(start: Shared<E>, t: Tally, now: Shared<E>) -> bool {
    let s = start.counters.snapshot_spec();
    t.fits(s) && now.counters.snapshot_spec() == t.added(s)
}

proof fn more_is_counted<E>(start: Shared<E>, t: Tally, a: Shared<E>, b: Shared<E>)
    requires
        counted_so_far(start, t, a),
        a.counters.snapshot_spec().at_most(b.counters.snapshot_spec()),
    ensures
        counted_so_far(start, t.plus(gain(a, b)), b),
{
}

pub(crate) proof fn tallies_add_up<F, E>(c: Crew<F, E>, order: Seq<int>, k: int)
    requires
        c.ready(),
        c.orderly(order),
        sum(c.tallies()) == Tally::none(),
        0 <= k <= order.len(),
    ensures
        counted_so_far(c.shared, sum(c.after(order, k).tallies()), c.after(order, k).shared),
    decreases k,
{
    if k > 0 {
        tallies_add_up(c, order, k - 1);
        crew_stays_sound(c, order, k - 1);
        let before = c.after(order, k - 1);
        let i = order[k - 1];
        assert(0 <= i < c.members.len());
        assert(sound(before.members[i]));
        exchange_moves_on(before.members[i].exchange(), before.shared);
        turn_adds(before, i);
        more_is_counted(
            c.shared,
            sum(before.tallies()),
            before.shared,
            c.after(order, k).shared,
        );
    }
}

/// What is in the queues is what the workers have put there.
pub(crate) proof fn loads_add_up<F, E>(c: Crew<F, E>, order: Seq<int>, k: int)
    requires
        c.ready(),
        c.orderly(order),
        0 <= k <= order.len(),
    ensures
        total(c.after(order, k).loads()) == total(c.loads()) + queued(
            queue_events(c.shared, c.trace(order), k),
        ),
    decreases k,
{
    if k > 0 {
        loads_add_up(c, order, k - 1);
        crew_stays_sound(c, order, k - 1);
        states_follow(c, order, k - 1);
        let before = c.after(order, k - 1);
        let i = order[k - 1];
        assert(0 <= i < c.members.len());
        let m = before.members[i];
        assert(sound(m));
        turn_adds(before, i);
        let event = m.exchange().queue_event(before.shared);
        let rest = queue_events(c.shared, c.trace(order), k - 1);
        assert(c.trace(order)[k - 1] == m.exchange());
        match event {
            Some(e) => {
                assert(rest.push(e).drop_last() =~= rest);
            },
            None => {},
        }
    }
}

/// What each of some workers adds to the counters in all.
pub open spec fn dues<F, E>(members: Seq<Member<F, E>>) -> Seq<Tally> {
    Seq::new(members.len(), |i: int| members[i].due())
}

/// What each of some workers puts into the queues in all, less what it takes out.
pub open spec fn burdens<F, E>(members: Seq<Member<F, E>>) -> Seq<int> {
    Seq::new(members.len(), |i: int| members[i].burden())
}

pub(crate) proof fn idle_workers_count_nothing<F, E>(c: Crew<F, E>)
    requires
        c.ready(),
    ensures
        sum(c.tallies()) == Tally::none(),
        total(c.loads()) == 0,
{
    assert forall|i: int| 0 <= i < c.members.len() implies #[trigger] c.tallies()[i]
        == Tally::none() by {
        assert(c.members[i].ready());
    }
    nothing_sums_up(c.tallies());
    assert forall|i: int| 0 <= i < c.members.len() implies #[trigger] c.loads()[i] == 0 by {
        assert(c.members[i].ready());
    }
    nothing_totals(c.loads());
}

proof fn ends_as_it_should<F, E>(c: Crew<F, E>, order: Seq<int>, i: int)
    requires
        c.ready(),
        c.orderly(order),
        c.after(order, order.len() as int).through(),
        0 <= i < c.members.len(),
    ensures
        ({
            let end = c.after(order, order.len() as int).members[i];
            end.tally() == c.members[i].due() && end.queued() == c.members[i].burden()
                && handed_on(c.members[i], end)
        }),
{
    let n = order.len() as int;
    crew_stays_sound(c, order, n);
    member_follows(c, order, i, n);
    assert(c.members[i].ready());
    assert(c.after(order, n).members[i].through());
    member_ends(c.members[i], c.seen(order, i, n), c.shared);
}

/// In whatever order the workers of an output take turns, however long a source waits
/// for room in the queues, and however often the sink's loop finds nothing: once each of
/// them has come to its end, or is telling it, each has handed on all that it should, the
/// counters hold what each of them adds
/// by itself, nothing lost and nothing twice; the queues hold what they put there and
/// did not take out; and nobody has been stopped. Left out are counters at the end of
/// their range.
pub proof fn everybody_adds_up<F, E>(c: Crew<F, E>, order: Seq<int>)
    requires
        c.ready(),
        c.orderly(order),
        c.after(order, order.len() as int).through(),
    ensures
        ({
            let end = c.after(order, order.len() as int);
            let s = c.shared.counters.snapshot_spec();
            &&& sum(dues(c.members)).fits(s)
            &&& end.shared.counters.snapshot_spec() == sum(dues(c.members)).added(s)
            &&& queued(queue_events(c.shared, c.trace(order), order.len() as int)) == total(
                burdens(c.members),
            )
            &&& end.shared.abort == c.shared.abort
            &&& end.members.len() == c.members.len()
            &&& forall|i: int|
                0 <= i < c.members.len() ==> handed_on(c.members[i], #[trigger] end.members[i])
        }),
{
    let n = order.len() as int;
    let end = c.after(order, n);
    idle_workers_count_nothing(c);
    tallies_add_up(c, order, n);
    loads_add_up(c, order, n);
    crew_stays_sound(c, order, n);
    assert forall|i: int| 0 <= i < c.members.len() implies (#[trigger] end.members[i]).tally()
        == c.members[i].due() && end.members[i].queued() == c.members[i].burden() && handed_on(
        c.members[i],
        end.members[i],
    ) by {
        ends_as_it_should(c, order, i);
    }
    assert(end.tallies() =~= dues(c.members));
    assert(end.loads() =~= burdens(c.members));
}

} // verus!
