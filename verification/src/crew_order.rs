//! Longer and longer runs of the workers of an output.

use crate::crew::{
    after_seeing, calm, first_seen, member_comes_to_its_end, member_stays_within, took_turns,
};
use crate::crew_run::{
    crew_stays_sound, dues, idle_workers_count_nothing, member_follows, tallies_add_up, Crew,
};
use crate::scripted::Tally;
use crate::staged::Shared;
use crate::sums::sum;
use crate::whole_staged::undisturbed;
use vstd::prelude::*;

verus! {

/// One of everything that is counted.
pub open spec fn one_of_each() -> Tally {
    Tally { read: 1, copied: 1, decoded: 1, skipped: 1, written: 1, encoded: 1 }
}

/// The counters have room for all that the workers add, and for one more.
pub open spec fn room_for_all<F, E>(c: Crew<F, E>) -> bool {
    sum(dues(c.members)).plus(one_of_each()).fits(c.shared.counters.snapshot_spec())
}

proof fn sums_compare(a: Seq<Tally>, b: Seq<Tally>)
    requires
        a.len() == b.len(),
        forall|i: int| 0 <= i < a.len() ==> (#[trigger] a[i]).at_most(b[i]),
    ensures
        sum(a).at_most(sum(b)),
    decreases a.len(),
{
    if a.len() > 0 {
        sums_compare(a.drop_last(), b.drop_last());
        assert(a.last().at_most(b.last()));
    }
}

proof fn member_within<F, E>(c: Crew<F, E>, order: Seq<int>, i: int)
    requires
        c.ready(),
        c.orderly(order),
        0 <= i < c.members.len(),
    ensures
        c.after(order, order.len() as int).members[i].tally().at_most(c.members[i].due()),
{
    let n = order.len() as int;
    member_follows(c, order, i, n);
    assert(c.members[i].ready());
    member_stays_within(c.members[i], c.seen(order, i, n), c.shared);
}

/// Where the counters have room for all, there is always room for one more.
pub(crate) proof fn there_is_room<F, E>(c: Crew<F, E>, order: Seq<int>)
    requires
        c.ready(),
        c.orderly(order),
        room_for_all(c),
    ensures
        c.after(order, order.len() as int).shared.counters.snapshot_spec().has_room(1),
        !c.after(order, order.len() as int).shared.abort.cancelled,
        c.after(order, order.len() as int).members.len() == c.members.len(),
{
    let n = order.len() as int;
    let end = c.after(order, n);
    idle_workers_count_nothing(c);
    tallies_add_up(c, order, n);
    crew_stays_sound(c, order, n);
    assert forall|i: int| 0 <= i < end.tallies().len() implies (#[trigger] end.tallies()[i]).at_most(
        dues(c.members)[i],
    ) by {
        member_within(c, order, i);
    }
    sums_compare(end.tallies(), dues(c.members));
}

/// What happens first does not depend on what happens later.
pub(crate) proof fn beginnings_agree<F, E>(c: Crew<F, E>, a: Seq<int>, b: Seq<int>, k: int)
    requires
        k <= a.len(),
        k <= b.len(),
        forall|j: int| 0 <= j < k ==> a[j] == b[j],
    ensures
        c.after(a, k) == c.after(b, k),
        forall|i: int| #[trigger] c.seen(a, i, k) == c.seen(b, i, k),
    decreases k,
{
    if k > 0 {
        beginnings_agree(c, a, b, k - 1);
        assert forall|i: int| #[trigger] c.seen(a, i, k) == c.seen(b, i, k) by {
            assert(c.seen(a, i, k - 1) == c.seen(b, i, k - 1));
        }
    }
}

/// One more turn of somebody who has something to do.
pub(crate) proof fn one_more_goes<F, E>(c: Crew<F, E>, order: Seq<int>, i: int)
    requires
        c.ready(),
        c.orderly(order),
        room_for_all(c),
        0 <= i < c.members.len(),
        !c.after(order, order.len() as int).members[i].over(),
    ensures
        c.orderly(order.push(i)),
        c.after(order.push(i), order.len() as int) == c.after(order, order.len() as int),
        c.after(order.push(i), order.len() as int + 1) == c.after(order, order.len() as int).turned(i),
{
    let n = order.len() as int;
    let longer = order.push(i);
    there_is_room(c, order);
    beginnings_agree(c, order, longer, n);
    assert forall|k: int| 0 <= k < longer.len() implies {
        &&& 0 <= #[trigger] longer[k] < c.members.len()
        &&& !c.after(longer, k).members[longer[k]].over()
        &&& c.after(longer, k).shared.counters.snapshot_spec().has_room(1)
    } by {
        beginnings_agree(c, order, longer, k);
        if k < n {
            assert(0 <= order[k] < c.members.len());
        }
    }
}

/// An order with a number of further turns of one worker.
pub open spec fn and_then(order: Seq<int>, i: int, n: nat) -> Seq<int>
    decreases n,
{
    if n == 0 {
        order
    } else {
        and_then(order, i, (n - 1) as nat).push(i)
    }
}

pub(crate) proof fn longer_by(order: Seq<int>, i: int, n: nat)
    ensures
        and_then(order, i, n).len() == order.len() + n,
        forall|j: int| 0 <= j < order.len() ==> #[trigger] and_then(order, i, n)[j] == order[j],
        n > 0 ==> and_then(order.push(i), i, (n - 1) as nat) == and_then(order, i, n),
    decreases n,
{
    if n > 0 {
        longer_by(order, i, (n - 1) as nat);
        if n > 1 {
            longer_by(order.push(i), i, (n - 2) as nat);
        }
    }
}

/// The worker `i` after `n` further turns of its own.
pub open spec fn on_its_own<F, E>(c: Crew<F, E>, order: Seq<int>, i: int, n: nat) -> Crew<F, E> {
    let longer = and_then(order, i, n);
    c.after(longer, longer.len() as int)
}

proof fn stays_orderly<F, E>(c: Crew<F, E>, order: Seq<int>, i: int, n: nat)
    requires
        c.ready(),
        c.orderly(order),
        room_for_all(c),
        0 <= i < c.members.len(),
        forall|j: nat| j < n ==> !(#[trigger] on_its_own(c, order, i, j)).members[i].over(),
    ensures
        c.orderly(and_then(order, i, n)),
    decreases n,
{
    if n > 0 {
        let m = (n - 1) as nat;
        stays_orderly(c, order, i, m);
        assert(!on_its_own(c, order, i, m).members[i].over());
        one_more_goes(c, and_then(order, i, m), i);
    }
}

/// What a worker sees first, and then on its own.
pub open spec fn sees_on_its_own<F, E>(c: Crew<F, E>, order: Seq<int>, i: int) -> spec_fn(nat) -> Shared<
    E,
> {
    let seen = c.seen(order, i, order.len() as int);
    |k: nat|
        if k < seen.len() {
            seen[k as int]
        } else {
            on_its_own(c, order, i, (k - seen.len()) as nat).shared
        }
}

proof fn sees_so_much<F, E>(c: Crew<F, E>, order: Seq<int>, i: int, n: nat)
    ensures
        ({
            let seen = c.seen(order, i, order.len() as int);
            let longer = and_then(order, i, n);
            c.seen(longer, i, longer.len() as int) == first_seen(
                sees_on_its_own(c, order, i),
                seen.len() + n,
            )
        }),
    decreases n,
{
    let seen = c.seen(order, i, order.len() as int);
    let all = sees_on_its_own(c, order, i);
    longer_by(order, i, n);
    if n == 0 {
        assert(seen =~= first_seen(all, seen.len()));
    } else {
        let m = (n - 1) as nat;
        sees_so_much(c, order, i, m);
        longer_by(order, i, m);
        let before = and_then(order, i, m);
        let longer = and_then(order, i, n);
        beginnings_agree(c, before, longer, before.len() as int);
        assert(c.seen(longer, i, before.len() as int) == c.seen(before, i, before.len() as int));
        assert(first_seen(all, seen.len() + n) =~= first_seen(all, seen.len() + m).push(
            on_its_own(c, order, i, m).shared,
        ));
    }
}

/// A worker that goes on by itself and never comes to its end sees nobody stopped, and no
/// counter at the end of its range.
proof fn undisturbed_alone<F, E>(c: Crew<F, E>, order: Seq<int>, i: int)
    requires
        c.ready(),
        c.orderly(order),
        room_for_all(c),
        0 <= i < c.members.len(),
        forall|n: nat| !(#[trigger] on_its_own(c, order, i, n)).members[i].over(),
    ensures
        undisturbed(sees_on_its_own(c, order, i)),
{
    let seen = c.seen(order, i, order.len() as int);
    let all = sees_on_its_own(c, order, i);
    member_follows(c, order, i, order.len() as int);
    assert forall|k: nat| !(#[trigger] all(k)).abort.cancelled && all(
        k,
    ).counters.snapshot_spec().has_room(1) by {
        if k < seen.len() {
            assert(calm(seen[k as int]));
        } else {
            let n = (k - seen.len()) as nat;
            stays_orderly(c, order, i, n);
            there_is_room(c, and_then(order, i, n));
        }
    }
}

/// What a worker is that goes on by itself.
proof fn alone_it_follows<F, E>(c: Crew<F, E>, order: Seq<int>, i: int, k: nat)
    requires
        c.ready(),
        c.orderly(order),
        room_for_all(c),
        0 <= i < c.members.len(),
        forall|n: nat| !(#[trigger] on_its_own(c, order, i, n)).members[i].over(),
    ensures
        !after_seeing(c.members[i], first_seen(sees_on_its_own(c, order, i), k)).over(),
{
    let len = order.len() as int;
    let seen = c.seen(order, i, len);
    let all = sees_on_its_own(c, order, i);
    let m = c.members[i];
    if k < seen.len() {
        member_follows(c, order, i, len);
        assert(first_seen(all, k) =~= seen.take(k as int));
        assert(took_turns(m, seen));
    } else {
        let n = (k - seen.len()) as nat;
        let longer = and_then(order, i, n);
        stays_orderly(c, order, i, n);
        member_follows(c, longer, i, longer.len() as int);
        sees_so_much(c, order, i, n);
        assert(!on_its_own(c, order, i, n).members[i].over());
    }
}

/// A worker that goes on by itself comes to its end, unless it is one that reads a source.
pub(crate) proof fn comes_to_its_end_alone<F, E>(c: Crew<F, E>, order: Seq<int>, i: int)
    requires
        c.ready(),
        c.orderly(order),
        room_for_all(c),
        0 <= i < c.members.len(),
        !(c.members[i] is Source),
    ensures
        exists|n: nat| (#[trigger] on_its_own(c, order, i, n)).members[i].over(),
{
    if forall|n: nat| !(#[trigger] on_its_own(c, order, i, n)).members[i].over() {
        let all = sees_on_its_own(c, order, i);
        let m = c.members[i];
        assert(m.ready());
        undisturbed_alone(c, order, i);
        member_comes_to_its_end(m, all);
        let k = choose|k: nat| #[trigger] after_seeing(m, first_seen(all, k)).over();
        alone_it_follows(c, order, i, k);
    }
}

} // verus!
