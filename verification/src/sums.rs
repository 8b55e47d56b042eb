//! Sums over lists.

use crate::scripted::Tally;
use vstd::prelude::*;

verus! {

/// The sum of a list of numbers.
pub open spec fn total(s: Seq<int>) -> int
    decreases s.len(),
{
    if s.len() == 0 {
        0
    } else {
        total(s.drop_last()) + s.last()
    }
}

/// The sum of a list of tallies.
pub open spec fn sum(s: Seq<Tally>) -> Tally
    decreases s.len(),
{
    if s.len() == 0 {
        Tally::none()
    } else {
        sum(s.drop_last()).plus(s.last())
    }
}

/// The bytes of some packets.
pub open spec fn weight(sizes: Seq<u64>) -> int
    decreases sizes.len(),
{
    if sizes.len() == 0 {
        0
    } else {
        weight(sizes.drop_last()) + sizes.last()
    }
}

/// The bytes of some packets on several ways.
pub open spec fn load(ways: Seq<Seq<u64>>) -> int
    decreases ways.len(),
{
    if ways.len() == 0 {
        0
    } else {
        load(ways.drop_last()) + weight(ways.last())
    }
}

pub(crate) proof fn total_updated(s: Seq<int>, i: int, x: int)
    requires
        0 <= i < s.len(),
    ensures
        total(s.update(i, x)) == total(s) - s[i] + x,
    decreases s.len(),
{
    let t = s.update(i, x);
    if i == s.len() - 1 {
        assert(t.drop_last() =~= s.drop_last());
    } else {
        total_updated(s.drop_last(), i, x);
        assert(t.drop_last() =~= s.drop_last().update(i, x));
    }
}

pub(crate) proof fn totals_join(a: Seq<int>, b: Seq<int>)
    ensures
        total(a + b) == total(a) + total(b),
    decreases b.len(),
{
    if b.len() == 0 {
        assert(a + b =~= a);
    } else {
        totals_join(a, b.drop_last());
        assert((a + b).drop_last() =~= a + b.drop_last());
    }
}

pub(crate) proof fn sum_updated(s: Seq<Tally>, i: int, x: Tally)
    requires
        0 <= i < s.len(),
    ensures
        sum(s.update(i, x)).plus(s[i]) == sum(s).plus(x),
    decreases s.len(),
{
    let t = s.update(i, x);
    if i == s.len() - 1 {
        assert(t.drop_last() =~= s.drop_last());
        assert(sum(t).plus(s[i]) =~= sum(s).plus(x));
    } else {
        sum_updated(s.drop_last(), i, x);
        assert(t.drop_last() =~= s.drop_last().update(i, x));
        let a = sum(s.drop_last().update(i, x));
        assert(a.plus(s[i]) == sum(s.drop_last()).plus(x));
        assert(sum(t).plus(s[i]) =~= a.plus(s[i]).plus(s.last()));
        assert(sum(s).plus(x) =~= sum(s.drop_last()).plus(x).plus(s.last()));
    }
}

pub(crate) proof fn sums_join(a: Seq<Tally>, b: Seq<Tally>)
    ensures
        sum(a + b) == sum(a).plus(sum(b)),
    decreases b.len(),
{
    if b.len() == 0 {
        assert(a + b =~= a);
        assert(sum(a).plus(Tally::none()) =~= sum(a));
    } else {
        sums_join(a, b.drop_last());
        assert((a + b).drop_last() =~= a + b.drop_last());
        assert(sum(a + b) =~= sum(a).plus(sum(b)));
    }
}

/// A list of which nothing counts.
pub(crate) proof fn nothing_sums_up(s: Seq<Tally>)
    requires
        forall|i: int| 0 <= i < s.len() ==> #[trigger] s[i] == Tally::none(),
    ensures
        sum(s) == Tally::none(),
    decreases s.len(),
{
    if s.len() > 0 {
        nothing_sums_up(s.drop_last());
        assert(s.last() == Tally::none());
        assert(sum(s) =~= Tally::none());
    }
}

pub(crate) proof fn nothing_totals(s: Seq<int>)
    requires
        forall|i: int| 0 <= i < s.len() ==> #[trigger] s[i] == 0,
    ensures
        total(s) == 0,
    decreases s.len(),
{
    if s.len() > 0 {
        nothing_totals(s.drop_last());
        assert(s.last() == 0);
    }
}

pub(crate) proof fn total_of_naturals(s: Seq<int>)
    requires
        forall|i: int| 0 <= i < s.len() ==> #[trigger] s[i] >= 0,
    ensures
        total(s) >= 0,
    decreases s.len(),
{
    if s.len() > 0 {
        total_of_naturals(s.drop_last());
        assert(s.last() >= 0);
    }
}

/// Adding two lists item by item.
pub(crate) proof fn sums_add_up(a: Seq<Tally>, b: Seq<Tally>, c: Seq<Tally>)
    requires
        a.len() == b.len() == c.len(),
        forall|i: int| 0 <= i < a.len() ==> #[trigger] c[i] == a[i].plus(b[i]),
    ensures
        sum(c) == sum(a).plus(sum(b)),
    decreases a.len(),
{
    if a.len() > 0 {
        sums_add_up(a.drop_last(), b.drop_last(), c.drop_last());
        assert(c.last() == a.last().plus(b.last()));
        assert(sum(c) =~= sum(a).plus(sum(b)));
    } else {
        assert(sum(c) =~= sum(a).plus(sum(b)));
    }
}

pub(crate) proof fn weight_from_the_front(sizes: Seq<u64>)
    requires
        sizes.len() > 0,
    ensures
        weight(sizes) == sizes[0] + weight(sizes.skip(1)),
    decreases sizes.len(),
{
    if sizes.len() == 1 {
        assert(sizes.drop_last() =~= Seq::empty());
        assert(sizes.skip(1) =~= Seq::empty());
    } else {
        weight_from_the_front(sizes.drop_last());
        assert(sizes.skip(1).drop_last() =~= sizes.drop_last().skip(1));
    }
}

pub(crate) proof fn load_updated(ways: Seq<Seq<u64>>, i: int, size: u64)
    requires
        0 <= i < ways.len(),
    ensures
        load(ways.update(i, ways[i].push(size))) == load(ways) + size,
    decreases ways.len(),
{
    let t = ways.update(i, ways[i].push(size));
    assert(ways[i].push(size).drop_last() =~= ways[i]);
    if i == ways.len() - 1 {
        assert(t.drop_last() =~= ways.drop_last());
    } else {
        load_updated(ways.drop_last(), i, size);
        assert(t.drop_last() =~= ways.drop_last().update(i, ways[i].push(size)));
    }
}

pub(crate) proof fn empty_ways_weigh_nothing(ways: Seq<Seq<u64>>)
    requires
        forall|i: int| 0 <= i < ways.len() ==> (#[trigger] ways[i]).len() == 0,
    ensures
        load(ways) == 0,
    decreases ways.len(),
{
    if ways.len() > 0 {
        empty_ways_weigh_nothing(ways.drop_last());
        assert(ways.last().len() == 0);
    }
}

} // verus!
