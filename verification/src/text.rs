//! Pieces of message text.

use vstd::prelude::*;
use vstd::string::StringExecFns;

verus! {

/// The character of a digit below ten.
pub open spec fn digit(d: nat) -> char {
    if d == 0 {
        '0'
    } else if d == 1 {
        '1'
    } else if d == 2 {
        '2'
    } else if d == 3 {
        '3'
    } else if d == 4 {
        '4'
    } else if d == 5 {
        '5'
    } else if d == 6 {
        '6'
    } else if d == 7 {
        '7'
    } else if d == 8 {
        '8'
    } else {
        '9'
    }
}

/// A number in decimal, without leading zeros.
pub open spec fn digits(n: nat) -> Seq<char>
    decreases n,
{
    if n < 10 {
        seq![digit(n)]
    } else {
        digits(n / 10).push(digit(n % 10))
    }
}

fn digit_text(d: u64) -> (r: &'static str)
    requires
        d < 10,
    ensures
        r@ == seq![digit(d as nat)],
{
    proof {
        reveal_strlit("0");
        reveal_strlit("1");
        reveal_strlit("2");
        reveal_strlit("3");
        reveal_strlit("4");
        reveal_strlit("5");
        reveal_strlit("6");
        reveal_strlit("7");
        reveal_strlit("8");
        reveal_strlit("9");
    }
    let r: &'static str = match d {
        0 => "0",
        1 => "1",
        2 => "2",
        3 => "3",
        4 => "4",
        5 => "5",
        6 => "6",
        7 => "7",
        8 => "8",
        _ => "9",
    };
    assert(r@ =~= seq![digit(d as nat)]);
    r
}

/// Writes a number in decimal.
pub fn decimal(n: u64) -> (r: String)
    ensures
        r@ == digits(n as nat),
    decreases n,
{
    if n < 10 {
        String::from_str(digit_text(n))
    } else {
        let mut r = decimal(n / 10);
        r.append(digit_text(n % 10));
        assert(r@ =~= digits(n as nat));
        r
    }
}

/// A string in quotes, with what needs it escaped.
pub uninterp spec fn quoted(s: Seq<char>) -> Seq<char>;

/// `std::fmt::Debug` for `str`: the string in double quotes, escaped where it
/// has to be; a function of the characters alone.
#[verifier::external_body]
pub(crate) fn quote(s: &str) -> (r: String)
    ensures
        r@ == quoted(s@),
{
    format!("{:?}", s)
}

/// The quoted strings of a list from position `from` on, a comma before each
/// but the first of the list.
pub open spec fn quoted_tail(items: Seq<String>, from: int) -> Seq<char>
    decreases items.len() - from,
{
    if from < 0 || from >= items.len() {
        Seq::empty()
    } else if from == 0 {
        quoted(items[0]@) + quoted_tail(items, 1)
    } else {
        ", "@ + quoted(items[from]@) + quoted_tail(items, from + 1)
    }
}

/// A list of strings in square brackets, quoted and separated by commas.
pub open spec fn quoted_list(items: Seq<String>) -> Seq<char> {
    "["@ + quoted_tail(items, 0) + "]"@
}

/// Writes a list of strings, quoted, in square brackets.
pub fn quote_list(items: &Vec<String>) -> (r: String)
    ensures
        r@ == quoted_list(items@),
{
    let mut r = String::from_str("[");
    let mut i: usize = 0;
    assert(r@ + quoted_tail(items@, 0) =~= "["@ + quoted_tail(items@, 0));
    while i < items.len()
        invariant
            i <= items.len(),
            r@ + quoted_tail(items@, i as int) == "["@ + quoted_tail(items@, 0),
        decreases items.len() - i,
    {
        let ghost before = r@;
        if i > 0 {
            r.append(", ");
        }
        let q = quote(items[i].as_str());
        r.append(q.as_str());
        assert(r@ + quoted_tail(items@, i + 1) =~= before + quoted_tail(items@, i as int));
        i += 1;
    }
    assert(r@ =~= "["@ + quoted_tail(items@, 0));
    r.append("]");
    r
}

/// The number that a digit stands for.
pub open spec fn digit_value(c: char) -> int {
    c as int - '0' as int
}

/// The number that a text of digits stands for.
pub open spec fn value_of(s: Seq<char>) -> int
    decreases s.len(),
{
    if s.len() == 0 {
        0
    } else {
        10 * value_of(s.drop_last()) + digit_value(s.last())
    }
}

/// A number in decimal reads back as that number, holds nothing but digits, and begins
/// with a zero only where it is zero.
pub proof fn decimal_reads_back(n: nat)
    ensures
        value_of(digits(n)) == n,
        digits(n).len() > 0,
        forall|i: int| 0 <= i < digits(n).len() ==> '0' <= #[trigger] digits(n)[i] <= '9',
        n > 0 ==> digits(n)[0] != '0',
    decreases n,
{
    assert(digit_value(digit(n % 10)) == n % 10);
    if n < 10 {
        assert(digits(n).drop_last() =~= Seq::<char>::empty());
        assert(digits(n).last() == digit(n % 10));
        assert(value_of(digits(n).drop_last()) == 0);
    } else {
        decimal_reads_back(n / 10);
        assert(digits(n).drop_last() =~= digits(n / 10));
        assert(digits(n).last() == digit(n % 10));
    }
}

/// Different numbers look different.
pub proof fn numbers_look_different(m: nat, n: nat)
    requires
        m != n,
    ensures
        digits(m) != digits(n),
{
    decimal_reads_back(m);
    decimal_reads_back(n);
}

/// The items of a list, each in quotes, with a comma and a space between any two.
pub open spec fn listing(items: Seq<String>) -> Seq<char>
    decreases items.len(),
{
    if items.len() == 0 {
        Seq::empty()
    } else if items.len() == 1 {
        quoted(items[0]@)
    } else {
        listing(items.drop_last()) + ", "@ + quoted(items.last()@)
    }
}

proof fn tail_extends(items: Seq<String>, more: String, from: int)
    requires
        0 <= from <= items.len(),
    ensures
        from < items.len() || from > 0 ==> quoted_tail(items.push(more), from) == quoted_tail(
            items,
            from,
        ) + ", "@ + quoted(more@),
        from == 0 && items.len() == 0 ==> quoted_tail(items.push(more), from) == quoted(more@),
    decreases items.len() - from,
{
    let all = items.push(more);
    if from < items.len() {
        tail_extends(items, more, from + 1);
        assert(quoted_tail(all, from) =~= quoted_tail(items, from) + ", "@ + quoted(more@));
    } else {
        assert(quoted_tail(all, from + 1) =~= Seq::empty());
        if from > 0 {
            assert(quoted_tail(all, from) =~= quoted_tail(items, from) + ", "@ + quoted(more@));
        } else {
            assert(quoted_tail(all, from) =~= quoted(more@));
        }
    }
}

/// A list is shown with all of its items, in order, in square brackets.
pub proof fn list_shows_its_items(items: Seq<String>)
    ensures
        quoted_list(items) == "["@ + listing(items) + "]"@,
{
    tail_is_the_listing(items);
}

proof fn tail_is_the_listing(items: Seq<String>)
    ensures
        quoted_tail(items, 0) == listing(items),
    decreases items.len(),
{
    if items.len() > 0 {
        let rest = items.drop_last();
        tail_is_the_listing(rest);
        tail_extends(rest, items.last(), 0);
        assert(rest.push(items.last()) =~= items);
    }
}

} // verus!
