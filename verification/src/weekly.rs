//! A store's hours as a collection: the entries of one weekday, the week in
//! order Monday to Sunday, and setting the hours of one weekday.

use crate::calendar::Weekday;
use crate::models::BusinessHours;
use crate::schedule::{first_for_day, first_for_day_from};
use vstd::prelude::*;

verus! {

/// The entries of `hours` for weekday `w`, in their order.
pub open spec fn with_weekday(hours: Seq<BusinessHours>, w: Weekday) -> Seq<BusinessHours>
    decreases hours.len(),
{
    if hours.len() == 0 {
        seq![]
    } else {
        let rest = with_weekday(hours.drop_last(), w);
        if hours.last().weekday == w {
            rest.push(hours.last())
        } else {
            rest
        }
    }
}

/// The entries of `hours` for weekdays other than `w`, in their order.
pub open spec fn without_weekday(hours: Seq<BusinessHours>, w: Weekday) -> Seq<BusinessHours>
    decreases hours.len(),
{
    if hours.len() == 0 {
        seq![]
    } else {
        let rest = without_weekday(hours.drop_last(), w);
        if hours.last().weekday != w {
            rest.push(hours.last())
        } else {
            rest
        }
    }
}

/// `hours` with the entries of `entry`'s weekday taken out and `entry` added
/// at the end.
pub open spec fn with_day_replaced(hours: Seq<BusinessHours>, entry: BusinessHours) -> Seq<
    BusinessHours,
> {
    without_weekday(hours, entry.weekday).push(entry)
}

/// The entries of `hours` for the first `n` weekdays from Monday, grouped by
/// weekday in that order, each group in the order of `hours`.
pub open spec fn listing_through(hours: Seq<BusinessHours>, n: nat) -> Seq<BusinessHours>
    decreases n,
{
    if n == 0 {
        seq![]
    } else {
        listing_through(hours, (n - 1) as nat) + with_weekday(hours, Weekday::at(n - 1))
    }
}

/// The entries of `hours` ordered Monday to Sunday; entries of one weekday
/// keep their order.
pub open spec fn weekly_listing(hours: Seq<BusinessHours>) -> Seq<BusinessHours> {
    listing_through(hours, 7)
}

/// At most one entry for each weekday.
pub open spec fn one_entry_per_day(hours: Seq<BusinessHours>) -> bool {
    forall|w: Weekday| #[trigger] with_weekday(hours, w).len() <= 1
}

/// Every entry belongs to store `store_id`.
pub open spec fn all_of_store(hours: Seq<BusinessHours>, store_id: u128) -> bool {
    forall|i: int| 0 <= i < hours.len() ==> #[trigger] hours[i].store_id == store_id
}

proof fn lemma_with_weekday_push(s: Seq<BusinessHours>, x: BusinessHours, w: Weekday)
    ensures
        with_weekday(s.push(x), w) == (if x.weekday == w {
            with_weekday(s, w).push(x)
        } else {
            with_weekday(s, w)
        }),
{
    assert(s.push(x).drop_last() =~= s);
}

proof fn lemma_without_push(s: Seq<BusinessHours>, x: BusinessHours, w: Weekday)
    ensures
        without_weekday(s.push(x), w) == (if x.weekday != w {
            without_weekday(s, w).push(x)
        } else {
            without_weekday(s, w)
        }),
{
    assert(s.push(x).drop_last() =~= s);
}

/// What is left after taking out weekday `w` has no entry for `w`, and the
/// same entries as before for every other weekday.
proof fn lemma_without_weekday(hours: Seq<BusinessHours>, w: Weekday, v: Weekday)
    ensures
        with_weekday(without_weekday(hours, w), w) == Seq::<BusinessHours>::empty(),
        v != w ==> with_weekday(without_weekday(hours, w), v) == with_weekday(hours, v),
        forall|i: int|
            0 <= i < without_weekday(hours, w).len() ==> #[trigger] without_weekday(hours, w)[i].weekday
                != w,
    decreases hours.len(),
{
    if hours.len() > 0 {
        let init = hours.drop_last();
        let x = hours.last();
        lemma_without_weekday(init, w, v);
        if x.weekday != w {
            lemma_with_weekday_push(without_weekday(init, w), x, w);
            lemma_with_weekday_push(without_weekday(init, w), x, v);
        }
    }
}

/// What is left after taking out a weekday belongs to the same store.
proof fn lemma_without_same_store(hours: Seq<BusinessHours>, w: Weekday, store_id: u128)
    requires
        all_of_store(hours, store_id),
    ensures
        all_of_store(without_weekday(hours, w), store_id),
    decreases hours.len(),
{
    if hours.len() > 0 {
        let init = hours.drop_last();
        assert(all_of_store(init, store_id)) by {
            assert forall|i: int| 0 <= i < init.len() implies #[trigger] init[i].store_id
                == store_id by {
                assert(init[i] == hours[i]);
            }
        }
        lemma_without_same_store(init, w, store_id);
        assert(hours.last() == hours[hours.len() - 1]);
    }
}

proof fn lemma_first_of_pushed(s: Seq<BusinessHours>, e: BusinessHours, i: int)
    requires
        0 <= i <= s.len(),
        forall|j: int| 0 <= j < s.len() ==> #[trigger] s[j].weekday != e.weekday,
    ensures
        first_for_day_from(s.push(e), e.weekday, i) == Some(e),
    decreases s.len() - i,
{
    if i < s.len() {
        assert(s.push(e)[i] == s[i]);
        lemma_first_of_pushed(s, e, i + 1);
    } else {
        assert(s.push(e)[i] == e);
    }
}

/// Setting the hours of a weekday: afterwards that weekday has exactly the
/// new entry, which is also the one found first for it; every other
/// weekday keeps its entries.
pub proof fn lemma_set_day_then_read(hours: Seq<BusinessHours>, entry: BusinessHours, other: Weekday)
    ensures
        with_weekday(with_day_replaced(hours, entry), entry.weekday) == seq![entry],
        first_for_day(with_day_replaced(hours, entry), entry.weekday) == Some(entry),
        other != entry.weekday ==> with_weekday(with_day_replaced(hours, entry), other)
            == with_weekday(hours, other),
{
    let w = entry.weekday;
    lemma_without_weekday(hours, w, other);
    lemma_with_weekday_push(without_weekday(hours, w), entry, w);
    lemma_with_weekday_push(without_weekday(hours, w), entry, other);
    assert(Seq::<BusinessHours>::empty().push(entry) =~= seq![entry]);
    lemma_first_of_pushed(without_weekday(hours, w), entry, 0);
}

/// Setting the hours of a weekday keeps one entry per weekday, and keeps
/// every entry with its store when the new one belongs to it too.
pub proof fn lemma_set_day_keeps_shape(hours: Seq<BusinessHours>, entry: BusinessHours, store_id: u128)
    requires
        one_entry_per_day(hours),
        all_of_store(hours, store_id),
        entry.store_id == store_id,
    ensures
        one_entry_per_day(with_day_replaced(hours, entry)),
        all_of_store(with_day_replaced(hours, entry), store_id),
{
    assert forall|v: Weekday| #[trigger] with_weekday(with_day_replaced(hours, entry), v).len()
        <= 1 by {
        lemma_set_day_then_read(hours, entry, v);
        assert(with_weekday(hours, v).len() <= 1);
    }
    lemma_without_same_store(hours, entry.weekday, store_id);
    let s = without_weekday(hours, entry.weekday);
    assert forall|i: int| 0 <= i < s.push(entry).len() implies #[trigger] s.push(entry)[i].store_id
        == store_id by {
        if i < s.len() {
            assert(s.push(entry)[i] == s[i]);
        }
    }
}

/// `hours` with the entries of `entry`'s weekday taken out and `entry`
/// added at the end.
pub fn set_day(hours: &mut Vec<BusinessHours>, entry: BusinessHours)
    ensures
        final(hours)@ == with_day_replaced(old(hours)@, entry),
{
    let mut kept: Vec<BusinessHours> = Vec::new();
    let n = hours.len();
    for j in 0..n
        invariant
            n == hours.len(),
            kept@ == without_weekday(hours@.take(j as int), entry.weekday),
    {
        proof {
            lemma_without_push(hours@.take(j as int), hours@[j as int], entry.weekday);
            assert(hours@.take(j as int).push(hours@[j as int]) =~= hours@.take(j + 1));
        }
        if hours[j].weekday != entry.weekday {
            kept.push(hours[j]);
        }
    }
    assert(hours@.take(n as int) =~= hours@);
    kept.push(entry);
    *hours = kept;
}

/// The entries of `hours` ordered Monday to Sunday (see `weekly_listing`).
pub fn weekly_order(hours: &[BusinessHours]) -> (r: Vec<BusinessHours>)
    ensures
        r@ == weekly_listing(hours@),
{
    let mut r: Vec<BusinessHours> = Vec::new();
    let n = hours.len();
    for d in 0..7u32
        invariant
            n == hours.len(),
            r@ == listing_through(hours@, d as nat),
    {
        let w = Weekday::from_days_from_monday(d);
        let ghost before = r@;
        for j in 0..n
            invariant
                n == hours.len(),
                w == Weekday::at(d as int),
                before == listing_through(hours@, d as nat),
                r@ == before + with_weekday(hours@.take(j as int), w),
        {
            proof {
                lemma_with_weekday_push(hours@.take(j as int), hours@[j as int], w);
                assert(hours@.take(j as int).push(hours@[j as int]) =~= hours@.take(j + 1));
            }
            if hours[j].weekday == w {
                r.push(hours[j]);
                assert(r@ =~= before + with_weekday(hours@.take(j + 1), w));
            }
        }
        assert(hours@.take(n as int) =~= hours@);
    }
    r
}

proof fn lemma_with_weekday_members(hours: Seq<BusinessHours>, w: Weekday)
    ensures
        forall|i: int|
            0 <= i < with_weekday(hours, w).len() ==> (#[trigger] with_weekday(hours, w)[i]).weekday
                == w && hours.contains(with_weekday(hours, w)[i]),
    decreases hours.len(),
{
    if hours.len() > 0 {
        let init = hours.drop_last();
        lemma_with_weekday_members(init, w);
        assert forall|i: int| 0 <= i < with_weekday(hours, w).len() implies (
        #[trigger] with_weekday(hours, w)[i]).weekday == w && hours.contains(
            with_weekday(hours, w)[i],
        ) by {
            if i < with_weekday(init, w).len() {
                let x = with_weekday(init, w)[i];
                assert(with_weekday(hours, w)[i] == x);
                let k = choose|k: int| 0 <= k < init.len() && init[k] == x;
                assert(hours[k] == x);
            } else {
                assert(hours[hours.len() - 1] == hours.last());
            }
        }
    }
}

proof fn lemma_listing_through_sorted(hours: Seq<BusinessHours>, n: nat)
    requires
        n <= 7,
    ensures
        forall|i: int|
            0 <= i < listing_through(hours, n).len() ==> (#[trigger] listing_through(hours, n)[i]).weekday.index()
                < n && hours.contains(listing_through(hours, n)[i]),
        forall|i: int, j: int|
            0 <= i < j < listing_through(hours, n).len() ==> (#[trigger] listing_through(
                hours,
                n,
            )[i]).weekday.index() <= (#[trigger] listing_through(hours, n)[j]).weekday.index(),
    decreases n,
{
    if n > 0 {
        let m = (n - 1) as nat;
        lemma_listing_through_sorted(hours, m);
        let w = Weekday::at(m as int);
        assert(w.index() == m) by {
            assert((m as int) % 7 == m);
        }
        lemma_with_weekday_members(hours, w);
        let a = listing_through(hours, m);
        let g = with_weekday(hours, w);
        assert(listing_through(hours, n) == a + g);
        assert forall|i: int| 0 <= i < (a + g).len() implies (#[trigger] (a + g)[i]).weekday.index()
            < n && hours.contains((a + g)[i]) by {
            if i < a.len() {
                assert((a + g)[i] == a[i]);
            } else {
                assert((a + g)[i] == g[i - a.len()]);
            }
        }
        assert forall|i: int, j: int| 0 <= i < j < (a + g).len() implies (#[trigger] (a
            + g)[i]).weekday.index() <= (#[trigger] (a + g)[j]).weekday.index() by {
            if j < a.len() {
                assert((a + g)[i] == a[i]);
                assert((a + g)[j] == a[j]);
            } else if i < a.len() {
                assert((a + g)[i] == a[i]);
                assert((a + g)[j] == g[j - a.len()]);
            } else {
                assert((a + g)[i] == g[i - a.len()]);
                assert((a + g)[j] == g[j - a.len()]);
            }
        }
    }
}

proof fn lemma_listing_through_len_step(hours: Seq<BusinessHours>, n: nat)
    requires
        hours.len() > 0,
        n <= 7,
    ensures
        listing_through(hours, n).len() == listing_through(hours.drop_last(), n).len() + (
        if hours.last().weekday.index() < n {
            1int
        } else {
            0int
        }),
    decreases n,
{
    if n > 0 {
        let m = (n - 1) as nat;
        lemma_listing_through_len_step(hours, m);
        let w = Weekday::at(m as int);
        assert(w.index() == m) by {
            assert((m as int) % 7 == m);
        }
        assert(hours.last().weekday == w <==> hours.last().weekday.index() == m);
    }
}

proof fn lemma_listing_len(hours: Seq<BusinessHours>)
    ensures
        weekly_listing(hours).len() == hours.len(),
    decreases hours.len(),
{
    if hours.len() == 0 {
        reveal_with_fuel(listing_through, 8);
    } else {
        lemma_listing_len(hours.drop_last());
        lemma_listing_through_len_step(hours, 7);
    }
}

/// The week in order holds as many entries as the hours, each taken from
/// them, ordered Monday to Sunday.
pub proof fn lemma_weekly_listing_is_ordered(hours: Seq<BusinessHours>)
    ensures
        weekly_listing(hours).len() == hours.len(),
        forall|i: int|
            0 <= i < weekly_listing(hours).len() ==> hours.contains(
                #[trigger] weekly_listing(hours)[i],
            ),
        forall|i: int, j: int|
            0 <= i < j < weekly_listing(hours).len() ==> (
            #[trigger] weekly_listing(hours)[i]).weekday.index() <= (
            #[trigger] weekly_listing(hours)[j]).weekday.index(),
{
    lemma_listing_len(hours);
    lemma_listing_through_sorted(hours, 7);
}

/// No entry of `s` is for weekday `w`.
#[verifier::opaque]
pub open spec fn lacks_day(s: Seq<BusinessHours>, w: Weekday) -> bool {
    forall|j: int| 0 <= j < s.len() ==> (#[trigger] s[j]).weekday != w
}

/// `entry` stands in `s` at one position, and no other entry of `s` is for
/// its weekday.
#[verifier::opaque]
pub open spec fn listed_once(s: Seq<BusinessHours>, entry: BusinessHours) -> bool {
    exists|i: int|
        0 <= i < s.len() && s[i] == entry && forall|j: int|
            0 <= j < s.len() && j != i ==> (#[trigger] s[j]).weekday != entry.weekday
}

proof fn lemma_lacks_concat(a: Seq<BusinessHours>, b: Seq<BusinessHours>, w: Weekday)
    requires
        lacks_day(a, w),
        lacks_day(b, w),
    ensures
        lacks_day(a + b, w),
{
    reveal(lacks_day);
    assert forall|j: int| 0 <= j < (a + b).len() implies (#[trigger] (a + b)[j]).weekday != w by {
        if j < a.len() {
            assert((a + b)[j] == a[j]);
        } else {
            assert((a + b)[j] == b[j - a.len()]);
        }
    }
}

proof fn lemma_once_then_lacking(a: Seq<BusinessHours>, b: Seq<BusinessHours>, entry: BusinessHours)
    requires
        listed_once(a, entry),
        lacks_day(b, entry.weekday),
    ensures
        listed_once(a + b, entry),
{
    reveal(lacks_day);
    reveal(listed_once);
    let i = choose|i: int|
        0 <= i < a.len() && a[i] == entry && forall|j: int|
            0 <= j < a.len() && j != i ==> (#[trigger] a[j]).weekday != entry.weekday;
    assert((a + b)[i] == entry);
    assert forall|j: int| 0 <= j < (a + b).len() && j != i implies (#[trigger] (a + b)[j]).weekday
        != entry.weekday by {
        if j < a.len() {
            assert((a + b)[j] == a[j]);
        } else {
            assert((a + b)[j] == b[j - a.len()]);
        }
    }
}

proof fn lemma_lacking_then_once(a: Seq<BusinessHours>, entry: BusinessHours)
    requires
        lacks_day(a, entry.weekday),
    ensures
        listed_once(a + seq![entry], entry),
{
    reveal(lacks_day);
    reveal(listed_once);
    let s = a + seq![entry];
    let i = a.len() as int;
    assert(s[i] == entry);
    assert forall|j: int| 0 <= j < s.len() && j != i implies (#[trigger] s[j]).weekday
        != entry.weekday by {
        assert(s[j] == a[j]);
    }
}

proof fn lemma_group_lacks(hours: Seq<BusinessHours>, v: Weekday, w: Weekday)
    requires
        v != w,
    ensures
        lacks_day(with_weekday(hours, v), w),
{
    reveal(lacks_day);
    lemma_with_weekday_members(hours, v);
}

proof fn lemma_listing_through_single(hours: Seq<BusinessHours>, entry: BusinessHours, n: nat)
    requires
        n <= 7,
        with_weekday(hours, entry.weekday) == seq![entry],
    ensures
        entry.weekday.index() >= n ==> lacks_day(listing_through(hours, n), entry.weekday),
        entry.weekday.index() < n ==> listed_once(listing_through(hours, n), entry),
    decreases n,
{
    let w = entry.weekday;
    if n == 0 {
        reveal(lacks_day);
    } else {
        let m = (n - 1) as nat;
        lemma_listing_through_single(hours, entry, m);
        let v = Weekday::at(m as int);
        assert(v.index() == m) by {
            assert((m as int) % 7 == m);
        }
        let a = listing_through(hours, m);
        let g = with_weekday(hours, v);
        assert(listing_through(hours, n) == a + g);
        if w.index() == m {
            assert(w == v);
            lemma_lacking_then_once(a, entry);
        } else {
            lemma_group_lacks(hours, v, w);
            if w.index() < m {
                lemma_once_then_lacking(a, g, entry);
            } else {
                lemma_lacks_concat(a, g, w);
            }
        }
    }
}

/// After setting the hours of a weekday, the week in order lists the new
/// entry exactly once, and no other entry for that weekday (see
/// `listed_once`).
pub proof fn lemma_set_day_then_listed(hours: Seq<BusinessHours>, entry: BusinessHours)
    ensures
        listed_once(weekly_listing(with_day_replaced(hours, entry)), entry),
{
    lemma_set_day_then_read(hours, entry, entry.weekday);
    lemma_listing_through_single(with_day_replaced(hours, entry), entry, 7);
}

proof fn lemma_without_twice(hours: Seq<BusinessHours>, w: Weekday)
    ensures
        without_weekday(without_weekday(hours, w), w) == without_weekday(hours, w),
    decreases hours.len(),
{
    if hours.len() > 0 {
        let init = hours.drop_last();
        lemma_without_twice(init, w);
        lemma_without_push(without_weekday(init, w), hours.last(), w);
    }
}

/// Setting the hours of a weekday twice leaves the hours as after the first
/// time, with only the last entry, the one for that weekday, replaced by the
/// second.
pub proof fn lemma_set_day_twice(hours: Seq<BusinessHours>, first: BusinessHours, second: BusinessHours)
    requires
        first.weekday == second.weekday,
    ensures
        with_day_replaced(with_day_replaced(hours, first), second) == with_day_replaced(
            hours,
            first,
        ).update(with_day_replaced(hours, first).len() - 1, second),
{
    let w = first.weekday;
    lemma_without_push(without_weekday(hours, w), first, w);
    lemma_without_twice(hours, w);
    assert(with_day_replaced(with_day_replaced(hours, first), second) =~= with_day_replaced(
        hours,
        first,
    ).update(with_day_replaced(hours, first).len() - 1, second));
}

} // verus!
