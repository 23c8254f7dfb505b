//! The order of a simulation: trades by entry date, and the days on which something happens.

use vstd::prelude::*;

use crate::book::DatedView;
use crate::sim;
use crate::sim::{BacktestTrade, DatedTrade};

verus! {

/// Whether one byte sequence comes before another, as in a dictionary.
pub open spec fn bytes_before(a: Seq<u8>, b: Seq<u8>) -> bool
    decreases a.len(),
{
    if b.len() == 0 {
        false
    } else if a.len() == 0 {
        true
    } else if a[0] != b[0] {
        a[0] < b[0]
    } else {
        bytes_before(a.drop_first(), b.drop_first())
    }
}

/// Whether the entry date of one trade is written with a text before that of another. Texts
/// are ordered by their bytes.
pub open spec fn enters_before(a: BacktestTrade, b: BacktestTrade) -> bool {
    bytes_before(
        vstd::utf8::encode_utf8(a.entry_date@),
        vstd::utf8::encode_utf8(b.entry_date@),
    )
}

fn text_before(a: &str, b: &str) -> (r: bool)
    ensures
        r == bytes_before(vstd::utf8::encode_utf8(a@), vstd::utf8::encode_utf8(b@)),
{
    let x = a.as_bytes();
    let y = b.as_bytes();
    let mut i: usize = 0;
    assert(x@.skip(0) =~= x@);
    assert(y@.skip(0) =~= y@);
    while i < x.len() && i < y.len()
        invariant
            i <= x@.len(),
            i <= y@.len(),
            x@ == vstd::utf8::encode_utf8(a@),
            y@ == vstd::utf8::encode_utf8(b@),
            bytes_before(x@, y@) == bytes_before(x@.skip(i as int), y@.skip(i as int)),
        decreases x@.len() - i,
    {
        if x[i] != y[i] {
            return x[i] < y[i];
        }
        assert(x@.skip(i as int).drop_first() =~= x@.skip(i + 1));
        assert(y@.skip(i as int).drop_first() =~= y@.skip(i + 1));
        i = i + 1;
    }
    i < y.len()
}

/// `t` put into sorted trades, in front of the first that does not enter before it.
pub open spec fn insert_by_date(t: BacktestTrade, s: Seq<BacktestTrade>) -> Seq<BacktestTrade>
    decreases s.len(),
{
    if s.len() == 0 || !enters_before(s[0], t) {
        seq![t] + s
    } else {
        seq![s[0]] + insert_by_date(t, s.drop_first())
    }
}

/// The trades by entry date; those of one date stay in the order they are in.
pub open spec fn by_entry_date(s: Seq<BacktestTrade>) -> Seq<BacktestTrade>
    decreases s.len(),
{
    if s.len() == 0 {
        seq![]
    } else {
        insert_by_date(s[0], by_entry_date(s.drop_first()))
    }
}

proof fn lemma_insert_position(t: BacktestTrade, s: Seq<BacktestTrade>, pos: int)
    requires
        0 <= pos <= s.len(),
        forall|j: int| 0 <= j < pos ==> enters_before(#[trigger] s[j], t),
        pos == s.len() || !enters_before(s[pos], t),
    ensures
        insert_by_date(t, s) == s.insert(pos, t),
    decreases s.len(),
{
    if pos == 0 {
        assert(seq![t] + s =~= s.insert(0, t));
    } else {
        assert(enters_before(s[0], t));
        let rest = s.drop_first();
        assert forall|j: int| 0 <= j < pos - 1 implies enters_before(#[trigger] rest[j], t) by {
            assert(rest[j] == s[j + 1]);
        }
        lemma_insert_position(t, rest, pos - 1);
        assert(seq![s[0]] + rest.insert(pos - 1, t) =~= s.insert(pos, t));
    }
}

/// Sorts trades by entry date.
pub fn sort_by_entry_date(trades: Vec<BacktestTrade>) -> (r: Vec<BacktestTrade>)
    ensures
        r@ == by_entry_date(trades@),
{
    let mut rest = trades;
    let mut out: Vec<BacktestTrade> = Vec::new();
    proof {
        assert(trades@.skip(trades@.len() as int) =~= Seq::<BacktestTrade>::empty());
        assert(out@ =~= by_entry_date(trades@.skip(trades@.len() as int)));
    }
    loop
        invariant
            rest@.len() <= trades@.len(),
            rest@ == trades@.take(rest@.len() as int),
            out@ == by_entry_date(trades@.skip(rest@.len() as int)),
        ensures
            out@ == by_entry_date(trades@),
        decreases rest@.len(),
    {
        let ghost n = rest@.len() as int;
        match rest.pop() {
            None => {
                assert(trades@.skip(0) =~= trades@);
                break;
            },
            Some(t) => {
                let mut pos: usize = 0;
                while pos < out.len() && text_before(
                    out[pos].entry_date.as_str(),
                    t.entry_date.as_str(),
                )
                    invariant
                        pos <= out@.len(),
                        forall|j: int| 0 <= j < pos ==> enters_before(#[trigger] out@[j], t),
                    ensures
                        pos <= out@.len(),
                        forall|j: int| 0 <= j < pos ==> enters_before(#[trigger] out@[j], t),
                        pos == out@.len() || !enters_before(out@[pos as int], t),
                    decreases out@.len() - pos,
                {
                    pos = pos + 1;
                }
                proof {
                    lemma_insert_position(t, out@, pos as int);
                    assert(trades@.skip(n - 1)[0] == t);
                    assert(trades@.skip(n - 1).drop_first() =~= trades@.skip(n));
                }
                out.insert(pos, t);
                assert(rest@ =~= trades@.take(n - 1));
            },
        }
    }
    out
}

/// Whether trades are in the order of their entry dates.
pub open spec fn dates_in_order(s: Seq<BacktestTrade>) -> bool {
    forall|i: int, j: int| 0 <= i < j < s.len() ==> !enters_before(s[j], s[i])
}

proof fn lemma_before_not_after(a: Seq<u8>, b: Seq<u8>)
    requires
        bytes_before(a, b),
    ensures
        !bytes_before(b, a),
    decreases a.len(),
{
    if a.len() > 0 && b.len() > 0 && a[0] == b[0] {
        lemma_before_not_after(a.drop_first(), b.drop_first());
    }
}

proof fn lemma_at_or_before_chain(a: Seq<u8>, b: Seq<u8>, c: Seq<u8>)
    requires
        !bytes_before(b, a),
        !bytes_before(c, b),
    ensures
        !bytes_before(c, a),
    decreases a.len(),
{
    if a.len() > 0 && b.len() > 0 && c.len() > 0 && a[0] == b[0] && b[0] == c[0] {
        lemma_at_or_before_chain(a.drop_first(), b.drop_first(), c.drop_first());
    }
}

proof fn lemma_insert_keeps_order(t: BacktestTrade, s: Seq<BacktestTrade>)
    requires
        dates_in_order(s),
    ensures
        dates_in_order(insert_by_date(t, s)),
        insert_by_date(t, s).len() == s.len() + 1,
        insert_by_date(t, s).to_multiset() == s.to_multiset().insert(t),
        forall|i: int|
            0 <= i < s.len() + 1 ==> insert_by_date(t, s)[i] == t || exists|j: int|
                0 <= j < s.len() && #[trigger] insert_by_date(t, s)[i] == s[j],
    decreases s.len(),
{
    broadcast use vstd::seq_lib::group_to_multiset_ensures;

    let r = insert_by_date(t, s);
    if s.len() == 0 || !enters_before(s[0], t) {
        assert(r =~= s.insert(0, t));
        assert forall|i: int, j: int| 0 <= i < j < r.len() implies !enters_before(r[j], r[i]) by {
            if i > 0 {
                assert(r[i] == s[i - 1] && r[j] == s[j - 1]);
            } else {
                assert(r[j] == s[j - 1]);
                if j > 1 {
                    assert(!enters_before(s[j - 1], s[0]));
                    lemma_at_or_before_chain(
                        vstd::utf8::encode_utf8(t.entry_date@),
                        vstd::utf8::encode_utf8(s[0].entry_date@),
                        vstd::utf8::encode_utf8(s[j - 1].entry_date@),
                    );
                }
            }
        }
        assert forall|i: int| 0 <= i < s.len() + 1 implies r[i] == t || exists|j: int|
            0 <= j < s.len() && #[trigger] r[i] == s[j] by {
            if i > 0 {
                assert(r[i] == s[i - 1]);
            }
        }
    } else {
        let rest = s.drop_first();
        let inner = insert_by_date(t, rest);
        assert forall|i: int, j: int| 0 <= i < j < rest.len() implies !enters_before(
            rest[j],
            rest[i],
        ) by {
            assert(rest[i] == s[i + 1] && rest[j] == s[j + 1]);
        }
        lemma_insert_keeps_order(t, rest);
        lemma_before_not_after(
            vstd::utf8::encode_utf8(s[0].entry_date@),
            vstd::utf8::encode_utf8(t.entry_date@),
        );
        assert(r =~= inner.insert(0, s[0]));
        assert forall|i: int, j: int| 0 <= i < j < r.len() implies !enters_before(r[j], r[i]) by {
            assert(r[j] == inner[j - 1]);
            if i > 0 {
                assert(r[i] == inner[i - 1]);
            } else if inner[j - 1] != t {
                let k = choose|k: int| 0 <= k < rest.len() && inner[j - 1] == rest[k];
                assert(rest[k] == s[k + 1]);
            }
        }
        assert forall|i: int| 0 <= i < s.len() + 1 implies r[i] == t || exists|j: int|
            0 <= j < s.len() && #[trigger] r[i] == s[j] by {
            if i == 0 {
                assert(r[0] == s[0]);
            } else {
                assert(r[i] == inner[i - 1]);
                if inner[i - 1] != t {
                    let k = choose|k: int| 0 <= k < rest.len() && inner[i - 1] == rest[k];
                    assert(r[i] == s[k + 1]);
                }
            }
        }
        assert(s =~= rest.insert(0, s[0]));
        assert(r.to_multiset() == inner.to_multiset().insert(s[0]));
        assert(s.to_multiset() == rest.to_multiset().insert(s[0]));
        assert(r.to_multiset() =~= s.to_multiset().insert(t));
    }
}

/// Sorting puts the trades in the order of their entry dates, and loses and adds none.
pub proof fn law_sorting_orders_and_keeps_trades(s: Seq<BacktestTrade>)
    ensures
        dates_in_order(by_entry_date(s)),
        by_entry_date(s).to_multiset() == s.to_multiset(),
        by_entry_date(s).len() == s.len(),
    decreases s.len(),
{
    broadcast use vstd::seq_lib::group_to_multiset_ensures;

    if s.len() > 0 {
        let rest = s.drop_first();
        law_sorting_orders_and_keeps_trades(rest);
        lemma_insert_keeps_order(s[0], by_entry_date(rest));
        assert(s =~= rest.insert(0, s[0]));
    } else {
        assert(by_entry_date(s) =~= s);
    }
}

/// Trades that are in order already stay as they are.
pub proof fn law_sorting_keeps_ordered_trades(s: Seq<BacktestTrade>)
    requires
        dates_in_order(s),
    ensures
        by_entry_date(s) == s,
    decreases s.len(),
{
    if s.len() > 0 {
        let rest = s.drop_first();
        assert forall|i: int, j: int| 0 <= i < j < rest.len() implies !enters_before(
            rest[j],
            rest[i],
        ) by {
            assert(rest[i] == s[i + 1] && rest[j] == s[j + 1]);
        }
        law_sorting_keeps_ordered_trades(rest);
        if rest.len() > 0 {
            assert(rest[0] == s[1]);
        }
        assert(seq![s[0]] + rest =~= s);
    } else {
        assert(by_entry_date(s) =~= s);
    }
}

/// The two parts of sorted trades are in order themselves.
pub proof fn law_parts_of_sorted_trades_are_sorted(s: Seq<BacktestTrade>, cut: int)
    requires
        0 <= cut <= s.len(),
    ensures
        by_entry_date(by_entry_date(s).take(cut)) == by_entry_date(s).take(cut),
        by_entry_date(by_entry_date(s).skip(cut)) == by_entry_date(s).skip(cut),
{
    law_sorting_orders_and_keeps_trades(s);
    let sorted = by_entry_date(s);
    let first = sorted.take(cut);
    let second = sorted.skip(cut);
    assert forall|i: int, j: int| 0 <= i < j < second.len() implies !enters_before(
        second[j],
        second[i],
    ) by {
        assert(second[i] == sorted[cut + i] && second[j] == sorted[cut + j]);
    }
    law_sorting_keeps_ordered_trades(first);
    law_sorting_keeps_ordered_trades(second);
}

/// Whether something of a trade happens on a day: its entry, its exit or a bar.
pub open spec fn touches(t: DatedView, day: i32) -> bool {
    ||| t.entry_day == Some(day)
    ||| t.exit_day == Some(day)
    ||| exists|j: int| 0 <= j < t.closes.len() && (#[trigger] t.closes[j]).0 == day
}

/// Whether something happens on a day.
pub open spec fn eventful(trades: Seq<DatedView>, day: i32) -> bool {
    exists|i: int| 0 <= i < trades.len() && touches(#[trigger] trades[i], day)
}

/// Whether days are in order, each once.
pub open spec fn increasing(days: Seq<i32>) -> bool {
    forall|i: int, j: int| 0 <= i < j < days.len() ==> days[i] < days[j]
}

/// Whether `days` are the days on which something happens, in order.
pub open spec fn is_calendar(days: Seq<i32>, trades: Seq<DatedView>) -> bool {
    &&& increasing(days)
    &&& forall|day: i32| #[trigger] days.contains(day) <==> eventful(trades, day)
}

/// The days on which something happens, in order.
pub open spec fn calendar(trades: Seq<DatedView>) -> Seq<i32> {
    choose|days: Seq<i32>| is_calendar(days, trades)
}

/// There is only one way to put the same days in order.
pub proof fn lemma_increasing_unique(a: Seq<i32>, b: Seq<i32>)
    requires
        increasing(a),
        increasing(b),
        forall|day: i32| a.contains(day) <==> #[trigger] b.contains(day),
    ensures
        a == b,
    decreases a.len(),
{
    if a.len() == 0 {
        if b.len() > 0 {
            assert(b.contains(b[0]));
            assert(a.contains(b[0]));
        }
        assert(a =~= b);
    } else {
        assert(a.contains(a.last()));
        assert(b.contains(a.last()));
        assert(b.contains(b.last()));
        assert(a.contains(b.last()));
        let i = choose|i: int| 0 <= i < a.len() && a[i] == b.last();
        let j = choose|j: int| 0 <= j < b.len() && b[j] == a.last();
        assert(a.last() == b.last());
        let a1 = a.drop_last();
        let b1 = b.drop_last();
        assert forall|day: i32| a1.contains(day) <==> #[trigger] b1.contains(day) by {
            if a1.contains(day) {
                let k = choose|k: int| 0 <= k < a1.len() && a1[k] == day;
                assert(a[k] == day);
                assert(a.contains(day));
                assert(b.contains(day));
                let m = choose|m: int| 0 <= m < b.len() && b[m] == day;
                assert(b1[m] == day);
            }
            if b1.contains(day) {
                let k = choose|k: int| 0 <= k < b1.len() && b1[k] == day;
                assert(b[k] == day);
                assert(b.contains(day));
                assert(a.contains(day));
                let m = choose|m: int| 0 <= m < a.len() && a[m] == day;
                assert(a1[m] == day);
            }
        }
        lemma_increasing_unique(a1, b1);
        assert(a =~= a1.push(a.last()));
        assert(b =~= b1.push(b.last()));
    }
}

/// Puts a day into a calendar.
fn note_day(days: &mut Vec<i32>, day: Option<i32>)
    requires
        increasing(old(days)@),
    ensures
        increasing(final(days)@),
        forall|d: i32| #[trigger]
            final(days)@.contains(d) <==> old(days)@.contains(d) || day == Some(d),
{
    if let Some(day) = day {
        let mut pos: usize = 0;
        while pos < days.len() && days[pos] < day
            invariant
                pos <= days@.len(),
                days@ == old(days)@,
                forall|j: int| 0 <= j < pos ==> days@[j] < day,
            ensures
                pos <= days@.len(),
                days@ == old(days)@,
                forall|j: int| 0 <= j < pos ==> days@[j] < day,
                pos == days@.len() || days@[pos as int] >= day,
            decreases days@.len() - pos,
        {
            pos = pos + 1;
        }
        if pos < days.len() && days[pos] == day {
            assert(days@[pos as int] == day);
            return;
        }
        days.insert(pos, day);
        let ghost before = old(days)@;
        assert forall|d: i32| #[trigger] days@.contains(d) <==> before.contains(d) || day == d by {
            if before.contains(d) {
                let k = choose|k: int| 0 <= k < before.len() && before[k] == d;
                assert(days@[if k < pos { k } else { k + 1 }] == d);
            }
            if day == d {
                assert(days@[pos as int] == d);
            }
            if days@.contains(d) {
                let k = choose|k: int| 0 <= k < days@.len() && days@[k] == d;
                if k < pos {
                    assert(before[k] == d);
                } else if k > pos {
                    assert(before[k - 1] == d);
                }
            }
        }
    }
}

/// The calendar of trades.
pub fn calendar_of(trades: &Vec<DatedTrade>) -> (r: Vec<i32>)
    ensures
        is_calendar(r@, sim::dated_views(trades@)),
        r@ == calendar(sim::dated_views(trades@)),
{
    let ghost ts = sim::dated_views(trades@);
    let mut days: Vec<i32> = Vec::new();
    let mut i: usize = 0;
    while i < trades.len()
        invariant
            ts == sim::dated_views(trades@),
            i <= trades@.len(),
            increasing(days@),
            forall|d: i32| #[trigger] days@.contains(d) <==> eventful(ts.take(i as int), d),
        decreases trades@.len() - i,
    {
        let t = &trades[i];
        let ghost before = days@;
        note_day(&mut days, t.entry_day);
        note_day(&mut days, t.exit_day);
        let ghost ends = days@;
        let mut j: usize = 0;
        while j < t.closes.len()
            invariant
                j <= t.closes@.len(),
                increasing(days@),
                forall|d: i32| #[trigger]
                    days@.contains(d) <==> ends.contains(d) || exists|k: int|
                        0 <= k < j && (#[trigger] t.closes@[k]).0 == d,
            decreases t.closes@.len() - j,
        {
            let ghost earlier = days@;
            note_day(&mut days, Some(t.closes[j].0));
            assert forall|d: i32| #[trigger]
                days@.contains(d) <==> ends.contains(d) || exists|k: int|
                    0 <= k < j + 1 && (#[trigger] t.closes@[k]).0 == d by {
                if earlier.contains(d) {
                } else if days@.contains(d) {
                    assert(t.closes@[j as int].0 == d);
                }
            }
            j = j + 1;
        }
        let ghost seen = ts.take(i + 1);
        assert forall|d: i32| #[trigger] days@.contains(d) <==> eventful(seen, d) by {
            assert(seen[i as int] == t@);
            assert(t@.closes == t.closes@);
            if touches(t@, d) && t.entry_day != Some(d) && t.exit_day != Some(d) {
                let k = choose|k: int| 0 <= k < t@.closes.len() && (#[trigger] t@.closes[k]).0 == d;
                assert(t.closes@[k].0 == d);
            }
            if days@.contains(d) && !ends.contains(d) {
                let k = choose|k: int|
                    0 <= k < t.closes@.len() && (#[trigger] t.closes@[k]).0 == d;
                assert(t@.closes[k].0 == d);
            }
            assert(days@.contains(d) <==> before.contains(d) || touches(t@, d));
            if before.contains(d) {
                let k = choose|k: int|
                    0 <= k < ts.take(i as int).len() && touches(
                        #[trigger] ts.take(i as int)[k],
                        d,
                    );
                assert(seen[k] == ts.take(i as int)[k]);
            }
            if eventful(seen, d) {
                let k = choose|k: int| 0 <= k < seen.len() && touches(#[trigger] seen[k], d);
                if k < i {
                    assert(ts.take(i as int)[k] == seen[k]);
                    assert(before.contains(d));
                }
            }
        }
        i = i + 1;
    }
    proof {
        assert(ts.take(i as int) =~= ts);
        assert(is_calendar(days@, ts));
        let chosen = calendar(ts);
        assert(is_calendar(chosen, ts));
        assert forall|d: i32| days@.contains(d) <==> #[trigger] chosen.contains(d) by {
            assert(days@.contains(d) <==> eventful(ts, d));
        }
        lemma_increasing_unique(days@, chosen);
    }
    days
}

/// One byte sequence comes before another exactly where they first differ in a smaller byte, or
/// where it ends and the other goes on.
pub proof fn law_bytes_are_ordered_like_words(a: Seq<u8>, b: Seq<u8>, common: int)
    requires
        0 <= common <= a.len(),
        common <= b.len(),
        forall|i: int| 0 <= i < common ==> a[i] == b[i],
        common == a.len() || common == b.len() || a[common] != b[common],
    ensures
        bytes_before(a, b) <==> {
            ||| common == a.len() < b.len()
            ||| common < a.len() && common < b.len() && a[common] < b[common]
        },
    decreases common,
{
    if common > 0 {
        assert(a[0] == b[0]);
        let x = a.drop_first();
        let y = b.drop_first();
        assert forall|i: int| 0 <= i < common - 1 implies x[i] == y[i] by {
            assert(a[i + 1] == b[i + 1]);
        }
        law_bytes_are_ordered_like_words(x, y, common - 1);
    }
}

/// A trade enters before another by the bytes of the two entry dates as they are written.
pub proof fn law_trades_are_ordered_by_entry_date(a: BacktestTrade, b: BacktestTrade)
    ensures
        enters_before(a, b) <==> bytes_before(
            vstd::utf8::encode_utf8(a.entry_date@),
            vstd::utf8::encode_utf8(b.entry_date@),
        ),
        a.entry_date@ == b.entry_date@ ==> !enters_before(a, b),
{
    if a.entry_date@ == b.entry_date@ {
        let s = vstd::utf8::encode_utf8(a.entry_date@);
        law_bytes_are_ordered_like_words(s, s, s.len() as int);
    }
}

/// The trades of a date, in their order.
pub open spec fn of_date(s: Seq<BacktestTrade>, date: Seq<char>) -> Seq<BacktestTrade>
    decreases s.len(),
{
    if s.len() == 0 {
        seq![]
    } else if s[0].entry_date@ == date {
        seq![s[0]] + of_date(s.drop_first(), date)
    } else {
        of_date(s.drop_first(), date)
    }
}

proof fn lemma_of_date_front(t: BacktestTrade, s: Seq<BacktestTrade>, date: Seq<char>)
    ensures
        of_date(seq![t] + s, date) == (if t.entry_date@ == date {
            seq![t] + of_date(s, date)
        } else {
            of_date(s, date)
        }),
{
    assert((seq![t] + s).drop_first() =~= s);
}

proof fn lemma_insert_keeps_dates(t: BacktestTrade, s: Seq<BacktestTrade>, date: Seq<char>)
    ensures
        of_date(insert_by_date(t, s), date) == of_date(seq![t] + s, date),
    decreases s.len(),
{
    if s.len() > 0 && enters_before(s[0], t) {
        let rest = s.drop_first();
        law_trades_are_ordered_by_entry_date(s[0], t);
        lemma_insert_keeps_dates(t, rest, date);
        lemma_of_date_front(s[0], insert_by_date(t, rest), date);
        lemma_of_date_front(t, rest, date);
        lemma_of_date_front(t, s, date);
        assert(seq![s[0]] + rest =~= s);
        lemma_of_date_front(s[0], rest, date);
    }
}

/// Sorting leaves the trades of one date in the order that they were given in.
pub proof fn law_sorting_keeps_the_order_of_a_date(s: Seq<BacktestTrade>, date: Seq<char>)
    ensures
        of_date(by_entry_date(s), date) == of_date(s, date),
    decreases s.len(),
{
    if s.len() > 0 {
        let rest = s.drop_first();
        law_sorting_keeps_the_order_of_a_date(rest, date);
        lemma_insert_keeps_dates(s[0], by_entry_date(rest), date);
        lemma_of_date_front(s[0], by_entry_date(rest), date);
        lemma_of_date_front(s[0], rest, date);
        assert(seq![s[0]] + rest =~= s);
    }
}

/// A calendar has a day exactly where some trade enters, exits or has a bar on it.
pub proof fn law_calendars_hold_every_dated_day(
    days: Seq<i32>,
    trades: Seq<DatedView>,
    day: i32,
)
    requires
        is_calendar(days, trades),
    ensures
        days.contains(day) <==> exists|i: int|
            0 <= i < trades.len() && {
                let t = #[trigger] trades[i];
                ||| t.entry_day == Some(day)
                ||| t.exit_day == Some(day)
                ||| exists|j: int| 0 <= j < t.closes.len() && (#[trigger] t.closes[j]).0 == day
            },
        forall|i: int, j: int| 0 <= i < j < days.len() ==> days[i] < days[j],
{
    assert(days.contains(day) <==> eventful(trades, day));
    if eventful(trades, day) {
        let i = choose|i: int| 0 <= i < trades.len() && touches(#[trigger] trades[i], day);
        assert(touches(trades[i], day));
    }
}

} // verus!
