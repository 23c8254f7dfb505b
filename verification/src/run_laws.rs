//! What holds of every report of a simulation.

use vstd::prelude::*;

use crate::book;
use crate::book::{Book, DatedView, EventView};
use crate::book_laws;
use crate::clock;
use crate::executor;
use crate::executor::TradingMode;
use crate::executor_laws;
use crate::fixed;
use crate::order;
use crate::sim;
use crate::sim::{
    BacktestTrade, DatedTrade, OpenPos, SimError, SimReport, Simulator, SlipKind,
};
use crate::sim_laws;
use crate::sim_laws::{entry_passed, numbers};
use crate::state::CountersView;

verus! {

/// A split cuts in proportion: of `n` trades and a fraction in millionths, held between a tenth
/// and nine tenths, the first part has as many trades as the fraction of `n` has whole ones. So
/// in the middle the parts differ by one trade at most, and one trade more makes the first part
/// larger by one at most and never smaller.
pub proof fn law_a_split_is_in_proportion(n: int, fraction: int)
    requires
        n >= 0,
    ensures
        ({
            let cut = sim::split_at(n, fraction);
            let held = if fraction < 100_000 {
                100_000
            } else if fraction > 900_000 {
                900_000
            } else {
                fraction
            };
            &&& cut * 1_000_000 <= n * held < (cut + 1) * 1_000_000
            &&& 0 <= cut <= n
            &&& fraction == 500_000 ==> 0 <= n - 2 * cut <= 1
            &&& cut <= sim::split_at(n + 1, fraction) <= cut + 1
        }),
{
    let held = if fraction < 100_000 {
        100_000
    } else if fraction > 900_000 {
        900_000
    } else {
        fraction
    };
    assert(0 <= n * held <= n * 900_000) by (nonlinear_arith)
        requires
            n >= 0,
            0 <= held <= 900_000,
    ;
    assert((n + 1) * held == n * held + held) by (nonlinear_arith);
    assert(sim::split_at(n, fraction) == n * held / 1_000_000);
    assert(sim::split_at(n + 1, fraction) == (n + 1) * held / 1_000_000);
    if fraction == 500_000 {
        assert(n * held == n * 500_000);
    }
}

/// A split run replays the earlier trades and the later ones apart: both parts are runs of their
/// own, labelled "train" and "test", with every trade in one of them, the first in proportion to
/// the fraction, and no trade of the second entering before one of the first.
#[verifier::rlimit(40)]
pub proof fn law_split_runs_are_two_runs(
    sim: Simulator,
    trades: Seq<BacktestTrade>,
    fraction: int,
    train: SimReport,
    test: SimReport,
)
    requires
        sim::replays_split(sim, trades, fraction, Ok((train, test))),
    ensures
        ({
            let held = if fraction < 100_000 {
                100_000
            } else if fraction > 900_000 {
                900_000
            } else {
                fraction
            };
            let sorted = order::by_entry_date(trades);
            let k = train.total_signals as int;
            &&& k + test.total_signals == trades.len()
            &&& k * 1_000_000 <= trades.len() * held < (k + 1) * 1_000_000
            &&& fraction == 500_000 ==> k <= test.total_signals <= k + 1
            &&& sim::replays(sim, sorted.take(k), "train"@, Ok(train))
            &&& sim::replays(sim, sorted.skip(k), "test"@, Ok(test))
            &&& forall|i: int, j: int|
                0 <= i < k <= j < sorted.len() ==> !order::enters_before(sorted[j], sorted[i])
        }),
{
    let sorted = order::by_entry_date(trades);
    order::law_sorting_orders_and_keeps_trades(trades);
    law_a_split_is_in_proportion(trades.len() as int, fraction);
    let cut = sim::split_at(sorted.len() as int, fraction);
    order::law_parts_of_sorted_trades_are_sorted(trades, cut);
}

/// A split run fails exactly where one of its parts does.
#[verifier::rlimit(40)]
pub proof fn law_split_runs_fail_where_a_part_does(
    sim: Simulator,
    trades: Seq<BacktestTrade>,
    fraction: int,
    whole: Result<(SimReport, SimReport), SimError>,
    train: Result<SimReport, SimError>,
    test: Result<SimReport, SimError>,
    k: int,
)
    requires
        0 <= k <= trades.len(),
        ({
            let held = if fraction < 100_000 {
                100_000
            } else if fraction > 900_000 {
                900_000
            } else {
                fraction
            };
            k * 1_000_000 <= trades.len() * held < (k + 1) * 1_000_000
        }),
        sim::replays_split(sim, trades, fraction, whole),
        sim::replays(sim, order::by_entry_date(trades).take(k), "train"@, train),
        sim::replays(sim, order::by_entry_date(trades).skip(k), "test"@, test),
    ensures
        whole is Ok <==> train is Ok && test is Ok,
{
    order::law_sorting_orders_and_keeps_trades(trades);
    assert(k == sim::split_at(trades.len() as int, fraction)) by {
        law_a_split_is_in_proportion(trades.len() as int, fraction);
    }
    assert(order::by_entry_date(order::by_entry_date(trades).take(k)) == order::by_entry_date(
        trades,
    ).take(k)) by {
        order::law_parts_of_sorted_trades_are_sorted(trades, k);
    }
    assert(order::by_entry_date(order::by_entry_date(trades).skip(k)) == order::by_entry_date(
        trades,
    ).skip(k)) by {
        order::law_parts_of_sorted_trades_are_sorted(trades, k);
    }
}

/// The order in which trades are given does not matter to a run, as far as their entry dates
/// tell them apart: a run of the sorted trades is the same run.
pub proof fn law_runs_sort_their_trades(
    sim: Simulator,
    trades: Seq<BacktestTrade>,
    label: Seq<char>,
    r: Result<SimReport, SimError>,
)
    ensures
        sim::replays(sim, trades, label, r) <==> sim::replays(
            sim,
            order::by_entry_date(trades),
            label,
            r,
        ),
{
    order::law_sorting_orders_and_keeps_trades(trades);
    order::law_sorting_keeps_ordered_trades(order::by_entry_date(trades));
}

/// How many trades have an entry date that can be read.
pub open spec fn readable(trades: Seq<BacktestTrade>) -> nat
    decreases trades.len(),
{
    if trades.len() == 0 {
        0
    } else {
        readable(trades.drop_first()) + if clock::parsed_day(
            trades[0].entry_date@,
            "%Y-%m-%d"@,
        ) is Some {
            1nat
        } else {
            0nat
        }
    }
}

proof fn lemma_readable_front(t: BacktestTrade, s: Seq<BacktestTrade>)
    ensures
        readable(seq![t] + s) == readable(s) + readable(seq![t]),
{
    assert((seq![t] + s).drop_first() =~= s);
    assert(seq![t].drop_first() =~= seq![]);
    assert(readable(seq![t]) == readable(seq![t].drop_first()) + readable(seq![t]));
}

proof fn lemma_readable_push(s: Seq<BacktestTrade>, t: BacktestTrade)
    ensures
        readable(s.push(t)) == readable(s) + readable(seq![t]),
    decreases s.len(),
{
    if s.len() == 0 {
        assert(s.push(t) =~= seq![t]);
    } else {
        lemma_readable_push(s.drop_first(), t);
        assert(s.push(t).drop_first() =~= s.drop_first().push(t));
    }
}

proof fn lemma_readable_insert(t: BacktestTrade, s: Seq<BacktestTrade>)
    ensures
        readable(order::insert_by_date(t, s)) == readable(s) + readable(seq![t]),
    decreases s.len(),
{
    if s.len() == 0 || !order::enters_before(s[0], t) {
        lemma_readable_front(t, s);
    } else {
        let rest = s.drop_first();
        lemma_readable_insert(t, rest);
        lemma_readable_front(s[0], order::insert_by_date(t, rest));
        lemma_readable_front(s[0], rest);
        assert(seq![s[0]] + rest =~= s);
    }
}

proof fn lemma_readable_sorted(s: Seq<BacktestTrade>)
    ensures
        readable(order::by_entry_date(s)) == readable(s),
    decreases s.len(),
{
    if s.len() > 0 {
        let rest = s.drop_first();
        lemma_readable_sorted(rest);
        lemma_readable_insert(s[0], order::by_entry_date(rest));
        lemma_readable_front(s[0], rest);
        assert(seq![s[0]] + rest =~= s);
    }
}

proof fn lemma_readable_is_enterable(s: Seq<BacktestTrade>, k: nat)
    requires
        k <= s.len(),
    ensures
        sim_laws::enterable(book::dated(s), k) == readable(s.take(k as int)),
    decreases k,
{
    if k == 0 {
        assert(s.take(0) =~= seq![]);
    } else {
        lemma_readable_is_enterable(s, (k - 1) as nat);
        assert(s.take(k as int) =~= s.take(k - 1).push(s[k - 1]));
        lemma_readable_push(s.take(k - 1), s[k - 1]);
        let one = seq![s[k - 1]];
        assert(one.drop_first() =~= seq![]);
        assert(readable(one.drop_first()) == 0);
        assert(book::dated(s)[k - 1] == book::with_dates(s[k - 1]));
    }
}

/// The account after the last close of a log.
pub open spec fn after_last_close(events: Seq<EventView>, start: int) -> int
    decreases events.len(),
{
    if events.len() == 0 {
        start
    } else if events.last().kind == "close"@ {
        events.last().equity_after
    } else {
        after_last_close(events.drop_last(), start)
    }
}

proof fn lemma_last_close_push(events: Seq<EventView>, e: EventView, start: int)
    ensures
        after_last_close(events.push(e), start) == (if e.kind == "close"@ {
            e.equity_after
        } else {
            after_last_close(events, start)
        }),
{
    assert(events.push(e).drop_last() =~= events);
}

proof fn lemma_kinds_differ()
    ensures
        "close"@ != "decision"@,
        "close"@ != "killswitch"@,
{
    reveal_strlit("close");
    reveal_strlit("decision");
    reveal_strlit("killswitch");
    assert("close"@.len() == 5);
    assert("decision"@.len() == 8);
    assert("killswitch"@.len() == 10);
}

proof fn lemma_exits_keep_account(
    sim: Simulator,
    trades: Seq<DatedView>,
    b: Book,
    open: Seq<OpenPos>,
    day: i32,
    date: Seq<char>,
    k: nat,
    start: int,
)
    requires
        b.cash == after_last_close(b.events, start),
    ensures
        book::exits(sim, trades, b, open, day, date, k) matches Some(c) ==> c.cash
            == after_last_close(c.events, start),
    decreases k,
{
    if k > 0 {
        lemma_exits_keep_account(sim, trades, b, open, day, date, (k - 1) as nat, start);
        if let Some(x) = book::exits(sim, trades, b, open, day, date, (k - 1) as nat) {
            if let Some(c) = book::exits(sim, trades, b, open, day, date, k) {
                if open[k - 1].exit_day == day {
                    lemma_last_close_push(x.events, c.events.last(), start);
                    assert(c.events == x.events.push(c.events.last()));
                }
            }
        }
    }
}

proof fn lemma_entries_keep_account(
    sim: Simulator,
    trades: Seq<DatedView>,
    b: Book,
    day: i32,
    date: Seq<char>,
    k: nat,
    start: int,
)
    requires
        b.cash == after_last_close(b.events, start),
    ensures
        book::entries(sim, trades, b, day, date, k) matches Some(c) ==> c.cash
            == after_last_close(c.events, start),
    decreases k,
{
    if k > 0 {
        lemma_kinds_differ();
        lemma_entries_keep_account(sim, trades, b, day, date, (k - 1) as nat, start);
        if let Some(x) = book::entries(sim, trades, b, day, date, (k - 1) as nat) {
            if let Some(c) = book::entered(sim, trades, x, k - 1, day, date) {
                lemma_last_close_push(x.events, c.events.last(), start);
                assert(c.events == x.events.push(c.events.last()));
            }
        }
    }
}

proof fn lemma_days_keep_account(
    sim: Simulator,
    trades: Seq<DatedView>,
    days: Seq<(i32, Seq<char>)>,
    k: nat,
)
    ensures
        book::after_days(sim, trades, days, k) matches Some(c) ==> c.cash == after_last_close(
            c.events,
            sim.starting_equity as int,
        ),
    decreases k,
{
    let start = sim.starting_equity as int;
    if k > 0 {
        lemma_kinds_differ();
        lemma_days_keep_account(sim, trades, days, (k - 1) as nat);
        if let Some(b) = book::after_days(sim, trades, days, (k - 1) as nat) {
            let day = days[k - 1].0;
            let date = days[k - 1].1;
            if let Some(v) = book::valued(sim, trades, b, day, date) {
                if v.events != b.events {
                    lemma_last_close_push(b.events, v.events.last(), start);
                    assert(v.events == b.events.push(v.events.last()));
                }
                lemma_exits_keep_account(sim, trades, v, v.open, day, date, v.open.len(), start);
                if let Some(x) = book::exits(sim, trades, v, v.open, day, date, v.open.len()) {
                    lemma_entries_keep_account(sim, trades, x, day, date, trades.len(), start);
                }
            }
        }
    }
}

proof fn lemma_wind_up_keeps_account(
    trades: Seq<DatedView>,
    b: Book,
    date: Seq<char>,
    k: nat,
    start: int,
)
    requires
        b.cash == after_last_close(b.events, start),
    ensures
        book::wound_up(trades, b, date, k) matches Some(c) ==> c.cash == after_last_close(
            c.events,
            start,
        ),
    decreases k,
{
    if k > 0 {
        lemma_wind_up_keeps_account(trades, b, date, (k - 1) as nat, start);
        if let Some(x) = book::wound_up(trades, b, date, (k - 1) as nat) {
            if let Some(c) = book::wound_up(trades, b, date, k) {
                lemma_last_close_push(x.events, c.events.last(), start);
                assert(c.events == x.events.push(c.events.last()));
            }
        }
    }
}

/// A report accounts for its run: it names what was run, answers every signal whose date can be
/// read once, logs a decision for each answer and a close for each fill, ends with the account
/// that the last close left, and gives the return on what it started with to the nearest
/// hundredth of a percent.
#[verifier::rlimit(40)]
pub proof fn law_reports_account_for_their_run(
    sim: Simulator,
    trades: Seq<BacktestTrade>,
    label: Seq<char>,
    report: SimReport,
)
    requires
        sim::replays(sim, trades, label, Ok(report)),
    ensures
        report.label@ == label,
        report.starting_equity == sim.starting_equity,
        report.slippage_bps == sim.slippage_bps,
        report.total_signals == trades.len(),
        report.orders_filled + report.orders_rejected == readable(trades),
        report.orders_resized <= report.orders_filled,
        sim_laws::count_kind(report.log(), "decision"@) == readable(trades),
        sim_laws::count_kind(report.log(), "close"@) == report.orders_filled,
        sim_laws::count_kind(report.log(), "killswitch"@) <= 1,
        sim_laws::count_kind(report.log(), "killswitch"@) == 1 ==> report.killswitch_tripped,
        report.final_equity == after_last_close(report.log(), sim.starting_equity as int),
        report.max_drawdown_pct >= 0,
        report.max_unrealized_drawdown_pct >= 0,
        sim.starting_equity == 0 <==> report.return_pct is None,
        sim.starting_equity > 0 ==> (report.return_pct matches Some(r) && {
            let start = sim.starting_equity;
            &&& r % 10_000 == 0
            &&& -5_000 * start <= r * start - (report.final_equity - start) * 100_000_000
                <= 5_000 * start
        }),
{
    let sorted = order::by_entry_date(trades);
    let ts = book::dated(sorted);
    let days = book::days_of(ts);
    order::law_sorting_orders_and_keeps_trades(trades);
    sim_laws::law_every_signal_is_answered(sim, sorted);
    lemma_readable_is_enterable(sorted, sorted.len());
    assert(sorted.take(sorted.len() as int) =~= sorted);
    lemma_readable_sorted(trades);
    sim_laws::law_log_accounts_for_every_order(sim, ts, days);
    lemma_days_keep_account(sim, ts, days, days.len());
    sim_laws::law_drawdowns_only_grow(sim, ts, days, days.len(), days.len());
    let b = book::after_days(sim, ts, days, days.len())->0;
    lemma_wind_up_keeps_account(
        ts,
        b,
        days.last().1,
        b.open.len(),
        sim.starting_equity as int,
    );
    lemma_wind_up_keeps_drawdowns(ts, b, days.last().1, b.open.len());
    book_laws::law_returns_are_measured_against_the_start(
        sim.starting_equity as int,
        report.final_equity as int,
    );
}

proof fn lemma_wind_up_keeps_drawdowns(
    trades: Seq<DatedView>,
    b: Book,
    date: Seq<char>,
    k: nat,
)
    ensures
        book::wound_up(trades, b, date, k) matches Some(c) ==> {
            &&& c.max_dd == b.max_dd
            &&& c.max_unrealized_dd == b.max_unrealized_dd
            &&& c.counters == b.counters
            &&& c.filled == b.filled
            &&& c.rejected == b.rejected
            &&& c.resized == b.resized
        },
    decreases k,
{
    if k > 0 {
        lemma_wind_up_keeps_drawdowns(trades, b, date, (k - 1) as nat);
    }
}

/// A report shows the books that its run ended in, and its log is their log, line by line.
pub proof fn law_reports_show_the_books(
    sim: Simulator,
    trades: Seq<BacktestTrade>,
    label: Seq<char>,
    r: Result<SimReport, SimError>,
)
    requires
        sim::replays(sim, trades, label, r),
    ensures
        r is Ok <==> book::simulated(sim, order::by_entry_date(trades)) is Some,
        r matches Ok(report) ==> {
            let b = book::simulated(sim, order::by_entry_date(trades))->0;
            &&& report.final_equity == b.cash
            &&& report.orders_filled == b.filled
            &&& report.orders_rejected == b.rejected
            &&& report.orders_resized == b.resized
            &&& report.killswitch_tripped == b.counters.killswitch_tripped
            &&& report.max_drawdown_pct == b.max_dd
            &&& report.max_unrealized_drawdown_pct == b.max_unrealized_dd
            &&& report.events@.len() == b.events.len()
            &&& forall|i: int|
                0 <= i < report.events@.len() ==> {
                    let e = #[trigger] report.events@[i];
                    &&& e.kind@ == b.events[i].kind
                    &&& e.date@ == b.events[i].date
                    &&& e.detail@ == b.events[i].detail
                    &&& e.equity_after == b.events[i].equity_after
                    &&& e.symbol is Some <==> b.events[i].symbol is Some
                    &&& e.symbol matches Some(s) ==> b.events[i].symbol == Some(s@)
                }
        },
{
    if let Ok(report) = r {
        let b = book::simulated(sim, order::by_entry_date(trades))->0;
        assert forall|i: int| 0 <= i < report.events@.len() implies (
        #[trigger] report.events@[i])@ == b.events[i] by {
            assert(report.log()[i] == report.events@[i]@);
        }
    }
}

/// A run of nothing ends where it started: no signals, no events, no return.
pub proof fn law_nothing_comes_of_nothing(
    sim: Simulator,
    label: Seq<char>,
    r: Result<SimReport, SimError>,
)
    requires
        sim::replays(sim, seq![], label, r),
    ensures
        r matches Ok(report) && {
            &&& report.final_equity == sim.starting_equity
            &&& report.total_signals == 0
            &&& report.orders_filled == 0
            &&& report.orders_rejected == 0
            &&& report.events@.len() == 0
            &&& !report.killswitch_tripped
            &&& report.max_drawdown_pct == 0
            &&& report.max_unrealized_drawdown_pct == 0
        },
{
    let none = Seq::<BacktestTrade>::empty();
    assert(order::by_entry_date(none) =~= none);
    let ts = book::dated(none);
    assert(ts =~= seq![]);
    sim_laws::law_calendar_is_complete(ts);
    let days = order::calendar(ts);
    if days.len() > 0 {
        assert(days.contains(days[0]));
        assert(order::eventful(ts, days[0]));
    }
    assert(book::days_of(ts).len() == 0);
    let b = book::after_days(sim, ts, book::days_of(ts), 0)->0;
    assert(b.open.len() == 0);
    let report = r->Ok_0;
    assert(report.log() == b.events);
    assert(report.log().len() == report.events@.len());
}

/// Whether books are the opening ones but for the date.
spec fn still_fresh(sim: Simulator, x: Book) -> bool {
    let o = book::opening(sim);
    x == (Book { counters: CountersView { utc_date: x.counters.utc_date, ..o.counters }, ..o })
}

/// Whether books are those of one trade that was decided on when nothing else was: filled with
/// the given shares, or refused.
spec fn one_decided(sim: Simulator, t: DatedView, x: Book, qty: int, notional: int) -> bool {
    let start = sim.starting_equity as int;
    if notional >= t.trade.entry {
        let p = book::position(sim, t, 0, qty, notional, 0);
        &&& x.filled == 1
        &&& x.rejected == 0
        &&& book::prices_fit(sim, t.trade)
        &&& x.cash + sim_laws::planned(seq![t], x.open) == start + book::realized(seq![t], p)
    } else {
        &&& x.filled == 0
        &&& x.rejected == 1
        &&& x.cash == start
        &&& x.open.len() == 0
    }
}

proof fn lemma_fresh_day(
    sim: Simulator,
    t: DatedView,
    x: Book,
    day: i32,
    date: Seq<char>,
)
    requires
        still_fresh(sim, x),
        sim.starting_equity > 0,
        sim.caps.daily_drawdown_killswitch_pct < 0,
    ensures
        ({
            let v = book::valued(sim, seq![t], x, day, date);
            &&& v matches Some(v) && still_fresh(sim, v) && v.counters.utc_date == date
            &&& book::exits(sim, seq![t], v->0, v->0.open, day, date, 0) == v
        }),
{
    let ts = seq![t];
    let open = x.open.map_values(|p: OpenPos| book::marked(ts, p, day));
    assert(open =~= seq![]);
    let start = sim.starting_equity as int;
    assert(book::total_unrealized(ts, open) == 0);
    executor::law_pnl_threshold_is_exact(
        start,
        start,
        sim.caps.daily_drawdown_killswitch_pct as int,
    );
    assert(sim.caps.daily_drawdown_killswitch_pct * start < 0) by (nonlinear_arith)
        requires
            start > 0,
            sim.caps.daily_drawdown_killswitch_pct < 0,
    ;
    assert(fixed::percent2(0, start) == 0) by {
        fixed::lemma_floor_at_least(5_000 * start, 10_000 * start, 0);
        fixed::lemma_floor_at_least(5_000 * start, 10_000 * start, 1);
    }
    let v = book::valued(sim, ts, x, day, date)->0;
    assert(v.open =~= seq![]);
}

#[verifier::rlimit(40)]
proof fn lemma_fresh_signal(
    sim: Simulator,
    t: DatedView,
    x: Book,
    day: i32,
    date: Seq<char>,
    notional: int,
)
    requires
        still_fresh(sim, x),
        x.counters.utc_date == date,
        book::mode_of(sim) is Standard,
        sim.starting_equity > 0,
        20 * notional <= sim.starting_equity < 20 * (notional + 1),
        notional > 0,
        t.trade.entry > 0,
        book::entered(sim, seq![t], x, 0, day, date) is Some,
    ensures
        one_decided(
            sim,
            t,
            book::entered(sim, seq![t], x, 0, day, date)->0,
            executor::share_quantity(notional, t.trade.entry as int),
            notional,
        ),
{
    let start = sim.starting_equity as int;
    let c = executor::counters_for(x.counters, date, x.cash);
    assert(seq![t][0] == t);
    executor_laws::law_standard_mode_sends_what_fits(c, start, t.trade.entry as int, notional);
    let qty = executor::share_quantity(notional, t.trade.entry as int);
    if notional >= t.trade.entry {
        let p = book::position(sim, t, 0, qty, notional, day);
        let y = book::entered(sim, seq![t], x, 0, day, date)->0;
        assert(y.open == x.open.push(p));
        assert(y.open.drop_last() =~= seq![]);
        assert(sim_laws::planned(seq![t], y.open.drop_last()) == 0);
    }
}

#[verifier::rlimit(40)]
proof fn lemma_decided_day(
    sim: Simulator,
    t: DatedView,
    x: Book,
    qty: int,
    notional: int,
    day: i32,
    date: Seq<char>,
)
    requires
        one_decided(sim, t, x, qty, notional),
        t.entry_day != Some(day),
    ensures
        book::day_step(sim, seq![t], x, day, date) matches Some(c) ==> one_decided(
            sim,
            t,
            c,
            qty,
            notional,
        ),
{
    let ts = seq![t];
    sim_laws::law_marking_and_closing_keep_value(sim, ts, x, day, date);
    if let Some(v) = book::valued(sim, ts, x, day, date) {
        lemma_exits_answer_nothing(sim, ts, v, v.open, day, date, v.open.len());
        if let Some(y) = book::exits(sim, ts, v, v.open, day, date, v.open.len()) {
            assert(book::entries(sim, ts, y, day, date, 0) == Some(y));
            assert(book::entries(sim, ts, y, day, date, 1) == Some(y));
            if v.open.len() == 0 {
                assert(y.open.len() == 0);
            }
        }
    }
}

proof fn lemma_exits_answer_nothing(
    sim: Simulator,
    trades: Seq<DatedView>,
    b: Book,
    open: Seq<OpenPos>,
    day: i32,
    date: Seq<char>,
    k: nat,
)
    ensures
        book::exits(sim, trades, b, open, day, date, k) matches Some(c) ==> {
            &&& c.filled == b.filled
            &&& c.rejected == b.rejected
        },
    decreases k,
{
    if k > 0 {
        lemma_exits_answer_nothing(sim, trades, b, open, day, date, (k - 1) as nat);
    }
}

proof fn lemma_entry_passes(t: DatedView, days: Seq<(i32, Seq<char>)>, k: int)
    requires
        0 < k <= days.len(),
        order::increasing(numbers(days)),
    ensures
        entry_passed(t, days, k) <==> entry_passed(t, days, k - 1) || t.entry_day == Some(
            days[k - 1].0,
        ),
        t.entry_day == Some(days[k - 1].0) ==> !entry_passed(t, days, k - 1),
{
    if t.entry_day == Some(days[k - 1].0) && entry_passed(t, days, k - 1) {
        let j = choose|j: int| 0 <= j < k - 1 && t.entry_day == Some((#[trigger] days[j]).0);
        assert(numbers(days)[j] < numbers(days)[k - 1]);
    }
    if entry_passed(t, days, k) {
        let j = choose|j: int| 0 <= j < k && t.entry_day == Some((#[trigger] days[j]).0);
        assert(t.entry_day == Some(days[j].0));
    }
}

#[verifier::rlimit(40)]
proof fn lemma_day_of_fresh_books(
    sim: Simulator,
    t: DatedView,
    x: Book,
    day: i32,
    date: Seq<char>,
    notional: int,
)
    requires
        still_fresh(sim, x),
        book::mode_of(sim) is Standard,
        sim.starting_equity > 0,
        sim.caps.daily_drawdown_killswitch_pct < 0,
        20 * notional <= sim.starting_equity < 20 * (notional + 1),
        notional > 0,
        t.trade.entry > 0,
    ensures
        book::day_step(sim, seq![t], x, day, date) matches Some(c) ==> if t.entry_day == Some(
            day,
        ) {
            one_decided(
                sim,
                t,
                c,
                executor::share_quantity(notional, t.trade.entry as int),
                notional,
            )
        } else {
            still_fresh(sim, c)
        },
{
    let ts = seq![t];
    lemma_fresh_day(sim, t, x, day, date);
    let v = book::valued(sim, ts, x, day, date)->0;
    assert(v.open.len() == 0);
    book_laws::law_a_day_is_its_three_parts(sim, ts, x, day, date);
    book_laws::law_signals_are_taken_one_by_one(sim, ts, v, day, date, 0);
    assert(ts[0] == t);
    assert(ts.len() == 1);
    if t.entry_day == Some(day) && book::entered(sim, ts, v, 0, day, date) is Some {
        lemma_fresh_signal(sim, t, v, day, date, notional);
    }
}

#[verifier::rlimit(40)]
proof fn lemma_one_trade_after_days(
    sim: Simulator,
    t: DatedView,
    days: Seq<(i32, Seq<char>)>,
    notional: int,
    k: nat,
)
    requires
        order::increasing(numbers(days)),
        k <= days.len(),
        book::mode_of(sim) is Standard,
        sim.starting_equity > 0,
        sim.caps.daily_drawdown_killswitch_pct < 0,
        20 * notional <= sim.starting_equity < 20 * (notional + 1),
        notional > 0,
        t.trade.entry > 0,
    ensures
        book::after_days(sim, seq![t], days, k) matches Some(x) ==> {
            &&& !entry_passed(t, days, k as int) ==> still_fresh(sim, x)
            &&& entry_passed(t, days, k as int) ==> one_decided(
                sim,
                t,
                x,
                executor::share_quantity(notional, t.trade.entry as int),
                notional,
            )
        },
    decreases k,
{
    if k > 0 {
        let day = days[k - 1].0;
        let date = days[k - 1].1;
        lemma_one_trade_after_days(sim, t, days, notional, (k - 1) as nat);
        lemma_entry_passes(t, days, k as int);
        book_laws::law_days_follow_one_another(sim, seq![t], days, (k - 1) as nat);
        if let Some(x) = book::after_days(sim, seq![t], days, (k - 1) as nat) {
            if entry_passed(t, days, k - 1) {
                let qty = executor::share_quantity(notional, t.trade.entry as int);
                lemma_decided_day(sim, t, x, qty, notional, day, date);
            } else {
                lemma_day_of_fresh_books(sim, t, x, day, date, notional);
            }
        }
    }
}

/// A run of one trade comes to what the trade earns. With Standard caps and 5% of the account at
/// `notional`, a trade whose share costs more is refused and nothing changes. Any other is
/// filled with as many shares as the notional buys, and the account ends with their number times
/// the way between the prices after slippage: up for a long and down for a short.
#[verifier::rlimit(40)]
pub proof fn law_one_trade_earns_its_way(
    sim: Simulator,
    t: BacktestTrade,
    label: Seq<char>,
    report: SimReport,
    notional: int,
    qty: int,
)
    requires
        sim::replays(sim, seq![t], label, Ok(report)),
        sim.caps.max_pct_per_trade <= 10_000_000,
        sim.caps.daily_drawdown_killswitch_pct < 0,
        clock::parsed_day(t.entry_date@, "%Y-%m-%d"@) is Some,
        t.entry > 0,
        20 * notional <= sim.starting_equity < 20 * (notional + 1),
        notional > 0,
        0 <= qty <= u32::MAX,
        qty * t.entry <= notional < (qty + 1) * t.entry,
    ensures
        ({
            let start = sim.starting_equity;
            let long = t.direction@ == "bullish"@;
            let bps = sim.slippage_bps as int;
            let entry = sim::slip(t.entry as int, long, SlipKind::Entry, bps);
            let exit = sim::slip(t.exit_price as int, long, SlipKind::Exit, bps);
            &&& t.entry > notional ==> {
                &&& report.orders_filled == 0
                &&& report.orders_rejected == 1
                &&& report.final_equity == start
            }
            &&& t.entry <= notional ==> {
                &&& report.orders_filled == 1
                &&& report.orders_rejected == 0
                &&& long ==> report.final_equity == start + (exit - entry) * qty
                &&& !long ==> report.final_equity == start + (entry - exit) * qty
            }
        }),
{
    let one = seq![t];
    assert(one.drop_first() =~= seq![]);
    assert(order::by_entry_date(seq![]) =~= Seq::<BacktestTrade>::empty());
    assert(order::by_entry_date(one) =~= one);
    let d = book::with_dates(t);
    let ts = book::dated(one);
    assert(ts =~= seq![d]);
    let days = book::days_of(ts);
    sim_laws::law_calendar_is_complete(ts);
    assert(numbers(days) =~= order::calendar(ts));
    let entry_day = d.entry_day->0;
    assert(order::touches(ts[0], entry_day));
    assert(order::eventful(ts, entry_day));
    assert(order::calendar(ts).contains(entry_day));
    let j = choose|j: int|
        0 <= j < order::calendar(ts).len() && order::calendar(ts)[j] == entry_day;
    assert(days[j].0 == entry_day);
    assert(entry_passed(d, days, days.len() as int));
    lemma_one_trade_after_days(sim, d, days, notional, days.len());
    sim_laws::law_final_equity_pays_open_positions(sim, ts, days);
    let x = book::after_days(sim, ts, days, days.len())->0;
    lemma_wind_up_keeps_drawdowns(ts, x, days.last().1, x.open.len());
    assert(qty == notional / t.entry as int) by {
        fixed::lemma_floor_at_least(notional, t.entry as int, qty);
        fixed::lemma_floor_at_least(notional, t.entry as int, qty + 1);
    }
    if t.entry <= notional {
        fixed::lemma_floor_at_least(notional, t.entry as int, 1);
        let p = book::position(sim, d, 0, qty, notional, 0);
        assert(p.shares == qty && p.per == 1);
    } else {
        assert(sim_laws::planned(ts, x.open) == 0);
    }
}

/// Running trades is replaying them, and running them split is replaying the parts.
pub proof fn law_running_is_replaying(
    sim: Simulator,
    trades: Vec<BacktestTrade>,
    label: &str,
    fraction: i64,
    r: Result<SimReport, SimError>,
    s: Result<(SimReport, SimReport), SimError>,
)
    requires
        call_ensures(Simulator::run, (&sim, trades, label), r),
        call_ensures(Simulator::run_oos, (&sim, trades, fraction), s),
    ensures
        sim::replays(sim, trades@, label@, r),
        sim::replays_split(sim, trades@, fraction as int, s),
        r matches Ok(report) ==> report.total_signals == trades@.len() && report.label@ == label@,
        s matches Ok((train, test)) ==> {
            let n = trades@.len();
            let k = train.total_signals as int;
            &&& k + test.total_signals == n
            &&& 100_000 <= fraction <= 900_000 ==> k * 1_000_000 <= n * fraction < (k + 1)
                * 1_000_000
            &&& fraction == 500_000 ==> k <= test.total_signals <= k + 1
            &&& train.label@ == "train"@
            &&& test.label@ == "test"@
            &&& train.starting_equity == test.starting_equity == sim.starting_equity
        },
{
    if let Ok((train, test)) = s {
        law_split_runs_are_two_runs(sim, trades@, fraction as int, train, test);
    }
}

/// A replay over given days reports what the books end with; it fails exactly where they do not
/// end, and it counts every trade that it was given as a signal.
pub proof fn law_replays_report_their_books(
    sim: Simulator,
    trades: Vec<DatedTrade>,
    days: Vec<(i32, String)>,
    label: &str,
    r: Result<SimReport, SimError>,
)
    requires
        call_ensures(Simulator::replay, (&sim, &trades, &days, label), r),
    ensures
        ({
            let end = book::replayed(sim, sim::dated_views(trades@), sim::day_views(days@));
            &&& r is Ok <==> end is Some
            &&& r matches Ok(report) ==> {
                &&& report.label@ == label@
                &&& report.total_signals == trades@.len()
                &&& report.final_equity == end->0.cash
                &&& report.killswitch_tripped == end->0.counters.killswitch_tripped
                &&& report.orders_filled == end->0.filled
                &&& report.orders_rejected == end->0.rejected
                &&& report.orders_resized == end->0.resized
                &&& report.max_drawdown_pct == end->0.max_dd
                &&& report.max_unrealized_drawdown_pct == end->0.max_unrealized_dd
                &&& report.log() == end->0.events
            }
        }),
{
}

/// A simulation replays its trades over their calendar, each day with its text.
pub proof fn law_simulations_replay_their_calendar(
    sim: Simulator,
    trades: Seq<BacktestTrade>,
    days: Seq<(i32, Seq<char>)>,
)
    requires
        order::is_calendar(numbers(days), book::dated(trades)),
        forall|i: int|
            0 <= i < days.len() ==> clock::shown_day((#[trigger] days[i]).0) == Some(days[i].1),
    ensures
        book::simulated(sim, trades) == book::replayed(sim, book::dated(trades), days),
{
    let ts = book::dated(trades);
    sim_laws::law_calendar_is_complete(ts);
    let calendar = order::calendar(ts);
    let given = numbers(days);
    assert forall|day: i32| calendar.contains(day) <==> #[trigger] given.contains(day) by {
        assert(given.contains(day) <==> order::eventful(ts, day));
        assert(calendar.contains(day) <==> order::eventful(ts, day));
    }
    order::lemma_increasing_unique(calendar, given);
    assert(book::days_of(ts) =~= days) by {
        assert(given.len() == days.len());
        assert forall|i: int| 0 <= i < days.len() implies book::days_of(ts)[i] == days[i] by {
            assert(given[i] == days[i].0);
        }
    }
}

} // verus!
