//! What holds of every simulation.

use vstd::prelude::*;

use crate::book;
use crate::book::{Book, DatedView, EventView};
use crate::executor;
use crate::executor::Signal;
use crate::fixed;
use crate::fixed::PERCENT_SCALE;
use crate::order;
use crate::sim;
use crate::sim::{BacktestTrade, OpenPos, Simulator, SlipKind, BPS_SCALE};
use crate::state::CountersView;

verus! {

/// Without slippage a price stays as it is.
pub proof fn law_zero_slippage_keeps_prices(price: int, is_buy: bool, kind: SlipKind)
    ensures
        sim::slip(price, is_buy, kind, 0) == price,
{
    assert(price * 0 == 0);
}

/// Slippage is always against the trader, and by the same amount on entry and on exit: who
/// buys, to enter or to cover, pays more than the price, and who sells receives less.
pub proof fn law_slippage_is_against_the_trader(price: int, bps: int)
    requires
        price >= 0,
        bps >= 0,
    ensures
        ({
            let paid = sim::slip(price, true, SlipKind::Entry, bps);
            let received = sim::slip(price, true, SlipKind::Exit, bps);
            &&& paid == sim::slip(price, false, SlipKind::Exit, bps)
            &&& received == sim::slip(price, false, SlipKind::Entry, bps)
            &&& paid - price == price - received
            &&& received <= price <= paid
            &&& price > 0 && bps > 0 ==> received < price < paid
            &&& (paid - price - 1) * BPS_SCALE < price * bps <= (paid - price) * BPS_SCALE
        }),
{
    let q = price * bps;
    assert(q >= 0) by (nonlinear_arith)
        requires
            price >= 0,
            bps >= 0,
            q == price * bps,
    ;
    assert(price > 0 && bps > 0 ==> q > 0) by (nonlinear_arith)
        requires
            q == price * bps,
    ;
}

/// Without slippage a filled signal comes to what the back-test says of its trade: its shares
/// times the way from the entry to the exit.
pub proof fn law_zero_slippage_matches_backtest(
    sim: Simulator,
    trades: Seq<DatedView>,
    index: int,
    qty: int,
    notional: int,
    day: i32,
)
    requires
        sim.slippage_bps == 0,
        0 <= index < trades.len() <= usize::MAX,
    ensures
        ({
            let t = trades[index].trade;
            let p = book::position(sim, trades[index], index, qty, notional, day);
            book::realized(trades, p) == sim::pnl(
                book::is_long(trades, p),
                p.shares as int,
                p.per as int,
                t.entry as int,
                t.exit_price as int,
            )
        }),
{
    let t = trades[index].trade;
    let buy = executor::is_bullish(t.direction@);
    law_zero_slippage_keeps_prices(t.entry as int, buy, SlipKind::Entry);
    law_zero_slippage_keeps_prices(t.exit_price as int, buy, SlipKind::Exit);
}

proof fn lemma_more_slippage_costs_more(price: int, less: int, more: int)
    requires
        price >= 0,
        less <= more,
    ensures
        sim::slip_cost(price, less) <= sim::slip_cost(price, more),
{
    assert(price * less <= price * more) by (nonlinear_arith)
        requires
            price >= 0,
            less <= more,
    ;
}

/// More slippage never makes a trade better: at no prices does a position of either direction
/// earn more. It earns less where the difference in cost, on all of its `shares / per` shares,
/// is a millionth of a dollar or more; a smaller one can be lost in the rounding.
pub proof fn law_slippage_never_helps(
    bullish: bool,
    shares: int,
    per: int,
    entry: int,
    exit: int,
    less: int,
    more: int,
)
    requires
        shares >= 0,
        per > 0,
        entry >= 0,
        exit >= 0,
        less <= more,
    ensures
        ({
            let worse = sim::pnl(
                bullish,
                shares,
                per,
                sim::slip(entry, bullish, SlipKind::Entry, more),
                sim::slip(exit, bullish, SlipKind::Exit, more),
            );
            let better = sim::pnl(
                bullish,
                shares,
                per,
                sim::slip(entry, bullish, SlipKind::Entry, less),
                sim::slip(exit, bullish, SlipKind::Exit, less),
            );
            &&& worse <= better
            &&& cost_gap(entry, exit, less, more) * shares >= per ==> worse < better
        }),
{
    lemma_more_slippage_costs_more(entry, less, more);
    lemma_more_slippage_costs_more(exit, less, more);
    let way = if bullish { exit - entry } else { entry - exit };
    let worse = way - sim::slip_cost(entry, more) - sim::slip_cost(exit, more);
    let better = way - sim::slip_cost(entry, less) - sim::slip_cost(exit, less);
    assert(worse * shares <= better * shares) by (nonlinear_arith)
        requires
            shares >= 0,
            worse <= better,
    ;
    assert(worse * shares / per <= better * shares / per) by (nonlinear_arith)
        requires
            per > 0,
            worse * shares <= better * shares,
    ;
    if (better - worse) * shares >= per {
        let w = worse * shares;
        let b = better * shares;
        assert(b - w == (better - worse) * shares) by (nonlinear_arith)
            requires
                w == worse * shares,
                b == better * shares,
        ;
        assert(w / per < b / per) by (nonlinear_arith)
            requires
                per > 0,
                b - w >= per,
        ;
    }
}

/// How much more a share costs with more slippage, on the entry and on the exit together.
pub open spec fn cost_gap(entry: int, exit: int, less: int, more: int) -> int {
    sim::slip_cost(entry, more) + sim::slip_cost(exit, more) - sim::slip_cost(entry, less)
        - sim::slip_cost(exit, less)
}

/// The days from the first that 32 bits count, as many as `n`, on which something happens.
proof fn lemma_eventful_days(trades: Seq<DatedView>, n: nat) -> (days: Seq<i32>)
    requires
        n <= 0x1_0000_0000,
    ensures
        order::increasing(days),
        forall|day: i32| #[trigger]
            days.contains(day) <==> order::eventful(trades, day) && day < i32::MIN + n,
    decreases n,
{
    if n == 0 {
        let days: Seq<i32> = seq![];
        days
    } else {
        let before = lemma_eventful_days(trades, (n - 1) as nat);
        let next = (i32::MIN + n - 1) as i32;
        if order::eventful(trades, next) {
            let days = before.push(next);
            assert forall|day: i32| #[trigger]
                days.contains(day) <==> order::eventful(trades, day) && day < i32::MIN + n by {
                if before.contains(day) {
                    let i = choose|i: int| 0 <= i < before.len() && before[i] == day;
                    assert(days[i] == day);
                }
                if day == next {
                    assert(days.last() == day);
                }
                if days.contains(day) && day != next {
                    let i = choose|i: int| 0 <= i < days.len() && days[i] == day;
                    assert(before[i] == day);
                }
            }
            assert forall|i: int, j: int| 0 <= i < j < days.len() implies days[i] < days[j] by {
                if j == days.len() - 1 {
                    assert(before.contains(before[i]));
                } else {
                    assert(days[i] == before[i] && days[j] == before[j]);
                }
            }
            days
        } else {
            before
        }
    }
}

/// The calendar holds every day on which something happens, and no other, in order.
pub proof fn law_calendar_is_complete(trades: Seq<DatedView>)
    ensures
        order::is_calendar(order::calendar(trades), trades),
{
    let days = lemma_eventful_days(trades, 0x1_0000_0000);
    assert(order::is_calendar(days, trades));
}

/// The numbers of days.
pub open spec fn numbers(days: Seq<(i32, Seq<char>)>) -> Seq<i32> {
    days.map_values(|d: (i32, Seq<char>)| d.0)
}

/// How many of the first `k` trades enter on a day.
pub open spec fn entering(trades: Seq<DatedView>, day: i32, k: nat) -> nat
    decreases k,
{
    if k == 0 {
        0
    } else {
        entering(trades, day, (k - 1) as nat) + if trades[k - 1].entry_day == Some(
            day,
        ) {
            1nat
        } else {
            0nat
        }
    }
}

/// How many of the first `k` trades enter on one of the days.
pub open spec fn entering_among(trades: Seq<DatedView>, days: Seq<i32>, k: nat) -> nat
    decreases k,
{
    if k == 0 {
        0
    } else {
        entering_among(trades, days, (k - 1) as nat) + match trades[k - 1].entry_day {
            Some(day) => if days.contains(day) {
                1nat
            } else {
                0nat
            },
            None => 0nat,
        }
    }
}

/// How many of the first `k` trades have an entry date that can be read.
pub open spec fn enterable(trades: Seq<DatedView>, k: nat) -> nat
    decreases k,
{
    if k == 0 {
        0
    } else {
        enterable(trades, (k - 1) as nat) + if trades[k - 1].entry_day is Some {
            1nat
        } else {
            0nat
        }
    }
}

proof fn lemma_one_more_day(trades: Seq<DatedView>, days: Seq<i32>, day: i32, k: nat)
    requires
        !days.contains(day),
    ensures
        entering_among(trades, days.push(day), k) == entering_among(trades, days, k) + entering(
            trades,
            day,
            k,
        ),
    decreases k,
{
    if k > 0 {
        lemma_one_more_day(trades, days, day, (k - 1) as nat);
        let all = days.push(day);
        assert(all.last() == day);
        assert(all.contains(day));
        match trades[k - 1].entry_day {
            Some(d) => {
                if days.contains(d) {
                    let i = choose|i: int| 0 <= i < days.len() && days[i] == d;
                    assert(all[i] == d);
                } else if all.contains(d) {
                    let i = choose|i: int| 0 <= i < all.len() && all[i] == d;
                    assert(i == days.len());
                }
            },
            None => {},
        }
    }
}

proof fn lemma_no_day(trades: Seq<DatedView>, k: nat)
    ensures
        entering_among(trades, seq![], k) == 0,
    decreases k,
{
    if k > 0 {
        lemma_no_day(trades, (k - 1) as nat);
    }
}

proof fn lemma_calendar_covers_entries(trades: Seq<DatedView>, k: nat)
    requires
        k <= trades.len(),
    ensures
        entering_among(trades, order::calendar(trades), k) == enterable(trades, k),
    decreases k,
{
    law_calendar_is_complete(trades);
    if k > 0 {
        lemma_calendar_covers_entries(trades, (k - 1) as nat);
        match trades[k - 1].entry_day {
            Some(day) => {
                assert(order::touches(trades[k - 1], day));
                assert(order::eventful(trades, day));
                assert(order::calendar(trades).contains(day));
            },
            None => {},
        }
    }
}

proof fn lemma_entries_answer(
    sim: Simulator,
    trades: Seq<DatedView>,
    b: Book,
    day: i32,
    date: Seq<char>,
    k: nat,
)
    ensures
        book::entries(sim, trades, b, day, date, k) matches Some(c) ==> {
            &&& c.filled + c.rejected == b.filled + b.rejected + entering(trades, day, k)
            &&& c.filled >= b.filled
            &&& c.rejected >= b.rejected
            &&& 0 <= c.resized - b.resized <= c.filled - b.filled
        },
    decreases k,
{
    if k > 0 {
        lemma_entries_answer(sim, trades, b, day, date, (k - 1) as nat);
    }
}

proof fn lemma_exits_answer_nothing(
    sim: Simulator,
    trades: Seq<DatedView>,
    b: Book,
    open: Seq<OpenPos>,
    day: i32,
    date: Seq<char>,
    k: nat,
)
    ensures
        book::exits(sim, trades, b, open, day, date, k) matches Some(c) ==> {
            &&& c.filled == b.filled
            &&& c.rejected == b.rejected
            &&& c.resized == b.resized
            &&& b.counters.killswitch_tripped ==> c.counters.killswitch_tripped
        },
    decreases k,
{
    if k > 0 {
        lemma_exits_answer_nothing(sim, trades, b, open, day, date, (k - 1) as nat);
    }
}

proof fn lemma_days_answer(
    sim: Simulator,
    trades: Seq<DatedView>,
    days: Seq<(i32, Seq<char>)>,
    k: nat,
)
    requires
        order::increasing(numbers(days)),
        k <= days.len(),
    ensures
        book::after_days(sim, trades, days, k) matches Some(c) ==> {
            &&& c.filled + c.rejected == entering_among(
                trades,
                numbers(days).take(k as int),
                trades.len(),
            )
            &&& c.rejected >= 0
            &&& 0 <= c.resized <= c.filled
        },
    decreases k,
{
    if k == 0 {
        assert(numbers(days).take(0) =~= seq![]);
        lemma_no_day(trades, trades.len());
    } else {
        lemma_days_answer(sim, trades, days, (k - 1) as nat);
        if let Some(b) = book::after_days(sim, trades, days, (k - 1) as nat) {
            let day = days[k - 1].0;
            let date = days[k - 1].1;
            if let Some(v) = book::valued(sim, trades, b, day, date) {
                lemma_exits_answer_nothing(sim, trades, v, v.open, day, date, v.open.len());
                if let Some(x) = book::exits(sim, trades, v, v.open, day, date, v.open.len()) {
                    lemma_entries_answer(sim, trades, x, day, date, trades.len());
                }
            }
            let before = numbers(days).take(k - 1);
            assert(numbers(days)[k - 1] == day);
            assert(!before.contains(day)) by {
                if before.contains(day) {
                    let i = choose|i: int| 0 <= i < before.len() && before[i] == day;
                    assert(numbers(days)[i] < numbers(days)[k - 1]);
                }
            }
            lemma_one_more_day(trades, before, day, trades.len());
            assert(before.push(day) =~= numbers(days).take(k as int));
        }
    }
}

proof fn lemma_wind_up_answers_nothing(
    trades: Seq<DatedView>,
    b: Book,
    date: Seq<char>,
    k: nat,
)
    ensures
        book::wound_up(trades, b, date, k) matches Some(c) ==> {
            &&& c.filled == b.filled
            &&& c.rejected == b.rejected
            &&& c.resized == b.resized
            &&& c.counters == b.counters
            &&& c.open == b.open
        },
    decreases k,
{
    if k > 0 {
        lemma_wind_up_answers_nothing(trades, b, date, (k - 1) as nat);
    }
}

/// Every signal whose date can be read is answered once: filled or rejected. Only a filled
/// one can have been resized.
pub proof fn law_every_signal_is_answered(sim: Simulator, trades: Seq<BacktestTrade>)
    ensures
        book::simulated(sim, trades) matches Some(b) ==> {
            &&& b.filled + b.rejected == enterable(book::dated(trades), trades.len())
            &&& b.rejected >= 0
            &&& 0 <= b.resized <= b.filled
        },
{
    let ts = book::dated(trades);
    let days = book::days_of(ts);
    law_calendar_is_complete(ts);
    assert(numbers(days) =~= order::calendar(ts));
    lemma_days_answer(sim, ts, days, days.len());
    lemma_calendar_covers_entries(ts, ts.len());
    assert(numbers(days).take(days.len() as int) =~= numbers(days));
    if let Some(b) = book::after_days(sim, ts, days, days.len()) {
        lemma_wind_up_answers_nothing(ts, b, days.last().1, b.open.len());
    }
}

proof fn lemma_tripped_entries_fill_nothing(
    sim: Simulator,
    trades: Seq<DatedView>,
    b: Book,
    day: i32,
    date: Seq<char>,
    k: nat,
)
    requires
        b.counters.killswitch_tripped,
    ensures
        book::entries(sim, trades, b, day, date, k) matches Some(c) ==> {
            &&& c.counters.killswitch_tripped
            &&& c.filled == b.filled
            &&& c.open == b.open
        },
    decreases k,
{
    if k > 0 {
        lemma_tripped_entries_fill_nothing(sim, trades, b, day, date, (k - 1) as nat);
    }
}

/// A day with a tripped kill-switch opens nothing and leaves it tripped.
pub proof fn law_tripped_day_opens_nothing(
    sim: Simulator,
    trades: Seq<DatedView>,
    b: Book,
    day: i32,
    date: Seq<char>,
)
    requires
        b.counters.killswitch_tripped,
    ensures
        book::day_step(sim, trades, b, day, date) matches Some(c) ==> {
            &&& c.counters.killswitch_tripped
            &&& c.filled == b.filled
        },
{
    if let Some(v) = book::valued(sim, trades, b, day, date) {
        lemma_exits_answer_nothing(sim, trades, v, v.open, day, date, v.open.len());
        if let Some(x) = book::exits(sim, trades, v, v.open, day, date, v.open.len()) {
            lemma_tripped_entries_fill_nothing(sim, trades, x, day, date, trades.len());
        }
    }
}

/// A day that starts with the account and its open positions at or below the threshold trips
/// the kill-switch and opens nothing, though none of the loss is realized yet.
pub proof fn law_combined_breach_opens_nothing(
    sim: Simulator,
    trades: Seq<DatedView>,
    b: Book,
    day: i32,
    date: Seq<char>,
)
    requires
        book::combined_breach(
            sim,
            b.cash + book::total_unrealized(
                trades,
                b.open.map_values(|p: OpenPos| book::marked(trades, p, day)),
            ),
        ),
    ensures
        book::day_step(sim, trades, b, day, date) matches Some(c) ==> {
            &&& c.counters.killswitch_tripped
            &&& c.filled == b.filled
        },
{
    if let Some(v) = book::valued(sim, trades, b, day, date) {
        assert(v.counters.killswitch_tripped);
        lemma_exits_answer_nothing(sim, trades, v, v.open, day, date, v.open.len());
        if let Some(x) = book::exits(sim, trades, v, v.open, day, date, v.open.len()) {
            lemma_tripped_entries_fill_nothing(sim, trades, x, day, date, trades.len());
        }
    }
}

/// Once the kill-switch has tripped, nothing opens for the rest of the simulation, and it
/// stays tripped.
pub proof fn law_tripped_killswitch_ends_entries(
    sim: Simulator,
    trades: Seq<DatedView>,
    days: Seq<(i32, Seq<char>)>,
    k: nat,
    n: nat,
)
    requires
        k <= n,
        book::after_days(sim, trades, days, k) matches Some(b) && b.counters.killswitch_tripped,
    ensures
        book::after_days(sim, trades, days, n) matches Some(c) ==> {
            &&& c.counters.killswitch_tripped
            &&& c.filled == book::after_days(sim, trades, days, k)->0.filled
        },
    decreases n,
{
    if k < n {
        law_tripped_killswitch_ends_entries(sim, trades, days, k, (n - 1) as nat);
        if let Some(b) = book::after_days(sim, trades, days, (n - 1) as nat) {
            law_tripped_day_opens_nothing(sim, trades, b, days[n - 1].0, days[n - 1].1);
        }
    }
}

/// Whether one set of books has seen at least the peaks and drawdowns of another.
pub open spec fn seen_as_much(c: Book, b: Book) -> bool {
    &&& c.peak_combined >= b.peak_combined
    &&& c.peak_realized >= b.peak_realized
    &&& c.max_dd >= b.max_dd
    &&& c.max_unrealized_dd >= b.max_unrealized_dd
}

proof fn lemma_exits_see_more(
    sim: Simulator,
    trades: Seq<DatedView>,
    b: Book,
    open: Seq<OpenPos>,
    day: i32,
    date: Seq<char>,
    k: nat,
)
    ensures
        book::exits(sim, trades, b, open, day, date, k) matches Some(c) ==> seen_as_much(c, b),
    decreases k,
{
    if k > 0 {
        lemma_exits_see_more(sim, trades, b, open, day, date, (k - 1) as nat);
    }
}

proof fn lemma_entries_see_the_same(
    sim: Simulator,
    trades: Seq<DatedView>,
    b: Book,
    day: i32,
    date: Seq<char>,
    k: nat,
)
    ensures
        book::entries(sim, trades, b, day, date, k) matches Some(c) ==> seen_as_much(c, b)
            && seen_as_much(b, c),
    decreases k,
{
    if k > 0 {
        lemma_entries_see_the_same(sim, trades, b, day, date, (k - 1) as nat);
    }
}

/// A drawdown that was seen is not forgotten: over the days of a simulation the peaks and the
/// drawdowns only grow, from no drawdown at all.
pub proof fn law_drawdowns_only_grow(
    sim: Simulator,
    trades: Seq<DatedView>,
    days: Seq<(i32, Seq<char>)>,
    k: nat,
    n: nat,
)
    requires
        k <= n,
    ensures
        book::after_days(sim, trades, days, n) matches Some(c) ==> {
            &&& book::after_days(sim, trades, days, k) matches Some(b) && seen_as_much(c, b)
            &&& c.max_dd >= 0
            &&& c.max_unrealized_dd >= 0
        },
    decreases n,
{
    if n > 0 {
        if k < n {
            law_drawdowns_only_grow(sim, trades, days, k, (n - 1) as nat);
        } else {
            law_drawdowns_only_grow(sim, trades, days, (n - 1) as nat, (n - 1) as nat);
        }
        if let Some(b) = book::after_days(sim, trades, days, (n - 1) as nat) {
            let day = days[n - 1].0;
            let date = days[n - 1].1;
            if let Some(v) = book::valued(sim, trades, b, day, date) {
                assert(seen_as_much(v, b));
                lemma_exits_see_more(sim, trades, v, v.open, day, date, v.open.len());
                if let Some(x) = book::exits(sim, trades, v, v.open, day, date, v.open.len()) {
                    lemma_entries_see_the_same(sim, trades, x, day, date, trades.len());
                }
            }
        }
    }
}

/// A day that values the account at a drawdown from its peak, and a close that leaves it at
/// one, are seen.
pub proof fn law_drawdowns_are_seen(
    sim: Simulator,
    trades: Seq<DatedView>,
    b: Book,
    p: OpenPos,
    day: i32,
    date: Seq<char>,
)
    ensures
        book::valued(sim, trades, b, day, date) matches Some(v) ==> {
            let worth = b.cash + book::total_unrealized(trades, v.open);
            &&& v.peak_combined >= worth
            &&& v.max_unrealized_dd >= book::drawdown(v.peak_combined, worth)
        },
        book::closed(sim, trades, b, p, date) matches Some(c) ==> {
            &&& c.peak_realized >= c.cash
            &&& c.max_dd >= book::drawdown(c.peak_realized, c.cash)
        },
{
}

/// Whether the day's trades are within the cap of the mode that a simulation trades in.
pub open spec fn within_trade_cap(sim: Simulator, b: Book) -> bool {
    0 <= b.counters.trades_opened <= book::mode_of(sim).caps().max_trades_per_day
}

proof fn lemma_exits_open_no_trades(
    sim: Simulator,
    trades: Seq<DatedView>,
    b: Book,
    open: Seq<OpenPos>,
    day: i32,
    date: Seq<char>,
    k: nat,
)
    ensures
        book::exits(sim, trades, b, open, day, date, k) matches Some(c)
            ==> c.counters.trades_opened == b.counters.trades_opened,
    decreases k,
{
    if k > 0 {
        lemma_exits_open_no_trades(sim, trades, b, open, day, date, (k - 1) as nat);
    }
}

proof fn lemma_entries_respect_trade_cap(
    sim: Simulator,
    trades: Seq<DatedView>,
    b: Book,
    day: i32,
    date: Seq<char>,
    k: nat,
)
    requires
        within_trade_cap(sim, b),
    ensures
        book::entries(sim, trades, b, day, date, k) matches Some(c) ==> within_trade_cap(sim, c),
    decreases k,
{
    if k > 0 {
        lemma_entries_respect_trade_cap(sim, trades, b, day, date, (k - 1) as nat);
    }
}

/// No simulated day opens more trades than the caps allow.
pub proof fn law_days_respect_trade_cap(
    sim: Simulator,
    trades: Seq<DatedView>,
    days: Seq<(i32, Seq<char>)>,
    k: nat,
)
    ensures
        book::after_days(sim, trades, days, k) matches Some(c) ==> within_trade_cap(sim, c),
    decreases k,
{
    if k > 0 {
        law_days_respect_trade_cap(sim, trades, days, (k - 1) as nat);
        if let Some(b) = book::after_days(sim, trades, days, (k - 1) as nat) {
            let day = days[k - 1].0;
            let date = days[k - 1].1;
            if let Some(v) = book::valued(sim, trades, b, day, date) {
                lemma_exits_open_no_trades(sim, trades, v, v.open, day, date, v.open.len());
                if let Some(x) = book::exits(sim, trades, v, v.open, day, date, v.open.len()) {
                    lemma_entries_respect_trade_cap(sim, trades, x, day, date, trades.len());
                }
            }
        }
    }
}

/// What open positions were bought for.
pub open spec fn total_notional(open: Seq<OpenPos>) -> int
    decreases open.len(),
{
    if open.len() == 0 {
        0
    } else {
        total_notional(open.drop_last()) + open.last().notional
    }
}

/// Whether the open notional that the caps see is that of all positions that are open,
/// whenever they were opened.
pub open spec fn exposure_counted(b: Book) -> bool {
    &&& b.counters.open_notional == total_notional(b.open)
    &&& forall|i: int| 0 <= i < b.open.len() ==> (#[trigger] b.open[i]).notional >= 0
    &&& fixed::fits(b.counters.open_notional)
    &&& fixed::fits(b.cash)
    &&& 0 <= b.counters.trades_opened <= 5
}

proof fn lemma_total_push(open: Seq<OpenPos>, p: OpenPos)
    ensures
        total_notional(open.push(p)) == total_notional(open) + p.notional,
{
    assert(open.push(p).drop_last() =~= open);
}

proof fn lemma_total_of_skip(open: Seq<OpenPos>, k: int)
    requires
        0 <= k < open.len(),
    ensures
        total_notional(open.skip(k)) == open[k].notional + total_notional(open.skip(k + 1)),
    decreases open.len() - k,
{
    let s = open.skip(k);
    if s.len() == 1 {
        assert(s.drop_last() =~= seq![]);
        assert(open.skip(k + 1) =~= seq![]);
    } else {
        let shorter = open.drop_last();
        lemma_total_of_skip(shorter, k);
        assert(shorter.skip(k) =~= s.drop_last());
        assert(shorter.skip(k + 1) =~= open.skip(k + 1).drop_last());
    }
}

proof fn lemma_total_not_negative(open: Seq<OpenPos>)
    requires
        forall|i: int| 0 <= i < open.len() ==> (#[trigger] open[i]).notional >= 0,
    ensures
        total_notional(open) >= 0,
    decreases open.len(),
{
    if open.len() > 0 {
        assert forall|i: int| 0 <= i < open.drop_last().len() implies (
        #[trigger] open.drop_last()[i]).notional >= 0 by {
            assert(open.drop_last()[i] == open[i]);
        }
        lemma_total_not_negative(open.drop_last());
    }
}

proof fn lemma_marks_keep_notional(trades: Seq<DatedView>, open: Seq<OpenPos>, day: i32)
    ensures
        total_notional(open.map_values(|p: OpenPos| book::marked(trades, p, day)))
            == total_notional(open),
    decreases open.len(),
{
    let marked = open.map_values(|p: OpenPos| book::marked(trades, p, day));
    if open.len() > 0 {
        lemma_marks_keep_notional(trades, open.drop_last(), day);
        assert(marked.drop_last() =~= open.drop_last().map_values(
            |p: OpenPos| book::marked(trades, p, day),
        ));
    }
}

/// Whether the open notional is that of the positions kept so far and of those that are still
/// to be looked at.
spec fn counted_so_far(b: Book, open: Seq<OpenPos>, k: int) -> bool {
    &&& b.counters.open_notional == total_notional(b.open) + total_notional(open.skip(k))
    &&& forall|i: int| 0 <= i < b.open.len() ==> (#[trigger] b.open[i]).notional >= 0
    &&& fixed::fits(b.counters.open_notional)
    &&& fixed::fits(b.cash)
    &&& 0 <= b.counters.trades_opened <= 5
}

proof fn lemma_exits_keep_exposure(
    sim: Simulator,
    trades: Seq<DatedView>,
    b: Book,
    open: Seq<OpenPos>,
    day: i32,
    date: Seq<char>,
    k: nat,
)
    requires
        exposure_counted(b),
        open == b.open,
        k <= open.len(),
    ensures
        book::exits(sim, trades, b, open, day, date, k) matches Some(c) ==> counted_so_far(
            c,
            open,
            k as int,
        ),
    decreases k,
{
    if k == 0 {
        assert(open.skip(0) =~= open);
    } else {
        lemma_exits_keep_exposure(sim, trades, b, open, day, date, (k - 1) as nat);
        lemma_total_of_skip(open, k - 1);
        if let Some(x) = book::exits(sim, trades, b, open, day, date, (k - 1) as nat) {
            lemma_total_push(x.open, open[k - 1]);
            assert(open[k - 1].notional >= 0);
            assert forall|i: int| 0 <= i < open.skip(k as int).len() implies (
            #[trigger] open.skip(k as int)[i]).notional >= 0 by {
                assert(open.skip(k as int)[i] == b.open[k + i]);
            }
            lemma_total_not_negative(open.skip(k as int));
            lemma_total_not_negative(x.open);
        }
    }
}

/// A signal that is filled respects the exposure cap on the account at its entry: its notional
/// and that of every position that is open, whenever it was opened, are within it. And the
/// open notional goes on to be that of all open positions.
pub proof fn law_fills_respect_exposure_cap(
    sim: Simulator,
    trades: Seq<DatedView>,
    b: Book,
    index: int,
    day: i32,
    date: Seq<char>,
)
    requires
        exposure_counted(b),
    ensures
        book::entered(sim, trades, b, index, day, date) matches Some(c) ==> {
            &&& exposure_counted(c)
            &&& c.filled > b.filled ==> total_notional(c.open) * PERCENT_SCALE <= b.cash
                * book::mode_of(sim).caps().max_pct_total_exposure
            &&& c.filled > b.filled ==> c.open.last().notional * PERCENT_SCALE <= b.cash
                * book::mode_of(sim).caps().max_pct_per_trade
        },
{
    let t = trades[index].trade;
    let mode = book::mode_of(sim);
    let c = executor::counters_for(b.counters, date, b.cash);
    if executor::decided(mode, c, b.cash, t.entry as int) !is Reject {
        let sig: Signal = arbitrary();
        let sig = Signal { entry: t.entry, ..sig };
        executor::law_sent_orders_stay_within_caps(mode, c, sig, b.cash);
        let notional = executor::sent_notional(mode, c, b.cash);
        let qty = book::order_qty(sim, notional, t.entry as int);
        let p = book::position(sim, trades[index], index, qty, notional, day);
        assert(p.notional == notional);
        lemma_total_push(b.open, p);
        lemma_total_not_negative(b.open);
    }
}

/// The same of every signal of a day, however many came before it.
pub proof fn law_every_fill_of_a_day_respects_exposure_cap(
    sim: Simulator,
    trades: Seq<DatedView>,
    b: Book,
    day: i32,
    date: Seq<char>,
    k: nat,
)
    requires
        exposure_counted(b),
    ensures
        book::entries(sim, trades, b, day, date, k) matches Some(c) ==> {
            &&& exposure_counted(c)
            &&& book::entered(sim, trades, c, k as int, day, date) matches Some(d) ==> {
                d.filled > c.filled ==> total_notional(d.open) * PERCENT_SCALE <= c.cash
                    * book::mode_of(sim).caps().max_pct_total_exposure
            }
        },
    decreases k,
{
    if k > 0 {
        law_every_fill_of_a_day_respects_exposure_cap(
            sim,
            trades,
            b,
            day,
            date,
            (k - 1) as nat,
        );
        if let Some(x) = book::entries(sim, trades, b, day, date, (k - 1) as nat) {
            law_fills_respect_exposure_cap(sim, trades, x, k - 1, day, date);
        }
    }
    if let Some(c) = book::entries(sim, trades, b, day, date, k) {
        law_fills_respect_exposure_cap(sim, trades, c, k as int, day, date);
    }
}

/// After every day, and before its signals, the open notional that the caps see is that of all
/// positions that are open.
pub proof fn law_exposure_is_what_is_open(
    sim: Simulator,
    trades: Seq<DatedView>,
    days: Seq<(i32, Seq<char>)>,
    k: nat,
)
    ensures
        book::after_days(sim, trades, days, k) matches Some(b) ==> {
            &&& exposure_counted(b)
            &&& book::valued(sim, trades, b, days[k as int].0, days[k as int].1) matches Some(v)
                ==> book::exits(
                sim,
                trades,
                v,
                v.open,
                days[k as int].0,
                days[k as int].1,
                v.open.len(),
            ) matches Some(x) ==> exposure_counted(x)
        },
    decreases k,
{
    if k > 0 {
        law_exposure_is_what_is_open(sim, trades, days, (k - 1) as nat);
        if let Some(b) = book::after_days(sim, trades, days, (k - 1) as nat) {
            let day = days[k - 1].0;
            let date = days[k - 1].1;
            if let Some(v) = book::valued(sim, trades, b, day, date) {
                if let Some(x) = book::exits(sim, trades, v, v.open, day, date, v.open.len()) {
                    law_every_fill_of_a_day_respects_exposure_cap(
                        sim,
                        trades,
                        x,
                        day,
                        date,
                        trades.len(),
                    );
                }
            }
        }
    }
    if let Some(b) = book::after_days(sim, trades, days, k) {
        assert(exposure_counted(b));
        let day = days[k as int].0;
        let date = days[k as int].1;
        lemma_marks_keep_notional(trades, b.open, day);
        if let Some(v) = book::valued(sim, trades, b, day, date) {
            assert forall|i: int| 0 <= i < v.open.len() implies (
            #[trigger] v.open[i]).notional >= 0 by {
                assert(v.open[i] == book::marked(trades, b.open[i], day));
                assert(b.open[i].notional >= 0);
            }
            lemma_exits_keep_exposure(sim, trades, v, v.open, day, date, v.open.len());
            assert(v.open.skip(v.open.len() as int) =~= seq![]);
        }
    }
}

/// What positions come to when they close as planned.
pub open spec fn planned(trades: Seq<DatedView>, open: Seq<OpenPos>) -> int
    decreases open.len(),
{
    if open.len() == 0 {
        0
    } else {
        planned(trades, open.drop_last()) + book::realized(trades, open.last())
    }
}

proof fn lemma_planned_push(trades: Seq<DatedView>, open: Seq<OpenPos>, p: OpenPos)
    ensures
        planned(trades, open.push(p)) == planned(trades, open) + book::realized(trades, p),
{
    assert(open.push(p).drop_last() =~= open);
}

proof fn lemma_marks_do_not_change_plans(
    trades: Seq<DatedView>,
    open: Seq<OpenPos>,
    day: i32,
)
    ensures
        planned(trades, open.map_values(|p: OpenPos| book::marked(trades, p, day))) == planned(
            trades,
            open,
        ),
    decreases open.len(),
{
    let marked = open.map_values(|p: OpenPos| book::marked(trades, p, day));
    if open.len() > 0 {
        lemma_marks_do_not_change_plans(trades, open.drop_last(), day);
        assert(marked.drop_last() =~= open.drop_last().map_values(
            |p: OpenPos| book::marked(trades, p, day),
        ));
    }
}

proof fn lemma_exits_pay_plans(
    sim: Simulator,
    trades: Seq<DatedView>,
    b: Book,
    open: Seq<OpenPos>,
    day: i32,
    date: Seq<char>,
    k: nat,
)
    requires
        k <= open.len(),
    ensures
        book::exits(sim, trades, b, open, day, date, k) matches Some(c) ==> c.cash + planned(
            trades,
            c.open,
        ) == b.cash + planned(trades, open.take(k as int)),
    decreases k,
{
    if k == 0 {
        assert(open.take(0) =~= seq![]);
    } else {
        lemma_exits_pay_plans(sim, trades, b, open, day, date, (k - 1) as nat);
        assert(open.take(k as int) =~= open.take(k - 1).push(open[k - 1]));
        lemma_planned_push(trades, open.take(k - 1), open[k - 1]);
        if let Some(x) = book::exits(sim, trades, b, open, day, date, (k - 1) as nat) {
            lemma_planned_push(trades, x.open, open[k - 1]);
        }
    }
}

/// Marking positions and closing them moves value between the open positions and the account,
/// and makes none: the account and what its positions come to as planned stay what they
/// were.
pub proof fn law_marking_and_closing_keep_value(
    sim: Simulator,
    trades: Seq<DatedView>,
    b: Book,
    day: i32,
    date: Seq<char>,
)
    ensures
        book::valued(sim, trades, b, day, date) matches Some(v) ==> {
            &&& v.cash == b.cash
            &&& planned(trades, v.open) == planned(trades, b.open)
            &&& book::exits(sim, trades, v, v.open, day, date, v.open.len()) matches Some(x)
                ==> x.cash + planned(trades, x.open) == b.cash + planned(trades, b.open)
        },
{
    lemma_marks_do_not_change_plans(trades, b.open, day);
    if let Some(v) = book::valued(sim, trades, b, day, date) {
        lemma_exits_pay_plans(sim, trades, v, v.open, day, date, v.open.len());
        assert(v.open.take(v.open.len() as int) =~= v.open);
    }
}

/// A signal changes no cash. One that is filled opens one position.
pub proof fn law_entering_spends_nothing(
    sim: Simulator,
    trades: Seq<DatedView>,
    b: Book,
    index: int,
    day: i32,
    date: Seq<char>,
)
    ensures
        book::entered(sim, trades, b, index, day, date) matches Some(c) ==> {
            &&& c.cash == b.cash
            &&& c.filled - b.filled == c.open.len() - b.open.len()
            &&& c.filled == b.filled ==> c.open == b.open
            &&& c.filled > b.filled ==> c.open.drop_last() == b.open
        },
{
    if let Some(c) = book::entered(sim, trades, b, index, day, date) {
        if c.filled > b.filled {
            assert(c.open.drop_last() =~= b.open);
        }
    }
}

proof fn lemma_wind_up_pays(trades: Seq<DatedView>, b: Book, date: Seq<char>, k: nat)
    requires
        k <= b.open.len(),
    ensures
        book::wound_up(trades, b, date, k) matches Some(c) ==> c.cash == b.cash + planned(
            trades,
            b.open.take(k as int),
        ),
    decreases k,
{
    if k == 0 {
        assert(b.open.take(0) =~= seq![]);
    } else {
        lemma_wind_up_pays(trades, b, date, (k - 1) as nat);
        assert(b.open.take(k as int) =~= b.open.take(k - 1).push(b.open[k - 1]));
        lemma_planned_push(trades, b.open.take(k - 1), b.open[k - 1]);
    }
}

/// At the end every position still open is closed as planned: the final equity is the account
/// after the last day and what those positions come to.
pub proof fn law_final_equity_pays_open_positions(
    sim: Simulator,
    trades: Seq<DatedView>,
    days: Seq<(i32, Seq<char>)>,
)
    ensures
        book::replayed(sim, trades, days) matches Some(c) ==> {
            book::after_days(sim, trades, days, days.len()) matches Some(b) && c.cash == b.cash
                + planned(trades, b.open)
        },
{
    if let Some(b) = book::after_days(sim, trades, days, days.len()) {
        lemma_wind_up_pays(trades, b, days.last().1, b.open.len());
        assert(b.open.take(b.open.len() as int) =~= b.open);
    }
}

/// What the first order of a simulation is worth.
pub open spec fn first_notional(sim: Simulator) -> int {
    executor::sent_notional(
        book::mode_of(sim),
        CountersView::fresh(seq![], sim.starting_equity as int),
        sim.starting_equity as int,
    )
}

/// The shares of the first position of a simulation, as a ratio: whole shares, or what a
/// dollar amount buys.
pub open spec fn first_shares(sim: Simulator, entry: int) -> (int, int) {
    if book::mode_of(sim) is Standard {
        (executor::share_quantity(first_notional(sim), entry), 1)
    } else {
        (first_notional(sim), entry)
    }
}

/// Whether two simulations differ in slippage only.
pub open spec fn differ_in_slippage(a: Simulator, b: Simulator) -> bool {
    b == (Simulator { slippage_bps: b.slippage_bps, ..a })
}

/// Whether books are those of one trade that was filled: what the account and the position
/// come to is the starting equity and the P&L of the position.
spec fn one_filled(
    sim: Simulator,
    t: DatedView,
    b: Book,
    qty: int,
    notional: int,
    day: i32,
) -> bool {
    let p = book::position(sim, t, 0, qty, notional, day);
    &&& b.filled == 1
    &&& b.rejected == 0
    &&& b.cash + planned(seq![t], b.open) == sim.starting_equity + book::realized(seq![t], p)
    &&& book::prices_fit(sim, t.trade)
    &&& 0 <= notional <= i64::MAX
    &&& notional == first_notional(sim)
    &&& qty == book::order_qty(sim, notional, t.trade.entry as int)
    &&& book::mode_of(sim) is Standard && t.trade.entry > 0 ==> qty >= 1
}

/// Whether two simulations of one trade filled it in the same way.
spec fn filled_alike(a: Simulator, b: Simulator, t: DatedView, x: Book, y: Book) -> bool {
    exists|qty: int, notional: int, day: i32|
        #[trigger] one_filled(a, t, x, qty, notional, day) && one_filled(
            b,
            t,
            y,
            qty,
            notional,
            day,
        )
}

/// Whether two simulations of one trade have not filled it: the books are the same.
spec fn unfilled_alike(a: Simulator, x: Book, y: Book) -> bool {
    &&& x == y
    &&& x.open.len() == 0
    &&& x.cash == a.starting_equity
    &&& x.filled == 0
    &&& untraded(a, x)
}

/// Whether no trade was counted yet, and the P&L is measured against the starting equity.
spec fn untraded(sim: Simulator, x: Book) -> bool {
    &&& x.counters.trades_opened == 0
    &&& x.counters.open_notional == 0
    &&& x.counters.starting_equity == sim.starting_equity
}

/// Whether the entry of a trade is among the first `k` days.
pub open spec fn entry_passed(t: DatedView, days: Seq<(i32, Seq<char>)>, k: int) -> bool {
    exists|j: int| 0 <= j < k && t.entry_day == Some((#[trigger] days[j]).0)
}

proof fn lemma_quiet_day(
    a: Simulator,
    b: Simulator,
    trades: Seq<DatedView>,
    x: Book,
    day: i32,
    date: Seq<char>,
)
    requires
        differ_in_slippage(a, b),
        x.open.len() == 0,
    ensures
        book::valued(a, trades, x, day, date) == book::valued(b, trades, x, day, date),
        book::valued(a, trades, x, day, date) matches Some(v) ==> {
            &&& v.open.len() == 0
            &&& v.cash == x.cash
            &&& v.filled == x.filled
            &&& v.rejected == x.rejected
            &&& v.counters.utc_date == date
            &&& untraded(a, x) ==> untraded(a, v)
            &&& book::exits(a, trades, v, v.open, day, date, 0) == Some(v)
            &&& book::exits(b, trades, v, v.open, day, date, 0) == Some(v)
        },
{
    if let Some(v) = book::valued(a, trades, x, day, date) {
        assert(v.open =~= seq![]);
    }
}

proof fn lemma_one_signal(
    a: Simulator,
    b: Simulator,
    t: DatedView,
    x: Book,
    day: i32,
    date: Seq<char>,
)
    requires
        differ_in_slippage(a, b),
        x.open.len() == 0,
        x.cash == a.starting_equity,
        x.filled == 0,
        x.rejected == 0,
        exposure_counted(x),
        untraded(a, x),
        x.counters.utc_date == date,
        book::entered(a, seq![t], x, 0, day, date) is Some,
        book::entered(b, seq![t], x, 0, day, date) is Some,
    ensures
        ({
            let p = book::entered(a, seq![t], x, 0, day, date)->0;
            let q = book::entered(b, seq![t], x, 0, day, date)->0;
            unfilled_alike(a, p, q) || filled_alike(a, b, t, p, q)
        }),
{
    let p = book::entered(a, seq![t], x, 0, day, date)->0;
    let q = book::entered(b, seq![t], x, 0, day, date)->0;
    let mode = book::mode_of(a);
    let c = executor::counters_for(x.counters, date, x.cash);
    let entry = t.trade.entry as int;
    assert(seq![t][0] == t);
    if executor::decided(mode, c, x.cash, entry) !is Reject {
        let sig: Signal = arbitrary();
        let sig = Signal { entry: t.trade.entry, ..sig };
        executor::law_sent_orders_stay_within_caps(mode, c, sig, x.cash);
        let notional = executor::sent_notional(mode, c, x.cash);
        let qty = book::order_qty(a, notional, entry);
        let pa = book::position(a, t, 0, qty, notional, day);
        let pb = book::position(b, t, 0, qty, notional, day);
        lemma_planned_push(seq![t], x.open, pa);
        lemma_planned_push(seq![t], x.open, pb);
        assert(one_filled(a, t, p, qty, notional, day));
        assert(one_filled(b, t, q, qty, notional, day));
    }
}

proof fn lemma_day_after_fill(
    sim: Simulator,
    t: DatedView,
    b: Book,
    qty: int,
    notional: int,
    entered: i32,
    day: i32,
    date: Seq<char>,
)
    requires
        one_filled(sim, t, b, qty, notional, entered),
        t.entry_day != Some(day),
    ensures
        book::day_step(sim, seq![t], b, day, date) matches Some(c) ==> one_filled(
            sim,
            t,
            c,
            qty,
            notional,
            entered,
        ),
{
    let ts = seq![t];
    law_marking_and_closing_keep_value(sim, ts, b, day, date);
    if let Some(v) = book::valued(sim, ts, b, day, date) {
        lemma_exits_answer_nothing(sim, ts, v, v.open, day, date, v.open.len());
        if let Some(x) = book::exits(sim, ts, v, v.open, day, date, v.open.len()) {
            assert(book::entries(sim, ts, x, day, date, 0) == Some(x));
            assert(book::entries(sim, ts, x, day, date, 1) == Some(x));
        }
    }
}

proof fn lemma_one_trade_days(
    a: Simulator,
    b: Simulator,
    t: DatedView,
    days: Seq<(i32, Seq<char>)>,
    k: nat,
)
    requires
        differ_in_slippage(a, b),
        order::increasing(numbers(days)),
        k <= days.len(),
        book::after_days(a, seq![t], days, k) is Some,
        book::after_days(b, seq![t], days, k) is Some,
    ensures
        ({
            let x = book::after_days(a, seq![t], days, k)->0;
            let y = book::after_days(b, seq![t], days, k)->0;
            ||| unfilled_alike(a, x, y) && (!entry_passed(t, days, k as int) ==> x.rejected == 0)
            ||| filled_alike(a, b, t, x, y) && entry_passed(t, days, k as int)
        }),
    decreases k,
{
    let ts = seq![t];
    if k > 0 {
        let day = days[k - 1].0;
        let date = days[k - 1].1;
        lemma_one_trade_days(a, b, t, days, (k - 1) as nat);
        law_exposure_is_what_is_open(a, ts, days, (k - 1) as nat);
        let x = book::after_days(a, ts, days, (k - 1) as nat)->0;
        let y = book::after_days(b, ts, days, (k - 1) as nat)->0;
        let here = t.entry_day == Some(day);
        assert(entry_passed(t, days, k as int) <==> entry_passed(t, days, k - 1) || here) by {
            if here {
                assert(t.entry_day == Some(days[k - 1].0));
            }
        }
        assert(here ==> !entry_passed(t, days, k - 1)) by {
            if here && entry_passed(t, days, k - 1) {
                let j = choose|j: int|
                    0 <= j < k - 1 && t.entry_day == Some((#[trigger] days[j]).0);
                assert(numbers(days)[j] < numbers(days)[k - 1]);
            }
        }
        if unfilled_alike(a, x, y) {
            lemma_quiet_day(a, b, ts, x, day, date);
            let v = book::valued(a, ts, x, day, date)->0;
            assert(book::entries(a, ts, v, day, date, 0) == Some(v));
            assert(book::entries(b, ts, v, day, date, 0) == Some(v));
            if here {
                assert(book::exits(a, ts, v, v.open, day, date, v.open.len()) == Some(v));
                lemma_one_signal(a, b, t, v, day, date);
            }
        } else {
            let (qty, notional, entered) = choose|qty: int, notional: int, entered: i32|
                #[trigger] one_filled(a, t, x, qty, notional, entered) && one_filled(
                    b,
                    t,
                    y,
                    qty,
                    notional,
                    entered,
                );
            lemma_day_after_fill(a, t, x, qty, notional, entered, day, date);
            lemma_day_after_fill(b, t, y, qty, notional, entered, day, date);
        }
    }
}

/// More slippage never makes a run of one trade better: it changes neither whether the trade
/// is filled nor its size, and the account never ends higher. It ends lower where the difference
/// in cost, on all shares of the position, is a millionth of a dollar or more.
pub proof fn law_slippage_never_helps_a_run(
    less: Simulator,
    more: Simulator,
    t: DatedView,
    days: Seq<(i32, Seq<char>)>,
)
    requires
        differ_in_slippage(less, more),
        less.slippage_bps <= more.slippage_bps,
        t.trade.entry > 0,
        t.trade.exit_price > 0,
        order::increasing(numbers(days)),
        book::replayed(less, seq![t], days) is Some,
        book::replayed(more, seq![t], days) is Some,
    ensures
        ({
            let better = book::replayed(less, seq![t], days)->0;
            let worse = book::replayed(more, seq![t], days)->0;
            let (shares, per) = first_shares(less, t.trade.entry as int);
            &&& worse.filled == better.filled
            &&& worse.rejected == better.rejected
            &&& worse.cash <= better.cash
            &&& better.filled == 1 && cost_gap(
                t.trade.entry as int,
                t.trade.exit_price as int,
                less.slippage_bps as int,
                more.slippage_bps as int,
            ) * shares >= per ==> worse.cash < better.cash
        }),
{
    let ts = seq![t];
    lemma_one_trade_days(less, more, t, days, days.len());
    law_final_equity_pays_open_positions(less, ts, days);
    law_final_equity_pays_open_positions(more, ts, days);
    let x = book::after_days(less, ts, days, days.len())->0;
    let y = book::after_days(more, ts, days, days.len())->0;
    lemma_wind_up_answers_nothing(ts, x, days.last().1, x.open.len());
    lemma_wind_up_answers_nothing(ts, y, days.last().1, y.open.len());
    if !unfilled_alike(less, x, y) {
        let (qty, notional, entered) = choose|qty: int, notional: int, entered: i32|
            #[trigger] one_filled(less, t, x, qty, notional, entered) && one_filled(
                more,
                t,
                y,
                qty,
                notional,
                entered,
            );
        let p = book::position(less, t, 0, qty, notional, entered);
        law_slippage_never_helps(
            book::is_long(ts, p),
            p.shares as int,
            p.per as int,
            t.trade.entry as int,
            t.trade.exit_price as int,
            less.slippage_bps as int,
            more.slippage_bps as int,
        );
    }
}

/// The same of a whole simulation of one trade over its own calendar.
pub proof fn law_slippage_never_helps_a_simulation(
    less: Simulator,
    more: Simulator,
    t: BacktestTrade,
)
    requires
        differ_in_slippage(less, more),
        less.slippage_bps <= more.slippage_bps,
        t.entry > 0,
        t.exit_price > 0,
        book::simulated(less, seq![t]) is Some,
        book::simulated(more, seq![t]) is Some,
    ensures
        ({
            let better = book::simulated(less, seq![t])->0;
            let worse = book::simulated(more, seq![t])->0;
            let (shares, per) = first_shares(less, t.entry as int);
            &&& worse.filled == better.filled
            &&& worse.rejected == better.rejected
            &&& worse.cash <= better.cash
            &&& better.filled == 1 && cost_gap(
                t.entry as int,
                t.exit_price as int,
                less.slippage_bps as int,
                more.slippage_bps as int,
            ) * shares >= per ==> worse.cash < better.cash
        }),
{
    let ts = book::dated(seq![t]);
    assert(ts =~= seq![book::with_dates(t)]);
    law_calendar_is_complete(ts);
    assert(numbers(book::days_of(ts)) =~= order::calendar(ts));
    law_slippage_never_helps_a_run(less, more, book::with_dates(t), book::days_of(ts));
}

/// How many events of a kind a log holds.
pub open spec fn count_kind(events: Seq<EventView>, kind: Seq<char>) -> nat
    decreases events.len(),
{
    if events.len() == 0 {
        0
    } else {
        count_kind(events.drop_last(), kind) + if events.last().kind == kind {
            1nat
        } else {
            0nat
        }
    }
}

proof fn lemma_count_push(events: Seq<EventView>, e: EventView, kind: Seq<char>)
    ensures
        count_kind(events.push(e), kind) == count_kind(events, kind) + if e.kind == kind {
            1nat
        } else {
            0nat
        },
{
    assert(events.push(e).drop_last() =~= events);
}

proof fn lemma_kinds_differ()
    ensures
        "close"@ != "decision"@,
        "close"@ != "killswitch"@,
        "decision"@ != "killswitch"@,
{
    reveal_strlit("close");
    reveal_strlit("decision");
    reveal_strlit("killswitch");
    assert("close"@.len() == 5);
    assert("decision"@.len() == 8);
    assert("killswitch"@.len() == 10);
}

/// Whether the log accounts for the orders: a decision for each answer, a close for each
/// filled order that is no longer open, and at most one tripping of the kill-switch, after
/// which it is tripped.
pub open spec fn log_balances(b: Book, open: int) -> bool {
    &&& count_kind(b.events, "decision"@) == b.filled + b.rejected
    &&& count_kind(b.events, "close"@) + open == b.filled
    &&& count_kind(b.events, "killswitch"@) <= 1
    &&& count_kind(b.events, "killswitch"@) == 1 ==> b.counters.killswitch_tripped
}

proof fn lemma_push_counts(events: Seq<EventView>, e: EventView)
    ensures
        count_kind(events.push(e), "decision"@) == count_kind(events, "decision"@) + if e.kind
            == "decision"@ {
            1nat
        } else {
            0nat
        },
        count_kind(events.push(e), "close"@) == count_kind(events, "close"@) + if e.kind
            == "close"@ {
            1nat
        } else {
            0nat
        },
        count_kind(events.push(e), "killswitch"@) == count_kind(events, "killswitch"@) + if e.kind
            == "killswitch"@ {
            1nat
        } else {
            0nat
        },
{
    lemma_count_push(events, e, "decision"@);
    lemma_count_push(events, e, "close"@);
    lemma_count_push(events, e, "killswitch"@);
}

proof fn lemma_exits_balance(
    sim: Simulator,
    trades: Seq<DatedView>,
    b: Book,
    open: Seq<OpenPos>,
    day: i32,
    date: Seq<char>,
    k: nat,
)
    requires
        k <= open.len(),
        log_balances(b, open.len() as int),
    ensures
        book::exits(sim, trades, b, open, day, date, k) matches Some(c) ==> log_balances(
            c,
            c.open.len() + open.len() - k,
        ),
    decreases k,
{
    if k > 0 {
        lemma_exits_balance(sim, trades, b, open, day, date, (k - 1) as nat);
        lemma_kinds_differ();
        if let Some(x) = book::exits(sim, trades, b, open, day, date, (k - 1) as nat) {
            let p = open[k - 1];
            if let Some(c) = book::closed(sim, trades, x, p, date) {
                lemma_push_counts(x.events, c.events.last());
                assert(c.events == x.events.push(c.events.last()));
            }
        }
    }
}

proof fn lemma_entries_balance(
    sim: Simulator,
    trades: Seq<DatedView>,
    b: Book,
    day: i32,
    date: Seq<char>,
    k: nat,
)
    requires
        log_balances(b, b.open.len() as int),
    ensures
        book::entries(sim, trades, b, day, date, k) matches Some(c) ==> log_balances(
            c,
            c.open.len() as int,
        ),
    decreases k,
{
    if k > 0 {
        lemma_entries_balance(sim, trades, b, day, date, (k - 1) as nat);
        lemma_kinds_differ();
        if let Some(x) = book::entries(sim, trades, b, day, date, (k - 1) as nat) {
            if let Some(c) = book::entered(sim, trades, x, k - 1, day, date) {
                lemma_push_counts(x.events, c.events.last());
                assert(c.events == x.events.push(c.events.last()));
            }
        }
    }
}

/// After every day the log accounts for the orders.
pub proof fn law_log_balances_every_day(
    sim: Simulator,
    trades: Seq<DatedView>,
    days: Seq<(i32, Seq<char>)>,
    k: nat,
)
    ensures
        book::after_days(sim, trades, days, k) matches Some(c) ==> log_balances(
            c,
            c.open.len() as int,
        ),
    decreases k,
{
    if k > 0 {
        law_log_balances_every_day(sim, trades, days, (k - 1) as nat);
        lemma_kinds_differ();
        if let Some(b) = book::after_days(sim, trades, days, (k - 1) as nat) {
            let day = days[k - 1].0;
            let date = days[k - 1].1;
            if let Some(v) = book::valued(sim, trades, b, day, date) {
                if v.events != b.events {
                    lemma_push_counts(b.events, v.events.last());
                    assert(v.events == b.events.push(v.events.last()));
                }
                assert(log_balances(v, v.open.len() as int));
                lemma_exits_balance(sim, trades, v, v.open, day, date, v.open.len());
                if let Some(x) = book::exits(sim, trades, v, v.open, day, date, v.open.len()) {
                    lemma_entries_balance(sim, trades, x, day, date, trades.len());
                }
            }
        }
    }
}

proof fn lemma_wind_up_balances(trades: Seq<DatedView>, b: Book, date: Seq<char>, k: nat)
    requires
        k <= b.open.len(),
        log_balances(b, b.open.len() as int),
    ensures
        book::wound_up(trades, b, date, k) matches Some(c) ==> log_balances(c, b.open.len() - k),
    decreases k,
{
    if k > 0 {
        lemma_wind_up_balances(trades, b, date, (k - 1) as nat);
        lemma_kinds_differ();
        if let Some(x) = book::wound_up(trades, b, date, (k - 1) as nat) {
            if let Some(c) = book::wound_up(trades, b, date, k) {
                lemma_push_counts(x.events, c.events.last());
                assert(c.events == x.events.push(c.events.last()));
            }
        }
    }
}

/// At the end the log holds a decision for every answered signal, a close for every filled
/// order, and at most one tripping of the kill-switch.
pub proof fn law_log_accounts_for_every_order(
    sim: Simulator,
    trades: Seq<DatedView>,
    days: Seq<(i32, Seq<char>)>,
)
    ensures
        book::replayed(sim, trades, days) matches Some(b) ==> log_balances(b, 0),
{
    law_log_balances_every_day(sim, trades, days, days.len());
    if let Some(b) = book::after_days(sim, trades, days, days.len()) {
        lemma_wind_up_balances(trades, b, days.last().1, b.open.len());
    }
}

/// Whether a log goes on from an earlier one with events of one date.
pub open spec fn goes_on(before: Seq<EventView>, after: Seq<EventView>, date: Seq<char>) -> bool {
    &&& before.len() <= after.len()
    &&& after.take(before.len() as int) == before
    &&& forall|i: int| before.len() <= i < after.len() ==> (#[trigger] after[i]).date == date
}

proof fn lemma_goes_on(
    a: Seq<EventView>,
    b: Seq<EventView>,
    c: Seq<EventView>,
    date: Seq<char>,
)
    requires
        goes_on(a, b, date),
        goes_on(b, c, date),
    ensures
        goes_on(a, c, date),
{
    assert(c.take(a.len() as int) =~= c.take(b.len() as int).take(a.len() as int));
    assert forall|i: int| a.len() <= i < c.len() implies (#[trigger] c[i]).date == date by {
        if i < b.len() {
            assert(c.take(b.len() as int)[i] == c[i]);
            assert(b[i].date == date);
        }
    }
}

proof fn lemma_push_goes_on(events: Seq<EventView>, e: EventView)
    ensures
        goes_on(events, events.push(e), e.date),
        goes_on(events, events, e.date),
{
    assert(events.push(e).take(events.len() as int) =~= events);
    assert(events.take(events.len() as int) =~= events);
}

proof fn lemma_exits_go_on(
    sim: Simulator,
    trades: Seq<DatedView>,
    b: Book,
    open: Seq<OpenPos>,
    day: i32,
    date: Seq<char>,
    k: nat,
)
    ensures
        book::exits(sim, trades, b, open, day, date, k) matches Some(c) ==> goes_on(
            b.events,
            c.events,
            date,
        ),
    decreases k,
{
    assert(b.events.take(b.events.len() as int) =~= b.events);
    if k > 0 {
        lemma_exits_go_on(sim, trades, b, open, day, date, (k - 1) as nat);
        if let Some(x) = book::exits(sim, trades, b, open, day, date, (k - 1) as nat) {
            if let Some(c) = book::exits(sim, trades, b, open, day, date, k) {
                if open[k - 1].exit_day == day {
                    lemma_push_goes_on(x.events, c.events.last());
                    assert(c.events == x.events.push(c.events.last()));
                    lemma_goes_on(b.events, x.events, c.events, date);
                }
            }
        }
    }
}

proof fn lemma_entries_go_on(
    sim: Simulator,
    trades: Seq<DatedView>,
    b: Book,
    day: i32,
    date: Seq<char>,
    k: nat,
)
    ensures
        book::entries(sim, trades, b, day, date, k) matches Some(c) ==> goes_on(
            b.events,
            c.events,
            date,
        ),
    decreases k,
{
    assert(b.events.take(b.events.len() as int) =~= b.events);
    if k > 0 {
        lemma_entries_go_on(sim, trades, b, day, date, (k - 1) as nat);
        if let Some(x) = book::entries(sim, trades, b, day, date, (k - 1) as nat) {
            if let Some(c) = book::entered(sim, trades, x, k - 1, day, date) {
                lemma_push_goes_on(x.events, c.events.last());
                assert(c.events == x.events.push(c.events.last()));
                lemma_goes_on(b.events, x.events, c.events, date);
            }
        }
    }
}

/// A day adds events of its own date to the log, and changes none that are there.
pub proof fn law_a_day_logs_under_its_date(
    sim: Simulator,
    trades: Seq<DatedView>,
    b: Book,
    day: i32,
    date: Seq<char>,
)
    ensures
        book::day_step(sim, trades, b, day, date) matches Some(c) ==> goes_on(
            b.events,
            c.events,
            date,
        ),
{
    assert(b.events.take(b.events.len() as int) =~= b.events);
    if let Some(v) = book::valued(sim, trades, b, day, date) {
        if v.events != b.events {
            lemma_push_goes_on(b.events, v.events.last());
            assert(v.events == b.events.push(v.events.last()));
        }
        assert(goes_on(b.events, v.events, date));
        lemma_exits_go_on(sim, trades, v, v.open, day, date, v.open.len());
        if let Some(x) = book::exits(sim, trades, v, v.open, day, date, v.open.len()) {
            lemma_goes_on(b.events, v.events, x.events, date);
            lemma_entries_go_on(sim, trades, x, day, date, trades.len());
            if let Some(c) = book::entries(sim, trades, x, day, date, trades.len()) {
                lemma_goes_on(b.events, x.events, c.events, date);
            }
        }
    }
}

/// Whether each event stands under the date of a day, with the days in order.
pub open spec fn follows_days(
    events: Seq<EventView>,
    days: Seq<(i32, Seq<char>)>,
    at: Seq<int>,
) -> bool {
    &&& at.len() == events.len()
    &&& forall|i: int|
        0 <= i < at.len() ==> 0 <= #[trigger] at[i] < days.len() && events[i].date
            == days[at[i]].1
    &&& forall|i: int, j: int| 0 <= i <= j < at.len() ==> at[i] <= at[j]
}

proof fn lemma_follow_one_more(
    before: Seq<EventView>,
    after: Seq<EventView>,
    days: Seq<(i32, Seq<char>)>,
    at: Seq<int>,
    k: int,
) -> (r: Seq<int>)
    requires
        0 <= k < days.len(),
        follows_days(before, days, at),
        forall|i: int| 0 <= i < at.len() ==> #[trigger] at[i] <= k,
        goes_on(before, after, days[k].1),
    ensures
        follows_days(after, days, r),
        forall|i: int| 0 <= i < r.len() ==> #[trigger] r[i] <= k,
{
    let r = Seq::new(
        after.len(),
        |i: int|
            if i < before.len() {
                at[i]
            } else {
                k
            },
    );
    assert forall|i: int| 0 <= i < r.len() implies 0 <= #[trigger] r[i] < days.len()
        && after[i].date == days[r[i]].1 by {
        if i < before.len() {
            assert(after.take(before.len() as int)[i] == after[i]);
            assert(r[i] == at[i]);
        }
    }
    r
}

/// The dates of the log never go back: each event stands under the date of a day of the
/// replay, `at` which, and later events under no earlier day.
pub proof fn law_event_dates_never_go_back(
    sim: Simulator,
    trades: Seq<DatedView>,
    days: Seq<(i32, Seq<char>)>,
    k: nat,
) -> (at: Seq<int>)
    requires
        k <= days.len(),
    ensures
        book::after_days(sim, trades, days, k) matches Some(b) ==> {
            &&& follows_days(b.events, days, at)
            &&& forall|i: int| 0 <= i < at.len() ==> #[trigger] at[i] < k
        },
    decreases k,
{
    if k == 0 {
        seq![]
    } else {
        let at = law_event_dates_never_go_back(sim, trades, days, (k - 1) as nat);
        match book::after_days(sim, trades, days, (k - 1) as nat) {
            None => at,
            Some(b) => match book::after_days(sim, trades, days, k) {
                None => at,
                Some(c) => {
                    law_a_day_logs_under_its_date(
                        sim,
                        trades,
                        b,
                        days[k - 1].0,
                        days[k - 1].1,
                    );
                    lemma_follow_one_more(b.events, c.events, days, at, k - 1)
                },
            },
        }
    }
}

proof fn lemma_wind_up_goes_on(trades: Seq<DatedView>, b: Book, date: Seq<char>, k: nat)
    ensures
        book::wound_up(trades, b, date, k) matches Some(c) ==> goes_on(b.events, c.events, date),
    decreases k,
{
    assert(b.events.take(b.events.len() as int) =~= b.events);
    if k > 0 {
        lemma_wind_up_goes_on(trades, b, date, (k - 1) as nat);
        if let Some(x) = book::wound_up(trades, b, date, (k - 1) as nat) {
            if let Some(c) = book::wound_up(trades, b, date, k) {
                lemma_push_goes_on(x.events, c.events.last());
                assert(c.events == x.events.push(c.events.last()));
                lemma_goes_on(b.events, x.events, c.events, date);
            }
        }
    }
}

/// The same of the whole log, with what is closed at the end.
pub proof fn law_event_dates_of_a_run_never_go_back(
    sim: Simulator,
    trades: Seq<DatedView>,
    days: Seq<(i32, Seq<char>)>,
) -> (at: Seq<int>)
    ensures
        book::replayed(sim, trades, days) matches Some(c) ==> follows_days(c.events, days, at),
{
    let at = law_event_dates_never_go_back(sim, trades, days, days.len());
    match book::after_days(sim, trades, days, days.len()) {
        None => at,
        Some(b) => match book::replayed(sim, trades, days) {
            None => at,
            Some(c) => if days.len() == 0 {
                at
            } else {
                lemma_wind_up_goes_on(trades, b, days.last().1, b.open.len());
                lemma_follow_one_more(b.events, c.events, days, at, days.len() - 1)
            },
        },
    }
}

/// A split leaves out no trade and holds none twice. With ten trades or more, neither part is
/// empty.
pub proof fn law_split_keeps_every_trade(trades: Seq<BacktestTrade>, fraction: int)
    ensures
        ({
            let sorted = order::by_entry_date(trades);
            let cut = sim::split_at(sorted.len() as int, fraction);
            &&& 0 <= cut <= sorted.len()
            &&& sorted.take(cut) + sorted.skip(cut) == sorted
            &&& trades.len() >= 10 ==> 0 < cut < sorted.len()
        }),
{
    order::law_sorting_orders_and_keeps_trades(trades);
    let sorted = order::by_entry_date(trades);
    let n = sorted.len() as int;
    let f = fixed::smaller(fixed::larger(fraction, 100_000), 900_000);
    assert(n * 100_000 <= n * f <= n * 900_000) by (nonlinear_arith)
        requires
            n >= 0,
            100_000 <= f <= 900_000,
    ;
    let cut = sim::split_at(n, fraction);
    assert(sorted.take(cut) + sorted.skip(cut) =~= sorted);
}

} // verus!
