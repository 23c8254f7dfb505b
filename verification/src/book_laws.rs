//! What holds of every step of a simulation: how positions are opened, marked, valued and
//! closed, and how a day and a whole run are made of such steps.

use vstd::prelude::*;

use crate::book;
use crate::book::{Book, DatedView};
use crate::clock;
use crate::executor;
use crate::executor::TradingMode;
use crate::fixed;
use crate::risk::DecisionView;
use crate::sim;
use crate::sim::{BacktestTrade, Bar, DatedTrade, OpenPos, Simulator, SlipKind};
use crate::state::CountersView;
use crate::text;

verus! {

/// Slippage moves a price by the basis points of it, to the millionth above: up for who buys, to
/// enter a long or to cover a short, and down for who sells.
pub proof fn law_slippage_is_a_share_of_the_price(
    price: int,
    is_buy: bool,
    kind: SlipKind,
    bps: int,
)
    ensures
        ({
            let after = sim::slip(price, is_buy, kind, bps);
            let buys = (is_buy && kind is Entry) || (!is_buy && kind is Exit);
            let cost = if buys { after - price } else { price - after };
            (cost - 1) * 10_000_000_000 < price * bps <= cost * 10_000_000_000
        }),
{
    fixed::law_rounding_up_is_tight(price * bps, 10_000_000_000);
}

/// The P&L of a long is its shares times the way up, and that of a short its shares times the
/// way down, to the millionth below. A price that did not move earns nothing.
pub proof fn law_pnl_follows_the_price(
    bullish: bool,
    shares: int,
    per: int,
    from: int,
    to: int,
)
    requires
        per > 0,
    ensures
        ({
            let r = sim::pnl(bullish, shares, per, from, to);
            &&& bullish ==> r * per <= (to - from) * shares < (r + 1) * per
            &&& !bullish ==> r * per <= (from - to) * shares < (r + 1) * per
        }),
        sim::pnl(bullish, shares, per, from, from) == 0,
{
    let change = if bullish { to - from } else { from - to };
    let r = sim::pnl(bullish, shares, per, from, to);
    fixed::lemma_floor_at_least(change * shares, per, r);
    fixed::lemma_floor_at_least(change * shares, per, r + 1);
    let none = sim::pnl(bullish, shares, per, from, from);
    assert(0 * shares == 0);
    fixed::lemma_floor_at_least(0, per, 0);
    fixed::lemma_floor_at_least(0, per, 1);
}

/// The P&L of an open position at its mark is what closing it there would realize: shares times
/// the way from the entry up to the mark for a long, and down to it for a short.
pub proof fn law_a_mark_is_worth_a_close_there(p: OpenPos, bullish: bool)
    requires
        p.per > 0,
    ensures
        ({
            let way = if bullish {
                p.last_mtm - p.entry_filled
            } else {
                p.entry_filled - p.last_mtm
            };
            p.unrealized(bullish) * p.per <= way * p.shares < (p.unrealized(bullish) + 1) * p.per
        }),
        ({
            let way = if bullish {
                p.exit_planned - p.entry_filled
            } else {
                p.entry_filled - p.exit_planned
            };
            p.realized(bullish) * p.per <= way * p.shares < (p.realized(bullish) + 1) * p.per
        }),
        p.unrealized(bullish) == (OpenPos { exit_planned: p.last_mtm, ..p }).realized(bullish),
        p.last_mtm == p.entry_filled ==> p.unrealized(bullish) == 0,
{
    law_pnl_follows_the_price(
        bullish,
        p.shares as int,
        p.per as int,
        p.entry_filled as int,
        p.last_mtm as int,
    );
    law_pnl_follows_the_price(
        bullish,
        p.shares as int,
        p.per as int,
        p.entry_filled as int,
        p.exit_planned as int,
    );
}

/// A long gains when its mark rises, and a short when it falls: a mark further on the winning
/// side is never worth less, and one at least a whole millionth a share further is worth more.
pub proof fn law_shorts_gain_when_marks_fall(p: OpenPos, higher: i64, bullish: bool)
    requires
        p.per > 0,
        p.shares >= 0,
        p.last_mtm <= higher,
    ensures
        ({
            let q = OpenPos { last_mtm: higher, ..p };
            &&& bullish ==> q.unrealized(true) >= p.unrealized(true)
            &&& !bullish ==> q.unrealized(false) <= p.unrealized(false)
            &&& (higher - p.last_mtm) * p.shares >= p.per ==> {
                &&& q.unrealized(true) > p.unrealized(true)
                &&& q.unrealized(false) < p.unrealized(false)
            }
        }),
{
    let q = OpenPos { last_mtm: higher, ..p };
    let s = p.shares as int;
    let per = p.per as int;
    let low = p.last_mtm - p.entry_filled;
    let high = higher - p.entry_filled;
    assert(low * s <= high * s) by (nonlinear_arith)
        requires
            low <= high,
            s >= 0,
    ;
    assert((-high) * s == -(high * s)) by (nonlinear_arith);
    assert((-low) * s == -(low * s)) by (nonlinear_arith);
    assert((high - low) * s == high * s - low * s) by (nonlinear_arith);
    assert(q.unrealized(true) == high * s / per);
    assert(p.unrealized(true) == low * s / per);
    assert(q.unrealized(false) == (-high) * s / per);
    assert(p.unrealized(false) == (-low) * s / per);
    lemma_floor_follows(low * s, high * s, per);
    lemma_floor_follows(-(high * s), -(low * s), per);
}

proof fn lemma_floor_follows(less: int, more: int, per: int)
    requires
        per > 0,
        less <= more,
    ensures
        less / per <= more / per,
        more - less >= per ==> less / per < more / per,
{
    let a = less / per;
    fixed::lemma_floor_at_least(less, per, a);
    fixed::lemma_floor_at_least(more, per, a);
    fixed::lemma_floor_at_least(more, per, a + 1);
    assert((a + 1) * per == a * per + per) by (nonlinear_arith);
}

/// A position is a long exactly where its trade is bullish.
pub proof fn law_only_bullish_trades_are_long(trades: Seq<DatedView>, p: OpenPos)
    ensures
        book::is_long(trades, p) <==> trades[p.trade as int].trade.direction@ == "bullish"@,
        book::unrealized(trades, p) == p.unrealized(
            trades[p.trade as int].trade.direction@ == "bullish"@,
        ),
        book::realized(trades, p) == p.realized(
            trades[p.trade as int].trade.direction@ == "bullish"@,
        ),
{
}

/// The P&L of open positions is the sum over all of them.
pub proof fn law_open_positions_add_up(
    trades: Seq<DatedView>,
    some: Seq<OpenPos>,
    others: Seq<OpenPos>,
    p: OpenPos,
)
    ensures
        book::total_unrealized(trades, seq![]) == 0,
        book::total_unrealized(trades, seq![p]) == book::unrealized(trades, p),
        book::total_unrealized(trades, some + others) == book::total_unrealized(trades, some)
            + book::total_unrealized(trades, others),
    decreases others.len(),
{
    assert(seq![p].drop_last() =~= seq![]);
    if others.len() == 0 {
        assert(some + others =~= some);
    } else {
        law_open_positions_add_up(trades, some, others.drop_last(), p);
        assert((some + others).drop_last() =~= some + others.drop_last());
    }
}

proof fn lemma_total_not_negative(trades: Seq<DatedView>, open: Seq<OpenPos>)
    requires
        forall|i: int| 0 <= i < open.len() ==> book::unrealized(trades, #[trigger] open[i]) >= 0,
    ensures
        book::total_unrealized(trades, open) >= 0,
    decreases open.len(),
{
    if open.len() > 0 {
        assert forall|i: int| 0 <= i < open.drop_last().len() implies book::unrealized(
            trades,
            #[trigger] open.drop_last()[i],
        ) >= 0 by {
            assert(open.drop_last()[i] == open[i]);
        }
        lemma_total_not_negative(trades, open.drop_last());
        assert(open.last() == open[open.len() - 1]);
    }
}

/// The close of a day is that of its last bar; there is none where the day has no bar.
pub proof fn law_the_last_bar_of_a_day_counts(closes: Seq<(i32, i64)>, day: i32)
    ensures
        match book::close_on(closes, day) {
            Some(close) => exists|j: int|
                {
                    &&& 0 <= j < closes.len()
                    &&& #[trigger] closes[j] == (day, close)
                    &&& forall|k: int| j < k < closes.len() ==> (#[trigger] closes[k]).0 != day
                },
            None => forall|k: int| 0 <= k < closes.len() ==> (#[trigger] closes[k]).0 != day,
        },
    decreases closes.len(),
{
    if closes.len() > 0 {
        let n = closes.len() - 1;
        let before = closes.drop_last();
        law_the_last_bar_of_a_day_counts(before, day);
        if closes.last().0 == day {
            assert(closes[n] == (day, closes.last().1));
        } else {
            match book::close_on(before, day) {
                Some(close) => {
                    let j = choose|j: int|
                        {
                            &&& 0 <= j < before.len()
                            &&& #[trigger] before[j] == (day, close)
                            &&& forall|k: int|
                                j < k < before.len() ==> (#[trigger] before[k]).0 != day
                        };
                    assert(closes[j] == (day, close));
                    assert forall|k: int| j < k < closes.len() implies (
                    #[trigger] closes[k]).0 != day by {
                        if k < n {
                            assert(before[k].0 != day);
                        }
                    }
                },
                None => {
                    assert forall|k: int| 0 <= k < closes.len() implies (
                    #[trigger] closes[k]).0 != day by {
                        if k < n {
                            assert(before[k].0 != day);
                        }
                    }
                },
            }
        }
    }
}

/// A day marks every open position that has a bar on it to the close of that bar, leaves the
/// others at their mark, and changes nothing else of any.
pub proof fn law_days_mark_what_is_open(
    sim: Simulator,
    trades: Seq<DatedView>,
    b: Book,
    day: i32,
    date: Seq<char>,
    i: int,
)
    requires
        0 <= i < b.open.len(),
    ensures
        book::valued(sim, trades, b, day, date) matches Some(v) ==> {
            &&& v.open.len() == b.open.len()
            &&& v.open[i] == (OpenPos { last_mtm: v.open[i].last_mtm, ..b.open[i] })
            &&& match book::close_on(trades[b.open[i].trade as int].closes, day) {
                Some(close) => v.open[i].last_mtm == close,
                None => v.open[i].last_mtm == b.open[i].last_mtm,
            }
        },
{
}

/// A drawdown is how far the account is below its peak, in percent of the peak to the nearest
/// hundredth; there is none at the peak, and none from a peak that is not above 0.
pub proof fn law_drawdowns_are_below_the_peak(peak: int, equity: int)
    ensures
        peak <= 0 ==> book::drawdown(peak, equity) == 0,
        peak > 0 ==> ({
            let dd = book::drawdown(peak, equity);
            &&& dd % 10_000 == 0
            &&& -5_000 * peak <= dd * peak - (peak - equity) * 100_000_000 <= 5_000 * peak
            &&& equity == peak ==> dd == 0
            &&& equity <= peak ==> dd >= 0
        }),
{
    if peak > 0 {
        fixed::law_percentages_are_the_nearest(peak - equity, peak);
        let dd = book::drawdown(peak, equity);
        if equity == peak {
            assert(-5_000 * peak <= dd * peak <= 5_000 * peak);
            assert(-5_000 <= dd <= 5_000) by (nonlinear_arith)
                requires
                    peak > 0,
                    -5_000 * peak <= dd * peak <= 5_000 * peak,
            ;
        } else if equity <= peak {
            let top = (peak - equity) * 100_000_000 + 5_000 * peak;
            fixed::lemma_floor_in_range(top, 10_000 * peak);
        }
    }
}

/// What a day does to the books before anything closes or opens. The account with its open
/// positions is worth the cash and their P&L at the marks; the kill-switch trips, with an event,
/// exactly where that is at or below the threshold on the starting equity and it was not tripped
/// before; the peak and the drawdown from it are remembered; and no cash moves.
pub proof fn law_days_value_the_account(
    sim: Simulator,
    trades: Seq<DatedView>,
    b: Book,
    day: i32,
    date: Seq<char>,
)
    requires
        sim.starting_equity > 0,
    ensures
        book::valued(sim, trades, b, day, date) matches Some(v) ==> {
            let start = sim.starting_equity;
            let worth = b.cash + book::total_unrealized(trades, v.open);
            let breach = (worth - start) * 100_000_000 <= start
                * sim.caps.daily_drawdown_killswitch_pct;
            &&& v.cash == b.cash
            &&& v.filled == b.filled
            &&& v.rejected == b.rejected
            &&& v.resized == b.resized
            &&& v.peak_realized == b.peak_realized
            &&& v.max_dd == b.max_dd
            &&& v.counters.killswitch_tripped <==> b.counters.killswitch_tripped || breach
            &&& v.counters == (CountersView {
                killswitch_tripped: v.counters.killswitch_tripped,
                ..b.counters.on_simulated_day(date)
            })
            &&& breach && !b.counters.killswitch_tripped ==> {
                &&& v.events.len() == b.events.len() + 1
                &&& v.events.drop_last() == b.events
                &&& v.events.last().kind == "killswitch"@
                &&& v.events.last().date == date
                &&& v.events.last().symbol is None
                &&& v.events.last().detail == "killswitch tripped on MTM: combined P&L "@
                    + text::fixed2(executor::daily_pnl_pct(worth, start as int)) + "% <= "@
                    + text::fixed2(sim.caps.daily_drawdown_killswitch_pct as int) + "%"@
                &&& v.events.last().equity_after == worth
            }
            &&& !breach || b.counters.killswitch_tripped ==> v.events == b.events
            &&& v.peak_combined >= worth
            &&& v.peak_combined >= b.peak_combined
            &&& v.peak_combined == worth || v.peak_combined == b.peak_combined
            &&& v.max_unrealized_dd >= b.max_unrealized_dd
            &&& v.max_unrealized_dd >= book::drawdown(v.peak_combined, worth)
            &&& v.max_unrealized_dd == b.max_unrealized_dd || v.max_unrealized_dd
                == book::drawdown(v.peak_combined, worth)
        },
{
    if let Some(v) = book::valued(sim, trades, b, day, date) {
        let worth = b.cash + book::total_unrealized(trades, v.open);
        executor::law_pnl_threshold_is_exact(
            worth,
            sim.starting_equity as int,
            sim.caps.daily_drawdown_killswitch_pct as int,
        );
        if v.events != b.events {
            assert(v.events.drop_last() =~= b.events);
        }
    }
}

/// A day on which every open position is marked on its winning side, a long at or above its
/// entry and a short at or below it, does not take the account below its cash: it trips no
/// kill-switch that the cash alone does not, and shows no drawdown from a peak that the cash has
/// reached.
pub proof fn law_winning_marks_do_no_harm(
    sim: Simulator,
    trades: Seq<DatedView>,
    b: Book,
    day: i32,
    date: Seq<char>,
    v: Book,
)
    requires
        book::valued(sim, trades, b, day, date) == Some(v),
        forall|i: int|
            0 <= i < v.open.len() ==> {
                let p = #[trigger] v.open[i];
                &&& p.per > 0
                &&& p.shares >= 0
                &&& if trades[p.trade as int].trade.direction@ == "bullish"@ {
                    p.last_mtm >= p.entry_filled
                } else {
                    p.last_mtm <= p.entry_filled
                }
            },
        sim.starting_equity > 0,
    ensures
        book::total_unrealized(trades, v.open) >= 0,
        (b.cash - sim.starting_equity) * 100_000_000 > sim.starting_equity
            * sim.caps.daily_drawdown_killswitch_pct ==> {
            &&& v.counters.killswitch_tripped == b.counters.killswitch_tripped
            &&& v.events == b.events
        },
        0 < b.peak_combined <= b.cash && b.max_unrealized_dd >= 0 ==> v.max_unrealized_dd
            == b.max_unrealized_dd,
{
    assert forall|i: int| 0 <= i < v.open.len() implies book::unrealized(
        trades,
        #[trigger] v.open[i],
    ) >= 0 by {
        let p = v.open[i];
        let way = if book::is_long(trades, p) {
            p.last_mtm - p.entry_filled
        } else {
            p.entry_filled - p.last_mtm
        };
        assert(way * p.shares >= 0) by (nonlinear_arith)
            requires
                way >= 0,
                p.shares >= 0,
        ;
        fixed::lemma_floor_in_range(way * p.shares, p.per as int);
    }
    lemma_total_not_negative(trades, v.open);
    law_days_value_the_account(sim, trades, b, day, date);
    let worth = b.cash + book::total_unrealized(trades, v.open);
    if 0 < b.peak_combined <= b.cash {
        law_drawdowns_are_below_the_peak(v.peak_combined, worth);
    }
}

/// A close pays the P&L of the position into the account, books it and is logged with the
/// symbol and the P&L; the peak of the account after closes and the drawdown from it are
/// remembered.
pub proof fn law_closes_pay_the_account(
    sim: Simulator,
    trades: Seq<DatedView>,
    b: Book,
    p: OpenPos,
    date: Seq<char>,
)
    ensures
        book::closed(sim, trades, b, p, date) matches Some(c) ==> {
            let pnl = book::realized(trades, p);
            &&& c.cash == b.cash + pnl
            &&& c.counters == b.counters.after_close(
                p.notional as int,
                pnl,
                sim.caps.daily_drawdown_killswitch_pct as int,
            )
            &&& c.open == b.open
            &&& c.filled == b.filled
            &&& c.rejected == b.rejected
            &&& c.resized == b.resized
            &&& c.peak_combined == b.peak_combined
            &&& c.max_unrealized_dd == b.max_unrealized_dd
            &&& c.peak_realized >= c.cash
            &&& c.peak_realized >= b.peak_realized
            &&& c.peak_realized == c.cash || c.peak_realized == b.peak_realized
            &&& c.max_dd >= b.max_dd
            &&& c.max_dd >= book::drawdown(c.peak_realized, c.cash)
            &&& c.max_dd == b.max_dd || c.max_dd == book::drawdown(c.peak_realized, c.cash)
            &&& c.events.len() == b.events.len() + 1
            &&& c.events.drop_last() == b.events
            &&& c.events.last().kind == "close"@
            &&& c.events.last().date == date
            &&& c.events.last().symbol == Some(trades[p.trade as int].trade.symbol@)
            &&& c.events.last().detail == "close pnl=$"@ + text::fixed2(pnl)
            &&& c.events.last().equity_after == c.cash
        },
{
    if let Some(c) = book::closed(sim, trades, b, p, date) {
        assert(c.events.drop_last() =~= b.events);
    }
}

/// Whether positions do not exit on a day.
pub open spec fn none_exit(open: Seq<OpenPos>, day: i32) -> bool {
    forall|i: int| 0 <= i < open.len() ==> (#[trigger] open[i]).exit_day != day
}

/// Of the positions that are open, exactly those close that exit on the day; the others stay, in
/// their order, as they are.
pub proof fn law_exits_close_what_is_due(
    sim: Simulator,
    trades: Seq<DatedView>,
    b: Book,
    open: Seq<OpenPos>,
    day: i32,
    date: Seq<char>,
    k: nat,
)
    requires
        k <= open.len(),
    ensures
        book::exits(sim, trades, b, open, day, date, k) matches Some(c) ==> {
            &&& c.open == open.take(k as int).filter(|p: OpenPos| p.exit_day != day)
            &&& none_exit(c.open, day)
            &&& c.events.len() == b.events.len() + k - c.open.len()
        },
    decreases k,
{
    let stays = |p: OpenPos| p.exit_day != day;
    if k == 0 {
        assert(open.take(0) =~= seq![]);
        reveal(Seq::filter);
        assert(open.take(0).filter(stays) =~= seq![]);
    } else {
        law_exits_close_what_is_due(sim, trades, b, open, day, date, (k - 1) as nat);
        let before = open.take(k - 1);
        let p = open[k - 1];
        assert(open.take(k as int) =~= before.push(p));
        reveal(Seq::filter);
        assert(open.take(k as int).drop_last() =~= before);
        if let Some(x) = book::exits(sim, trades, b, open, day, date, (k - 1) as nat) {
            if let Some(c) = book::exits(sim, trades, b, open, day, date, k) {
                if p.exit_day == day {
                    law_closes_pay_the_account(sim, trades, x, p, date);
                } else {
                    assert forall|i: int| 0 <= i < c.open.len() implies (
                    #[trigger] c.open[i]).exit_day != day by {
                        if i < x.open.len() {
                            assert(c.open[i] == x.open[i]);
                        }
                    }
                }
            }
        }
    }
}

/// A simulation trades in Standard mode where its caps allow at most 10% per trade, and in Tiny
/// mode otherwise.
pub proof fn law_the_caps_pick_the_mode(sim: Simulator)
    ensures
        book::mode_of(sim) == TradingMode::Standard <==> sim.caps.max_pct_per_trade <= 10_000_000,
        book::mode_of(sim) == TradingMode::Tiny <==> sim.caps.max_pct_per_trade > 10_000_000,
{
}

/// The books open with the starting equity as cash and as both peaks, and with nothing else.
pub proof fn law_simulations_start_clean(sim: Simulator)
    ensures
        ({
            let b = book::opening(sim);
            &&& b.cash == sim.starting_equity
            &&& b.peak_combined == sim.starting_equity
            &&& b.peak_realized == sim.starting_equity
            &&& b.counters.starting_equity == sim.starting_equity
            &&& b.counters.trades_opened == 0
            &&& b.counters.open_notional == 0
            &&& b.counters.realized_pnl == 0
            &&& !b.counters.killswitch_tripped
            &&& b.open.len() == 0
            &&& b.events.len() == 0
            &&& b.max_dd == 0
            &&& b.max_unrealized_dd == 0
            &&& b.filled == 0
            &&& b.rejected == 0
            &&& b.resized == 0
        }),
{
}

/// A fill opens a position in its own trade, of the shares that were ordered, or of what the
/// notional buys at the entry price where the order was in dollars. It is entered and will be
/// closed at the trade's prices after slippage, is marked at its entry, and exits on the
/// trade's exit day, or on the day of the fill where that cannot be read.
pub proof fn law_fills_open_what_was_ordered(
    sim: Simulator,
    dated: DatedView,
    index: int,
    qty: int,
    notional: int,
    day: i32,
)
    requires
        book::prices_fit(sim, dated.trade),
        0 <= index <= usize::MAX,
        0 <= qty <= u32::MAX,
        0 <= notional <= i64::MAX,
    ensures
        ({
            let t = dated.trade;
            let p = book::position(sim, dated, index, qty, notional, day);
            let long = t.direction@ == "bullish"@;
            let bps = sim.slippage_bps as int;
            &&& p.trade == index
            &&& p.notional == notional
            &&& p.per > 0
            &&& p.shares >= 0
            &&& qty > 0 ==> p.shares == qty && p.per == 1
            &&& qty == 0 && t.entry > 0 ==> p.shares * t.entry == notional * p.per
            &&& qty == 0 && t.entry <= 0 ==> p.shares == 0
            &&& p.entry_filled == sim::slip(t.entry as int, long, SlipKind::Entry, bps)
            &&& p.exit_planned == sim::slip(t.exit_price as int, long, SlipKind::Exit, bps)
            &&& p.last_mtm == p.entry_filled
            &&& dated.exit_day matches Some(exit) ==> p.exit_day == exit
            &&& dated.exit_day is None ==> p.exit_day == day
        }),
{
}

/// A signal of a simulation is decided on as any other, by the mode of the simulation, the
/// counters of its day and the cash. A refused one is counted and logged with the reason, and
/// opens nothing. A filled one is counted, as resized where it was, booked at its notional,
/// logged, and opens one position for that notional.
pub proof fn law_simulated_signals_are_decided_on(
    sim: Simulator,
    trades: Seq<DatedView>,
    b: Book,
    index: int,
    day: i32,
    date: Seq<char>,
)
    ensures
        book::entered(sim, trades, b, index, day, date) matches Some(c) ==> {
            let t = trades[index].trade;
            let mode = book::mode_of(sim);
            let day_counters = executor::counters_for(b.counters, date, b.cash);
            let d = executor::decided(mode, day_counters, b.cash, t.entry as int);
            let amount = executor::sent_notional(mode, day_counters, b.cash);
            &&& c.cash == b.cash
            &&& c.peak_combined == b.peak_combined
            &&& c.peak_realized == b.peak_realized
            &&& c.max_dd == b.max_dd
            &&& c.max_unrealized_dd == b.max_unrealized_dd
            &&& c.events.len() == b.events.len() + 1
            &&& c.events.drop_last() == b.events
            &&& c.events.last().kind == "decision"@
            &&& c.events.last().date == date
            &&& c.events.last().symbol == Some(t.symbol@)
            &&& c.events.last().equity_after == b.cash
            &&& d matches DecisionView::Reject { reason } ==> {
                &&& c.rejected == b.rejected + 1
                &&& c.filled == b.filled
                &&& c.resized == b.resized
                &&& c.open == b.open
                &&& c.counters.trades_opened == day_counters.trades_opened
                &&& c.counters.open_notional == day_counters.open_notional
                &&& c.counters.killswitch_tripped <==> day_counters.killswitch_tripped
                    || executor::daily_pnl_pct(b.cash, day_counters.starting_equity)
                    <= mode.caps().daily_drawdown_killswitch_pct
                &&& c.events.last().detail == "REJECT: "@ + reason
            }
            &&& d !is Reject ==> {
                let qty = if mode is Standard {
                    executor::share_quantity(amount, t.entry as int)
                } else {
                    0
                };
                &&& c.rejected == b.rejected
                &&& c.filled == b.filled + 1
                &&& c.resized == b.resized + (if d is Resize { 1int } else { 0int })
                &&& c.counters.trades_opened == day_counters.trades_opened + 1
                &&& c.counters.open_notional == day_counters.open_notional + amount
                &&& c.counters.killswitch_tripped == day_counters.killswitch_tripped
                &&& c.open == b.open.push(
                    book::position(sim, trades[index], index, qty, amount, day),
                )
                &&& c.events.last().detail == (if d is Resize {
                    "RESIZE → fill qty="@
                } else {
                    "FILL qty="@
                }) + text::digits(qty as nat) + " notional=$"@ + text::fixed0(amount)
                    + " (slip "@ + text::fixed0(sim.slippage_bps as int) + "bps)"@
            }
        },
{
    if let Some(c) = book::entered(sim, trades, b, index, day, date) {
        assert(c.events.drop_last() =~= b.events);
    }
}

/// The signals of a day are taken one by one, in the order of the trades: those whose entry is
/// on the day, and no others.
pub proof fn law_signals_are_taken_one_by_one(
    sim: Simulator,
    trades: Seq<DatedView>,
    b: Book,
    day: i32,
    date: Seq<char>,
    k: nat,
)
    ensures
        book::entries(sim, trades, b, day, date, 0) == Some(b),
        book::entries(sim, trades, b, day, date, k) matches Some(x) ==> {
            &&& trades[k as int].entry_day == Some(day) ==> book::entries(
                sim,
                trades,
                b,
                day,
                date,
                k + 1,
            ) == book::entered(sim, trades, x, k as int, day, date)
            &&& trades[k as int].entry_day != Some(day) ==> book::entries(
                sim,
                trades,
                b,
                day,
                date,
                k + 1,
            ) == Some(x)
        },
{
}

/// What is open after the signals of a day is what was open before, and behind it the new
/// positions, one for each fill, in the order of their trades, which all enter on the day.
pub proof fn law_signals_open_their_own_trades(
    sim: Simulator,
    trades: Seq<DatedView>,
    b: Book,
    day: i32,
    date: Seq<char>,
    k: nat,
)
    requires
        k <= trades.len() <= usize::MAX,
    ensures
        book::entries(sim, trades, b, day, date, k) matches Some(c) ==> {
            &&& c.cash == b.cash
            &&& c.open.len() == b.open.len() + c.filled - b.filled
            &&& c.filled >= b.filled
            &&& c.open.take(b.open.len() as int) == b.open
            &&& forall|i: int|
                b.open.len() <= i < c.open.len() ==> {
                    &&& (#[trigger] c.open[i]).trade < k
                    &&& trades[c.open[i].trade as int].entry_day == Some(day)
                }
            &&& forall|i: int, j: int|
                b.open.len() <= i < j < c.open.len() ==> c.open[i].trade < c.open[j].trade
        },
    decreases k,
{
    if k == 0 {
        assert(b.open.take(b.open.len() as int) =~= b.open);
    } else {
        law_signals_open_their_own_trades(sim, trades, b, day, date, (k - 1) as nat);
        if let Some(x) = book::entries(sim, trades, b, day, date, (k - 1) as nat) {
            law_simulated_signals_are_decided_on(sim, trades, x, k - 1, day, date);
            if let Some(c) = book::entries(sim, trades, b, day, date, k) {
                assert(c.open.take(b.open.len() as int) =~= x.open.take(b.open.len() as int));
                assert forall|i: int| b.open.len() <= i < c.open.len() implies {
                    &&& (#[trigger] c.open[i]).trade < k
                    &&& trades[c.open[i].trade as int].entry_day == Some(day)
                } by {
                    if i < x.open.len() {
                        assert(c.open[i] == x.open[i]);
                    }
                }
                assert forall|i: int, j: int| b.open.len() <= i < j < c.open.len() implies
                    c.open[i].trade < c.open[j].trade by {
                    assert(c.open[i] == x.open[i]);
                    if j < x.open.len() {
                        assert(c.open[j] == x.open[j]);
                    }
                }
            }
        }
    }
}

/// A day marks and values what is open, then closes what is due, and only then takes its
/// signals: of what was open before the day, what exits on it is gone and the rest stays in
/// front of what the day opened, which stays open even where it is due on the same day.
pub proof fn law_a_day_closes_before_it_opens(
    sim: Simulator,
    trades: Seq<DatedView>,
    b: Book,
    day: i32,
    date: Seq<char>,
)
    requires
        trades.len() <= usize::MAX,
    ensures
        book::day_step(sim, trades, b, day, date) matches Some(c) ==> {
            let v = book::valued(sim, trades, b, day, date)->0;
            let kept = v.open.filter(|p: OpenPos| p.exit_day != day);
            &&& book::valued(sim, trades, b, day, date) is Some
            &&& c.open.len() == kept.len() + c.filled - b.filled
            &&& c.open.take(kept.len() as int) == kept
            &&& forall|i: int|
                kept.len() <= i < c.open.len() ==> trades[(#[trigger] c.open[i]).trade as int].entry_day
                    == Some(day)
        },
{
    if let Some(v) = book::valued(sim, trades, b, day, date) {
        let kept = v.open.filter(|p: OpenPos| p.exit_day != day);
        law_exits_close_what_is_due(sim, trades, v, v.open, day, date, v.open.len());
        assert(v.open.take(v.open.len() as int) =~= v.open);
        if let Some(x) = book::exits(sim, trades, v, v.open, day, date, v.open.len()) {
            lemma_exits_fill_nothing(sim, trades, v, v.open, day, date, v.open.len());
            law_signals_open_their_own_trades(sim, trades, x, day, date, trades.len());
        }
    }
}

proof fn lemma_exits_fill_nothing(
    sim: Simulator,
    trades: Seq<DatedView>,
    b: Book,
    open: Seq<OpenPos>,
    day: i32,
    date: Seq<char>,
    k: nat,
)
    ensures
        book::exits(sim, trades, b, open, day, date, k) matches Some(c) ==> c.filled == b.filled,
    decreases k,
{
    if k > 0 {
        lemma_exits_fill_nothing(sim, trades, b, open, day, date, (k - 1) as nat);
    }
}

/// A replay goes through its days one by one, from the opening books, leaving none out.
pub proof fn law_days_follow_one_another(
    sim: Simulator,
    trades: Seq<DatedView>,
    days: Seq<(i32, Seq<char>)>,
    k: nat,
)
    ensures
        book::after_days(sim, trades, days, 0) == Some(book::opening(sim)),
        book::after_days(sim, trades, days, k) matches Some(b) ==> book::after_days(
            sim,
            trades,
            days,
            k + 1,
        ) == book::day_step(sim, trades, b, days[k as int].0, days[k as int].1),
        book::after_days(sim, trades, days, k) is None ==> book::after_days(
            sim,
            trades,
            days,
            k + 1,
        ) is None,
{
}

/// After the last day what is still open is closed, in order: each close pays its P&L and is
/// logged with its symbol under the last date; nothing else changes.
pub proof fn law_the_end_closes_everything(
    trades: Seq<DatedView>,
    b: Book,
    date: Seq<char>,
    k: nat,
)
    ensures
        book::wound_up(trades, b, date, 0) == Some(b),
        book::wound_up(trades, b, date, k + 1) matches Some(c) ==> {
            &&& book::wound_up(trades, b, date, k) matches Some(x) && {
                let p = b.open[k as int];
                &&& c.cash == x.cash + book::realized(trades, p)
                &&& c.events.len() == x.events.len() + 1
                &&& c.events.drop_last() == x.events
                &&& c.events.last().kind == "close"@
                &&& c.events.last().date == date
                &&& c.events.last().symbol == Some(trades[p.trade as int].trade.symbol@)
                &&& c.events.last().detail == "end-of-sim close pnl=$"@ + text::fixed2(
                    book::realized(trades, p),
                )
                &&& c.events.last().equity_after == c.cash
                &&& c == (Book { cash: c.cash, events: c.events, ..x })
            }
        },
{
    if let Some(c) = book::wound_up(trades, b, date, k + 1) {
        if let Some(x) = book::wound_up(trades, b, date, k) {
            assert(c.events.drop_last() =~= x.events);
        }
    }
}

/// A replay is its days and then its end: every position that is open after the last day is
/// closed.
pub proof fn law_a_replay_ends_closed(
    sim: Simulator,
    trades: Seq<DatedView>,
    days: Seq<(i32, Seq<char>)>,
)
    ensures
        book::replayed(sim, trades, days) matches Some(c) ==> {
            book::after_days(sim, trades, days, days.len()) matches Some(b) && book::wound_up(
                trades,
                b,
                days.last().1,
                b.open.len(),
            ) == Some(c)
        },
{
}

/// The dates of a trade are read by its own texts, and its closes are those of its bars whose
/// dates can be read, in their order.
pub proof fn law_dates_are_read_from_the_trade(t: BacktestTrade, bars: Seq<Bar>, bar: Bar)
    ensures
        book::with_dates(t).trade == t,
        book::with_dates(t).entry_day == clock::parsed_day(t.entry_date@, "%Y-%m-%d"@),
        book::with_dates(t).exit_day == clock::parsed_day(t.exit_date@, "%Y-%m-%d"@),
        book::with_dates(t).closes == book::read_closes(t.bars@),
        book::read_closes(seq![]).len() == 0,
        match clock::parsed_day(bar.date@, "%Y-%m-%d"@) {
            Some(day) => book::read_closes(bars.push(bar)) == book::read_closes(bars).push(
                (day, bar.close),
            ),
            None => book::read_closes(bars.push(bar)) == book::read_closes(bars),
        },
{
    assert(bars.push(bar).drop_last() =~= bars);
}

/// Dating trades dates each of them and changes neither their number nor their order.
pub proof fn law_dating_keeps_the_trades(trades: Seq<BacktestTrade>, i: int)
    requires
        0 <= i < trades.len(),
    ensures
        book::dated(trades).len() == trades.len(),
        book::dated(trades)[i].trade == trades[i],
        book::dated(trades)[i].entry_day == clock::parsed_day(
            trades[i].entry_date@,
            "%Y-%m-%d"@,
        ),
        book::dated(trades)[i].exit_day == clock::parsed_day(trades[i].exit_date@, "%Y-%m-%d"@),
        book::dated(trades)[i].closes == book::read_closes(trades[i].bars@),
{
}

/// The return is the change of the account in percent of what it started with, to the nearest
/// hundredth; there is none where it started with nothing.
pub proof fn law_returns_are_measured_against_the_start(start: int, cash: int)
    ensures
        start == 0 <==> book::total_return(start, cash) is None,
        start > 0 ==> (book::total_return(start, cash) matches Some(r) && {
            &&& r % 10_000 == 0
            &&& -5_000 * start <= r * start - (cash - start) * 100_000_000 <= 5_000 * start
        }),
        start < 0 ==> (book::total_return(start, cash) matches Some(r) && {
            &&& r % 10_000 == 0
            &&& 5_000 * start <= r * start - (cash - start) * 100_000_000 <= -5_000 * start
        }),
        start > 0 && cash == start ==> book::total_return(start, cash) == Some(0int),
{
    if start > 0 {
        fixed::law_percentages_are_the_nearest(cash - start, start);
        let r = book::total_return(start, cash)->0;
        if cash == start {
            assert(-5_000 <= r <= 5_000) by (nonlinear_arith)
                requires
                    start > 0,
                    -5_000 * start <= r * start <= 5_000 * start,
            ;
        }
    } else if start < 0 {
        fixed::law_percentages_are_the_nearest(start - cash, -start);
        let r = book::total_return(start, cash)->0;
        assert(r * (-start) == -(r * start)) by (nonlinear_arith);
    }
}

/// Without equity to start with there is no percentage to fall by, and no day trips the
/// kill-switch on what is open.
pub proof fn law_nothing_trips_without_equity(
    sim: Simulator,
    trades: Seq<DatedView>,
    b: Book,
    day: i32,
    date: Seq<char>,
)
    requires
        sim.starting_equity == 0,
    ensures
        book::valued(sim, trades, b, day, date) matches Some(v) ==> {
            &&& v.counters.killswitch_tripped == b.counters.killswitch_tripped
            &&& v.events == b.events
        },
{
}

/// A day can be valued exactly where the P&L of every position at its mark, and the account with
/// all of them, are amounts that 64 bits hold.
pub proof fn law_days_fail_only_out_of_range(
    sim: Simulator,
    trades: Seq<DatedView>,
    b: Book,
    day: i32,
    date: Seq<char>,
    open: Seq<OpenPos>,
)
    requires
        open.len() == b.open.len(),
        forall|i: int|
            0 <= i < open.len() ==> #[trigger] open[i] == (OpenPos {
                last_mtm: match book::close_on(trades[b.open[i].trade as int].closes, day) {
                    Some(close) => close,
                    None => b.open[i].last_mtm,
                },
                ..b.open[i]
            }),
    ensures
        book::valued(sim, trades, b, day, date) is Some <==> {
            &&& forall|i: int|
                0 <= i < open.len() ==> i64::MIN <= book::unrealized(trades, #[trigger] open[i])
                    <= i64::MAX
            &&& i64::MIN <= b.cash + book::total_unrealized(trades, open) <= i64::MAX
        },
        book::valued(sim, trades, b, day, date) matches Some(v) ==> v.open == open,
{
    assert(open =~= b.open.map_values(|p: OpenPos| book::marked(trades, p, day)));
}

/// A position can be closed exactly where its P&L, the account with it and the P&L realized so
/// far with it are amounts that 64 bits hold.
pub proof fn law_closes_fail_only_out_of_range(
    sim: Simulator,
    trades: Seq<DatedView>,
    b: Book,
    p: OpenPos,
    date: Seq<char>,
)
    ensures
        book::closed(sim, trades, b, p, date) is Some <==> {
            let pnl = book::realized(trades, p);
            &&& i64::MIN <= pnl <= i64::MAX
            &&& i64::MIN <= b.cash + pnl <= i64::MAX
            &&& i64::MIN <= b.counters.realized_pnl + pnl <= i64::MAX
        },
{
}

/// Open positions are looked at one by one, in their order: one that is due is closed, and one
/// that is not is kept.
pub proof fn law_exits_go_one_by_one(
    sim: Simulator,
    trades: Seq<DatedView>,
    b: Book,
    open: Seq<OpenPos>,
    day: i32,
    date: Seq<char>,
    k: nat,
)
    ensures
        book::exits(sim, trades, b, open, day, date, 0) == Some(Book { open: seq![], ..b }),
        book::exits(sim, trades, b, open, day, date, k) matches Some(x) ==> {
            let next = book::exits(sim, trades, b, open, day, date, k + 1);
            let p = open[k as int];
            &&& p.exit_day == day ==> next == book::closed(sim, trades, x, p, date)
            &&& p.exit_day != day ==> next == Some(Book { open: x.open.push(p), ..x })
        },
{
}

/// A signal can be taken unless it is filled at prices that 64 bits do not hold after slippage.
pub proof fn law_signals_fail_only_out_of_range(
    sim: Simulator,
    trades: Seq<DatedView>,
    b: Book,
    index: int,
    day: i32,
    date: Seq<char>,
)
    ensures
        book::entered(sim, trades, b, index, day, date) is Some <==> {
            let t = trades[index].trade;
            let long = t.direction@ == "bullish"@;
            let bps = sim.slippage_bps as int;
            ||| executor::decided(
                book::mode_of(sim),
                executor::counters_for(b.counters, date, b.cash),
                b.cash,
                t.entry as int,
            ) is Reject
            ||| {
                &&& i64::MIN <= sim::slip(t.entry as int, long, SlipKind::Entry, bps) <= i64::MAX
                &&& i64::MIN <= sim::slip(t.exit_price as int, long, SlipKind::Exit, bps)
                    <= i64::MAX
            }
        },
{
}

/// A day is its valuing, its exits and its signals, and fails only where one of them does.
pub proof fn law_a_day_is_its_three_parts(
    sim: Simulator,
    trades: Seq<DatedView>,
    b: Book,
    day: i32,
    date: Seq<char>,
)
    ensures
        book::valued(sim, trades, b, day, date) is None ==> book::day_step(
            sim,
            trades,
            b,
            day,
            date,
        ) is None,
        book::valued(sim, trades, b, day, date) matches Some(v) ==> {
            &&& book::exits(sim, trades, v, v.open, day, date, v.open.len()) is None
                ==> book::day_step(sim, trades, b, day, date) is None
            &&& book::exits(sim, trades, v, v.open, day, date, v.open.len()) matches Some(x)
                ==> book::day_step(sim, trades, b, day, date) == book::entries(
                sim,
                trades,
                x,
                day,
                date,
                trades.len(),
            )
        },
{
}

/// What is still open at the end can be closed exactly where each P&L, and the account with it,
/// are amounts that 64 bits hold.
pub proof fn law_the_end_fails_only_out_of_range(
    trades: Seq<DatedView>,
    b: Book,
    date: Seq<char>,
    k: nat,
)
    ensures
        book::wound_up(trades, b, date, k) matches Some(x) ==> {
            let pnl = book::realized(trades, b.open[k as int]);
            book::wound_up(trades, b, date, k + 1) is Some <==> {
                &&& i64::MIN <= pnl <= i64::MAX
                &&& i64::MIN <= x.cash + pnl <= i64::MAX
            }
        },
{
}

/// A replay fails exactly where one of its days or its end does.
pub proof fn law_replays_fail_only_where_a_step_does(
    sim: Simulator,
    trades: Seq<DatedView>,
    days: Seq<(i32, Seq<char>)>,
)
    ensures
        book::replayed(sim, trades, days) is Some <==> {
            book::after_days(sim, trades, days, days.len()) matches Some(b) && book::wound_up(
                trades,
                b,
                days.last().1,
                b.open.len(),
            ) is Some
        },
{
}

/// What is said of dated trades and of days is said of each of them, in their order.
pub proof fn law_views_are_one_for_one(
    trades: Seq<DatedTrade>,
    days: Seq<(i32, String)>,
    i: int,
    j: int,
)
    requires
        0 <= i < trades.len(),
        0 <= j < days.len(),
    ensures
        sim::dated_views(trades).len() == trades.len(),
        sim::dated_views(trades)[i].trade == trades[i].trade,
        sim::dated_views(trades)[i].entry_day == trades[i].entry_day,
        sim::dated_views(trades)[i].exit_day == trades[i].exit_day,
        sim::dated_views(trades)[i].closes == trades[i].closes@,
        sim::day_views(days).len() == days.len(),
        sim::day_views(days)[j] == (days[j].0, days[j].1@),
{
}

} // verus!
