//! What a simulation does, as a function from one day's books to the next.
//!
//! Amounts are unbounded integers here; `None` stands for a simulation in which some amount
//! does not fit in 64 bits.

use vstd::prelude::*;

use crate::clock;
use crate::executor;
use crate::executor::TradingMode;
use crate::fixed;
use crate::order;
use crate::risk::DecisionView;
use crate::sim;
use crate::sim::{BacktestTrade, Bar, OpenPos, Simulator, SlipKind};
use crate::state::CountersView;
use crate::text;

verus! {

/// A trade with its dates read: the days of its entry and of its exit, where they can be
/// read, and the closes of its bars by their days.
pub struct DatedView {
    pub trade: BacktestTrade,
    pub entry_day: Option<i32>,
    pub exit_day: Option<i32>,
    pub closes: Seq<(i32, i64)>,
}

/// The closes of the bars whose dates can be read.
pub open spec fn read_closes(bars: Seq<Bar>) -> Seq<(i32, i64)>
    decreases bars.len(),
{
    if bars.len() == 0 {
        seq![]
    } else {
        match clock::day_of(bars.last().date@) {
            Some(day) => read_closes(bars.drop_last()).push((day, bars.last().close)),
            None => read_closes(bars.drop_last()),
        }
    }
}

/// A trade with its dates read.
pub open spec fn with_dates(t: BacktestTrade) -> DatedView {
    DatedView {
        trade: t,
        entry_day: clock::day_of(t.entry_date@),
        exit_day: clock::day_of(t.exit_date@),
        closes: read_closes(t.bars@),
    }
}

/// Trades with their dates read.
pub open spec fn dated(trades: Seq<BacktestTrade>) -> Seq<DatedView> {
    trades.map_values(|t: BacktestTrade| with_dates(t))
}

/// A line of the event log, with its texts as character sequences.
pub struct EventView {
    pub kind: Seq<char>,
    pub date: Seq<char>,
    pub symbol: Option<Seq<char>>,
    pub detail: Seq<char>,
    pub equity_after: int,
}

/// The books of a running simulation.
pub struct Book {
    /// The account: the starting equity and every realized P&L.
    pub cash: int,
    pub counters: CountersView,
    pub open: Seq<OpenPos>,
    /// The highest that the account with its open positions was worth.
    pub peak_combined: int,
    /// The highest that the account was worth after a position closed.
    pub peak_realized: int,
    pub max_dd: int,
    pub max_unrealized_dd: int,
    pub filled: int,
    pub rejected: int,
    pub resized: int,
    pub events: Seq<EventView>,
}

/// The mode whose caps a simulation trades with.
pub open spec fn mode_of(sim: Simulator) -> TradingMode {
    if sim.caps.max_pct_per_trade <= 10_000_000 {
        TradingMode::Standard
    } else {
        TradingMode::Tiny
    }
}

/// The books before the first day.
pub open spec fn opening(sim: Simulator) -> Book {
    Book {
        cash: sim.starting_equity as int,
        counters: CountersView::fresh(seq![], sim.starting_equity as int),
        open: seq![],
        peak_combined: sim.starting_equity as int,
        peak_realized: sim.starting_equity as int,
        max_dd: 0,
        max_unrealized_dd: 0,
        filled: 0,
        rejected: 0,
        resized: 0,
        events: seq![],
    }
}

/// The last close of a day, if there is one.
pub open spec fn close_on(closes: Seq<(i32, i64)>, day: i32) -> Option<i64>
    decreases closes.len(),
{
    if closes.len() == 0 {
        None
    } else if closes.last().0 == day {
        Some(closes.last().1)
    } else {
        close_on(closes.drop_last(), day)
    }
}

/// A position marked to the close of a day; as it is where the day has no bar.
pub open spec fn marked(trades: Seq<DatedView>, p: OpenPos, day: i32) -> OpenPos {
    match close_on(trades[p.trade as int].closes, day) {
        Some(close) => OpenPos { last_mtm: close, ..p },
        None => p,
    }
}

/// Whether a position is a long one.
pub open spec fn is_long(trades: Seq<DatedView>, p: OpenPos) -> bool {
    executor::is_bullish(trades[p.trade as int].trade.direction@)
}

/// The P&L of a position at its mark.
pub open spec fn unrealized(trades: Seq<DatedView>, p: OpenPos) -> int {
    p.unrealized(is_long(trades, p))
}

/// The P&L of a position when it closes.
pub open spec fn realized(trades: Seq<DatedView>, p: OpenPos) -> int {
    p.realized(is_long(trades, p))
}

/// The P&L of positions at their marks.
pub open spec fn total_unrealized(trades: Seq<DatedView>, open: Seq<OpenPos>) -> int
    decreases open.len(),
{
    if open.len() == 0 {
        0
    } else {
        total_unrealized(trades, open.drop_last()) + unrealized(trades, open.last())
    }
}

/// Whether the P&L of each position fits.
pub open spec fn unrealized_fit(trades: Seq<DatedView>, open: Seq<OpenPos>) -> bool {
    forall|i: int| 0 <= i < open.len() ==> fixed::fits(unrealized(trades, #[trigger] open[i]))
}

/// How far an account is below its peak, in percent to two places.
pub open spec fn drawdown(peak: int, equity: int) -> int {
    if peak > 0 {
        fixed::percent2(peak - equity, peak)
    } else {
        0
    }
}

/// The event of a kill-switch that trips.
pub open spec fn killswitch_event(sim: Simulator, date: Seq<char>, combined: int) -> EventView {
    EventView {
        kind: "killswitch"@,
        date,
        symbol: None,
        detail: "killswitch tripped on MTM: combined P&L "@ + text::fixed2(
            executor::daily_pnl_pct(combined, sim.starting_equity as int),
        ) + "% <= "@ + text::fixed2(sim.caps.daily_drawdown_killswitch_pct as int) + "%"@,
        equity_after: combined,
    }
}

/// Whether the account with its open positions is at or below the kill-switch threshold.
pub open spec fn combined_breach(sim: Simulator, combined: int) -> bool {
    &&& sim.starting_equity != 0
    &&& executor::daily_pnl_pct(combined, sim.starting_equity as int)
        <= sim.caps.daily_drawdown_killswitch_pct
}

/// The start of a day: every position is marked, and the kill-switch trips on the realized
/// and unrealized P&L combined.
pub open spec fn valued(
    sim: Simulator,
    trades: Seq<DatedView>,
    b: Book,
    day: i32,
    date: Seq<char>,
) -> Option<Book> {
    let open = b.open.map_values(|p: OpenPos| marked(trades, p, day));
    let combined = b.cash + total_unrealized(trades, open);
    let counters = b.counters.on_simulated_day(date);
    let trips = combined_breach(sim, combined) && !counters.killswitch_tripped;
    let peak = fixed::larger(b.peak_combined, combined);
    if unrealized_fit(trades, open) && fixed::fits(combined) {
        Some(
            Book {
                counters: if trips { counters.with_killswitch(true) } else { counters },
                open,
                peak_combined: peak,
                max_unrealized_dd: fixed::larger(b.max_unrealized_dd, drawdown(peak, combined)),
                events: if trips {
                    b.events.push(killswitch_event(sim, date, combined))
                } else {
                    b.events
                },
                ..b
            },
        )
    } else {
        None
    }
}

/// The event of a position that closes.
pub open spec fn close_event(
    date: Seq<char>,
    symbol: Seq<char>,
    lead: Seq<char>,
    pnl: int,
    cash: int,
) -> EventView {
    EventView {
        kind: "close"@,
        date,
        symbol: Some(symbol),
        detail: lead + text::fixed2(pnl),
        equity_after: cash,
    }
}

/// A position that closes on a day.
pub open spec fn closed(
    sim: Simulator,
    trades: Seq<DatedView>,
    b: Book,
    p: OpenPos,
    date: Seq<char>,
) -> Option<Book> {
    let pnl = realized(trades, p);
    let cash = b.cash + pnl;
    let peak = fixed::larger(b.peak_realized, cash);
    if fixed::fits(pnl) && fixed::fits(cash) && fixed::fits(b.counters.realized_pnl + pnl) {
        Some(
            Book {
                cash,
                counters: b.counters.after_close(
                    p.notional as int,
                    pnl,
                    sim.caps.daily_drawdown_killswitch_pct as int,
                ),
                peak_realized: peak,
                max_dd: fixed::larger(b.max_dd, drawdown(peak, cash)),
                events: b.events.push(
                    close_event(date, trades[p.trade as int].trade.symbol@, "close pnl=$"@, pnl, cash),
                ),
                ..b
            },
        )
    } else {
        None
    }
}

/// The first `k` of `open` settled: those that exit on the day are closed, the others stay.
pub open spec fn exits(
    sim: Simulator,
    trades: Seq<DatedView>,
    b: Book,
    open: Seq<OpenPos>,
    day: i32,
    date: Seq<char>,
    k: nat,
) -> Option<Book>
    decreases k,
{
    if k == 0 {
        Some(Book { open: seq![], ..b })
    } else {
        match exits(sim, trades, b, open, day, date, (k - 1) as nat) {
            None => None,
            Some(b) => {
                let p = open[k - 1];
                if p.exit_day == day {
                    closed(sim, trades, b, p, date)
                } else {
                    Some(Book { open: b.open.push(p), ..b })
                }
            },
        }
    }
}

/// The event of a signal that the caps refuse.
pub open spec fn reject_event(
    date: Seq<char>,
    symbol: Seq<char>,
    reason: Seq<char>,
    cash: int,
) -> EventView {
    EventView {
        kind: "decision"@,
        date,
        symbol: Some(symbol),
        detail: "REJECT: "@ + reason,
        equity_after: cash,
    }
}

/// The event of a signal that is filled.
pub open spec fn fill_event(
    date: Seq<char>,
    symbol: Seq<char>,
    resized: bool,
    qty: int,
    notional: int,
    bps: int,
    cash: int,
) -> EventView {
    EventView {
        kind: "decision"@,
        date,
        symbol: Some(symbol),
        detail: (if resized { "RESIZE → fill qty="@ } else { "FILL qty="@ }) + text::digits(
            qty as nat,
        ) + " notional=$"@ + text::fixed0(notional) + " (slip "@ + text::fixed0(bps) + "bps)"@,
        equity_after: cash,
    }
}

/// The position that a fill opens: the shares of a whole-share order, or as much as the
/// notional buys at the entry price.
pub open spec fn position(
    sim: Simulator,
    dated: DatedView,
    index: int,
    qty: int,
    notional: int,
    day: i32,
) -> OpenPos {
    let t = dated.trade;
    let buy = executor::is_bullish(t.direction@);
    let entry_filled = sim::slip(t.entry as int, buy, SlipKind::Entry, sim.slippage_bps as int);
    OpenPos {
        trade: index as usize,
        shares: if qty > 0 {
            qty as i64
        } else if t.entry > 0 {
            notional as i64
        } else {
            0
        },
        per: if qty <= 0 && t.entry > 0 { t.entry } else { 1 },
        entry_filled: entry_filled as i64,
        exit_planned: sim::slip(
            t.exit_price as int,
            buy,
            SlipKind::Exit,
            sim.slippage_bps as int,
        ) as i64,
        exit_day: match dated.exit_day {
            Some(exit) => exit,
            None => day,
        },
        last_mtm: entry_filled as i64,
        notional: notional as i64,
    }
}

/// Whether the prices of a trade fit after slippage.
pub open spec fn prices_fit(sim: Simulator, t: BacktestTrade) -> bool {
    let buy = executor::is_bullish(t.direction@);
    &&& fixed::fits(sim::slip(t.entry as int, buy, SlipKind::Entry, sim.slippage_bps as int))
    &&& fixed::fits(sim::slip(t.exit_price as int, buy, SlipKind::Exit, sim.slippage_bps as int))
}

/// The whole shares of an order for a notional; 0 where it is a dollar amount.
pub open spec fn order_qty(sim: Simulator, notional: int, entry: int) -> int {
    if mode_of(sim) is Standard {
        executor::share_quantity(notional, entry)
    } else {
        0
    }
}

/// A signal that goes through the executor.
pub open spec fn entered(
    sim: Simulator,
    trades: Seq<DatedView>,
    b: Book,
    index: int,
    day: i32,
    date: Seq<char>,
) -> Option<Book> {
    let t = trades[index].trade;
    let mode = mode_of(sim);
    let c = executor::counters_for(b.counters, date, b.cash);
    match executor::decided(mode, c, b.cash, t.entry as int) {
        DecisionView::Reject { reason } => Some(
            Book {
                counters: if executor::breached(mode, c, b.cash) {
                    c.with_killswitch(true)
                } else {
                    c
                },
                rejected: b.rejected + 1,
                events: b.events.push(reject_event(date, t.symbol@, reason, b.cash)),
                ..b
            },
        ),
        d => {
            let notional = executor::sent_notional(mode, c, b.cash);
            let qty = order_qty(sim, notional, t.entry as int);
            if prices_fit(sim, t) {
                Some(
                    Book {
                        counters: c.after_open(notional),
                        open: b.open.push(position(sim, trades[index], index, qty, notional, day)),
                        filled: b.filled + 1,
                        resized: if d is Resize { b.resized + 1 } else { b.resized },
                        events: b.events.push(
                            fill_event(
                                date,
                                t.symbol@,
                                d is Resize,
                                qty,
                                notional,
                                sim.slippage_bps as int,
                                b.cash,
                            ),
                        ),
                        ..b
                    },
                )
            } else {
                None
            }
        },
    }
}

/// Those of the first `k` trades that enter on a day, entered.
pub open spec fn entries(
    sim: Simulator,
    trades: Seq<DatedView>,
    b: Book,
    day: i32,
    date: Seq<char>,
    k: nat,
) -> Option<Book>
    decreases k,
{
    if k == 0 {
        Some(b)
    } else {
        match entries(sim, trades, b, day, date, (k - 1) as nat) {
            None => None,
            Some(b) => if trades[k - 1].entry_day == Some(day) {
                entered(sim, trades, b, k - 1, day, date)
            } else {
                Some(b)
            },
        }
    }
}

/// The text of a day.
pub open spec fn date_of(day: i32) -> Seq<char> {
    clock::shown_day(day)->0
}

/// One day: positions are marked and valued, those that exit are closed, and the day's
/// signals are entered.
pub open spec fn day_step(
    sim: Simulator,
    trades: Seq<DatedView>,
    b: Book,
    day: i32,
    date: Seq<char>,
) -> Option<Book> {
    match valued(sim, trades, b, day, date) {
        None => None,
        Some(b) => match exits(sim, trades, b, b.open, day, date, b.open.len()) {
            None => None,
            Some(b) => entries(sim, trades, b, day, date, trades.len()),
        },
    }
}

/// The books after the first `k` days.
pub open spec fn after_days(
    sim: Simulator,
    trades: Seq<DatedView>,
    days: Seq<(i32, Seq<char>)>,
    k: nat,
) -> Option<Book>
    decreases k,
{
    if k == 0 {
        Some(opening(sim))
    } else {
        match after_days(sim, trades, days, (k - 1) as nat) {
            None => None,
            Some(b) => day_step(sim, trades, b, days[k - 1].0, days[k - 1].1),
        }
    }
}

/// The first `k` of the positions still open after the last day, closed.
pub open spec fn wound_up(
    trades: Seq<DatedView>,
    b: Book,
    date: Seq<char>,
    k: nat,
) -> Option<Book>
    decreases k,
{
    if k == 0 {
        Some(b)
    } else {
        match wound_up(trades, b, date, (k - 1) as nat) {
            None => None,
            Some(done) => {
                let p = b.open[k - 1];
                let pnl = realized(trades, p);
                if fixed::fits(pnl) && fixed::fits(done.cash + pnl) {
                    Some(
                        Book {
                            cash: done.cash + pnl,
                            events: done.events.push(
                                close_event(
                                    date,
                                    trades[p.trade as int].trade.symbol@,
                                    "end-of-sim close pnl=$"@,
                                    pnl,
                                    done.cash + pnl,
                                ),
                            ),
                            ..done
                        },
                    )
                } else {
                    None
                }
            },
        }
    }
}

/// Trades replayed over days, each a number with its text. What is still open after the last
/// day is closed.
pub open spec fn replayed(
    sim: Simulator,
    trades: Seq<DatedView>,
    days: Seq<(i32, Seq<char>)>,
) -> Option<Book> {
    match after_days(sim, trades, days, days.len()) {
        None => None,
        Some(b) => wound_up(trades, b, days.last().1, b.open.len()),
    }
}

/// The calendar of trades, with the texts of its days.
pub open spec fn days_of(trades: Seq<DatedView>) -> Seq<(i32, Seq<char>)> {
    order::calendar(trades).map_values(|day: i32| (day, date_of(day)))
}

/// A whole simulation of trades in order, over their calendar.
pub open spec fn simulated(sim: Simulator, trades: Seq<BacktestTrade>) -> Option<Book> {
    replayed(sim, dated(trades), days_of(dated(trades)))
}

/// The change from the starting equity in percent, to two places; none where there was no
/// equity to start with.
pub open spec fn total_return(starting: int, cash: int) -> Option<int> {
    if starting > 0 {
        Some(fixed::percent2(cash - starting, starting))
    } else if starting < 0 {
        Some(fixed::percent2(starting - cash, -starting))
    } else {
        None
    }
}

/// Once an amount does not fit, nothing comes after.
pub proof fn lemma_exits_stay_none(
    sim: Simulator,
    trades: Seq<DatedView>,
    b: Book,
    open: Seq<OpenPos>,
    day: i32,
    date: Seq<char>,
    k: nat,
    n: nat,
)
    requires
        k <= n,
        exits(sim, trades, b, open, day, date, k) is None,
    ensures
        exits(sim, trades, b, open, day, date, n) is None,
    decreases n,
{
    if k < n {
        lemma_exits_stay_none(sim, trades, b, open, day, date, k, (n - 1) as nat);
    }
}

/// Once an amount does not fit, nothing comes after.
pub proof fn lemma_entries_stay_none(
    sim: Simulator,
    trades: Seq<DatedView>,
    b: Book,
    day: i32,
    date: Seq<char>,
    k: nat,
    n: nat,
)
    requires
        k <= n,
        entries(sim, trades, b, day, date, k) is None,
    ensures
        entries(sim, trades, b, day, date, n) is None,
    decreases n,
{
    if k < n {
        lemma_entries_stay_none(sim, trades, b, day, date, k, (n - 1) as nat);
    }
}

/// Once an amount does not fit, nothing comes after.
pub proof fn lemma_days_stay_none(
    sim: Simulator,
    trades: Seq<DatedView>,
    days: Seq<(i32, Seq<char>)>,
    k: nat,
    n: nat,
)
    requires
        k <= n,
        after_days(sim, trades, days, k) is None,
    ensures
        after_days(sim, trades, days, n) is None,
    decreases n,
{
    if k < n {
        lemma_days_stay_none(sim, trades, days, k, (n - 1) as nat);
    }
}

/// Once an amount does not fit, nothing comes after.
pub proof fn lemma_wound_up_stays_none(
    trades: Seq<DatedView>,
    b: Book,
    date: Seq<char>,
    k: nat,
    n: nat,
)
    requires
        k <= n,
        wound_up(trades, b, date, k) is None,
    ensures
        wound_up(trades, b, date, n) is None,
    decreases n,
{
    if k < n {
        lemma_wound_up_stays_none(trades, b, date, k, (n - 1) as nat);
    }
}

} // verus!
