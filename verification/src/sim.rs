//! The paper-trade simulator: replays the signals of a back-test through the same executor
//! and risk caps that handle real orders, day by day.
//!
//!   1. It steps over every date that has an entry, an exit or a bar, and marks every open
//!      position to that day's close.
//!   2. It trips the kill-switch on the realized and unrealized P&L combined.
//!   3. It applies slippage on entry and on exit.
//!   4. It can split the trades into a train part and a test part.

use vstd::prelude::*;

use crate::book;
use crate::book::{Book, DatedView, EventView};
use crate::broker;
use crate::broker::{
    instant_fill, Broker, BrokerError, BrokerResult, OrderRequest, OrderResult, Position,
    Session,
};
use crate::clock;
use crate::clock::{read_day, show_day};
use crate::executor;
use crate::executor::{pnl_pct, Executor, Signal, TradingMode};
use crate::fixed;
use crate::fixed::{ceil_div, floor_div, narrow, percent2_of};
use crate::order;
use crate::order::{calendar_of, sort_by_entry_date};
use crate::risk::{RiskCaps, RiskDecision};
use crate::state::State;
use crate::text::{count_text, fixed0_text, fixed2_text, same};

verus! {

/// One daily bar. Prices are in millionths of a dollar.
#[derive(Debug, Clone)]
pub struct Bar {
    pub date: String,
    pub close: i64,
    pub high: i64,
    pub low: i64,
}

/// One trade of a back-test, with the bars over which it was held.
#[derive(Debug, Clone)]
pub struct BacktestTrade {
    pub symbol: String,
    pub direction: String,
    pub entry_date: String,
    pub entry: i64,
    pub stop: i64,
    pub target_10: i64,
    pub target_20: i64,
    pub score: i64,
    pub outcome: String,
    pub exit_date: String,
    pub exit_price: i64,
    pub return_pct: i64,
    pub bars: Vec<Bar>,
}

/// A trade with its dates read, as days that count from January 1 of the year 1.
#[derive(Debug, Clone)]
pub struct DatedTrade {
    pub trade: BacktestTrade,
    /// None where the date cannot be read.
    pub entry_day: Option<i32>,
    /// None where the date cannot be read.
    pub exit_day: Option<i32>,
    /// The days and closes of the bars whose dates can be read.
    pub closes: Vec<(i32, i64)>,
}

impl View for DatedTrade {
    type V = DatedView;

    open spec fn view(&self) -> DatedView {
        DatedView {
            trade: self.trade,
            entry_day: self.entry_day,
            exit_day: self.exit_day,
            closes: self.closes@,
        }
    }
}

/// The views of trades.
pub open spec fn dated_views(trades: Seq<DatedTrade>) -> Seq<DatedView> {
    trades.map_values(|t: DatedTrade| t@)
}

/// The views of days with their texts.
pub open spec fn day_views(days: Seq<(i32, String)>) -> Seq<(i32, Seq<char>)> {
    days.map_values(|d: (i32, String)| (d.0, d.1@))
}

/// Whether every day of a trade has a text.
pub open spec fn showable(t: DatedView) -> bool {
    forall|day: i32| #[trigger] order::touches(t, day) ==> clock::shown_day(day) is Some
}

/// Reads the dates of a trade.
fn read_dates(trade: BacktestTrade) -> (r: DatedTrade)
    ensures
        r@ == book::with_dates(trade),
        showable(r@),
{
    let entry_day: Option<i32> = read_day(trade.entry_date.as_str());
    let exit_day: Option<i32> = read_day(trade.exit_date.as_str());
    let mut closes: Vec<(i32, i64)> = Vec::new();
    let mut i: usize = 0;
    assert(trade.bars@.take(0) =~= seq![]);
    while i < trade.bars.len()
        invariant
            i <= trade.bars@.len(),
            closes@ == book::read_closes(trade.bars@.take(i as int)),
            forall|j: int|
                0 <= j < closes@.len() ==> clock::shown_day((#[trigger] closes@[j]).0) is Some,
        decreases trade.bars@.len() - i,
    {
        assert(trade.bars@.take(i + 1).drop_last() =~= trade.bars@.take(i as int));
        if let Some(day) = read_day(trade.bars[i].date.as_str()) {
            closes.push((day, trade.bars[i].close));
        }
        i = i + 1;
    }
    assert(trade.bars@.take(i as int) =~= trade.bars@);
    DatedTrade { trade, entry_day, exit_day, closes }
}

/// Reads the dates of trades.
pub fn date_trades(trades: Vec<BacktestTrade>) -> (r: Vec<DatedTrade>)
    ensures
        dated_views(r@) == book::dated(trades@),
        forall|i: int| 0 <= i < r@.len() ==> showable((#[trigger] r@[i])@),
{
    let mut rest = trades;
    let mut out: Vec<DatedTrade> = Vec::new();
    let n: usize = rest.len();
    let mut i: usize = 0;
    assert(trades@.skip(0) =~= trades@);
    while i < n
        invariant
            i <= n == trades@.len(),
            rest@ == trades@.skip(i as int),
            dated_views(out@) == book::dated(trades@.take(i as int)),
            forall|j: int| 0 <= j < out@.len() ==> showable((#[trigger] out@[j])@),
        decreases n - i,
    {
        let t = rest.remove(0);
        let ghost before = out@;
        let d = read_dates(t);
        out.push(d);
        assert(dated_views(out@) =~= dated_views(before).push(d@));
        assert(book::dated(trades@.take(i + 1)) =~= book::dated(trades@.take(i as int)).push(d@));
        assert(rest@ =~= trades@.skip(i + 1));
        i = i + 1;
    }
    assert(trades@.take(n as int) =~= trades@);
    out
}

/// A broker that fills every order, with the simulated account in it.
#[derive(Debug, Clone, Copy, PartialEq, Eq, Structural)]
pub struct SimBroker {
    pub equity: i64,
}

impl SimBroker {
    pub fn new(eq: i64) -> (r: SimBroker)
        ensures
            r.equity == eq,
    {
        SimBroker { equity: eq }
    }

    /// Adds a realized P&L to the account.
    pub fn apply_pnl(&mut self, pnl: i64)
        requires
            fixed::fits(old(self).equity + pnl),
        ensures
            final(self).equity == old(self).equity + pnl,
    {
        self.equity = self.equity + pnl;
    }

    pub fn equity_value(&self) -> (r: i64)
        ensures
            r == self.equity,
    {
        self.equity
    }
}

impl Broker for SimBroker {
    fn name(&self) -> (r: &'static str)
        ensures
            r@ == "sim"@,
    {
        "sim"
    }

    fn is_paper(&self) -> (r: bool)
        ensures
            r,
    {
        true
    }

    fn account_equity(&self) -> (r: BrokerResult<i64>)
        ensures
            r == Ok::<i64, BrokerError>(self.equity),
    {
        Ok(self.equity)
    }

    fn place_order(&self, order: &OrderRequest) -> (r: BrokerResult<OrderResult>)
        ensures
            r is Ok,
            broker::is_fresh_id_text(r->Ok_0.broker_order_id@),
            r->Ok_0.status@ == "sim_filled"@,
    {
        Ok(instant_fill("sim_filled"))
    }

    fn list_positions(&self) -> (r: BrokerResult<Vec<Position>>)
        ensures
            r is Ok,
            r->Ok_0@.len() == 0,
    {
        Ok(Vec::new())
    }
}

/// Which end of a trade a price is for.
#[derive(Debug, Clone, Copy, PartialEq, Eq, Structural)]
pub enum SlipKind {
    Entry,
    Exit,
}

/// One in basis points, in millionths.
pub const BPS_SCALE: i128 = 10_000_000_000;

/// What slippage costs on a price, rounded up.
pub open spec fn slip_cost(price: int, bps: int) -> int {
    fixed::ceil_ratio(price * bps, BPS_SCALE as int)
}

/// A price after slippage: a buyer pays more and later receives less, a short seller receives
/// less and later pays more.
pub open spec fn slip(price: int, is_buy: bool, kind: SlipKind, bps: int) -> int {
    if is_buy == (kind is Entry) {
        price + slip_cost(price, bps)
    } else {
        price - slip_cost(price, bps)
    }
}

/// Applies slippage to a price.
pub fn slipped(price: i64, is_buy: bool, kind: SlipKind, bps: i64) -> (r: i128)
    ensures
        r == slip(price as int, is_buy, kind, bps as int),
{
    proof {
        fixed::lemma_product_in_range(price as int, bps as int);
        fixed::lemma_floor_in_range(-(price * bps), BPS_SCALE as int);
    }
    let cost: i128 = ceil_div(price as i128 * bps as i128, BPS_SCALE);
    if is_buy == matches!(kind, SlipKind::Entry) {
        price as i128 + cost
    } else {
        price as i128 - cost
    }
}

/// A position of a running simulation. It holds `shares / per` shares of the trade with
/// index `trade`: a whole number, or what a dollar notional buys at the entry price.
#[derive(Debug, Clone, Copy, PartialEq, Eq, Structural)]
pub struct OpenPos {
    pub trade: usize,
    pub shares: i64,
    pub per: i64,
    /// Entry price after slippage.
    pub entry_filled: i64,
    /// Exit price after slippage.
    pub exit_planned: i64,
    pub exit_day: i32,
    /// The price it was last marked at; the entry until the first bar.
    pub last_mtm: i64,
    pub notional: i64,
}

/// The P&L of `shares / per` shares bought (or sold short) at one price and valued at
/// another, rounded down.
pub open spec fn pnl(bullish: bool, shares: int, per: int, from: int, to: int) -> int {
    (if bullish { to - from } else { from - to }) * shares / per
}

impl OpenPos {
    /// The P&L at the last mark.
    pub open spec fn unrealized(self, bullish: bool) -> int {
        pnl(
            bullish,
            self.shares as int,
            self.per as int,
            self.entry_filled as int,
            self.last_mtm as int,
        )
    }

    /// The P&L of closing as planned.
    pub open spec fn realized(self, bullish: bool) -> int {
        pnl(
            bullish,
            self.shares as int,
            self.per as int,
            self.entry_filled as int,
            self.exit_planned as int,
        )
    }

    /// Whether the position is one of `n` trades.
    pub open spec fn valid(self, n: int) -> bool {
        self.trade < n && self.per > 0 && self.notional >= 0
    }

    fn pnl_at(&self, bullish: bool, price: i64) -> (r: i128)
        requires
            self.per > 0,
        ensures
            r == pnl(
                bullish,
                self.shares as int,
                self.per as int,
                self.entry_filled as int,
                price as int,
            ),
    {
        let change: i128 = if bullish {
            price as i128 - self.entry_filled as i128
        } else {
            self.entry_filled as i128 - price as i128
        };
        proof {
            lemma_pnl_in_range(change as int, self.shares as int);
        }
        floor_div(change * self.shares as i128, self.per as i128)
    }

    pub fn unrealized_pnl(&self, bullish: bool) -> (r: i128)
        requires
            self.per > 0,
        ensures
            r == self.unrealized(bullish),
    {
        self.pnl_at(bullish, self.last_mtm)
    }

    pub fn realized_pnl_on_close(&self, bullish: bool) -> (r: i128)
        requires
            self.per > 0,
        ensures
            r == self.realized(bullish),
    {
        self.pnl_at(bullish, self.exit_planned)
    }
}

proof fn lemma_pnl_in_range(change: int, shares: int)
    requires
        -0xffff_ffff_ffff_ffff <= change <= 0xffff_ffff_ffff_ffff,
        fixed::fits(shares),
    ensures
        i128::MIN <= change * shares <= i128::MAX,
{
    assert(i128::MIN <= change * shares <= i128::MAX) by (nonlinear_arith)
        requires
            -0xffff_ffff_ffff_ffff <= change <= 0xffff_ffff_ffff_ffff,
            -0x8000_0000_0000_0000 <= shares <= 0x7fff_ffff_ffff_ffff,
    ;
}

/// What a simulation replays trades with. Percentages and basis points are in millionths.
#[derive(Debug, Clone, Copy, PartialEq, Eq, Structural)]
pub struct Simulator {
    pub caps: RiskCaps,
    pub starting_equity: i64,
    pub target_pct_per_trade: i64,
    pub slippage_bps: i64,
}

/// A line of the event log.
#[derive(Debug, Clone)]
pub struct SimEvent {
    /// "killswitch", "close" or "decision".
    pub kind: String,
    pub date: String,
    pub symbol: Option<String>,
    pub detail: String,
    pub equity_after: i64,
}

impl View for SimEvent {
    type V = EventView;

    open spec fn view(&self) -> EventView {
        EventView {
            kind: self.kind@,
            date: self.date@,
            symbol: match self.symbol {
                Some(s) => Some(s@),
                None => None,
            },
            detail: self.detail@,
            equity_after: self.equity_after as int,
        }
    }
}

/// What a simulation came to. Drawdowns are peak to trough: of the account after each close,
/// and of the account with its open positions.
#[derive(Debug, Clone)]
pub struct SimReport {
    pub label: String,
    pub starting_equity: i64,
    pub final_equity: i64,
    pub total_signals: usize,
    pub orders_filled: usize,
    pub orders_rejected: usize,
    pub orders_resized: usize,
    pub killswitch_tripped: bool,
    pub max_drawdown_pct: i128,
    pub max_unrealized_drawdown_pct: i128,
    /// None where there was no equity to start with.
    pub return_pct: Option<i128>,
    pub slippage_bps: i64,
    pub events: Vec<SimEvent>,
}

impl SimReport {
    /// The event log.
    pub open spec fn log(&self) -> Seq<EventView> {
        self.events@.map_values(|e: SimEvent| e@)
    }

    /// Whether the report is that of `n` signals that ended in the given books.
    pub open spec fn tells(&self, sim: Simulator, label: Seq<char>, n: int, b: Book) -> bool {
        &&& self.label@ == label
        &&& self.starting_equity == sim.starting_equity
        &&& self.final_equity == b.cash
        &&& self.total_signals == n
        &&& self.orders_filled == b.filled
        &&& self.orders_rejected == b.rejected
        &&& self.orders_resized == b.resized
        &&& self.killswitch_tripped == b.counters.killswitch_tripped
        &&& self.max_drawdown_pct == b.max_dd
        &&& self.max_unrealized_drawdown_pct == b.max_unrealized_dd
        &&& match (self.return_pct, book::total_return(sim.starting_equity as int, b.cash)) {
            (Some(pct), Some(expected)) => pct == expected,
            (None, None) => true,
            _ => false,
        }
        &&& self.slippage_bps == sim.slippage_bps
        &&& self.log() == b.events
    }
}

/// Why a simulation has no report.
#[derive(Debug, Clone, Copy, PartialEq, Eq, Structural)]
pub enum SimError {
    /// Some amount does not fit in 64 bits.
    OutOfRange,
}

impl SimError {
    pub fn message(&self) -> (r: String)
        ensures
            r@ == "an amount of the simulation is out of range"@,
    {
        "an amount of the simulation is out of range".to_owned()
    }
}

fn make_event(
    kind: &str,
    date: &str,
    symbol: Option<String>,
    detail: String,
    equity_after: i64,
) -> (r: SimEvent)
    ensures
        r@ == (EventView {
            kind: kind@,
            date: date@,
            symbol: match symbol {
                Some(s) => Some(s@),
                None => None,
            },
            detail: detail@,
            equity_after: equity_after as int,
        }),
{
    SimEvent { kind: kind.to_owned(), date: date.to_owned(), symbol, detail, equity_after }
}

/// The last close of a day.
fn find_close(closes: &Vec<(i32, i64)>, day: i32) -> (r: Option<i64>)
    ensures
        r == book::close_on(closes@, day),
{
    let mut n: usize = closes.len();
    assert(closes@.take(n as int) =~= closes@);
    while n > 0
        invariant
            n <= closes@.len(),
            book::close_on(closes@, day) == book::close_on(closes@.take(n as int), day),
        decreases n,
    {
        let (on, close) = closes[n - 1];
        if on == day {
            return Some(close);
        }
        assert(closes@.take(n as int).drop_last() =~= closes@.take(n - 1));
        n = n - 1;
    }
    None
}

/// The books while a simulation runs.
struct Ledger {
    broker: SimBroker,
    trader: Executor,
    open: Vec<OpenPos>,
    peak_combined: i64,
    peak_realized: i64,
    max_dd: i128,
    max_unrealized_dd: i128,
    filled: usize,
    rejected: usize,
    resized: usize,
    events: Vec<SimEvent>,
}

fn drawdown_of(peak: i64, equity: i64) -> (r: i128)
    ensures
        r == book::drawdown(peak as int, equity as int),
{
    if peak > 0 {
        percent2_of(peak as i128 - equity as i128, peak as i128)
    } else {
        0
    }
}

impl Ledger {
    spec fn book(&self) -> Book {
        Book {
            cash: self.broker.equity as int,
            counters: self.trader.state.counters(),
            open: self.open@,
            peak_combined: self.peak_combined as int,
            peak_realized: self.peak_realized as int,
            max_dd: self.max_dd as int,
            max_unrealized_dd: self.max_unrealized_dd as int,
            filled: self.filled as int,
            rejected: self.rejected as int,
            resized: self.resized as int,
            events: self.events@.map_values(|e: SimEvent| e@),
        }
    }

    spec fn valid(&self, sim: Simulator, n: int) -> bool {
        &&& self.trader.mode == book::mode_of(sim)
        &&& self.trader.state.counters().open_notional >= 0
        &&& forall|i: int| 0 <= i < self.open@.len() ==> (#[trigger] self.open@[i]).valid(n)
        &&& self.filled + self.rejected <= self.events@.len()
        &&& self.resized <= self.filled
    }

    fn log(&mut self, e: SimEvent)
        ensures
            final(self).events@ == old(self).events@.push(e),
            final(self).book() == (Book {
                events: old(self).book().events.push(e@),
                ..old(self).book()
            }),
            final(self).broker == old(self).broker,
            final(self).trader == old(self).trader,
            final(self).open == old(self).open,
            final(self).filled == old(self).filled,
            final(self).rejected == old(self).rejected,
            final(self).resized == old(self).resized,
    {
        self.events.push(e);
        assert(self.book().events =~= old(self).book().events.push(e@));
    }

    /// Marks and values the open positions.
    fn value(&mut self, sim: &Simulator, trades: &Vec<DatedTrade>, day: i32, date: &str) -> (r:
        bool)
        requires
            old(self).valid(*sim, trades@.len() as int),
        ensures
            r ==> {
                &&& final(self).valid(*sim, trades@.len() as int)
                &&& book::valued(*sim, dated_views(trades@), old(self).book(), day, date@) == Some(
                    final(self).book(),
                )
            },
            !r ==> book::valued(*sim, dated_views(trades@), old(self).book(), day, date@) is None,
    {
        let ghost b = self.book();
        let ghost open = b.open.map_values(|p: OpenPos| book::marked(dated_views(trades@), p, day));
        self.trader.state.force_date(date);
        let mut sum: i128 = 0;
        let mut i: usize = 0;
        while i < self.open.len()
            invariant
                open == b.open.map_values(|p: OpenPos| book::marked(dated_views(trades@), p, day)),
                b.open == old(self).open@,
                b == old(self).book(),
                old(self).valid(*sim, trades@.len() as int),
                i <= self.open@.len(),
                self.open@.len() == b.open.len(),
                forall|j: int| 0 <= j < i ==> self.open@[j] == open[j],
                forall|j: int| i <= j < self.open@.len() ==> self.open@[j] == b.open[j],
                forall|j: int|
                    0 <= j < i ==> fixed::fits(book::unrealized(dated_views(trades@), #[trigger] open[j])),
                sum == book::total_unrealized(dated_views(trades@), open.take(i as int)),
                -0x8000_0000_0000_0000 * i <= sum <= 0x8000_0000_0000_0000 * i,
                self.broker == old(self).broker,
                self.trader.mode == old(self).trader.mode,
                self.trader.state.counters() == b.counters.on_simulated_day(date@),
                self.peak_combined == old(self).peak_combined,
                self.peak_realized == old(self).peak_realized,
                self.max_dd == old(self).max_dd,
                self.max_unrealized_dd == old(self).max_unrealized_dd,
                self.filled == old(self).filled,
                self.rejected == old(self).rejected,
                self.resized == old(self).resized,
                self.events == old(self).events,
            decreases self.open@.len() - i,
        {
            let mut p = self.open[i];
            assert(old(self).open@[i as int].valid(trades@.len() as int));
            let t = &trades[p.trade].trade;
            if let Some(close) = find_close(&trades[p.trade].closes, day) {
                p.last_mtm = close;
            }
            assert(p == open[i as int]);
            self.open.set(i, p);
            let long = same(t.direction.as_str(), "bullish");
            match narrow(p.unrealized_pnl(long)) {
                Some(u) => {
                    sum = sum + u as i128;
                },
                None => {
                    assert(!fixed::fits(book::unrealized(dated_views(trades@), open[i as int])));
                    return false;
                },
            }
            assert(open.take(i + 1).drop_last() =~= open.take(i as int));
            i = i + 1;
        }
        proof {
            assert(open.take(i as int) =~= open);
            assert(self.open@ =~= open);
        }
        let combined: i64 = match narrow(self.broker.equity as i128 + sum) {
            Some(c) => c,
            None => {
                return false;
            },
        };
        assert forall|j: int| 0 <= j < self.open@.len() implies (#[trigger] self.open@[j]).valid(
            trades@.len() as int,
        ) by {
            assert(b.open[j].valid(trades@.len() as int));
            assert(open[j] == book::marked(dated_views(trades@), b.open[j], day));
        }
        let limit: i128 = sim.caps.daily_drawdown_killswitch_pct as i128;
        let pct: i128 = pnl_pct(combined, sim.starting_equity);
        if sim.starting_equity != 0 && pct <= limit && !self.trader.state.killswitch_active() {
            self.trader.state.set_killswitch(true);
            let mut detail = "killswitch tripped on MTM: combined P&L ".to_owned();
            detail.append(fixed2_text(pct).as_str());
            detail.append("% <= ");
            detail.append(fixed2_text(limit).as_str());
            detail.append("%");
            self.log(make_event("killswitch", date, None, detail, combined));
        }
        if combined > self.peak_combined {
            self.peak_combined = combined;
        }
        let dd: i128 = drawdown_of(self.peak_combined, combined);
        if dd > self.max_unrealized_dd {
            self.max_unrealized_dd = dd;
        }
        true
    }

    /// Closes a position.
    fn close(&mut self, sim: &Simulator, trades: &Vec<DatedTrade>, p: OpenPos, date: &str) -> (r:
        bool)
        requires
            old(self).valid(*sim, trades@.len() as int),
            p.valid(trades@.len() as int),
        ensures
            r ==> {
                &&& final(self).valid(*sim, trades@.len() as int)
                &&& book::closed(*sim, dated_views(trades@), old(self).book(), p, date@) == Some(
                    final(self).book(),
                )
            },
            !r ==> book::closed(*sim, dated_views(trades@), old(self).book(), p, date@) is None,
    {
        let t = &trades[p.trade].trade;
        let long = same(t.direction.as_str(), "bullish");
        let pnl: i64 = match narrow(p.realized_pnl_on_close(long)) {
            Some(v) => v,
            None => {
                return false;
            },
        };
        let cash: i64 = match narrow(self.broker.equity as i128 + pnl as i128) {
            Some(v) => v,
            None => {
                return false;
            },
        };
        if narrow(self.trader.state.inner.counters.realized_pnl as i128 + pnl as i128).is_none() {
            return false;
        }
        self.broker.apply_pnl(pnl);
        self.trader.state.close_position(
            p.notional,
            pnl,
            sim.caps.daily_drawdown_killswitch_pct,
        );
        if cash > self.peak_realized {
            self.peak_realized = cash;
        }
        let dd: i128 = drawdown_of(self.peak_realized, cash);
        if dd > self.max_dd {
            self.max_dd = dd;
        }
        let mut detail = "close pnl=$".to_owned();
        detail.append(fixed2_text(pnl as i128).as_str());
        self.log(make_event("close", date, Some(t.symbol.clone()), detail, cash));
        true
    }

    /// Closes the positions that exit on a day.
    fn settle_exits(
        &mut self,
        sim: &Simulator,
        trades: &Vec<DatedTrade>,
        day: i32,
        date: &str,
    ) -> (r: bool)
        requires
            old(self).valid(*sim, trades@.len() as int),
        ensures
            r ==> {
                &&& final(self).valid(*sim, trades@.len() as int)
                &&& book::exits(
                    *sim,
                    dated_views(trades@),
                    old(self).book(),
                    old(self).open@,
                    day,
                    date@,
                    old(self).open@.len(),
                ) == Some(final(self).book())
            },
            !r ==> book::exits(
                *sim,
                dated_views(trades@),
                old(self).book(),
                old(self).open@,
                day,
                date@,
                old(self).open@.len(),
            ) is None,
    {
        let ghost b = self.book();
        let mut open: Vec<OpenPos> = Vec::new();
        std::mem::swap(&mut open, &mut self.open);
        assert(open@ == old(self).open@);
        assert(self.book() == Book { open: seq![], ..b });
        let mut i: usize = 0;
        while i < open.len()
            invariant
                i <= open@.len(),
                forall|j: int|
                    0 <= j < open@.len() ==> (#[trigger] open@[j]).valid(trades@.len() as int),
                self.valid(*sim, trades@.len() as int),
                book::exits(*sim, dated_views(trades@), b, open@, day, date@, i as nat) == Some(self.book()),
                b == old(self).book(),
                open@ == old(self).open@,
            decreases open@.len() - i,
        {
            let p = open[i];
            let ghost before = self.book();
            if p.exit_day == day {
                if !self.close(sim, trades, p, date) {
                    proof {
                        assert(book::exits(
                            *sim,
                            dated_views(trades@),
                            b,
                            open@,
                            day,
                            date@,
                            (i + 1) as nat,
                        ) is None);
                        book::lemma_exits_stay_none(
                            *sim,
                            dated_views(trades@),
                            b,
                            open@,
                            day,
                            date@,
                            (i + 1) as nat,
                            open@.len(),
                        );
                    }
                    return false;
                }
            } else {
                self.open.push(p);
                assert(self.book() == Book { open: before.open.push(p), ..before });
            }
            i = i + 1;
        }
        true
    }

    /// Takes a signal through the executor.
    fn enter(
        &mut self,
        sim: &Simulator,
        trades: &Vec<DatedTrade>,
        index: usize,
        day: i32,
        date: &str,
    ) -> (r: bool)
        requires
            old(self).valid(*sim, trades@.len() as int),
            index < trades@.len(),
        ensures
            r ==> {
                &&& final(self).valid(*sim, trades@.len() as int)
                &&& book::entered(*sim, dated_views(trades@), old(self).book(), index as int, day, date@)
                    == Some(final(self).book())
            },
            !r ==> book::entered(*sim, dated_views(trades@), old(self).book(), index as int, day, date@)
                is None,
    {
        let ghost b = self.book();
        let t = &trades[index].trade;
        let sig = Signal {
            symbol: t.symbol.clone(),
            direction: t.direction.clone(),
            entry: t.entry,
            stop: t.stop,
            target_10: t.target_10,
            target_20: t.target_20,
            score: t.score,
        };
        let mut session = Session::new(&self.broker);
        let report = self.trader.execute_signal_on(&mut session, sig, date);
        let cash: i64 = self.broker.equity_value();
        let ghost c = executor::counters_for(b.counters, date@, b.cash);
        let ghost mode = book::mode_of(*sim);
        match &report.decision {
            RiskDecision::Reject { reason } => {
                let mut detail = "REJECT: ".to_owned();
                detail.append(reason.as_str());
                self.log(make_event("decision", date, Some(t.symbol.clone()), detail, cash));
                assert(self.events.len() == self.events@.len());
                self.rejected = self.rejected + 1;
                return true;
            },
            _ => {},
        }
        let was_resized = matches!(report.decision, RiskDecision::Resize { .. });
        let entry = match &report.trade {
            Some(e) => e,
            None => {
                assert(false);
                return false;
            },
        };
        let qty: u32 = entry.qty;
        let notional: i64 = entry.estimated_notional;
        let long = same(t.direction.as_str(), "bullish");
        let entry_filled: i64 = match narrow(
            slipped(t.entry, long, SlipKind::Entry, sim.slippage_bps),
        ) {
            Some(v) => v,
            None => {
                return false;
            },
        };
        let exit_planned: i64 = match narrow(
            slipped(t.exit_price, long, SlipKind::Exit, sim.slippage_bps),
        ) {
            Some(v) => v,
            None => {
                return false;
            },
        };
        let exit_day: i32 = match trades[index].exit_day {
            Some(d) => d,
            None => day,
        };
        let shares: i64 = if qty > 0 {
            qty as i64
        } else if t.entry > 0 {
            notional
        } else {
            0
        };
        let per: i64 = if qty == 0 && t.entry > 0 { t.entry } else { 1 };
        let p = OpenPos {
            trade: index,
            shares,
            per,
            entry_filled,
            exit_planned,
            exit_day,
            last_mtm: entry_filled,
            notional,
        };
        let mut detail = if was_resized {
            "RESIZE → fill qty=".to_owned()
        } else {
            "FILL qty=".to_owned()
        };
        detail.append(count_text(qty).as_str());
        detail.append(" notional=$");
        detail.append(fixed0_text(notional as i128).as_str());
        detail.append(" (slip ");
        detail.append(fixed0_text(sim.slippage_bps as i128).as_str());
        detail.append("bps)");
        self.open.push(p);
        self.log(make_event("decision", date, Some(t.symbol.clone()), detail, cash));
        assert(self.events.len() == self.events@.len());
        self.filled = self.filled + 1;
        if was_resized {
            self.resized = self.resized + 1;
        }
        true
    }

    /// Closes what is still open after the last day.
    fn wind_up(&mut self, sim: &Simulator, trades: &Vec<DatedTrade>, date: &str) -> (r: bool)
        requires
            old(self).valid(*sim, trades@.len() as int),
        ensures
            r ==> book::wound_up(
                dated_views(trades@),
                old(self).book(),
                date@,
                old(self).open@.len(),
            ) == Some(final(self).book()),
            !r ==> book::wound_up(dated_views(trades@), old(self).book(), date@, old(self).open@.len()) is None,
    {
        let ghost b = self.book();
        let mut i: usize = 0;
        while i < self.open.len()
            invariant
                i <= self.open@.len(),
                self.open@ == old(self).open@,
                forall|j: int|
                    0 <= j < self.open@.len() ==> (#[trigger] self.open@[j]).valid(
                        trades@.len() as int,
                    ),
                b == old(self).book(),
                book::wound_up(dated_views(trades@), b, date@, i as nat) == Some(self.book()),
            decreases self.open@.len() - i,
        {
            let p = self.open[i];
            let t = &trades[p.trade].trade;
            let long = same(t.direction.as_str(), "bullish");
            let booked: Option<(i64, i64)> = match narrow(p.realized_pnl_on_close(long)) {
                Some(pnl) => match narrow(self.broker.equity as i128 + pnl as i128) {
                    Some(cash) => Some((pnl, cash)),
                    None => None,
                },
                None => None,
            };
            match booked {
                Some((pnl, cash)) => {
                    self.broker.apply_pnl(pnl);
                    let mut detail = "end-of-sim close pnl=$".to_owned();
                    detail.append(fixed2_text(pnl as i128).as_str());
                    self.log(make_event("close", date, Some(t.symbol.clone()), detail, cash));
                },
                None => {
                    proof {
                        assert(book::wound_up(dated_views(trades@), b, date@, (i + 1) as nat) is None);
                        book::lemma_wound_up_stays_none(
                            dated_views(trades@),
                            b,
                            date@,
                            (i + 1) as nat,
                            self.open@.len(),
                        );
                    }
                    return false;
                },
            }
            i = i + 1;
        }
        true
    }

    /// One day of the simulation.
    fn step(&mut self, sim: &Simulator, trades: &Vec<DatedTrade>, day: i32, date: &str) -> (r:
        bool)
        requires
            old(self).valid(*sim, trades@.len() as int),
        ensures
            r ==> {
                &&& final(self).valid(*sim, trades@.len() as int)
                &&& book::day_step(*sim, dated_views(trades@), old(self).book(), day, date@) == Some(
                    final(self).book(),
                )
            },
            !r ==> book::day_step(*sim, dated_views(trades@), old(self).book(), day, date@) is None,
    {
        if !self.value(sim, trades, day, date) {
            return false;
        }
        if !self.settle_exits(sim, trades, day, date) {
            return false;
        }
        let ghost b = self.book();
        let mut i: usize = 0;
        while i < trades.len()
            invariant
                i <= trades@.len(),
                self.valid(*sim, trades@.len() as int),
                book::entries(*sim, dated_views(trades@), b, day, date@, i as nat) == Some(self.book()),
                book::day_step(*sim, dated_views(trades@), old(self).book(), day, date@) == book::entries(
                    *sim,
                    dated_views(trades@),
                    b,
                    day,
                    date@,
                    trades@.len(),
                ),
            decreases trades@.len() - i,
        {
            if trades[i].entry_day == Some(day) {
                if !self.enter(sim, trades, i, day, date) {
                    proof {
                        assert(book::entries(*sim, dated_views(trades@), b, day, date@, (i + 1) as nat) is None);
                        book::lemma_entries_stay_none(
                            *sim,
                            dated_views(trades@),
                            b,
                            day,
                            date@,
                            (i + 1) as nat,
                            trades@.len(),
                        );
                    }
                    return false;
                }
            }
            i = i + 1;
        }
        true
    }

    /// Reports what a simulation of `n` signals came to.
    fn report(self, sim: &Simulator, label: &str, n: usize) -> (r: SimReport)
        ensures
            r.tells(*sim, label@, n as int, self.book()),
    {
        let starting: i128 = sim.starting_equity as i128;
        let cash: i64 = self.broker.equity_value();
        let return_pct: Option<i128> = if starting > 0 {
            Some(percent2_of(cash as i128 - starting, starting))
        } else if starting < 0 {
            Some(percent2_of(starting - cash as i128, -starting))
        } else {
            None
        };
        SimReport {
            label: label.to_owned(),
            starting_equity: sim.starting_equity,
            final_equity: cash,
            total_signals: n,
            orders_filled: self.filled,
            orders_rejected: self.rejected,
            orders_resized: self.resized,
            killswitch_tripped: self.trader.state.killswitch_active(),
            max_drawdown_pct: self.max_dd,
            max_unrealized_drawdown_pct: self.max_unrealized_dd,
            return_pct,
            slippage_bps: sim.slippage_bps,
            events: self.events,
        }
    }
}

/// How many of `n` trades come before a split at a fraction in millionths, which is held
/// between a tenth and nine tenths.
pub open spec fn split_at(n: int, fraction: int) -> int {
    n * fixed::smaller(fixed::larger(fraction, 100_000), 900_000) / 1_000_000
}

/// Whether a result is that of replaying trades: the report of the books that the simulation
/// ends in, or an error exactly where it does not end in any.
pub open spec fn replays(
    sim: Simulator,
    trades: Seq<BacktestTrade>,
    label: Seq<char>,
    r: Result<SimReport, SimError>,
) -> bool {
    let end = book::simulated(sim, order::by_entry_date(trades));
    &&& r is Ok <==> end is Some
    &&& r matches Ok(report) ==> report.tells(sim, label, trades.len() as int, end->0)
}

/// Whether a result is that of replaying the earlier trades and the later ones apart.
pub open spec fn replays_split(
    sim: Simulator,
    trades: Seq<BacktestTrade>,
    fraction: int,
    r: Result<(SimReport, SimReport), SimError>,
) -> bool {
    let sorted = order::by_entry_date(trades);
    let cut = split_at(sorted.len() as int, fraction);
    let train = book::simulated(sim, sorted.take(cut));
    let test = book::simulated(sim, sorted.skip(cut));
    &&& r is Ok <==> train is Some && test is Some
    &&& r matches Ok((a, b)) ==> {
        &&& a.tells(sim, "train"@, cut, train->0)
        &&& b.tells(sim, "test"@, sorted.len() - cut, test->0)
    }
}

/// The given fraction (in millionths, at most one) of a count, rounded down.
fn part_of(n: usize, fraction: i64) -> (r: usize)
    requires
        0 <= fraction <= 1_000_000,
    ensures
        r == n as int * fraction as int / 1_000_000,
        r <= n,
{
    assert(0 <= n * fraction <= n * 1_000_000) by (nonlinear_arith)
        requires
            n >= 0,
            0 <= fraction <= 1_000_000,
    ;
    (n as u128 * fraction as u128 / 1_000_000) as usize
}

impl Simulator {
    /// Replays trades. The report is labelled `label`.
    pub fn run(&self, trades: Vec<BacktestTrade>, label: &str) -> (r: Result<SimReport, SimError>)
        ensures
            replays(*self, trades@, label@, r),
    {
        proof {
            order::law_sorting_orders_and_keeps_trades(trades@);
        }
        let sorted = sort_by_entry_date(trades);
        let dated = date_trades(sorted);
        let calendar = calendar_of(&dated);
        let mut days: Vec<(i32, String)> = Vec::new();
        let mut i: usize = 0;
        while i < calendar.len()
            invariant
                i <= calendar@.len(),
                order::is_calendar(calendar@, dated_views(dated@)),
                forall|j: int| 0 <= j < dated@.len() ==> showable((#[trigger] dated@[j])@),
                days@.len() == i,
                forall|j: int|
                    0 <= j < i ==> (#[trigger] days@[j]).0 == calendar@[j] && days@[j].1@
                        == book::date_of(calendar@[j]),
            decreases calendar@.len() - i,
        {
            let day: i32 = calendar[i];
            proof {
                assert(calendar@.contains(day));
                let ts = dated_views(dated@);
                let k = choose|k: int| 0 <= k < ts.len() && order::touches(#[trigger] ts[k], day);
                assert(ts[k] == dated@[k]@);
            }
            let text = match show_day(day) {
                Some(text) => text,
                None => String::new(),
            };
            days.push((day, text));
            i = i + 1;
        }
        assert(day_views(days@) =~= book::days_of(dated_views(dated@)));
        self.replay(&dated, &days, label)
    }

    /// Replays trades whose dates are read over days that are given with their texts, in the
    /// order in which both are given. The report is labelled `label`.
    pub fn replay(&self, trades: &Vec<DatedTrade>, days: &Vec<(i32, String)>, label: &str) -> (r:
        Result<SimReport, SimError>)
        ensures
            ({
                let end = book::replayed(*self, dated_views(trades@), day_views(days@));
                &&& r is Ok <==> end is Some
                &&& r matches Ok(report) ==> report.tells(
                    *self,
                    label@,
                    trades@.len() as int,
                    end->0,
                )
            }),
    {
        let ghost ts = dated_views(trades@);
        let ghost ds = day_views(days@);
        let mode = if self.caps.max_pct_per_trade <= 10_000_000 {
            TradingMode::Standard
        } else {
            TradingMode::Tiny
        };
        let mut ledger = Ledger {
            broker: SimBroker::new(self.starting_equity),
            trader: Executor {
                state: State::ephemeral_on(String::new(), self.starting_equity),
                mode,
            },
            open: Vec::new(),
            peak_combined: self.starting_equity,
            peak_realized: self.starting_equity,
            max_dd: 0,
            max_unrealized_dd: 0,
            filled: 0,
            rejected: 0,
            resized: 0,
            events: Vec::new(),
        };
        proof {
            assert(ledger.book().events =~= seq![]);
            assert(ledger.book() == book::opening(*self));
        }
        let mut i: usize = 0;
        while i < days.len()
            invariant
                i <= days@.len(),
                ts == dated_views(trades@),
                ds == day_views(days@),
                ledger.valid(*self, trades@.len() as int),
                book::after_days(*self, ts, ds, i as nat) == Some(ledger.book()),
            decreases days@.len() - i,
        {
            let day: i32 = days[i].0;
            let date = days[i].1.as_str();
            assert(ds[i as int] == (day, date@));
            if !ledger.step(self, trades, day, date) {
                proof {
                    assert(book::after_days(*self, ts, ds, (i + 1) as nat) is None);
                    book::lemma_days_stay_none(
                        *self,
                        ts,
                        ds,
                        (i + 1) as nat,
                        ds.len(),
                    );
                }
                return Err(SimError::OutOfRange);
            }
            i = i + 1;
        }
        let date = if days.len() > 0 { days[days.len() - 1].1.as_str() } else { "" };
        proof {
            if ds.len() > 0 {
                assert(ds.last().1 == date@);
            } else {
                assert(ledger.open@.len() == 0);
            }
        }
        if !ledger.wind_up(self, trades, date) {
            return Err(SimError::OutOfRange);
        }
        Ok(ledger.report(self, label, trades.len()))
    }

    /// Replays the earlier trades ("train") and the later ones ("test") apart. A strategy that
    /// works should look similar on both; a large gap means over-fit parameters or a change
    /// of regime.
    pub fn run_oos(&self, trades: Vec<BacktestTrade>, split_fraction: i64) -> (r: Result<
        (SimReport, SimReport),
        SimError,
    >)
        ensures
            replays_split(*self, trades@, split_fraction as int, r),
    {
        proof {
            order::law_sorting_orders_and_keeps_trades(trades@);
        }
        let mut train = sort_by_entry_date(trades);
        let fraction: i64 = if split_fraction < 100_000 {
            100_000
        } else if split_fraction > 900_000 {
            900_000
        } else {
            split_fraction
        };
        let cut: usize = part_of(train.len(), fraction);
        let test = train.split_off(cut);
        proof {
            let sorted = order::by_entry_date(trades@);
            assert(sorted.take(cut as int) =~= train@);
            assert(sorted.skip(cut as int) =~= test@);
            order::law_parts_of_sorted_trades_are_sorted(trades@, cut as int);
        }
        let first = match self.run(train, "train") {
            Ok(report) => report,
            Err(e) => {
                return Err(e);
            },
        };
        match self.run(test, "test") {
            Ok(second) => Ok((first, second)),
            Err(e) => Err(e),
        }
    }
}

} // verus!
