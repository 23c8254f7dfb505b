//! The order pipeline. A scanner [`Signal`] goes through
//!   1. instrument selection (the underlying equity),
//!   2. position sizing (whole shares in Standard mode, a dollar notional in Tiny mode),
//!   3. the risk check ([`crate::risk::check`], the firewall),
//!   4. the broker.
//!
//! [`Executor::plan_signal`] does the first three, from what the broker said of the equity;
//! [`Executor::settle_order`] records what the broker said of the order. Between the two the
//! order is sent. [`Executor::execute_signal`] is all of it, for a broker that answers at
//! once.

use vstd::prelude::*;

use crate::broker::{
    AssetClass, Broker, BrokerError, BrokerResult, OrderRequest, OrderResult, OrderSize, OrderView,
    Session,
};
use crate::clock;
use crate::clock::today;
use crate::fixed;
use crate::fixed::{ceil_div, floor_div, round2, PERCENT_SCALE};
use crate::risk;
use crate::risk::{
    DecisionView, OrderSide, ProposedOrder, RiskCaps, RiskDecision, RiskSnapshot,
};
use crate::state;
use crate::state::{CountersView, EntryView, State, TradeLogEntry};
use crate::text;
use crate::text::{fixed2_text, same};

verus! {

/// Operational profile. Standard is for normally sized accounts, Tiny for $100 to $1,000.
#[derive(Debug, Clone, Copy, PartialEq, Eq, Structural)]
pub enum TradingMode {
    Standard,
    Tiny,
}

impl TradingMode {
    #[verifier::allow_in_spec]
    pub fn caps(&self) -> RiskCaps
        returns
            (match *self {
                TradingMode::Standard => RiskCaps::moderate(),
                TradingMode::Tiny => RiskCaps::tiny(),
            }),
    {
        match self {
            TradingMode::Standard => RiskCaps::moderate(),
            TradingMode::Tiny => RiskCaps::tiny(),
        }
    }

    /// The share of the equity that a trade aims at, in millionths of a percent.
    #[verifier::allow_in_spec]
    pub fn target_pct_per_trade(&self) -> i64
        returns
            (match *self {
                TradingMode::Standard => 5_000_000i64,
                TradingMode::Tiny => 75_000_000i64,
            }),
    {
        match self {
            TradingMode::Standard => 5_000_000,
            TradingMode::Tiny => 75_000_000,
        }
    }

    /// Whether orders are dollar amounts rather than whole shares.
    #[verifier::allow_in_spec]
    pub fn use_fractional(&self) -> bool
        returns
            (*self is Tiny),
    {
        matches!(self, TradingMode::Tiny)
    }

    #[verifier::allow_in_spec]
    pub fn allows_options(&self) -> bool
        returns
            (*self is Standard),
    {
        matches!(self, TradingMode::Standard)
    }
}

/// A candidate from the scanner. Prices and the score are in millionths.
#[derive(Debug)]
pub struct Signal {
    pub symbol: String,
    pub direction: String,
    pub entry: i64,
    pub stop: i64,
    pub target_10: i64,
    pub target_20: i64,
    pub score: i64,
}

impl Clone for Signal {
    fn clone(&self) -> (r: Self)
        ensures
            r == *self,
    {
        Signal {
            symbol: self.symbol.clone(),
            direction: self.direction.clone(),
            entry: self.entry,
            stop: self.stop,
            target_10: self.target_10,
            target_20: self.target_20,
            score: self.score,
        }
    }
}

/// Whether a direction is the bullish one; any other is traded as bearish.
pub open spec fn is_bullish(direction: Seq<char>) -> bool {
    direction == "bullish"@
}

/// What became of a signal.
#[derive(Debug)]
pub struct ExecutionReport {
    pub signal: Signal,
    pub decision: RiskDecision,
    pub trade: Option<TradeLogEntry>,
    pub error: Option<String>,
}

/// What an [`ExecutionReport`] says of its signal, and the counters that it leaves.
pub struct Outcome {
    pub decision: DecisionView,
    pub trade: Option<EntryView>,
    pub error: Option<Seq<char>>,
    pub counters: CountersView,
}

/// The day's P&L in millionths of a percent of the starting equity, rounded up: it is at or
/// below a threshold exactly when the P&L itself is.
pub open spec fn daily_pnl_pct(equity: int, starting_equity: int) -> int {
    if starting_equity > 0 {
        fixed::ceil_ratio((equity - starting_equity) * PERCENT_SCALE, starting_equity)
    } else {
        0
    }
}

/// What a trade aims at, in dollars.
pub open spec fn target_notional(mode: TradingMode, equity: int) -> int {
    equity * mode.target_pct_per_trade() / PERCENT_SCALE as int
}

/// What the risk check sees of the counters and the equity.
pub open spec fn seen(c: CountersView, equity: int) -> RiskSnapshot {
    RiskSnapshot {
        account_equity: equity as i64,
        trades_today: c.trades_opened as u32,
        open_notional: c.open_notional as i64,
        daily_pnl_pct: daily_pnl_pct(equity, c.starting_equity) as i128,
        killswitch_tripped: c.killswitch_tripped,
    }
}

/// The decision of the risk check on a signal, from the counters of its day.
pub open spec fn cleared(mode: TradingMode, c: CountersView, equity: int) -> DecisionView {
    risk::decision(mode.caps(), seen(c, equity), target_notional(mode, equity))
}

/// The notional that is sent when a signal is not refused.
pub open spec fn sent_notional(mode: TradingMode, c: CountersView, equity: int) -> int {
    risk::passed_notional(mode.caps(), seen(c, equity), target_notional(mode, equity))
}

/// Whether an order is to be of whole shares, and its notional does not buy one.
pub open spec fn too_dear(mode: TradingMode, notional: int, entry: int) -> bool {
    !mode.use_fractional() && 0 <= notional < entry
}

/// The decision on a signal, from the counters of its day: that of the risk check, but a
/// signal whose order would not come to one share is refused too.
pub open spec fn decided(mode: TradingMode, c: CountersView, equity: int, entry: int)
    -> DecisionView {
    let notional = sent_notional(mode, c, equity);
    if cleared(mode, c, equity) !is Reject && too_dear(mode, notional, entry) {
        DecisionView::Reject {
            reason: "one share at $"@ + text::fixed2(entry) + " is over the order's $"@
                + text::fixed2(notional),
        }
    } else {
        cleared(mode, c, equity)
    }
}

/// The whole shares bought for a notional, and as many as 32 bits count where a share costs
/// nothing.
pub open spec fn share_quantity(notional: int, entry: int) -> int {
    if entry > 0 {
        fixed::smaller(fixed::larger(notional / entry, 0), u32::MAX as int)
    } else if entry == 0 && notional > 0 {
        u32::MAX as int
    } else {
        1
    }
}

/// The size of an order for a notional: dollars to the cent in Tiny mode, whole shares in
/// Standard mode.
pub open spec fn order_size(mode: TradingMode, notional: int, entry: int) -> OrderSize {
    if mode.use_fractional() {
        OrderSize::Notional { dollars: fixed::rounded2(notional) as i64 }
    } else {
        OrderSize::Shares { qty: share_quantity(notional, entry) as u32 }
    }
}

/// The order for a signal at a size: the underlying, bought when bullish and sold otherwise.
pub open spec fn order_for(sig: Signal, size: OrderSize) -> OrderView {
    OrderView {
        symbol: sig.symbol@,
        size,
        side: if is_bullish(sig.direction@) { OrderSide::Buy } else { OrderSide::Sell },
        asset_class: AssetClass::UsEquity,
    }
}

/// The size that a refused signal is logged with.
pub open spec fn refused_size(mode: TradingMode, equity: int) -> OrderSize {
    if mode.use_fractional() {
        OrderSize::Notional { dollars: target_notional(mode, equity) as i64 }
    } else {
        OrderSize::Shares { qty: 0 }
    }
}

/// The counters of a signal's day, with the equity known.
pub open spec fn counters_for(c: CountersView, today: Seq<char>, equity: int) -> CountersView {
    c.on_day(today).anchored(equity)
}

/// Whether the P&L of the day is at or below the kill-switch threshold.
pub open spec fn breached(mode: TradingMode, c: CountersView, equity: int) -> bool {
    daily_pnl_pct(equity, c.starting_equity) <= mode.caps().daily_drawdown_killswitch_pct
}

/// A signal whose broker would not say the equity.
pub open spec fn outcome_unpriced(c: CountersView, today: Seq<char>, e: BrokerError) -> Outcome {
    Outcome {
        decision: DecisionView::Reject { reason: "broker equity fetch failed: "@ + e.shown() },
        trade: None,
        error: Some(e.shown()),
        counters: c.on_day(today),
    }
}

/// A signal that the risk check refused: logged, not sent. A breach of the threshold trips
/// the kill-switch.
pub open spec fn outcome_refused(
    mode: TradingMode,
    c: CountersView,
    sig: Signal,
    broker: Seq<char>,
    equity: int,
) -> Outcome {
    let d = decided(mode, c, equity, sig.entry as int);
    Outcome {
        decision: d,
        trade: Some(
            state::logged(
                order_for(sig, refused_size(mode, equity)),
                target_notional(mode, equity),
                broker,
                d,
                None,
            ),
        ),
        error: None,
        counters: if breached(mode, c, equity) { c.with_killswitch(true) } else { c },
    }
}

/// An order for `notional` that was sent and answered.
pub open spec fn outcome_sent(
    c: CountersView,
    order: OrderView,
    notional: int,
    broker: Seq<char>,
    decision: DecisionView,
    placed: BrokerResult<OrderResult>,
) -> Outcome {
    Outcome {
        decision,
        trade: Some(state::logged(order, notional, broker, decision, placed.ok())),
        error: match placed {
            Ok(_) => None,
            Err(e) => Some(e.shown()),
        },
        counters: if placed is Ok { c.after_open(notional) } else { c },
    }
}

/// The order that is sent for a signal, from the counters of its day.
pub open spec fn sent_order(mode: TradingMode, c: CountersView, sig: Signal, equity: int)
    -> OrderView {
    order_for(sig, order_size(mode, sent_notional(mode, c, equity), sig.entry as int))
}

/// What becomes of a signal, given what the broker answers.
pub open spec fn outcome(
    mode: TradingMode,
    c: CountersView,
    sig: Signal,
    today: Seq<char>,
    broker: Seq<char>,
    equity: BrokerResult<i64>,
    placed: BrokerResult<OrderResult>,
) -> Outcome {
    match equity {
        Err(e) => outcome_unpriced(c, today, e),
        Ok(equity) => {
            let c = counters_for(c, today, equity as int);
            let d = decided(mode, c, equity as int, sig.entry as int);
            if d is Reject {
                outcome_refused(mode, c, sig, broker, equity as int)
            } else {
                outcome_sent(
                    c,
                    sent_order(mode, c, sig, equity as int),
                    sent_notional(mode, c, equity as int),
                    broker,
                    d,
                    placed,
                )
            }
        },
    }
}

impl ExecutionReport {
    /// Whether the report and the counters it left are those of an outcome.
    pub open spec fn tells(&self, counters: CountersView, o: Outcome) -> bool {
        &&& self.decision@ == o.decision
        &&& match (self.trade, o.trade) {
            (Some(entry), Some(e)) => entry@ == e,
            (None, None) => true,
            _ => false,
        }
        &&& match (self.error, o.error) {
            (Some(error), Some(e)) => error@ == e,
            (None, None) => true,
            _ => false,
        }
        &&& counters == o.counters
    }

    /// Whether a log is the earlier one with the report's trade, if it has one, in front.
    pub open spec fn logs(&self, before: Seq<TradeLogEntry>, after: Seq<TradeLogEntry>) -> bool {
        match self.trade {
            Some(entry) => after == state::log_with(before, entry),
            None => after == before,
        }
    }
}

/// An order that passed the risk check and is to be sent.
#[derive(Debug)]
pub struct Ticket {
    pub signal: Signal,
    pub order: OrderRequest,
    pub notional: i64,
    pub decision: RiskDecision,
}

impl Ticket {
    /// Whether counters have room for the trade.
    pub open spec fn countable(&self, c: CountersView) -> bool {
        &&& c.trades_opened < u32::MAX
        &&& fixed::fits(c.open_notional + self.notional)
    }
}

/// What to do with a signal: nothing more, or send an order.
#[derive(Debug)]
pub enum Plan {
    Done(ExecutionReport),
    Send(Ticket),
}

/// Whether a broker can have given these answers to the questions that a signal raises; the
/// last is asked only where an order is sent.
pub open spec fn answers<B: Broker>(
    broker: &B,
    name: &'static str,
    equity: BrokerResult<i64>,
    order: OrderRequest,
    placed: BrokerResult<OrderResult>,
    decision: DecisionView,
) -> bool {
    &&& call_ensures(B::name, (broker,), name)
    &&& call_ensures(B::account_equity, (broker,), equity)
    &&& decision !is Reject ==> call_ensures(B::place_order, (broker, &order), placed)
}

/// The orders that are sent for a signal: one where it is not refused, and none where it is
/// or where the broker would not say the equity.
pub open spec fn orders_for(
    mode: TradingMode,
    c: CountersView,
    sig: Signal,
    today: Seq<char>,
    equity: BrokerResult<i64>,
) -> Seq<OrderView> {
    match equity {
        Err(_) => seq![],
        Ok(equity) => {
            let c = counters_for(c, today, equity as int);
            if decided(mode, c, equity as int, sig.entry as int) is Reject {
                seq![]
            } else {
                seq![sent_order(mode, c, sig, equity as int)]
            }
        },
    }
}

/// Whether a report, the counters after it and the orders that were sent are what a broker's
/// answers to a signal on the date `today` lead to.
pub open spec fn went<B: Broker>(
    mode: TradingMode,
    before: CountersView,
    sig: Signal,
    today: Seq<char>,
    broker: &B,
    report: ExecutionReport,
    after: CountersView,
    sent: Seq<OrderView>,
) -> bool {
    exists|
        name: &'static str,
        equity: BrokerResult<i64>,
        order: OrderRequest,
        placed: BrokerResult<OrderResult>,
    |
        {
            &&& #[trigger] answers(broker, name, equity, order, placed, report.decision@)
            &&& sent == orders_for(mode, before, sig, today, equity)
            &&& report.decision@ !is Reject ==> sent == seq![order@]
            &&& report.tells(
                after,
                outcome(mode, before, sig, today, name@, equity, placed),
            )
        }
}

/// The day's P&L in percent of the starting equity.
pub fn pnl_pct(equity: i64, starting_equity: i64) -> (r: i128)
    ensures
        r == daily_pnl_pct(equity as int, starting_equity as int),
{
    if starting_equity > 0 {
        ceil_div(
            (equity as i128 - starting_equity as i128) * PERCENT_SCALE,
            starting_equity as i128,
        )
    } else {
        0
    }
}

/// Runs signals against the state of one account.
#[derive(Debug)]
pub struct Executor {
    pub state: State,
    pub mode: TradingMode,
}

/// The amounts that a mode sends are within the equity, and so is the open notional with
/// them.
proof fn lemma_sent_in_range(mode: TradingMode, c: CountersView, equity: int)
    requires
        fixed::fits(equity),
        fixed::fits(c.open_notional),
        0 <= c.trades_opened <= u32::MAX,
        cleared(mode, c, equity) !is Reject,
    ensures
        0 <= 5 * sent_notional(mode, c, equity) <= 4 * equity,
        5 * (c.open_notional + sent_notional(mode, c, equity)) <= 4 * equity,
        c.trades_opened < 5,
{
    risk::law_passed_orders_respect_caps(
        mode.caps(),
        seen(c, equity),
        target_notional(mode, equity),
    );
    assert(equity * mode.caps().max_pct_per_trade <= equity * 80_000_000) by (nonlinear_arith)
        requires
            mode.caps().max_pct_per_trade <= 80_000_000,
            equity >= 0,
    ;
    assert(equity * mode.caps().max_pct_total_exposure <= equity * 80_000_000)
        by (nonlinear_arith)
        requires
            mode.caps().max_pct_total_exposure <= 80_000_000,
            equity >= 0,
    ;
    if cleared(mode, c, equity) is Resize {
        risk::law_resize_is_bounded(
            mode.caps(),
            seen(c, equity),
            target_notional(mode, equity),
        );
    }
}

impl Executor {
    /// The caps in force.
    pub fn current_caps(&self) -> (r: RiskCaps)
        ensures
            r == self.mode.caps(),
    {
        self.mode.caps()
    }

    fn pick_instrument(sig: &Signal) -> (r: (String, AssetClass, OrderSide))
        ensures
            forall|size: OrderSize|
                #![trigger order_for(*sig, size)]
                order_for(*sig, size) == (OrderView {
                    symbol: r.0@,
                    size,
                    side: r.2,
                    asset_class: r.1,
                }),
    {
        let side = if same(sig.direction.as_str(), "bullish") {
            OrderSide::Buy
        } else {
            OrderSide::Sell
        };
        (sig.symbol.clone(), AssetClass::UsEquity, side)
    }

    fn size_order(mode: TradingMode, notional: i64, entry: i64) -> (r: OrderSize)
        requires
            0 <= 5 * notional <= 4 * i64::MAX,
        ensures
            r == order_size(mode, notional as int, entry as int),
    {
        if mode.use_fractional() {
            return OrderSize::Notional { dollars: round2(notional as i128) as i64 };
        }
        if entry < 0 || (entry == 0 && notional == 0) {
            return OrderSize::Shares { qty: 1 };
        }
        if entry == 0 {
            return OrderSize::Shares { qty: u32::MAX };
        }
        let q: i128 = floor_div(notional as i128, entry as i128);
        let qty: u32 = if q <= 0 {
            0
        } else if q >= u32::MAX as i128 {
            u32::MAX
        } else {
            q as u32
        };
        OrderSize::Shares { qty }
    }

    fn refuse_dear_share(mode: TradingMode, checked: RiskDecision, notional: i64, entry: i64)
        -> (r: RiskDecision)
        requires
            checked@ !is Reject ==> notional >= 0,
        ensures
            r@ == (if checked@ !is Reject && too_dear(mode, notional as int, entry as int) {
                DecisionView::Reject {
                    reason: "one share at $"@ + text::fixed2(entry as int)
                        + " is over the order's $"@ + text::fixed2(notional as int),
                }
            } else {
                checked@
            }),
    {
        if matches!(checked, RiskDecision::Reject { .. }) || mode.use_fractional()
            || notional >= entry {
            return checked;
        }
        let mut reason = "one share at $".to_owned();
        reason.append(fixed2_text(entry as i128).as_str());
        reason.append(" is over the order's $");
        reason.append(fixed2_text(notional as i128).as_str());
        RiskDecision::Reject { reason }
    }

    /// Decides on a signal, on the date `today`, from what the broker said of the equity.
    /// A refused signal is logged; one that passes is left to be sent.
    pub fn plan_signal(
        &mut self,
        sig: Signal,
        today: &str,
        broker_name: &str,
        equity: BrokerResult<i64>,
    ) -> (r: Plan)
        ensures
            final(self).mode == old(self).mode,
            r matches Plan::Done(report) ==> {
                &&& report.signal == sig
                &&& report.logs(old(self).state.log(), final(self).state.log())
                &&& match equity {
                    Err(e) => report.tells(
                        final(self).state.counters(),
                        outcome_unpriced(old(self).state.counters(), today@, e),
                    ),
                    Ok(equity) => {
                        let c = counters_for(old(self).state.counters(), today@, equity as int);
                        &&& decided(old(self).mode, c, equity as int, sig.entry as int) is Reject
                        &&& report.tells(
                            final(self).state.counters(),
                            outcome_refused(old(self).mode, c, sig, broker_name@, equity as int),
                        )
                    },
                }
            },
            r matches Plan::Send(ticket) ==> {
                &&& equity is Ok
                &&& {
                    let equity = equity->Ok_0 as int;
                    let c = counters_for(old(self).state.counters(), today@, equity);
                    &&& decided(old(self).mode, c, equity, sig.entry as int) !is Reject
                    &&& ticket.signal == sig
                    &&& ticket.decision@ == decided(old(self).mode, c, equity, sig.entry as int)
                    &&& ticket.notional == sent_notional(old(self).mode, c, equity)
                    &&& ticket.order@ == sent_order(old(self).mode, c, sig, equity)
                    &&& ticket.countable(c)
                    &&& final(self).state.counters() == c
                    &&& final(self).state.log() == old(self).state.log()
                }
            },
    {
        self.state.roll_day(today);
        let equity: i64 = match equity {
            Ok(e) => e,
            Err(e) => {
                let error = e.message();
                let mut reason = "broker equity fetch failed: ".to_owned();
                reason.append(error.as_str());
                return Plan::Done(
                    ExecutionReport {
                        signal: sig,
                        decision: RiskDecision::Reject { reason },
                        trade: None,
                        error: Some(error),
                    },
                );
            },
        };
        self.state.set_starting_equity_if_unset(equity);
        let ghost c = self.state.counters();
        let mode = self.mode;
        let caps = mode.caps();
        let pnl: i128 = pnl_pct(equity, self.state.inner.counters.starting_equity);
        proof {
            fixed::lemma_product_in_range(equity as int, mode.target_pct_per_trade() as int);
            fixed::lemma_floor_in_range(
                equity * mode.target_pct_per_trade(),
                PERCENT_SCALE as int,
            );
        }
        let target: i64 = floor_div(
            equity as i128 * mode.target_pct_per_trade() as i128,
            PERCENT_SCALE,
        ) as i64;
        let (symbol, asset_class, side) = Executor::pick_instrument(&sig);
        let proposed = ProposedOrder { symbol: symbol.clone(), side, estimated_notional: target };
        let snap = RiskSnapshot {
            account_equity: equity,
            trades_today: self.state.inner.counters.trades_opened,
            open_notional: self.state.inner.counters.open_notional,
            daily_pnl_pct: pnl,
            killswitch_tripped: self.state.inner.counters.killswitch_tripped,
        };
        assert(snap == seen(c, equity as int));
        let checked = risk::check(&caps, &snap, &proposed);
        proof {
            if checked@ !is Reject {
                lemma_sent_in_range(mode, c, equity as int);
            }
        }
        let notional: i64 = match &checked {
            RiskDecision::Resize { new_notional, .. } => *new_notional,
            _ => target,
        };
        let decision = Executor::refuse_dear_share(mode, checked, notional, sig.entry);
        match &decision {
            RiskDecision::Reject { .. } => {
                let size = if mode.use_fractional() {
                    OrderSize::Notional { dollars: target }
                } else {
                    OrderSize::Shares { qty: 0 }
                };
                let order = OrderRequest { symbol, size, side, asset_class };
                assert(order@ == order_for(sig, size));
                let entry = self.state.record_decision(
                    &order,
                    target,
                    broker_name,
                    &decision,
                    None,
                );
                if pnl <= caps.daily_drawdown_killswitch_pct as i128 {
                    self.state.set_killswitch(true);
                }
                return Plan::Done(
                    ExecutionReport { signal: sig, decision, trade: Some(entry), error: None },
                );
            },
            _ => {},
        }
        let size = Executor::size_order(mode, notional, sig.entry);
        let order = OrderRequest { symbol, size, side, asset_class };
        assert(order@ == order_for(sig, size));
        Plan::Send(Ticket { signal: sig, order, notional, decision })
    }

    /// Records what the broker answered to an order, and counts the trade where it was taken.
    pub fn settle_order(
        &mut self,
        ticket: Ticket,
        broker_name: &str,
        placed: BrokerResult<OrderResult>,
    ) -> (r: ExecutionReport)
        requires
            ticket.decision@ !is Reject,
            placed is Ok ==> ticket.countable(old(self).state.counters()),
        ensures
            final(self).mode == old(self).mode,
            r.signal == ticket.signal,
            r.tells(
                final(self).state.counters(),
                outcome_sent(
                    old(self).state.counters(),
                    ticket.order@,
                    ticket.notional as int,
                    broker_name@,
                    ticket.decision@,
                    placed,
                ),
            ),
            r.trade is Some,
            r.logs(old(self).state.log(), final(self).state.log()),
    {
        let (result, error) = match placed {
            Ok(r) => (Some(r), None),
            Err(e) => (None, Some(e.message())),
        };
        let answer = match &result {
            Some(r) => Some(r),
            None => None,
        };
        let entry = self.state.record_decision(
            &ticket.order,
            ticket.notional,
            broker_name,
            &ticket.decision,
            answer,
        );
        ExecutionReport {
            signal: ticket.signal,
            decision: ticket.decision,
            trade: Some(entry),
            error,
        }
    }

    /// Takes a signal through the whole pipeline, on the current day, over a line that counts
    /// the orders. A signal that is refused sends nothing; any other sends one order.
    pub fn execute_signal<B: Broker>(&mut self, session: &mut Session<B>, sig: Signal) -> (r:
        ExecutionReport)
        ensures
            final(self).mode == old(self).mode,
            r.signal == sig,
            r.logs(old(self).state.log(), final(self).state.log()),
            final(session).broker() == old(session).broker(),
            r.decision@ is Reject ==> final(session).sent() == old(session).sent(),
            exists|today: Seq<char>, sent: Seq<OrderView>|
                clock::is_date(today) && final(session).sent() == old(session).sent() + sent
                    && #[trigger] went(
                    old(self).mode,
                    old(self).state.counters(),
                    sig,
                    today,
                    old(session).broker(),
                    r,
                    final(self).state.counters(),
                    sent,
                ),
    {
        let date = today();
        self.execute_signal_on(session, sig, date.as_str())
    }

    /// Takes a signal through the whole pipeline on the date `today`.
    pub fn execute_signal_on<B: Broker>(
        &mut self,
        session: &mut Session<B>,
        sig: Signal,
        today: &str,
    ) -> (r: ExecutionReport)
        ensures
            final(self).mode == old(self).mode,
            r.signal == sig,
            r.logs(old(self).state.log(), final(self).state.log()),
            final(session).broker() == old(session).broker(),
            r.decision@ is Reject ==> final(session).sent() == old(session).sent(),
            exists|sent: Seq<OrderView>|
                final(session).sent() == old(session).sent() + sent && #[trigger] went(
                    old(self).mode,
                    old(self).state.counters(),
                    sig,
                    today@,
                    old(session).broker(),
                    r,
                    final(self).state.counters(),
                    sent,
                ),
    {
        let name = session.name();
        let equity = session.account_equity();
        let ghost mode = self.mode;
        let ghost before = self.state.counters();
        let ghost orders = orders_for(mode, before, sig, today@, equity);
        match self.plan_signal(sig, today, name, equity) {
            Plan::Done(report) => {
                proof {
                    let order: OrderRequest = arbitrary();
                    let placed: BrokerResult<OrderResult> = arbitrary();
                    assert(answers(
                        session.broker(),
                        name,
                        equity,
                        order,
                        placed,
                        report.decision@,
                    ));
                    assert(session.sent() + orders =~= session.sent());
                    assert(went(
                        mode,
                        before,
                        sig,
                        today@,
                        session.broker(),
                        report,
                        self.state.counters(),
                        orders,
                    ));
                }
                report
            },
            Plan::Send(ticket) => {
                let ghost order = ticket.order;
                let ghost decision = ticket.decision@;
                let placed = session.place_order(&ticket.order);
                let report = self.settle_order(ticket, name, placed);
                proof {
                    assert(answers(session.broker(), name, equity, order, placed, decision));
                    assert(session.sent() =~= old(session).sent() + orders);
                    assert(went(
                        mode,
                        before,
                        sig,
                        today@,
                        session.broker(),
                        report,
                        self.state.counters(),
                        orders,
                    ));
                }
                report
            },
        }
    }
}

/// The daily P&L is at or below a threshold in percent exactly when the change of the equity
/// is at or below that percentage of the starting equity: rounding does not move the
/// kill-switch.
pub proof fn law_pnl_threshold_is_exact(equity: int, starting_equity: int, threshold: int)
    requires
        starting_equity > 0,
    ensures
        daily_pnl_pct(equity, starting_equity) <= threshold <==> (equity - starting_equity)
            * PERCENT_SCALE <= threshold * starting_equity,
{
    fixed::lemma_ceil_at_most(
        (equity - starting_equity) * PERCENT_SCALE,
        starting_equity,
        threshold,
    );
}

/// Once the kill-switch is tripped, every signal is refused, on whatever day it comes and
/// whatever the broker says: no trade is counted, no exposure opens, and the switch stays
/// tripped.
pub proof fn law_tripped_killswitch_blocks(
    mode: TradingMode,
    c: CountersView,
    sig: Signal,
    today: Seq<char>,
    broker: Seq<char>,
    equity: BrokerResult<i64>,
    placed: BrokerResult<OrderResult>,
)
    requires
        c.killswitch_tripped,
    ensures
        ({
            let o = outcome(mode, c, sig, today, broker, equity, placed);
            &&& o.decision is Reject
            &&& o.counters.killswitch_tripped
            &&& o.counters.trades_opened == c.on_day(today).trades_opened
            &&& o.counters.open_notional == c.on_day(today).open_notional
        }),
{
}

/// A signal that finds the day's P&L at or below the threshold is refused and trips the
/// kill-switch.
pub proof fn law_breach_trips_killswitch(
    mode: TradingMode,
    c: CountersView,
    sig: Signal,
    today: Seq<char>,
    broker: Seq<char>,
    equity: i64,
    placed: BrokerResult<OrderResult>,
)
    requires
        breached(mode, counters_for(c, today, equity as int), equity as int),
        fixed::fits(c.starting_equity),
    ensures
        ({
            let o = outcome(mode, c, sig, today, broker, Ok(equity), placed);
            o.decision is Reject && o.counters.killswitch_tripped
        }),
{
    let c = counters_for(c, today, equity as int);
    if c.starting_equity > 0 {
        fixed::lemma_floor_in_range(
            -((equity - c.starting_equity) * PERCENT_SCALE),
            c.starting_equity,
        );
    }
}

/// A refused signal counts no trade and opens no exposure.
pub proof fn law_refusal_opens_nothing(
    mode: TradingMode,
    c: CountersView,
    sig: Signal,
    today: Seq<char>,
    broker: Seq<char>,
    equity: BrokerResult<i64>,
    placed: BrokerResult<OrderResult>,
)
    ensures
        ({
            let o = outcome(mode, c, sig, today, broker, equity, placed);
            o.decision is Reject ==> {
                &&& o.counters.trades_opened == c.on_day(today).trades_opened
                &&& o.counters.open_notional == c.on_day(today).open_notional
            }
        }),
{
}

/// No order is worth more than the per-trade cap on the equity: whole shares at the signal's
/// price stay within the notional that the caps let through, and a dollar amount differs from
/// it by the rounding to the cent at most. That notional and what is open already are within
/// the exposure cap.
pub proof fn law_sent_orders_stay_within_caps(
    mode: TradingMode,
    c: CountersView,
    sig: Signal,
    equity: int,
)
    requires
        fixed::fits(equity),
        fixed::fits(c.open_notional),
        0 <= c.trades_opened <= u32::MAX,
        decided(mode, c, equity, sig.entry as int) !is Reject,
    ensures
        0 <= sent_notional(mode, c, equity) <= i64::MAX,
        c.open_notional + sent_notional(mode, c, equity) <= i64::MAX,
        sent_notional(mode, c, equity) * PERCENT_SCALE <= equity * mode.caps().max_pct_per_trade,
        (c.open_notional + sent_notional(mode, c, equity)) * PERCENT_SCALE <= equity
            * mode.caps().max_pct_total_exposure,
        match sent_order(mode, c, sig, equity).size {
            OrderSize::Shares { qty } => sig.entry > 0 ==> {
                &&& qty >= 1
                &&& qty * sig.entry <= sent_notional(mode, c, equity)
                &&& qty * sig.entry * PERCENT_SCALE <= equity * mode.caps().max_pct_per_trade
            },
            OrderSize::Notional { dollars } => {
                let notional = sent_notional(mode, c, equity);
                notional - 5_000 < dollars <= notional + 5_000
            },
        },
{
    let notional = sent_notional(mode, c, equity);
    let entry = sig.entry as int;
    risk::law_passed_orders_respect_caps(
        mode.caps(),
        seen(c, equity),
        target_notional(mode, equity),
    );
    lemma_sent_in_range(mode, c, equity);
    if entry > 0 && mode is Standard {
        let qty = share_quantity(notional, entry);
        fixed::lemma_floor_at_least(notional, entry, 1);
        fixed::lemma_floor_at_least(notional, entry, qty);
        assert(qty * entry * PERCENT_SCALE <= notional * PERCENT_SCALE);
    }
}

/// A trade that is counted leaves the counters within the caps of its mode: no more trades
/// than the day allows, no more open notional than the exposure cap on the equity, and an
/// order whose shares are worth no more than the per-trade cap.
pub proof fn law_counted_trades_stay_within_caps(
    mode: TradingMode,
    c: CountersView,
    sig: Signal,
    today: Seq<char>,
    broker: Seq<char>,
    equity: i64,
    placed: BrokerResult<OrderResult>,
)
    requires
        fixed::fits(c.open_notional),
        0 <= c.trades_opened <= u32::MAX,
    ensures
        ({
            let o = outcome(mode, c, sig, today, broker, Ok(equity), placed);
            o.counters.trades_opened > c.on_day(today).trades_opened ==> {
                &&& placed is Ok
                &&& o.counters.trades_opened <= mode.caps().max_trades_per_day
                &&& o.counters.open_notional * PERCENT_SCALE <= equity
                    * mode.caps().max_pct_total_exposure
                &&& sig.entry > 0 ==> o.trade->0.qty * sig.entry * PERCENT_SCALE <= equity
                    * mode.caps().max_pct_per_trade
            }
        }),
{
    let c = counters_for(c, today, equity as int);
    if decided(mode, c, equity as int, sig.entry as int) !is Reject {
        law_sent_orders_stay_within_caps(mode, c, sig, equity as int);
        assert(mode is Tiny ==> 0 <= equity * mode.caps().max_pct_per_trade) by (nonlinear_arith)
            requires
                equity >= 0,
                mode.caps().max_pct_per_trade >= 0,
        ;
    }
    risk::law_passed_orders_respect_caps(
        mode.caps(),
        seen(c, equity as int),
        target_notional(mode, equity as int),
    );
}

/// Every signal whose broker knows the equity is logged, filled or not.
pub proof fn law_every_decision_is_logged(
    mode: TradingMode,
    c: CountersView,
    sig: Signal,
    today: Seq<char>,
    broker: Seq<char>,
    equity: i64,
    placed: BrokerResult<OrderResult>,
)
    ensures
        outcome(mode, c, sig, today, broker, Ok(equity), placed).trade is Some,
{
}

} // verus!
