//! What holds of every signal that goes through the order pipeline.

use vstd::prelude::*;

use crate::broker::{
    AssetClass, Broker, BrokerResult, DryRunBroker, OrderRequest, OrderResult, OrderSize,
    OrderView,
};
use crate::executor;
use crate::executor::{ExecutionReport, Executor, Signal, TradingMode};
use crate::fixed;
use crate::fixed::PERCENT_SCALE;
use crate::risk;
use crate::risk::{DecisionView, OrderSide, RiskCaps};
use crate::state::{CountersView, TradeLogEntry};
use crate::text;

verus! {

/// Whether counters and an equity are amounts that the types can hold.
pub open spec fn holdable(c: CountersView, equity: int) -> bool {
    &&& fixed::fits(equity)
    &&& fixed::fits(c.open_notional)
    &&& fixed::fits(c.starting_equity)
    &&& 0 <= c.trades_opened <= u32::MAX
}

/// The day's P&L in percent is the change of the equity over the starting equity, to the next
/// millionth of a percent above; it is 0 where there is nothing to measure it against.
pub proof fn law_pnl_is_measured_against_the_start(equity: int, start: int)
    ensures
        start > 0 ==> {
            let pct = executor::daily_pnl_pct(equity, start);
            (pct - 1) * start < (equity - start) * 100_000_000 <= pct * start
        },
        start <= 0 ==> executor::daily_pnl_pct(equity, start) == 0,
{
    if start > 0 {
        fixed::law_rounding_up_is_tight((equity - start) * PERCENT_SCALE, start);
    }
}

/// A trade aims at 5% of the equity in Standard mode and at 75% in Tiny mode, to the millionth
/// of a dollar below.
pub proof fn law_trades_aim_at_a_share_of_the_equity(equity: int)
    ensures
        ({
            let t = executor::target_notional(TradingMode::Standard, equity);
            20 * t <= equity < 20 * (t + 1)
        }),
        ({
            let t = executor::target_notional(TradingMode::Tiny, equity);
            4 * t <= 3 * equity < 4 * (t + 1)
        }),
{
}

proof fn lemma_pnl_in_range(c: CountersView, equity: int)
    requires
        holdable(c, equity),
    ensures
        i128::MIN <= executor::daily_pnl_pct(equity, c.starting_equity) <= i128::MAX,
{
    if c.starting_equity > 0 {
        fixed::lemma_floor_in_range(
            -((equity - c.starting_equity) * PERCENT_SCALE),
            c.starting_equity,
        );
    }
}

/// In Standard mode a signal is sent exactly when the kill-switch is off, the account is above
/// -8% on the day, fewer than 5 trades were opened, 5% of the equity is something, a quarter of
/// the equity leaves room for at least a quarter of that beside what is open, and the amount
/// buys a share. The amount is 5% of the equity, or all the room that is left where that is
/// less.
pub proof fn law_standard_mode_sends_what_fits(
    c: CountersView,
    equity: int,
    entry: int,
    target: int,
)
    requires
        holdable(c, equity),
        20 * target <= equity < 20 * (target + 1),
    ensures
        ({
            let d = executor::decided(TradingMode::Standard, c, equity, entry);
            let amount = executor::sent_notional(TradingMode::Standard, c, equity);
            let allowed = {
                &&& !c.killswitch_tripped
                &&& c.starting_equity > 0 ==> 100 * (equity - c.starting_equity) > -8
                    * c.starting_equity
                &&& c.trades_opened < 5
                &&& target > 0
                &&& 4 * (c.open_notional + 1) <= equity
                &&& target + 4 * c.open_notional <= equity
            };
            &&& d !is Reject <==> allowed && amount >= entry
            &&& allowed ==> {
                &&& 0 < amount <= target
                &&& 4 * (c.open_notional + amount) <= equity
                &&& amount == target || 4 * (c.open_notional + amount + 1) > equity
            }
            &&& d is Approve ==> amount == target
            &&& d matches DecisionView::Resize { new_notional, .. } ==> new_notional == amount
                && amount < target
        }),
{
    let mode = TradingMode::Standard;
    let snap = executor::seen(c, equity);
    let proposed = executor::target_notional(mode, equity);
    lemma_pnl_in_range(c, equity);
    law_trades_aim_at_a_share_of_the_equity(equity);
    assert(proposed == target);
    if c.starting_equity > 0 {
        executor::law_pnl_threshold_is_exact(equity, c.starting_equity, -8_000_000);
    }
    let ceiling = risk::order_ceiling(mode.caps(), snap);
    assert(per_trade_of(mode, equity) == equity * 5_000_000);
    if risk::decision(mode.caps(), snap, target) is Resize {
        let q = ceiling / PERCENT_SCALE as int;
        assert(q * 100_000_000 <= ceiling < (q + 1) * 100_000_000);
    }
}

/// What the per-trade cap of a mode comes to, times the percent scale.
spec fn per_trade_of(mode: TradingMode, equity: int) -> int {
    equity * mode.caps().max_pct_per_trade
}

/// In Tiny mode a signal is sent exactly when the kill-switch is off, the account is above -25%
/// on the day, fewer than 3 trades were opened, and 80% of the equity leaves room for at least a
/// quarter of the target beside what is open. The amount is 75% of the equity, or all the room
/// that is left where that is less. The price of a share does not matter.
pub proof fn law_tiny_mode_sends_what_fits(
    c: CountersView,
    equity: int,
    entry: int,
    target: int,
)
    requires
        holdable(c, equity),
        4 * target <= 3 * equity < 4 * (target + 1),
    ensures
        ({
            let d = executor::decided(TradingMode::Tiny, c, equity, entry);
            let amount = executor::sent_notional(TradingMode::Tiny, c, equity);
            let allowed = {
                &&& !c.killswitch_tripped
                &&& c.starting_equity > 0 ==> 100 * (equity - c.starting_equity) > -25
                    * c.starting_equity
                &&& c.trades_opened < 3
                &&& target > 0
                &&& 5 * (c.open_notional + 1) <= 4 * equity
                &&& 5 * target + 20 * c.open_notional <= 16 * equity
            };
            &&& d !is Reject <==> allowed
            &&& allowed ==> {
                &&& 0 < amount <= target
                &&& 5 * (c.open_notional + amount) <= 4 * equity
                &&& amount == target || 5 * (c.open_notional + amount + 1) > 4 * equity
            }
            &&& d is Approve ==> amount == target
            &&& d matches DecisionView::Resize { new_notional, .. } ==> new_notional == amount
                && amount < target
        }),
{
    let mode = TradingMode::Tiny;
    let snap = executor::seen(c, equity);
    let proposed = executor::target_notional(mode, equity);
    lemma_pnl_in_range(c, equity);
    law_trades_aim_at_a_share_of_the_equity(equity);
    assert(proposed == target);
    if c.starting_equity > 0 {
        executor::law_pnl_threshold_is_exact(equity, c.starting_equity, -25_000_000);
    }
    let ceiling = risk::order_ceiling(mode.caps(), snap);
    assert(per_trade_of(mode, equity) == equity * 80_000_000);
    if risk::decision(mode.caps(), snap, target) is Resize {
        let q = ceiling / PERCENT_SCALE as int;
        assert(q * 100_000_000 <= ceiling < (q + 1) * 100_000_000);
    }
}

/// A whole-share order spends the notional as far as whole shares go: one share more would cost
/// more than the notional, up to what 32 bits count. Where a share costs nothing, as many are
/// bought as 32 bits count, and where it costs less than nothing, or nothing is spent on what
/// costs nothing, one.
pub proof fn law_whole_shares_spend_the_notional(notional: int, entry: int, r: OrderSize)
    requires
        0 <= notional <= i64::MAX,
        r == executor::order_size(TradingMode::Standard, notional, entry),
    ensures
        r matches OrderSize::Shares { qty } && {
            &&& entry > 0 ==> qty * entry <= notional && (notional < (qty + 1) * entry || qty
                == u32::MAX)
            &&& entry == 0 && notional > 0 ==> qty == u32::MAX
            &&& entry < 0 || (entry == 0 && notional == 0) ==> qty == 1
        },
{
    if entry > 0 {
        let q = notional / entry;
        fixed::lemma_floor_in_range(notional, entry);
        let qty = executor::share_quantity(notional, entry);
        fixed::lemma_floor_at_least(notional, entry, qty);
        fixed::lemma_floor_at_least(notional, entry, qty + 1);
    }
}

/// A dollar order is for the notional to the nearest cent.
pub proof fn law_dollar_orders_are_to_the_cent(notional: int, entry: int, r: OrderSize)
    requires
        0 <= 5 * notional <= 4 * i64::MAX,
        r == executor::order_size(TradingMode::Tiny, notional, entry),
    ensures
        r matches OrderSize::Notional { dollars } && {
            &&& dollars % 10_000 == 0
            &&& -5_000 < dollars - notional <= 5_000
        },
{
}

/// More money never buys fewer shares, and a dearer share is never bought in larger numbers.
pub proof fn law_shares_follow_money_and_price(less: int, more: int, cheap: int, dear: int)
    requires
        0 <= less <= more,
        0 < cheap <= dear,
    ensures
        executor::share_quantity(less, cheap) <= executor::share_quantity(more, cheap),
        executor::share_quantity(more, dear) <= executor::share_quantity(more, cheap),
{
    let a = less / cheap;
    fixed::lemma_floor_at_least(less, cheap, a);
    fixed::lemma_floor_at_least(more, cheap, a);
    let b = more / dear;
    fixed::lemma_floor_in_range(more, dear);
    fixed::lemma_floor_at_least(more, dear, b);
    assert(b * cheap <= b * dear) by (nonlinear_arith)
        requires
            b >= 0,
            cheap <= dear,
    ;
    fixed::lemma_floor_at_least(more, cheap, b);
}

/// An order is for the symbol of its signal, of the underlying equity, bought where the signal
/// is bullish and sold otherwise; whole shares in Standard mode and dollars in Tiny mode.
pub proof fn law_orders_follow_their_signal(
    mode: TradingMode,
    c: CountersView,
    sig: Signal,
    equity: int,
    order: OrderView,
)
    requires
        order == executor::sent_order(mode, c, sig, equity),
    ensures
        order.symbol == sig.symbol@,
        order.asset_class is UsEquity,
        order.side is Buy <==> sig.direction@ == "bullish"@,
        order.side is Sell <==> sig.direction@ != "bullish"@,
        order.size is Shares <==> mode is Standard,
{
}

/// A signal whose broker would not say the equity is refused with the broker's error; nothing is
/// logged and nothing but the day changes.
pub proof fn law_no_equity_no_trade(
    mode: TradingMode,
    c: CountersView,
    sig: Signal,
    today: Seq<char>,
    broker: Seq<char>,
    equity: BrokerResult<i64>,
    placed: BrokerResult<OrderResult>,
)
    requires
        equity is Err,
    ensures
        ({
            let o = executor::outcome(mode, c, sig, today, broker, equity, placed);
            let e = equity->Err_0.shown();
            &&& o.decision == DecisionView::Reject { reason: "broker equity fetch failed: "@ + e }
            &&& o.trade is None
            &&& o.error == Some(e)
            &&& o.counters == c.on_day(today)
            &&& executor::orders_for(mode, c, sig, today, equity).len() == 0
        }),
{
}

/// A signal that is refused is logged as rejected, with the reason, no shares and no order
/// behind it. It opens nothing; the kill-switch trips where the account is at or below the
/// threshold of its mode, and not otherwise.
pub proof fn law_refusals_are_logged(
    mode: TradingMode,
    c: CountersView,
    sig: Signal,
    today: Seq<char>,
    broker: Seq<char>,
    equity: i64,
    placed: BrokerResult<OrderResult>,
)
    requires
        executor::outcome(mode, c, sig, today, broker, Ok(equity), placed).decision is Reject,
    ensures
        ({
            let o = executor::outcome(mode, c, sig, today, broker, Ok(equity), placed);
            let day = c.on_day(today);
            let start = if day.starting_equity == 0 { equity as int } else { day.starting_equity };
            let reason = o.decision->Reject_reason;
            &&& o.error is None
            &&& o.trade matches Some(t) && {
                &&& t.broker == broker
                &&& t.symbol == sig.symbol@
                &&& t.side is Buy <==> sig.direction@ == "bullish"@
                &&& t.asset_class is UsEquity
                &&& t.estimated_notional == executor::target_notional(mode, equity as int)
                &&& t.qty == 0
                &&& t.broker_order_id is None
                &&& t.status == "rejected"@
                &&& t.risk_decision == "reject: "@ + reason
                &&& t.notes == reason
            }
            &&& o.counters.utc_date == day.utc_date
            &&& o.counters.trades_opened == day.trades_opened
            &&& o.counters.open_notional == day.open_notional
            &&& o.counters.realized_pnl == day.realized_pnl
            &&& o.counters.starting_equity == start
            &&& o.counters.killswitch_tripped <==> {
                ||| day.killswitch_tripped
                ||| start > 0 && mode is Standard && 100 * (equity - start) <= -8 * start
                ||| start > 0 && mode is Tiny && 100 * (equity - start) <= -25 * start
            }
            &&& executor::orders_for(mode, c, sig, today, Ok(equity)).len() == 0
        }),
{
    let day = executor::counters_for(c, today, equity as int);
    if day.starting_equity > 0 {
        executor::law_pnl_threshold_is_exact(equity as int, day.starting_equity, -8_000_000);
        executor::law_pnl_threshold_is_exact(equity as int, day.starting_equity, -25_000_000);
    }
}

/// A signal that is not refused goes to the broker as one order. Where the broker takes it, it
/// is logged with the broker's status and identifier, and counts: one trade more, and its
/// notional on top of what was open. Where the broker does not, it is logged as an error, with
/// the broker's words in the report, and counts nothing.
pub proof fn law_taken_orders_count(
    mode: TradingMode,
    c: CountersView,
    sig: Signal,
    today: Seq<char>,
    broker: Seq<char>,
    equity: i64,
    placed: BrokerResult<OrderResult>,
)
    requires
        executor::outcome(mode, c, sig, today, broker, Ok(equity), placed).decision !is Reject,
    ensures
        ({
            let o = executor::outcome(mode, c, sig, today, broker, Ok(equity), placed);
            let orders = executor::orders_for(mode, c, sig, today, Ok(equity));
            let day = c.on_day(today);
            let start = if day.starting_equity == 0 { equity as int } else { day.starting_equity };
            &&& orders.len() == 1
            &&& o.trade matches Some(t) && {
                &&& t.broker == broker
                &&& t.symbol == sig.symbol@
                &&& orders[0].symbol == sig.symbol@
                &&& t.side == orders[0].side
                &&& t.asset_class == orders[0].asset_class
                &&& t.estimated_notional == executor::sent_notional(
                    mode,
                    executor::counters_for(c, today, equity as int),
                    equity as int,
                )
                &&& match orders[0].size {
                    OrderSize::Shares { qty } => t.qty == qty && t.size_repr == text::digits(
                        qty as nat,
                    ) + " sh"@,
                    OrderSize::Notional { dollars } => t.qty == 0 && t.size_repr == "$"@
                        + text::fixed2(dollars as int),
                }
                &&& match placed {
                    Ok(taken) => {
                        &&& o.error is None
                        &&& t.status == taken.status@
                        &&& t.broker_order_id == Some(taken.broker_order_id@)
                        &&& t.notes.len() == 0
                        &&& o.counters.trades_opened == day.trades_opened + 1
                        &&& o.counters.open_notional == day.open_notional + t.estimated_notional
                    },
                    Err(e) => {
                        &&& o.error == Some(e.shown())
                        &&& t.status == "error"@
                        &&& t.broker_order_id is None
                        &&& o.counters.trades_opened == day.trades_opened
                        &&& o.counters.open_notional == day.open_notional
                    },
                }
            }
            &&& o.counters.utc_date == day.utc_date
            &&& o.counters.realized_pnl == day.realized_pnl
            &&& o.counters.starting_equity == start
            &&& o.counters.killswitch_tripped == day.killswitch_tripped
        }),
{
}

/// What a report says happened is what happened, whatever the broker answered: a refused signal
/// sent nothing and counted nothing; any other sent one order for its symbol, on its side, and
/// counted exactly where the report has no error.
pub proof fn law_reports_match_what_was_sent<B: Broker>(
    mode: TradingMode,
    before: CountersView,
    sig: Signal,
    today: Seq<char>,
    broker: &B,
    report: ExecutionReport,
    after: CountersView,
    sent: Seq<OrderView>,
)
    requires
        executor::went(mode, before, sig, today, broker, report, after, sent),
    ensures
        report.decision is Reject ==> {
            &&& sent.len() == 0
            &&& after.trades_opened == before.on_day(today).trades_opened
            &&& after.open_notional == before.on_day(today).open_notional
        },
        report.decision !is Reject ==> {
            &&& sent.len() == 1
            &&& sent[0].symbol == sig.symbol@
            &&& sent[0].side == (if sig.direction@ == "bullish"@ {
                OrderSide::Buy
            } else {
                OrderSide::Sell
            })
            &&& sent[0].asset_class == AssetClass::UsEquity
            &&& report.trade matches Some(t) && {
                &&& t.symbol@ == sig.symbol@
                &&& t.side == sent[0].side
                &&& t.qty == (match sent[0].size {
                    OrderSize::Shares { qty } => qty,
                    OrderSize::Notional { .. } => 0,
                })
                &&& report.error is None ==> {
                    &&& t.broker_order_id is Some
                    &&& after.trades_opened == before.on_day(today).trades_opened + 1
                    &&& after.open_notional == before.on_day(today).open_notional
                        + t.estimated_notional
                }
                &&& report.error is Some ==> {
                    &&& t.broker_order_id is None
                    &&& t.status@ == "error"@
                    &&& after.trades_opened == before.on_day(today).trades_opened
                    &&& after.open_notional == before.on_day(today).open_notional
                }
            }
        },
{
}

/// A dry run takes every order that the caps let through: with an account of `mock_equity`, a
/// whole-share order at a positive price is for at most 5% of it, as many shares as that buys
/// or as the exposure cap leaves room for, and is counted.
pub proof fn law_dry_runs_fill_what_the_caps_allow(
    before: CountersView,
    sig: Signal,
    today: Seq<char>,
    broker: &DryRunBroker,
    report: ExecutionReport,
    after: CountersView,
    sent: Seq<OrderView>,
)
    requires
        executor::went(TradingMode::Standard, before, sig, today, broker, report, after, sent),
        holdable(before, broker.mock_equity as int),
        report.decision !is Reject,
        sig.entry > 0,
    ensures
        report.error is None,
        after.trades_opened == before.on_day(today).trades_opened + 1,
        after.trades_opened <= 5,
        4 * after.open_notional <= broker.mock_equity,
        report.trade matches Some(t) && {
            let spent = t.estimated_notional;
            &&& 0 < 20 * spent <= broker.mock_equity
            &&& 20 * (spent + 1) > broker.mock_equity || 4 * (after.open_notional + 1)
                > broker.mock_equity
            &&& t.qty >= 1
            &&& t.qty * sig.entry <= spent
            &&& spent < (t.qty + 1) * sig.entry || t.qty == u32::MAX
            &&& t.status@ == "accepted_dry_run"@
            &&& t.broker@ == "dry-run"@
        },
{
    let mode = TradingMode::Standard;
    let equity = broker.mock_equity as int;
    let c = executor::counters_for(before, today, equity);
    let target = executor::target_notional(mode, equity);
    law_trades_aim_at_a_share_of_the_equity(equity);
    law_standard_mode_sends_what_fits(c, equity, sig.entry as int, target);
    let amount = executor::sent_notional(mode, c, equity);
    law_whole_shares_spend_the_notional(
        amount,
        sig.entry as int,
        executor::order_size(mode, amount, sig.entry as int),
    );
    fixed::lemma_floor_at_least(amount, sig.entry as int, 1);
}

/// The P&L that is computed for a day is the one that the kill-switch looks at: it is at or below
/// a threshold exactly when the change of the equity is at or below that percentage of the
/// starting equity.
pub proof fn law_computed_pnl_is_exact(equity: i64, start: i64, pct: i128, threshold: int)
    requires
        call_ensures(executor::pnl_pct, (equity, start), pct),
    ensures
        start > 0 ==> (pct <= threshold <==> (equity - start) * 100_000_000 <= threshold * start),
        start <= 0 ==> pct == 0,
{
    if start > 0 {
        executor::law_pnl_threshold_is_exact(equity as int, start as int, threshold);
    }
}

/// A signal that the caps refuse is refused as they say. One that they let through is refused
/// only for the price of its share, in Standard mode, and says so, with the price and the amount
/// that did not buy it.
pub proof fn law_dear_shares_are_named(mode: TradingMode, c: CountersView, equity: int, entry: int)
    requires
        holdable(c, equity),
    ensures
        ({
            let checked = executor::cleared(mode, c, equity);
            let d = executor::decided(mode, c, equity, entry);
            let amount = executor::sent_notional(mode, c, equity);
            &&& checked is Reject || mode is Tiny || amount >= entry ==> d == checked
            &&& checked !is Reject && mode is Standard && amount < entry ==> d == (
            DecisionView::Reject {
                reason: "one share at $"@ + text::fixed2(entry) + " is over the order's $"@
                    + text::fixed2(amount),
            })
        }),
{
    law_trades_aim_at_a_share_of_the_equity(equity);
    let target = executor::target_notional(TradingMode::Standard, equity);
    law_standard_mode_sends_what_fits(c, equity, i64::MIN as int, target);
}

/// The caps look at a signal as it stands: the equity, the day's trades, what is open, the day's
/// P&L and the kill-switch, and at what the trade aims at.
pub proof fn law_the_caps_see_the_day(mode: TradingMode, c: CountersView, equity: int)
    requires
        holdable(c, equity),
    ensures
        ({
            let snap = executor::seen(c, equity);
            &&& snap.account_equity == equity
            &&& snap.trades_today == c.trades_opened
            &&& snap.open_notional == c.open_notional
            &&& snap.daily_pnl_pct == executor::daily_pnl_pct(equity, c.starting_equity)
            &&& snap.killswitch_tripped == c.killswitch_tripped
            &&& executor::cleared(mode, c, equity) == risk::decision(
                mode.caps(),
                snap,
                executor::target_notional(mode, equity),
            )
        }),
{
    lemma_pnl_in_range(c, equity);
}

/// A refused signal is logged with what it aimed at: no shares in Standard mode, and the dollars
/// in Tiny mode.
pub proof fn law_refused_sizes_show_the_target(equity: int)
    requires
        fixed::fits(equity),
    ensures
        executor::refused_size(TradingMode::Standard, equity) == (OrderSize::Shares { qty: 0 }),
        executor::refused_size(TradingMode::Tiny, equity) matches OrderSize::Notional { dollars }
            && 4 * dollars <= 3 * equity < 4 * (dollars + 1),
{
    law_trades_aim_at_a_share_of_the_equity(equity);
}

/// The two modes: Standard trades whole shares with the moderate caps, Tiny trades dollar amounts
/// with the caps for small accounts, and only Standard allows options.
pub proof fn law_modes_differ(mode: TradingMode)
    ensures
        mode is Standard ==> {
            &&& !mode.use_fractional()
            &&& mode.allows_options()
            &&& mode.caps().max_trades_per_day == 5
            &&& mode.caps().max_pct_per_trade == 5 * 1_000_000
            &&& mode.caps().max_pct_total_exposure == 25 * 1_000_000
            &&& mode.caps().daily_drawdown_killswitch_pct == -8 * 1_000_000
            &&& mode.target_pct_per_trade() == 5 * 1_000_000
        },
        mode is Tiny ==> {
            &&& mode.use_fractional()
            &&& !mode.allows_options()
            &&& mode.caps().max_trades_per_day == 3
            &&& mode.caps().max_pct_per_trade == 80 * 1_000_000
            &&& mode.caps().max_pct_total_exposure == 80 * 1_000_000
            &&& mode.caps().daily_drawdown_killswitch_pct == -25 * 1_000_000
            &&& mode.target_pct_per_trade() == 75 * 1_000_000
        },
{
}

/// A log goes on from an earlier one by the line of the report, where it has one.
pub proof fn law_reports_are_logged_once(
    report: ExecutionReport,
    before: Seq<TradeLogEntry>,
    after: Seq<TradeLogEntry>,
)
    requires
        report.logs(before, after),
    ensures
        report.trade matches Some(t) ==> {
            &&& after.len() == (if before.len() < 200 { before.len() + 1 } else { 200 })
            &&& after[0] == t
            &&& forall|i: int| 0 < i < after.len() ==> #[trigger] after[i] == before[i - 1]
        },
        report.trade is None ==> after == before,
{
}

/// The caps in force are those of the mode.
pub proof fn law_the_mode_sets_the_caps(executor: Executor, caps: RiskCaps)
    requires
        call_ensures(Executor::current_caps, (&executor,), caps),
    ensures
        executor.mode is Standard <==> caps.max_trades_per_day == 5,
        executor.mode is Tiny <==> caps.max_trades_per_day == 3,
        caps == executor.mode.caps(),
{
    law_modes_differ(executor.mode);
}

/// The order that the report and the log speak of is the one that the broker was given, and the
/// broker's answer to that order is what counts.
pub proof fn law_the_broker_gets_the_order_that_counts<B: Broker>(
    mode: TradingMode,
    before: CountersView,
    sig: Signal,
    today: Seq<char>,
    broker: &B,
    report: ExecutionReport,
    after: CountersView,
    sent: Seq<OrderView>,
)
    requires
        executor::went(mode, before, sig, today, broker, report, after, sent),
        report.decision !is Reject,
    ensures
        exists|order: OrderRequest, placed: BrokerResult<OrderResult>|
            {
                &&& #[trigger] call_ensures(B::place_order, (broker, &order), placed)
                &&& sent == seq![order@]
                &&& placed is Ok <==> report.error is None
                &&& placed matches Ok(taken) ==> {
                    &&& report.trade->0.status@ == taken.status@
                    &&& report.trade->0.broker_order_id is Some
                    &&& report.trade->0.broker_order_id->0@ == taken.broker_order_id@
                }
                &&& placed matches Err(e) ==> report.error->0@ == e.shown()
            },
{
    let (name, equity, order, placed) = choose|
        name: &'static str,
        equity: BrokerResult<i64>,
        order: OrderRequest,
        placed: BrokerResult<OrderResult>,
    |
        {
            &&& #[trigger] executor::answers(
                broker,
                name,
                equity,
                order,
                placed,
                report.decision@,
            )
            &&& sent == executor::orders_for(mode, before, sig, today, equity)
            &&& report.decision@ !is Reject ==> sent == seq![order@]
            &&& report.tells(
                after,
                executor::outcome(mode, before, sig, today, name@, equity, placed),
            )
        };
    assert(call_ensures(B::place_order, (broker, &order), placed));
}

} // verus!
