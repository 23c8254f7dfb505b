//! Risk caps enforcement: the firewall between the strategy and the broker. Every order
//! passes [`check`] before it can be sent.
//!
//! Two presets:
//!   - [`RiskCaps::moderate`]: 5 trades a UTC day, 5% of equity per trade, 25% of equity in
//!     total open notional, kill-switch at a daily P&L of -8%;
//!   - [`RiskCaps::tiny`]: 3 trades, 80%, 80%, -25%.
//!
//! A cap in dollars is a percentage of an amount and need not be a whole number of
//! millionths, so amounts are compared with caps at [`PERCENT_SCALE`], where both are exact.

use vstd::prelude::*;

use crate::fixed;
use crate::fixed::{floor_div, PERCENT_SCALE};
use crate::text;
use crate::text::{count_text, fixed0_text, fixed2_text};

verus! {

/// The hard limits. Percentages are in millionths of a percent.
#[derive(Debug, Clone, Copy, PartialEq, Eq, Structural)]
pub struct RiskCaps {
    pub max_trades_per_day: u32,
    pub max_pct_per_trade: i64,
    pub max_pct_total_exposure: i64,
    pub daily_drawdown_killswitch_pct: i64,
}

impl RiskCaps {
    /// For accounts of about $10,000 and more.
    #[verifier::allow_in_spec]
    pub fn moderate() -> Self
        returns
            (RiskCaps {
                max_trades_per_day: 5,
                max_pct_per_trade: 5_000_000,
                max_pct_total_exposure: 25_000_000,
                daily_drawdown_killswitch_pct: (-8_000_000) as i64,
            }),
    {
        RiskCaps {
            max_trades_per_day: 5,
            max_pct_per_trade: 5_000_000,
            max_pct_total_exposure: 25_000_000,
            daily_drawdown_killswitch_pct: -8_000_000,
        }
    }

    /// For accounts under about $1,000, where diversification is impossible: one position
    /// at a time with most of the cash.
    #[verifier::allow_in_spec]
    pub fn tiny() -> Self
        returns
            (RiskCaps {
                max_trades_per_day: 3,
                max_pct_per_trade: 80_000_000,
                max_pct_total_exposure: 80_000_000,
                daily_drawdown_killswitch_pct: (-25_000_000) as i64,
            }),
    {
        RiskCaps {
            max_trades_per_day: 3,
            max_pct_per_trade: 80_000_000,
            max_pct_total_exposure: 80_000_000,
            daily_drawdown_killswitch_pct: -25_000_000,
        }
    }
}

/// What the account looks like when an order is proposed. Amounts are in millionths of a
/// dollar, the daily P&L in millionths of a percent.
#[derive(Debug, Clone, Copy, PartialEq, Eq, Structural)]
pub struct RiskSnapshot {
    pub account_equity: i64,
    pub trades_today: u32,
    pub open_notional: i64,
    pub daily_pnl_pct: i128,
    pub killswitch_tripped: bool,
}

/// Which way an order goes.
#[derive(Debug, Clone, Copy, PartialEq, Eq, Structural)]
pub enum OrderSide {
    Buy,
    Sell,
}

/// An order before it is sized and sent.
#[derive(Debug, Clone)]
pub struct ProposedOrder {
    pub symbol: String,
    pub side: OrderSide,
    pub estimated_notional: i64,
}

/// What becomes of a proposed order.
#[derive(Debug, Clone)]
pub enum RiskDecision {
    Approve,
    Reject { reason: String },
    Resize { new_notional: i64, reason: String },
}

/// A [`RiskDecision`] with its texts as character sequences.
pub enum DecisionView {
    Approve,
    Reject { reason: Seq<char> },
    Resize { new_notional: int, reason: Seq<char> },
}

impl View for RiskDecision {
    type V = DecisionView;

    open spec fn view(&self) -> DecisionView {
        match self {
            RiskDecision::Approve => DecisionView::Approve,
            RiskDecision::Reject { reason } => DecisionView::Reject { reason: reason@ },
            RiskDecision::Resize { new_notional, reason } => DecisionView::Resize {
                new_notional: *new_notional as int,
                reason: reason@,
            },
        }
    }
}

/// `x` dollars at [`PERCENT_SCALE`].
pub open spec fn scaled(x: int) -> int {
    x * PERCENT_SCALE
}

/// The per-trade cap at [`PERCENT_SCALE`].
pub open spec fn per_trade_cap(caps: RiskCaps, snap: RiskSnapshot) -> int {
    snap.account_equity * caps.max_pct_per_trade
}

/// The cap on the total open notional at [`PERCENT_SCALE`].
pub open spec fn exposure_cap(caps: RiskCaps, snap: RiskSnapshot) -> int {
    snap.account_equity * caps.max_pct_total_exposure
}

/// The most that one order may be worth, at [`PERCENT_SCALE`]: the per-trade cap, or what
/// the exposure cap leaves beside the open positions, whichever is less.
pub open spec fn order_ceiling(caps: RiskCaps, snap: RiskSnapshot) -> int {
    fixed::smaller(
        per_trade_cap(caps, snap),
        fixed::larger(exposure_cap(caps, snap) - scaled(snap.open_notional as int), 0),
    )
}

/// Why nothing is traded at all, whatever the order: the kill-switch, the day's trades or
/// the account itself.
pub open spec fn halted(caps: RiskCaps, snap: RiskSnapshot) -> Option<Seq<char>> {
    if snap.killswitch_tripped {
        Some(
            "killswitch active (daily P&L "@ + text::fixed2(snap.daily_pnl_pct as int) + "% <= "@
                + text::fixed2(caps.daily_drawdown_killswitch_pct as int) + "%)"@,
        )
    } else if snap.daily_pnl_pct <= caps.daily_drawdown_killswitch_pct {
        Some(
            "killswitch tripping now: daily P&L "@ + text::fixed2(snap.daily_pnl_pct as int)
                + "% <= "@ + text::fixed2(caps.daily_drawdown_killswitch_pct as int) + "%"@,
        )
    } else if snap.trades_today >= caps.max_trades_per_day {
        Some(
            "daily trade count cap reached ("@ + text::digits(snap.trades_today as nat) + " >= "@
                + text::digits(caps.max_trades_per_day as nat) + ")"@,
        )
    } else if snap.account_equity <= 0 {
        Some("non-positive account equity"@)
    } else {
        None
    }
}

/// The decision on an order of the given notional.
pub open spec fn decision(caps: RiskCaps, snap: RiskSnapshot, notional: int) -> DecisionView {
    let ceiling = order_ceiling(caps, snap);
    if halted(caps, snap) is Some {
        DecisionView::Reject { reason: halted(caps, snap)->0 }
    } else if notional <= 0 {
        DecisionView::Reject { reason: "non-positive order notional"@ }
    } else if ceiling < PERCENT_SCALE {
        DecisionView::Reject {
            reason: "no exposure room left (open "@ + text::fixed2(snap.open_notional as int)
                + " / cap "@ + text::fixed2(exposure_cap(caps, snap) / PERCENT_SCALE as int) + ")"@,
        }
    } else if scaled(notional) <= ceiling {
        DecisionView::Approve
    } else if scaled(notional) > 4 * ceiling {
        DecisionView::Reject {
            reason: "requested notional $"@ + text::fixed0(notional)
                + " is >4x the per-order ceiling $"@ + text::fixed0(ceiling / PERCENT_SCALE as int)
                + " — refusing to resize"@,
        }
    } else {
        DecisionView::Resize {
            new_notional: ceiling / PERCENT_SCALE as int,
            reason: "scaled from $"@ + text::fixed0(notional) + " to $"@
                + text::fixed0(ceiling / PERCENT_SCALE as int) + " to respect caps"@,
        }
    }
}

fn halt_reason(caps: &RiskCaps, snap: &RiskSnapshot) -> (r: Option<String>)
    ensures
        (r is Some) == (halted(*caps, *snap) is Some),
        r matches Some(reason) ==> Some(reason@) == halted(*caps, *snap),
{
    let pnl: i128 = snap.daily_pnl_pct;
    let limit: i128 = caps.daily_drawdown_killswitch_pct as i128;
    if snap.killswitch_tripped {
        let mut reason = "killswitch active (daily P&L ".to_owned();
        reason.append(fixed2_text(pnl).as_str());
        reason.append("% <= ");
        reason.append(fixed2_text(limit).as_str());
        reason.append("%)");
        return Some(reason);
    }
    if pnl <= limit {
        let mut reason = "killswitch tripping now: daily P&L ".to_owned();
        reason.append(fixed2_text(pnl).as_str());
        reason.append("% <= ");
        reason.append(fixed2_text(limit).as_str());
        reason.append("%");
        return Some(reason);
    }
    if snap.trades_today >= caps.max_trades_per_day {
        let mut reason = "daily trade count cap reached (".to_owned();
        reason.append(count_text(snap.trades_today).as_str());
        reason.append(" >= ");
        reason.append(count_text(caps.max_trades_per_day).as_str());
        reason.append(")");
        return Some(reason);
    }
    if snap.account_equity <= 0 {
        return Some("non-positive account equity".to_owned());
    }
    None
}

/// Decides on a proposed order. Pure: the whole risk model lives here.
///
/// A request over the ceiling is cut down to it, but not by a lot: beyond four times the
/// ceiling it is refused, so that a human notices.
pub fn check(caps: &RiskCaps, snap: &RiskSnapshot, order: &ProposedOrder) -> (r: RiskDecision)
    ensures
        r@ == decision(*caps, *snap, order.estimated_notional as int),
{
    if let Some(reason) = halt_reason(caps, snap) {
        return RiskDecision::Reject { reason };
    }
    let notional: i128 = order.estimated_notional as i128;
    if notional <= 0 {
        return RiskDecision::Reject { reason: "non-positive order notional".to_owned() };
    }
    proof {
        fixed::lemma_product_in_range(snap.account_equity as int, caps.max_pct_per_trade as int);
        fixed::lemma_product_in_range(
            snap.account_equity as int,
            caps.max_pct_total_exposure as int,
        );
    }
    let max_per_trade: i128 = snap.account_equity as i128 * caps.max_pct_per_trade as i128;
    let max_total: i128 = snap.account_equity as i128 * caps.max_pct_total_exposure as i128;
    let left: i128 = max_total - snap.open_notional as i128 * PERCENT_SCALE;
    let remaining: i128 = if left >= 0 { left } else { 0 };
    let ceiling: i128 = if max_per_trade <= remaining { max_per_trade } else { remaining };
    if ceiling < PERCENT_SCALE {
        let mut reason = "no exposure room left (open ".to_owned();
        reason.append(fixed2_text(snap.open_notional as i128).as_str());
        reason.append(" / cap ");
        reason.append(fixed2_text(floor_div(max_total, PERCENT_SCALE)).as_str());
        reason.append(")");
        return RiskDecision::Reject { reason };
    }
    if notional * PERCENT_SCALE <= ceiling {
        return RiskDecision::Approve;
    }
    let ceiling_dollars: i128 = floor_div(ceiling, PERCENT_SCALE);
    if notional * PERCENT_SCALE > 4 * ceiling {
        let mut reason = "requested notional $".to_owned();
        reason.append(fixed0_text(notional).as_str());
        reason.append(" is >4x the per-order ceiling $");
        reason.append(fixed0_text(ceiling_dollars).as_str());
        reason.append(" — refusing to resize");
        return RiskDecision::Reject { reason };
    }
    let mut reason = "scaled from $".to_owned();
    reason.append(fixed0_text(notional).as_str());
    reason.append(" to $");
    reason.append(fixed0_text(ceiling_dollars).as_str());
    reason.append(" to respect caps");
    RiskDecision::Resize { new_notional: ceiling_dollars as i64, reason }
}

/// An active kill-switch blocks every order.
pub proof fn law_killswitch_blocks(caps: RiskCaps, snap: RiskSnapshot, notional: int)
    requires
        snap.killswitch_tripped || snap.daily_pnl_pct <= caps.daily_drawdown_killswitch_pct,
    ensures
        decision(caps, snap, notional) is Reject,
{
}

/// What the caps let through respects every one of them: the kill-switch is off and the
/// daily P&L above its threshold, the day has trades left, and the notional that goes to the
/// broker is within the per-trade cap and, added to the open notional, within the exposure
/// cap.
pub proof fn law_passed_orders_respect_caps(caps: RiskCaps, snap: RiskSnapshot, notional: int)
    ensures
        decision(caps, snap, notional) !is Reject ==> {
            &&& !snap.killswitch_tripped
            &&& snap.daily_pnl_pct > caps.daily_drawdown_killswitch_pct
            &&& snap.trades_today < caps.max_trades_per_day
            &&& snap.account_equity > 0
            &&& passed_notional(caps, snap, notional) > 0
            &&& scaled(passed_notional(caps, snap, notional)) <= per_trade_cap(caps, snap)
            &&& scaled(snap.open_notional + passed_notional(caps, snap, notional))
                <= exposure_cap(caps, snap)
        },
{
    fixed::lemma_floor_at_least(
        order_ceiling(caps, snap),
        PERCENT_SCALE as int,
        order_ceiling(caps, snap) / PERCENT_SCALE as int,
    );
}

/// The notional that goes to the broker when an order is not refused.
pub open spec fn passed_notional(caps: RiskCaps, snap: RiskSnapshot, notional: int) -> int {
    match decision(caps, snap, notional) {
        DecisionView::Resize { new_notional, .. } => new_notional,
        _ => notional,
    }
}

/// A resized order is smaller than the request and not below a quarter of it (less the one
/// millionth that the division by four may drop); a request is refused for its size exactly
/// when it is over four times the ceiling.
pub proof fn law_resize_is_bounded(caps: RiskCaps, snap: RiskSnapshot, notional: int)
    requires
        halted(caps, snap) is None,
        notional > 0,
        order_ceiling(caps, snap) >= PERCENT_SCALE,
    ensures
        decision(caps, snap, notional) is Reject <==> scaled(notional) > 4 * order_ceiling(
            caps,
            snap,
        ),
        decision(caps, snap, notional) is Resize ==> {
            &&& 0 < passed_notional(caps, snap, notional) < notional
            &&& notional < 4 * (passed_notional(caps, snap, notional) + 1)
        },
{
    let c = order_ceiling(caps, snap);
    let q = c / PERCENT_SCALE as int;
    assert(q * 100_000_000 <= c < q * 100_000_000 + 100_000_000);
}

/// A request is cut down to the largest size that is approved: asking again for that size is
/// approved, and for any larger one is not.
pub proof fn law_resized_order_is_approved(caps: RiskCaps, snap: RiskSnapshot, notional: int)
    requires
        decision(caps, snap, notional) is Resize,
    ensures
        passed_notional(caps, snap, notional) > 0,
        decision(caps, snap, passed_notional(caps, snap, notional)) is Approve,
        forall|larger: int|
            larger > passed_notional(caps, snap, notional) ==> #[trigger] decision(
                caps,
                snap,
                larger,
            ) !is Approve,
{
    let c = order_ceiling(caps, snap);
    let q = c / PERCENT_SCALE as int;
    assert(q * 100_000_000 <= c < (q + 1) * 100_000_000);
}

/// A smaller order is approved wherever a larger one is.
pub proof fn law_approval_is_monotone(
    caps: RiskCaps,
    snap: RiskSnapshot,
    small: int,
    large: int,
)
    requires
        0 < small <= large,
        decision(caps, snap, large) is Approve,
    ensures
        decision(caps, snap, small) is Approve,
{
}

/// An order is approved exactly when nothing stands against it: the kill-switch is off, the
/// daily P&L is above its threshold (however far), the day has trades left, equity and notional
/// are positive, and the notional keeps to the per-trade cap and, with what is open, to the
/// exposure cap.
pub proof fn law_approves_exactly_what_the_caps_allow(
    caps: RiskCaps,
    snap: RiskSnapshot,
    order: ProposedOrder,
    r: RiskDecision,
)
    requires
        call_ensures(check, (&caps, &snap, &order), r),
    ensures
        r is Approve <==> {
            &&& !snap.killswitch_tripped
            &&& snap.daily_pnl_pct > caps.daily_drawdown_killswitch_pct
            &&& snap.trades_today < caps.max_trades_per_day
            &&& snap.account_equity > 0
            &&& order.estimated_notional > 0
            &&& order.estimated_notional * 100_000_000 <= snap.account_equity
                * caps.max_pct_per_trade
            &&& (snap.open_notional + order.estimated_notional) * 100_000_000
                <= snap.account_equity * caps.max_pct_total_exposure
        },
{
}

/// An order is resized exactly when nothing but its size stands against it, the caps have room
/// for some order, and it is at most four times what they have room for. It becomes the largest
/// order that both caps have room for.
pub proof fn law_resizes_exactly_what_is_somewhat_over(
    caps: RiskCaps,
    snap: RiskSnapshot,
    order: ProposedOrder,
    r: RiskDecision,
)
    requires
        call_ensures(check, (&caps, &snap, &order), r),
    ensures
        ({
            let per_trade = snap.account_equity * caps.max_pct_per_trade;
            let room = snap.account_equity * caps.max_pct_total_exposure - snap.open_notional
                * 100_000_000;
            let notional = order.estimated_notional as int;
            let size = notional * 100_000_000;
            &&& r is Resize <==> {
                &&& !snap.killswitch_tripped
                &&& snap.daily_pnl_pct > caps.daily_drawdown_killswitch_pct
                &&& snap.trades_today < caps.max_trades_per_day
                &&& snap.account_equity > 0
                &&& notional > 0
                &&& size > per_trade || size > room
                &&& per_trade >= 100_000_000
                &&& room >= 100_000_000
                &&& size <= 4 * per_trade
                &&& size <= 4 * room
            }
            &&& r matches RiskDecision::Resize { new_notional, .. } ==> {
                &&& 0 < new_notional < notional
                &&& new_notional * 100_000_000 <= per_trade
                &&& new_notional * 100_000_000 <= room
                &&& (new_notional + 1) * 100_000_000 > per_trade || (new_notional + 1)
                    * 100_000_000 > room
            }
        }),
{
    let c = order_ceiling(caps, snap);
    let q = c / PERCENT_SCALE as int;
    assert(q * 100_000_000 <= c < (q + 1) * 100_000_000);
}

/// A refusal names the first thing that stands against the order, with the figures: the
/// kill-switch, the threshold, the day's trades, the equity, the notional, the exposure, and
/// last the size.
pub proof fn law_refusals_name_the_first_cause(
    caps: RiskCaps,
    snap: RiskSnapshot,
    order: ProposedOrder,
    r: RiskDecision,
)
    requires
        call_ensures(check, (&caps, &snap, &order), r),
    ensures
        r matches RiskDecision::Reject { reason } ==> {
            let notional = order.estimated_notional as int;
            let pnl = text::fixed2(snap.daily_pnl_pct as int);
            let limit = text::fixed2(caps.daily_drawdown_killswitch_pct as int);
            let per_trade = snap.account_equity * caps.max_pct_per_trade;
            let total = snap.account_equity * caps.max_pct_total_exposure;
            let room = total - snap.open_notional * 100_000_000;
            if snap.killswitch_tripped {
                reason@ == "killswitch active (daily P&L "@ + pnl + "% <= "@ + limit + "%)"@
            } else if snap.daily_pnl_pct <= caps.daily_drawdown_killswitch_pct {
                reason@ == "killswitch tripping now: daily P&L "@ + pnl + "% <= "@ + limit + "%"@
            } else if snap.trades_today >= caps.max_trades_per_day {
                reason@ == "daily trade count cap reached ("@ + text::digits(
                    snap.trades_today as nat,
                ) + " >= "@ + text::digits(caps.max_trades_per_day as nat) + ")"@
            } else if snap.account_equity <= 0 {
                reason@ == "non-positive account equity"@
            } else if notional <= 0 {
                reason@ == "non-positive order notional"@
            } else if per_trade < 100_000_000 || room < 100_000_000 {
                reason@ == "no exposure room left (open "@ + text::fixed2(
                    snap.open_notional as int,
                ) + " / cap "@ + text::fixed2(total / 100_000_000) + ")"@
            } else {
                reason@ == "requested notional $"@ + text::fixed0(notional)
                    + " is >4x the per-order ceiling $"@ + text::fixed0(
                    (if per_trade <= room { per_trade } else { room }) / 100_000_000,
                ) + " — refusing to resize"@
            }
        },
{
}

/// More of what the caps look at never opens a door: with more open notional, more trades
/// today, a lower P&L or a larger size, an order that was not approved still is not.
pub proof fn law_more_risk_is_never_easier(
    caps: RiskCaps,
    calm: RiskSnapshot,
    tense: RiskSnapshot,
    small: int,
    large: int,
)
    requires
        tense.account_equity == calm.account_equity,
        tense.trades_today >= calm.trades_today,
        tense.open_notional >= calm.open_notional,
        tense.daily_pnl_pct <= calm.daily_pnl_pct,
        calm.killswitch_tripped ==> tense.killswitch_tripped,
        0 < small <= large,
        decision(caps, tense, large) is Approve,
    ensures
        decision(caps, calm, small) is Approve,
{
}

/// The presets: at most 5 trades a day of 5% of the equity each, 25% in all, and a stop at -8%;
/// for small accounts 3 trades, 80%, 80%, and -25%. Each is a bound on what is approved, and is
/// reached.
pub proof fn law_presets_bound_what_is_approved(snap: RiskSnapshot, notional: int)
    requires
        snap.account_equity > 0,
        notional > 0,
        !snap.killswitch_tripped,
    ensures
        decision(RiskCaps::moderate(), snap, notional) is Approve <==> {
            &&& snap.trades_today < 5
            &&& snap.daily_pnl_pct > -8_000_000
            &&& 20 * notional <= snap.account_equity
            &&& 4 * (snap.open_notional + notional) <= snap.account_equity
        },
        decision(RiskCaps::tiny(), snap, notional) is Approve <==> {
            &&& snap.trades_today < 3
            &&& snap.daily_pnl_pct > -25_000_000
            &&& 5 * notional <= 4 * snap.account_equity
            &&& 5 * (snap.open_notional + notional) <= 4 * snap.account_equity
        },
{
}

/// Only the size of an order is looked at: not its symbol, and not its side.
pub proof fn law_only_the_size_matters(
    caps: RiskCaps,
    snap: RiskSnapshot,
    a: ProposedOrder,
    b: ProposedOrder,
    r: RiskDecision,
    s: RiskDecision,
)
    requires
        a.estimated_notional == b.estimated_notional,
        call_ensures(check, (&caps, &snap, &a), r),
        call_ensures(check, (&caps, &snap, &b), s),
    ensures
        r is Approve <==> s is Approve,
        r is Resize <==> s is Resize,
        r matches RiskDecision::Resize { new_notional, .. } ==> s->new_notional == new_notional,
{
}

} // verus!
