//! The state that outlives a request: the day's counters, the kill-switch and the log of
//! recent trades. Who holds a [`State`] decides whether it is saved to disk.

use vstd::prelude::*;

use crate::broker::{AssetClass, OrderRequest, OrderResult, OrderSize, OrderView};
use crate::clock;
use crate::clock::{now, today, Timestamp};
use crate::fixed;
use crate::fixed::PERCENT_SCALE;
use crate::ids;
use crate::ids::fresh_id;
use crate::risk::{DecisionView, OrderSide, RiskDecision};
use crate::text;
use crate::text::{count_text, fixed2_text, same};

verus! {

/// How many trades the log keeps.
pub const LOG_LENGTH: usize = 200;

/// One line of the trade log.
#[derive(Debug)]
pub struct TradeLogEntry {
    pub id: u128,
    pub timestamp: Timestamp,
    pub broker: String,
    pub symbol: String,
    pub side: OrderSide,
    /// Whole-share count; 0 when a dollar notional was used.
    pub qty: u32,
    /// "5 sh" or "$50.00": what is displayed.
    pub size_repr: String,
    pub asset_class: AssetClass,
    pub estimated_notional: i64,
    pub broker_order_id: Option<String>,
    /// The broker's status, "rejected" or "error".
    pub status: String,
    /// "approve", "resize: ..." or "reject: ...".
    pub risk_decision: String,
    pub notes: String,
}

/// What a log line says, apart from its identifier and the moment it was written.
pub struct EntryView {
    pub broker: Seq<char>,
    pub symbol: Seq<char>,
    pub side: OrderSide,
    pub qty: int,
    pub size_repr: Seq<char>,
    pub asset_class: AssetClass,
    pub estimated_notional: int,
    pub broker_order_id: Option<Seq<char>>,
    pub status: Seq<char>,
    pub risk_decision: Seq<char>,
    pub notes: Seq<char>,
}

impl View for TradeLogEntry {
    type V = EntryView;

    open spec fn view(&self) -> EntryView {
        EntryView {
            broker: self.broker@,
            symbol: self.symbol@,
            side: self.side,
            qty: self.qty as int,
            size_repr: self.size_repr@,
            asset_class: self.asset_class,
            estimated_notional: self.estimated_notional as int,
            broker_order_id: match self.broker_order_id {
                Some(id) => Some(id@),
                None => None,
            },
            status: self.status@,
            risk_decision: self.risk_decision@,
            notes: self.notes@,
        }
    }
}

impl Clone for TradeLogEntry {
    fn clone(&self) -> (r: Self)
        ensures
            r == *self,
    {
        TradeLogEntry {
            id: self.id,
            timestamp: self.timestamp,
            broker: self.broker.clone(),
            symbol: self.symbol.clone(),
            side: self.side,
            qty: self.qty,
            size_repr: self.size_repr.clone(),
            asset_class: self.asset_class,
            estimated_notional: self.estimated_notional,
            broker_order_id: self.broker_order_id.clone(),
            status: self.status.clone(),
            risk_decision: self.risk_decision.clone(),
            notes: self.notes.clone(),
        }
    }
}

/// The counters of one UTC day. Amounts are in millionths of a dollar.
#[derive(Debug)]
pub struct DailyCounters {
    /// "YYYY-MM-DD".
    pub utc_date: String,
    pub trades_opened: u32,
    pub open_notional: i64,
    pub realized_pnl: i64,
    pub starting_equity: i64,
    pub killswitch_tripped: bool,
}

/// [`DailyCounters`] as mathematical values.
pub struct CountersView {
    pub utc_date: Seq<char>,
    pub trades_opened: int,
    pub open_notional: int,
    pub realized_pnl: int,
    pub starting_equity: int,
    pub killswitch_tripped: bool,
}

impl View for DailyCounters {
    type V = CountersView;

    open spec fn view(&self) -> CountersView {
        CountersView {
            utc_date: self.utc_date@,
            trades_opened: self.trades_opened as int,
            open_notional: self.open_notional as int,
            realized_pnl: self.realized_pnl as int,
            starting_equity: self.starting_equity as int,
            killswitch_tripped: self.killswitch_tripped,
        }
    }
}

impl Clone for DailyCounters {
    fn clone(&self) -> (r: Self)
        ensures
            r == *self,
    {
        DailyCounters {
            utc_date: self.utc_date.clone(),
            trades_opened: self.trades_opened,
            open_notional: self.open_notional,
            realized_pnl: self.realized_pnl,
            starting_equity: self.starting_equity,
            killswitch_tripped: self.killswitch_tripped,
        }
    }
}

impl Default for DailyCounters {
    fn default() -> (r: Self)
        ensures
            r@ == CountersView::fresh(seq![], 0),
    {
        DailyCounters {
            utc_date: String::new(),
            trades_opened: 0,
            open_notional: 0,
            realized_pnl: 0,
            starting_equity: 0,
            killswitch_tripped: false,
        }
    }
}

impl CountersView {
    /// The counters of a day on which nothing has happened yet.
    pub open spec fn fresh(utc_date: Seq<char>, starting_equity: int) -> CountersView {
        CountersView {
            utc_date,
            trades_opened: 0,
            open_notional: 0,
            realized_pnl: 0,
            starting_equity,
            killswitch_tripped: false,
        }
    }

    /// The counters on the date `today`. A new day starts from nothing, except for what is no
    /// matter of one day: the positions that are open stay open until they close, and a
    /// tripped kill-switch stays tripped until it is reset by hand.
    pub open spec fn on_day(self, today: Seq<char>) -> CountersView {
        if self.utc_date == today {
            self
        } else {
            CountersView {
                open_notional: self.open_notional,
                killswitch_tripped: self.killswitch_tripped,
                ..CountersView::fresh(today, 0)
            }
        }
    }

    /// The counters on the date `ymd` of a simulation. As on a new day, but the cumulative
    /// P&L and what it is measured against go on, so that the kill-switch threshold is that
    /// of the whole simulation.
    pub open spec fn on_simulated_day(self, ymd: Seq<char>) -> CountersView {
        if self.utc_date == ymd {
            self
        } else {
            CountersView {
                open_notional: self.open_notional,
                realized_pnl: self.realized_pnl,
                killswitch_tripped: self.killswitch_tripped,
                ..CountersView::fresh(ymd, self.starting_equity)
            }
        }
    }

    /// Whether the realized P&L is at or below a percentage of the starting equity.
    pub open spec fn drawn_down(self, pct: int) -> bool {
        self.starting_equity > 0 && self.realized_pnl * PERCENT_SCALE <= pct
            * self.starting_equity
    }

    /// The counters after a position has closed: its notional is no longer open (never less
    /// than none), its P&L is realized, and a breach of the threshold trips the kill-switch.
    pub open spec fn after_close(self, notional: int, pnl: int, killswitch_pct: int)
        -> CountersView {
        let c = CountersView {
            open_notional: fixed::larger(self.open_notional - notional, 0),
            realized_pnl: self.realized_pnl + pnl,
            ..self
        };
        CountersView {
            killswitch_tripped: c.killswitch_tripped || c.drawn_down(killswitch_pct),
            ..c
        }
    }

    /// The counters after an order of `notional` was filled.
    pub open spec fn after_open(self, notional: int) -> CountersView {
        CountersView {
            trades_opened: self.trades_opened + 1,
            open_notional: self.open_notional + notional,
            ..self
        }
    }

    /// The counters once the day's equity is known.
    pub open spec fn anchored(self, equity: int) -> CountersView {
        if self.starting_equity == 0 {
            CountersView { starting_equity: equity, ..self }
        } else {
            self
        }
    }

    /// The counters with the kill-switch set.
    pub open spec fn with_killswitch(self, on: bool) -> CountersView {
        CountersView { killswitch_tripped: on, ..self }
    }
}

/// Everything that a [`State`] holds, newest trade first.
#[derive(Debug)]
pub struct StateSnapshot {
    pub counters: DailyCounters,
    pub recent_trades: Vec<TradeLogEntry>,
}

impl Clone for StateSnapshot {
    fn clone(&self) -> (r: Self)
        ensures
            r.counters == self.counters,
            r.recent_trades@ == self.recent_trades@,
    {
        let recent_trades = self.recent_trades.clone();
        assert(recent_trades@ =~= self.recent_trades@);
        StateSnapshot { counters: self.counters.clone(), recent_trades }
    }
}

impl Default for StateSnapshot {
    fn default() -> (r: Self)
        ensures
            r.counters@ == CountersView::fresh(seq![], 0),
            r.recent_trades@.len() == 0,
    {
        StateSnapshot { counters: DailyCounters::default(), recent_trades: Vec::new() }
    }
}

/// The counters and the trade log.
#[derive(Debug)]
pub struct State {
    pub inner: StateSnapshot,
}

/// Whether a decision and a broker's answer open a position.
pub open spec fn opens(decision: DecisionView, result: Option<OrderResult>) -> bool {
    decision !is Reject && result is Some
}

/// What the log says of a decision and the broker's answer.
pub open spec fn logged(
    order: OrderView,
    notional: int,
    broker: Seq<char>,
    decision: DecisionView,
    result: Option<OrderResult>,
) -> EntryView {
    EntryView {
        broker,
        symbol: order.symbol,
        side: order.side,
        qty: match order.size {
            OrderSize::Shares { qty } => qty as int,
            OrderSize::Notional { .. } => 0,
        },
        size_repr: match order.size {
            OrderSize::Shares { qty } => text::digits(qty as nat) + " sh"@,
            OrderSize::Notional { dollars } => "$"@ + text::fixed2(dollars as int),
        },
        asset_class: order.asset_class,
        estimated_notional: notional,
        broker_order_id: match result {
            Some(r) => Some(r.broker_order_id@),
            None => None,
        },
        status: match (decision, result) {
            (DecisionView::Reject { .. }, _) => "rejected"@,
            (_, Some(r)) => r.status@,
            (_, None) => "error"@,
        },
        risk_decision: match decision {
            DecisionView::Approve => "approve"@,
            DecisionView::Resize { reason, .. } => "resize: "@ + reason,
            DecisionView::Reject { reason } => "reject: "@ + reason,
        },
        notes: match (decision, result) {
            (DecisionView::Reject { reason }, _) => reason,
            (_, Some(_)) => seq![],
            (DecisionView::Resize { reason, .. }, None) => reason,
            (DecisionView::Approve, None) => "no broker result"@,
        },
    }
}

/// The log with a new line at its front, no longer than [`LOG_LENGTH`].
pub open spec fn log_with(log: Seq<TradeLogEntry>, entry: TradeLogEntry) -> Seq<TradeLogEntry> {
    let longer = log.insert(0, entry);
    longer.take(fixed::smaller(longer.len() as int, LOG_LENGTH as int))
}

/// Writes a log line.
pub fn log_entry(
    order: &OrderRequest,
    notional: i64,
    broker_name: &str,
    decision: &RiskDecision,
    result: Option<&OrderResult>,
    id: u128,
    timestamp: Timestamp,
) -> (r: TradeLogEntry)
    ensures
        r.id == id,
        r.timestamp == timestamp,
        r@ == logged(order@, notional as int, broker_name@, decision@, owned(result)),
{
    let (status, notes) = match decision {
        RiskDecision::Reject { reason } => ("rejected".to_owned(), reason.clone()),
        RiskDecision::Approve => match result {
            Some(r) => (r.status.clone(), String::new()),
            None => ("error".to_owned(), "no broker result".to_owned()),
        },
        RiskDecision::Resize { reason, .. } => match result {
            Some(r) => (r.status.clone(), String::new()),
            None => ("error".to_owned(), reason.clone()),
        },
    };
    let risk_decision = match decision {
        RiskDecision::Approve => "approve".to_owned(),
        RiskDecision::Resize { reason, .. } => "resize: ".to_owned().concat(reason.as_str()),
        RiskDecision::Reject { reason } => "reject: ".to_owned().concat(reason.as_str()),
    };
    let (qty, size_repr) = match order.size {
        OrderSize::Shares { qty } => (qty, count_text(qty).concat(" sh")),
        OrderSize::Notional { dollars } => (
            0u32,
            "$".to_owned().concat(fixed2_text(dollars as i128).as_str()),
        ),
    };
    let broker_order_id = match result {
        Some(r) => Some(r.broker_order_id.clone()),
        None => None,
    };
    TradeLogEntry {
        id,
        timestamp,
        broker: broker_name.to_owned(),
        symbol: order.symbol.clone(),
        side: order.side,
        qty,
        size_repr,
        asset_class: order.asset_class,
        estimated_notional: notional,
        broker_order_id,
        status,
        risk_decision,
        notes,
    }
}

/// The value behind an optional reference.
pub open spec fn owned(result: Option<&OrderResult>) -> Option<OrderResult> {
    match result {
        Some(r) => Some(*r),
        None => None,
    }
}

/// The counters that were saved, or empty ones.
pub open spec fn saved_counters(saved: Option<StateSnapshot>) -> CountersView {
    match saved {
        Some(s) => s.counters@,
        None => CountersView::fresh(seq![], 0),
    }
}

/// The trade log that was saved, or an empty one.
pub open spec fn saved_log(saved: Option<StateSnapshot>) -> Seq<TradeLogEntry> {
    match saved {
        Some(s) => s.recent_trades@,
        None => seq![],
    }
}

impl State {
    /// The counters.
    pub open spec fn counters(&self) -> CountersView {
        self.inner.counters@
    }

    /// The trade log, newest first.
    pub open spec fn log(&self) -> Seq<TradeLogEntry> {
        self.inner.recent_trades@
    }

    /// The state that was saved, or an empty one, on the current day.
    pub fn load(saved: Option<StateSnapshot>) -> (r: State)
        ensures
            exists|today: Seq<char>|
                clock::is_date(today) && r.counters() == #[trigger] saved_counters(saved).on_day(
                    today,
                ),
            r.log() == saved_log(saved),
    {
        let date = today();
        State::load_on(saved, date.as_str())
    }

    /// The state that was saved, or an empty one, on the date `today`.
    pub fn load_on(saved: Option<StateSnapshot>, today: &str) -> (r: State)
        ensures
            r.counters() == saved_counters(saved).on_day(today@),
            r.log() == saved_log(saved),
    {
        let mut state = State {
            inner: match saved {
                Some(s) => s,
                None => StateSnapshot::default(),
            },
        };
        assert(state.counters() == saved_counters(saved));
        assert(state.log() =~= saved_log(saved));
        state.roll_day(today);
        state
    }

    /// A state that starts from nothing but an equity to measure the P&L against.
    pub fn ephemeral(starting_equity: i64) -> (r: State)
        ensures
            exists|today: Seq<char>|
                clock::is_date(today) && r.counters() == #[trigger] CountersView::fresh(
                    today,
                    starting_equity as int,
                ),
            r.log().len() == 0,
    {
        State::ephemeral_on(today(), starting_equity)
    }

    /// A state that starts from nothing on a given date.
    pub fn ephemeral_on(utc_date: String, starting_equity: i64) -> (r: State)
        ensures
            r.counters() == CountersView::fresh(utc_date@, starting_equity as int),
            r.log().len() == 0,
    {
        State {
            inner: StateSnapshot {
                counters: DailyCounters { utc_date, starting_equity, ..DailyCounters::default() },
                recent_trades: Vec::new(),
            },
        }
    }

    /// Takes a closed position off the open exposure and credits its realized P&L. Trips the
    /// kill-switch if the cumulative P&L breaches the threshold.
    pub fn close_position(&mut self, notional: i64, realized_pnl: i64, killswitch_pct: i64)
        requires
            fixed::fits(old(self).counters().open_notional - notional),
            fixed::fits(old(self).counters().realized_pnl + realized_pnl),
        ensures
            final(self).counters() == old(self).counters().after_close(
                notional as int,
                realized_pnl as int,
                killswitch_pct as int,
            ),
            final(self).log() == old(self).log(),
    {
        let left: i64 = self.inner.counters.open_notional - notional;
        self.inner.counters.open_notional = if left >= 0 { left } else { 0 };
        self.inner.counters.realized_pnl = self.inner.counters.realized_pnl + realized_pnl;
        let starting: i64 = self.inner.counters.starting_equity;
        if starting > 0 {
            proof {
                fixed::lemma_product_in_range(killswitch_pct as int, starting as int);
            }
            if self.inner.counters.realized_pnl as i128 * PERCENT_SCALE <= killswitch_pct as i128
                * starting as i128 {
                self.inner.counters.killswitch_tripped = true;
            }
        }
    }

    /// Moves a simulation to a date.
    pub fn force_date(&mut self, ymd: &str)
        ensures
            final(self).counters() == old(self).counters().on_simulated_day(ymd@),
            final(self).log() == old(self).log(),
    {
        if !same(self.inner.counters.utc_date.as_str(), ymd) {
            self.inner.counters =
            DailyCounters {
                utc_date: ymd.to_owned(),
                starting_equity: self.inner.counters.starting_equity,
                realized_pnl: self.inner.counters.realized_pnl,
                killswitch_tripped: self.inner.counters.killswitch_tripped,
                open_notional: self.inner.counters.open_notional,
                trades_opened: 0,
            };
        }
    }

    /// Everything that is held, as a copy.
    pub fn snapshot(&self) -> (r: StateSnapshot)
        ensures
            r.counters@ == self.counters(),
            r.recent_trades@ == self.log(),
    {
        self.inner.clone()
    }

    /// Starts the counters anew if the current UTC date is not theirs.
    pub fn roll_day_if_needed(&mut self)
        ensures
            exists|today: Seq<char>|
                clock::is_date(today) && final(self).counters() == #[trigger] old(
                    self,
                ).counters().on_day(today),
            final(self).log() == old(self).log(),
    {
        let date = today();
        self.roll_day(date.as_str());
    }

    /// Starts the counters anew if `today` is not their date.
    pub fn roll_day(&mut self, today: &str)
        ensures
            final(self).counters() == old(self).counters().on_day(today@),
            final(self).log() == old(self).log(),
    {
        if !same(self.inner.counters.utc_date.as_str(), today) {
            self.inner.counters =
            DailyCounters {
                utc_date: today.to_owned(),
                open_notional: self.inner.counters.open_notional,
                killswitch_tripped: self.inner.counters.killswitch_tripped,
                ..DailyCounters::default()
            };
        }
    }

    /// Logs a decision and, where the broker took the order, counts the trade.
    pub fn record_decision(
        &mut self,
        order: &OrderRequest,
        notional: i64,
        broker_name: &str,
        decision: &RiskDecision,
        result: Option<&OrderResult>,
    ) -> (r: TradeLogEntry)
        requires
            opens(decision@, owned(result)) ==> {
                &&& old(self).counters().trades_opened < u32::MAX
                &&& fixed::fits(old(self).counters().open_notional + notional)
            },
        ensures
            ids::is_random_uuid(r.id),
            r@ == logged(order@, notional as int, broker_name@, decision@, owned(result)),
            final(self).counters() == (if opens(decision@, owned(result)) {
                old(self).counters().after_open(notional as int)
            } else {
                old(self).counters()
            }),
            final(self).log() == log_with(old(self).log(), r),
    {
        let entry = log_entry(order, notional, broker_name, decision, result, fresh_id(), now());
        let opened = match decision {
            RiskDecision::Reject { .. } => false,
            _ => entry.broker_order_id.is_some(),
        };
        if opened {
            self.inner.counters.trades_opened = self.inner.counters.trades_opened + 1;
            self.inner.counters.open_notional = self.inner.counters.open_notional + notional;
        }
        self.inner.recent_trades.insert(0, entry.clone());
        self.inner.recent_trades.truncate(LOG_LENGTH);
        assert(self.log() =~= log_with(old(self).log(), entry));
        entry
    }

    /// Trips or resets the kill-switch.
    pub fn set_killswitch(&mut self, on: bool)
        ensures
            final(self).counters() == old(self).counters().with_killswitch(on),
            final(self).log() == old(self).log(),
    {
        self.inner.counters.killswitch_tripped = on;
    }

    /// Measures the day's P&L against `equity`, unless it already has a measure.
    pub fn set_starting_equity_if_unset(&mut self, equity: i64)
        ensures
            final(self).counters() == old(self).counters().anchored(equity as int),
            final(self).log() == old(self).log(),
    {
        if self.inner.counters.starting_equity == 0 {
            self.inner.counters.starting_equity = equity;
        }
    }

    pub fn killswitch_active(&self) -> (r: bool)
        ensures
            r == self.counters().killswitch_tripped,
    {
        self.inner.counters.killswitch_tripped
    }
}

/// Nothing but resetting it by hand turns a tripped kill-switch off: not a new day, real or
/// simulated, not a trade, not a closed position.
pub proof fn law_killswitch_persists(
    c: CountersView,
    date: Seq<char>,
    notional: int,
    pnl: int,
    pct: int,
    equity: int,
)
    requires
        c.killswitch_tripped,
    ensures
        c.on_day(date).killswitch_tripped,
        c.on_simulated_day(date).killswitch_tripped,
        c.after_open(notional).killswitch_tripped,
        c.after_close(notional, pnl, pct).killswitch_tripped,
        c.anchored(equity).killswitch_tripped,
{
}

/// What was saved comes back: the whole log, the counters as they were where they are of the
/// same day, and of the counters of an earlier day what outlives it. Where nothing was saved,
/// the log is empty and the counters start from nothing.
pub proof fn law_saved_state_comes_back(saved: StateSnapshot, today: Seq<char>)
    ensures
        saved_log(Some(saved)) == saved.recent_trades@,
        saved.counters@.utc_date == today ==> saved_counters(Some(saved)).on_day(today)
            == saved.counters@,
        saved_counters(Some(saved)).on_day(today).open_notional == saved.counters@.open_notional,
        saved_counters(Some(saved)).on_day(today).killswitch_tripped
            == saved.counters@.killswitch_tripped,
        saved_log(None) == Seq::<TradeLogEntry>::empty(),
        saved_counters(None).on_day(today) == CountersView::fresh(today, 0),
{
}

/// Only a closed position lowers the open notional: a new day, real or simulated, leaves it
/// as it is, and so do the kill-switch and the day's equity.
pub proof fn law_open_notional_outlives_the_day(
    c: CountersView,
    date: Seq<char>,
    equity: int,
    on: bool,
)
    ensures
        c.on_day(date).open_notional == c.open_notional,
        c.on_simulated_day(date).open_notional == c.open_notional,
        c.anchored(equity).open_notional == c.open_notional,
        c.with_killswitch(on).open_notional == c.open_notional,
{
}

/// Closing what was just opened leaves the open notional as it was; the trade stays counted.
pub proof fn law_close_undoes_open(c: CountersView, notional: int, pnl: int, pct: int)
    requires
        c.open_notional >= 0,
    ensures
        c.after_open(notional).after_close(notional, pnl, pct).open_notional == c.open_notional,
        c.after_open(notional).after_close(notional, pnl, pct).trades_opened == c.trades_opened
            + 1,
{
}

/// The log never grows past its length, and its first line is the newest.
pub proof fn law_log_is_bounded(log: Seq<TradeLogEntry>, entry: TradeLogEntry)
    ensures
        log_with(log, entry).len() <= LOG_LENGTH,
        log_with(log, entry)[0] == entry,
        forall|i: int|
            0 < i < log_with(log, entry).len() ==> #[trigger] log_with(log, entry)[i] == log[i
                - 1],
{
}

/// The same day changes nothing. Another day starts with no trades, no realized P&L and nothing
/// to measure the P&L against; what is open stays open, and the kill-switch as it is.
pub proof fn law_a_new_day_starts_over(c: CountersView, today: Seq<char>)
    ensures
        c.on_day(today).utc_date == today,
        c.utc_date == today ==> c.on_day(today) == c,
        c.utc_date != today ==> {
            &&& c.on_day(today).trades_opened == 0
            &&& c.on_day(today).realized_pnl == 0
            &&& c.on_day(today).starting_equity == 0
        },
        c.on_day(today).open_notional == c.open_notional,
        c.on_day(today).killswitch_tripped == c.killswitch_tripped,
        c.on_day(today).on_day(today) == c.on_day(today),
{
}

/// A simulated day starts with no trades; the realized P&L and what it is measured against go
/// on, and so do what is open and the kill-switch.
pub proof fn law_a_simulated_day_goes_on(c: CountersView, ymd: Seq<char>)
    ensures
        c.on_simulated_day(ymd).utc_date == ymd,
        c.on_simulated_day(ymd).trades_opened == (if c.utc_date == ymd {
            c.trades_opened
        } else {
            0
        }),
        c.on_simulated_day(ymd).realized_pnl == c.realized_pnl,
        c.on_simulated_day(ymd).starting_equity == c.starting_equity,
        c.on_simulated_day(ymd).open_notional == c.open_notional,
        c.on_simulated_day(ymd).killswitch_tripped == c.killswitch_tripped,
        c.on_simulated_day(ymd).on_day(ymd) == c.on_simulated_day(ymd),
{
}

/// A close takes the notional off what is open, down to nothing at most, adds the P&L to what is
/// realized, and changes no more; the kill-switch trips exactly where the realized P&L in all is
/// at or below the percentage of the starting equity, and is never reset by it.
pub proof fn law_a_close_is_booked(c: CountersView, notional: int, pnl: int, pct: int)
    ensures
        ({
            let d = c.after_close(notional, pnl, pct);
            &&& d.utc_date == c.utc_date
            &&& d.trades_opened == c.trades_opened
            &&& d.starting_equity == c.starting_equity
            &&& d.realized_pnl == c.realized_pnl + pnl
            &&& notional <= c.open_notional ==> d.open_notional == c.open_notional - notional
            &&& notional > c.open_notional ==> d.open_notional == 0
            &&& d.killswitch_tripped <==> {
                ||| c.killswitch_tripped
                ||| c.starting_equity > 0 && (c.realized_pnl + pnl) * 100_000_000 <= pct
                    * c.starting_equity
            }
        }),
{
}

/// The order in which two positions close does not matter, but for a kill-switch that the one
/// alone trips.
pub proof fn law_closes_add_up(c: CountersView, n: int, p: int, m: int, q: int, pct: int)
    requires
        n >= 0,
        m >= 0,
        n + m <= c.open_notional,
    ensures
        ({
            let one = c.after_close(n, p, pct).after_close(m, q, pct);
            let other = c.after_close(m, q, pct).after_close(n, p, pct);
            &&& one.open_notional == other.open_notional == c.open_notional - n - m
            &&& one.realized_pnl == other.realized_pnl == c.realized_pnl + p + q
            &&& c.after_close(n + m, p + q, pct).killswitch_tripped ==> one.killswitch_tripped
        }),
{
    assert(c.realized_pnl + p + q == c.realized_pnl + (p + q));
}

/// An order that was filled is one trade more and its notional more; nothing else changes.
pub proof fn law_an_open_is_booked(c: CountersView, notional: int)
    ensures
        c.after_open(notional) == (CountersView {
            trades_opened: 1 + c.trades_opened,
            open_notional: notional + c.open_notional,
            ..c
        }),
{
}

/// The first equity of a day is what its P&L is measured against; a later one is not.
pub proof fn law_the_first_equity_counts(c: CountersView, first: int, later: int)
    ensures
        c.starting_equity != 0 ==> c.anchored(first) == c,
        c.starting_equity == 0 ==> c.anchored(first).starting_equity == first,
        first != 0 ==> c.anchored(first).anchored(later) == c.anchored(first),
        c.anchored(first).trades_opened == c.trades_opened,
        c.anchored(first).open_notional == c.open_notional,
        c.anchored(first).realized_pnl == c.realized_pnl,
        c.anchored(first).killswitch_tripped == c.killswitch_tripped,
        c.anchored(first).utc_date == c.utc_date,
{
}

/// The kill-switch is what it was last set to, and setting it changes nothing else.
pub proof fn law_the_killswitch_is_what_was_set(c: CountersView, on: bool, off: bool)
    ensures
        c.with_killswitch(on).killswitch_tripped == on,
        c.with_killswitch(on).with_killswitch(off) == c.with_killswitch(off),
        c.with_killswitch(c.killswitch_tripped) == c,
{
}

/// The log grows by one line until it is full at 200, and then drops its oldest.
pub proof fn law_the_log_keeps_the_newest(log: Seq<TradeLogEntry>, entry: TradeLogEntry)
    ensures
        log.len() < 200 ==> log_with(log, entry) == seq![entry] + log,
        log.len() >= 200 ==> log_with(log, entry) == seq![entry] + log.take(199),
{
    if log.len() < 200 {
        assert(log_with(log, entry) =~= seq![entry] + log);
    } else {
        assert(log_with(log, entry) =~= seq![entry] + log.take(199));
    }
}

/// A line of the log says what was ordered and what became of it: the size as it was ordered,
/// the broker's identifier and status where it took the order, "rejected" where the caps refused
/// it, and "error" where the broker did not take it.
pub proof fn law_log_lines_say_what_happened(
    order: OrderView,
    notional: int,
    broker: Seq<char>,
    decision: DecisionView,
    result: Option<OrderResult>,
)
    ensures
        ({
            let e = logged(order, notional, broker, decision, result);
            &&& e.broker == broker
            &&& e.symbol == order.symbol
            &&& e.side == order.side
            &&& e.asset_class == order.asset_class
            &&& e.estimated_notional == notional
            &&& order.size matches OrderSize::Shares { qty } ==> e.qty == qty && e.size_repr
                == text::digits(qty as nat) + " sh"@
            &&& order.size matches OrderSize::Notional { dollars } ==> e.qty == 0 && e.size_repr
                == "$"@ + text::fixed2(dollars as int)
            &&& result matches Some(r) ==> e.broker_order_id == Some(r.broker_order_id@)
            &&& result is None ==> e.broker_order_id is None
            &&& decision matches DecisionView::Reject { reason } ==> {
                &&& e.status == "rejected"@
                &&& e.risk_decision == "reject: "@ + reason
                &&& e.notes == reason
            }
            &&& decision is Approve ==> e.risk_decision == "approve"@
            &&& decision matches DecisionView::Resize { reason, .. } ==> e.risk_decision
                == "resize: "@ + reason
            &&& decision !is Reject ==> match result {
                Some(r) => e.status == r.status@ && e.notes.len() == 0,
                None => e.status == "error"@ && e.notes == (match decision {
                    DecisionView::Resize { reason, .. } => reason,
                    _ => "no broker result"@,
                }),
            }
            &&& opens(decision, result) <==> decision !is Reject && e.broker_order_id is Some
        }),
{
}

/// What is said of counters and of log lines is said of their fields.
pub proof fn law_views_show_the_fields(c: DailyCounters, e: TradeLogEntry)
    ensures
        c@.utc_date == c.utc_date@,
        c@.trades_opened == c.trades_opened,
        c@.open_notional == c.open_notional,
        c@.realized_pnl == c.realized_pnl,
        c@.starting_equity == c.starting_equity,
        c@.killswitch_tripped == c.killswitch_tripped,
        e@.broker == e.broker@,
        e@.symbol == e.symbol@,
        e@.side == e.side,
        e@.qty == e.qty,
        e@.size_repr == e.size_repr@,
        e@.asset_class == e.asset_class,
        e@.estimated_notional == e.estimated_notional,
        e.broker_order_id is Some <==> e@.broker_order_id is Some,
        e.broker_order_id matches Some(id) ==> e@.broker_order_id == Some(id@),
        e@.status == e.status@,
        e@.risk_decision == e.risk_decision@,
        e@.notes == e.notes@,
{
}

/// A state is loaded as it was saved: its whole log, and its counters on the given day. Without
/// a saved one it starts from nothing; a copy of it is what it holds.
pub proof fn law_states_load_what_was_saved(
    saved: Option<StateSnapshot>,
    today: &str,
    loaded: State,
    copy: StateSnapshot,
)
    requires
        call_ensures(State::load_on, (saved, today), loaded),
        call_ensures(State::snapshot, (&loaded,), copy),
    ensures
        saved matches Some(s) ==> {
            &&& loaded.inner.recent_trades@ == s.recent_trades@
            &&& loaded.inner.counters.open_notional == s.counters.open_notional
            &&& loaded.inner.counters.killswitch_tripped == s.counters.killswitch_tripped
            &&& s.counters.utc_date@ == today@ ==> loaded.inner.counters@ == s.counters@
            &&& s.counters.utc_date@ != today@ ==> loaded.inner.counters.trades_opened == 0
        },
        saved is None ==> {
            &&& loaded.inner.recent_trades@.len() == 0
            &&& loaded.inner.counters.trades_opened == 0
            &&& loaded.inner.counters.open_notional == 0
            &&& !loaded.inner.counters.killswitch_tripped
        },
        loaded.inner.counters.utc_date@ == today@,
        copy.counters@ == loaded.inner.counters@,
        copy.recent_trades@ == loaded.inner.recent_trades@,
{
    law_views_show_the_fields(loaded.inner.counters, arbitrary());
}

/// A state for a simulation starts from nothing but its date and its equity.
pub proof fn law_fresh_states_hold_their_equity(date: String, equity: i64, s: State, on: bool)
    requires
        call_ensures(State::ephemeral_on, (date, equity), s),
        call_ensures(State::killswitch_active, (&s,), on),
    ensures
        s.inner.counters.utc_date@ == date@,
        s.inner.counters.starting_equity == equity,
        s.inner.counters.trades_opened == 0,
        s.inner.counters.open_notional == 0,
        s.inner.counters.realized_pnl == 0,
        s.inner.recent_trades@.len() == 0,
        !on,
{
}

} // verus!
