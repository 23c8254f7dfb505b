use options_scanner::broker::{
    default_broker, AlpacaPaper, AssetClass, Broker, BrokerChoice, BrokerError, BrokerResult,
    DryRunBroker, OrderRequest, OrderResult, OrderSize, Position, Session,
};
use options_scanner::clock::Timestamp;
use options_scanner::executor::{pnl_pct, Executor, Plan, Signal, TradingMode};
use options_scanner::risk::{OrderSide, RiskCaps, RiskDecision};
use options_scanner::sim::SimBroker;
use options_scanner::state::{DailyCounters, State, StateSnapshot};

fn micros(x: f64) -> i64 {
    (x * 1_000_000.0).round() as i64
}

fn signal(direction: &str, entry: f64) -> Signal {
    Signal {
        symbol: "AAPL".into(),
        direction: direction.into(),
        entry: micros(entry),
        stop: micros(entry * 0.95),
        target_10: micros(entry * 1.1),
        target_20: micros(entry * 1.2),
        score: micros(4.5),
    }
}

fn executor(mode: TradingMode, equity: f64) -> Executor {
    Executor { state: State::ephemeral(micros(equity)), mode }
}

fn taken() -> OrderResult {
    OrderResult {
        broker_order_id: "abc".into(),
        status: "accepted".into(),
        submitted_at: Timestamp { secs: 1, nanos: 2 },
    }
}

struct Failing;

impl Broker for Failing {
    fn name(&self) -> &'static str {
        "failing"
    }
    fn is_paper(&self) -> bool {
        false
    }
    fn account_equity(&self) -> BrokerResult<i64> {
        Ok(micros(100_000.0))
    }
    fn place_order(&self, _order: &OrderRequest) -> BrokerResult<OrderResult> {
        Err(BrokerError::Rejected("no shares".into()))
    }
    fn list_positions(&self) -> BrokerResult<Vec<Position>> {
        Ok(vec![])
    }
}

#[test]
fn modes_differ_in_caps_and_sizing() {
    assert_eq!(TradingMode::Standard.caps(), RiskCaps::moderate());
    assert_eq!(TradingMode::Tiny.caps(), RiskCaps::tiny());
    assert_eq!(TradingMode::Standard.target_pct_per_trade(), micros(5.0));
    assert_eq!(TradingMode::Tiny.target_pct_per_trade(), micros(75.0));
    assert!(!TradingMode::Standard.use_fractional());
    assert!(TradingMode::Tiny.use_fractional());
    assert!(TradingMode::Standard.allows_options());
    assert!(!TradingMode::Tiny.allows_options());
    assert_eq!(executor(TradingMode::Tiny, 100.0).current_caps(), RiskCaps::tiny());
}

#[test]
fn a_signal_is_filled_and_logged() {
    let mut exec = executor(TradingMode::Standard, 100_000.0);
    let broker = DryRunBroker { mock_equity: micros(100_000.0) };
    let r = exec.execute_signal(&mut Session::new(&broker), signal("bullish", 180.0));
    assert!(matches!(r.decision, RiskDecision::Approve));
    assert_eq!(r.error, None);
    let t = r.trade.unwrap();
    assert_eq!(t.broker, "dry-run");
    assert_eq!(t.symbol, "AAPL");
    assert_eq!(t.side, OrderSide::Buy);
    assert_eq!(t.qty, 27);
    assert_eq!(t.size_repr, "27 sh");
    assert_eq!(t.asset_class, AssetClass::UsEquity);
    assert_eq!(t.estimated_notional, micros(5_000.0));
    assert_eq!(t.status, "accepted_dry_run");
    assert_eq!(t.risk_decision, "approve");
    assert_eq!(t.notes, "");
    let id = t.broker_order_id.unwrap();
    assert_eq!(id.len(), 36);
    assert_eq!(id.as_bytes()[14], b'4');
    let snap = exec.state.snapshot();
    assert_eq!(snap.counters.trades_opened, 1);
    assert_eq!(snap.counters.open_notional, micros(5_000.0));
    assert_eq!(snap.counters.starting_equity, micros(100_000.0));
    assert_eq!(snap.recent_trades.len(), 1);
    assert_eq!(snap.recent_trades[0].id, t.id);
    assert_eq!((t.id >> 76) & 15, 4);
    assert_eq!((t.id >> 62) & 3, 2);
    assert!(t.timestamp.secs > 1_500_000_000);
    assert_eq!(snap.counters.utc_date.len(), 10);
}

#[test]
fn identifiers_are_not_repeated() {
    let mut exec = executor(TradingMode::Standard, 100_000.0);
    let broker = DryRunBroker { mock_equity: micros(100_000.0) };
    let a = exec.execute_signal(&mut Session::new(&broker), signal("bullish", 180.0)).trade.unwrap();
    let b = exec.execute_signal(&mut Session::new(&broker), signal("bullish", 180.0)).trade.unwrap();
    assert_ne!(a.id, b.id);
    assert_ne!(a.broker_order_id, b.broker_order_id);
}

#[test]
fn the_sixth_trade_of_a_day_is_refused() {
    let mut exec = executor(TradingMode::Standard, 100_000.0);
    let broker = SimBroker::new(micros(100_000.0));
    for _ in 0..5 {
        let r = exec.execute_signal_on(&mut Session::new(&broker), signal("bearish", 50.0), "2024-03-01");
        assert!(matches!(r.decision, RiskDecision::Approve));
        assert_eq!(r.trade.unwrap().side, OrderSide::Sell);
    }
    let r = exec.execute_signal_on(&mut Session::new(&broker), signal("bullish", 50.0), "2024-03-01");
    match r.decision {
        RiskDecision::Reject { reason } => {
            assert_eq!(reason, "daily trade count cap reached (5 >= 5)")
        }
        other => panic!("expected a refusal, got {other:?}"),
    }
    let t = r.trade.unwrap();
    assert_eq!(t.status, "rejected");
    assert_eq!(t.risk_decision, "reject: daily trade count cap reached (5 >= 5)");
    assert_eq!(t.notes, "daily trade count cap reached (5 >= 5)");
    assert_eq!(t.qty, 0);
    assert_eq!(t.broker_order_id, None);
    assert_eq!(exec.state.snapshot().counters.trades_opened, 5);
    // the next day has trades left, but the five positions are still open
    let next = exec.execute_signal_on(&mut Session::new(&broker), signal("bullish", 50.0), "2024-03-02");
    match next.decision {
        RiskDecision::Reject { reason } => {
            assert_eq!(reason, "no exposure room left (open 25000.00 / cap 25000.00)")
        }
        other => panic!("expected a refusal, got {other:?}"),
    }
    exec.state.close_position(micros(5_000.0), 0, micros(-8.0));
    let next = exec.execute_signal_on(&mut Session::new(&broker), signal("bullish", 50.0), "2024-03-02");
    assert!(matches!(next.decision, RiskDecision::Approve));
    assert_eq!(exec.state.snapshot().counters.trades_opened, 1);
    assert_eq!(exec.state.snapshot().counters.open_notional, micros(25_000.0));
}

#[test]
fn a_loss_at_the_threshold_trips_the_killswitch_for_good() {
    let mut exec = executor(TradingMode::Standard, 100_000.0);
    exec.state.force_date("2024-03-01");
    let poor = SimBroker::new(micros(92_000.0));
    let r = exec.execute_signal_on(&mut Session::new(&poor), signal("bullish", 50.0), "2024-03-01");
    match r.decision {
        RiskDecision::Reject { reason } => {
            assert_eq!(reason, "killswitch tripping now: daily P&L -8.00% <= -8.00%")
        }
        other => panic!("expected a refusal, got {other:?}"),
    }
    assert!(exec.state.killswitch_active());
    let rich = SimBroker::new(micros(200_000.0));
    let r = exec.execute_signal_on(&mut Session::new(&rich), signal("bullish", 50.0), "2024-03-02");
    assert!(matches!(r.decision, RiskDecision::Reject { .. }));
    assert!(exec.state.killswitch_active());
    exec.state.set_killswitch(false);
    let r = exec.execute_signal_on(&mut Session::new(&rich), signal("bullish", 50.0), "2024-03-02");
    assert!(matches!(r.decision, RiskDecision::Approve));
}

#[test]
fn a_broker_without_equity_refuses_everything() {
    let mut exec = executor(TradingMode::Standard, 100_000.0);
    let plan = exec.plan_signal(
        signal("bullish", 50.0),
        "2024-03-01",
        "alpaca-paper",
        Err(BrokerError::Http("timed out".into())),
    );
    match plan {
        Plan::Done(r) => {
            match r.decision {
                RiskDecision::Reject { reason } => {
                    assert_eq!(reason, "broker equity fetch failed: http: timed out")
                }
                other => panic!("expected a refusal, got {other:?}"),
            }
            assert!(r.trade.is_none());
            assert_eq!(r.error.as_deref(), Some("http: timed out"));
        }
        Plan::Send(_) => panic!("nothing should be sent"),
    }
}

#[test]
fn a_refused_order_is_logged_and_not_counted() {
    let mut exec = executor(TradingMode::Standard, 100_000.0);
    let r = exec.execute_signal(&mut Session::new(&Failing), signal("bullish", 50.0));
    assert!(matches!(r.decision, RiskDecision::Approve));
    assert_eq!(r.error.as_deref(), Some("broker rejected: no shares"));
    let t = r.trade.unwrap();
    assert_eq!(t.status, "error");
    assert_eq!(t.notes, "no broker result");
    assert_eq!(exec.state.snapshot().counters.trades_opened, 0);
    assert_eq!(exec.state.snapshot().counters.open_notional, 0);
    assert_eq!(Failing.is_market_open().unwrap(), true);
}

#[test]
fn an_order_is_planned_sent_and_settled() {
    let mut exec = executor(TradingMode::Tiny, 500.0);
    let plan = exec.plan_signal(
        signal("bullish", 180.0),
        "2024-03-01",
        "alpaca-paper",
        Ok(micros(333.33)),
    );
    let ticket = match plan {
        Plan::Send(ticket) => ticket,
        Plan::Done(r) => panic!("expected an order, got {r:?}"),
    };
    // 75% of 333.33 is 249.9975, to the cent
    assert_eq!(ticket.notional, micros(249.9975));
    assert_eq!(ticket.order.size, OrderSize::Notional { dollars: micros(250.0) });
    let r = exec.settle_order(ticket, "alpaca-paper", Ok(taken()));
    let t = r.trade.unwrap();
    assert_eq!(t.size_repr, "$250.00");
    assert_eq!(t.qty, 0);
    assert_eq!(t.status, "accepted");
    assert_eq!(t.broker_order_id.as_deref(), Some("abc"));
    assert_eq!(exec.state.snapshot().counters.open_notional, micros(249.9975));
}

#[test]
fn a_share_over_the_cap_is_not_bought() {
    let mut exec = executor(TradingMode::Standard, 1_000.0);
    let broker = SimBroker::new(micros(1_000.0));
    let r = exec.execute_signal_on(&mut Session::new(&broker), signal("bullish", 500.0), "2024-03-01");
    match &r.decision {
        RiskDecision::Reject { reason } => {
            assert_eq!(reason, "one share at $500.00 is over the order's $50.00")
        }
        other => panic!("expected a refusal, got {other:?}"),
    }
    let t = r.trade.unwrap();
    assert_eq!(t.status, "rejected");
    assert_eq!(t.qty, 0);
    assert_eq!(t.broker_order_id, None);
    assert_eq!(exec.state.snapshot().counters.trades_opened, 0);
    assert_eq!(exec.state.snapshot().counters.open_notional, 0);
    assert!(!exec.state.killswitch_active());
    let at = |exec: &mut Executor, price: f64| {
        exec.execute_signal_on(&mut Session::new(&broker), signal("bullish", price), "2024-03-01")
            .trade
            .unwrap()
            .qty
    };
    assert_eq!(at(&mut exec, 50.0), 1);
    assert_eq!(at(&mut exec, 16.7), 2);
    assert_eq!(at(&mut exec, 50.000001), 0);
}

#[test]
fn a_fraction_of_a_dear_share_is_bought_in_tiny_mode() {
    let mut exec = executor(TradingMode::Tiny, 100.0);
    let broker = SimBroker::new(micros(100.0));
    let r = exec.execute_signal_on(&mut Session::new(&broker), signal("bullish", 500.0), "2024-03-01");
    assert!(matches!(r.decision, RiskDecision::Approve));
    assert_eq!(r.trade.unwrap().size_repr, "$75.00");
}

#[test]
fn an_order_is_resized_to_the_room_left() {
    let mut exec = executor(TradingMode::Tiny, 1_000.0);
    let broker = SimBroker::new(micros(1_000.0));
    let first = exec.execute_signal_on(&mut Session::new(&broker), signal("bullish", 10.0), "2024-03-01");
    assert!(matches!(first.decision, RiskDecision::Approve));
    // 750 of 800 is open: 50 is left, and 750 is more than four times that
    let second = exec.execute_signal_on(&mut Session::new(&broker), signal("bullish", 10.0), "2024-03-01");
    assert!(matches!(second.decision, RiskDecision::Reject { .. }));
    exec.state.close_position(micros(350.0), 0, micros(-25.0));
    let third = exec.execute_signal_on(&mut Session::new(&broker), signal("bullish", 10.0), "2024-03-01");
    match third.decision {
        RiskDecision::Resize { new_notional, reason } => {
            assert_eq!(new_notional, micros(400.0));
            assert_eq!(reason, "scaled from $750 to $400 to respect caps");
        }
        other => panic!("expected a resize, got {other:?}"),
    }
    assert_eq!(
        third.trade.unwrap().risk_decision,
        "resize: scaled from $750 to $400 to respect caps"
    );
}

#[test]
fn the_daily_pnl_is_rounded_up() {
    assert_eq!(pnl_pct(micros(92_000.0), micros(100_000.0)), -8_000_000);
    assert_eq!(pnl_pct(micros(92_000.000001), micros(100_000.0)), -7_999_999);
    assert_eq!(pnl_pct(micros(1.0), 0), 0);
    assert_eq!(pnl_pct(micros(105.0), micros(100.0)), 5_000_000);
}

#[test]
fn closing_releases_exposure_and_can_trip_the_killswitch() {
    let mut state = State::ephemeral(micros(10_000.0));
    state.close_position(micros(500.0), micros(-799.99), micros(-8.0));
    assert!(!state.killswitch_active());
    assert_eq!(state.snapshot().counters.open_notional, 0);
    state.close_position(0, micros(-0.01), micros(-8.0));
    assert!(state.killswitch_active());
    assert_eq!(state.snapshot().counters.realized_pnl, micros(-800.0));
    state.force_date("2031-01-01");
    assert!(state.killswitch_active());
    assert_eq!(state.snapshot().counters.realized_pnl, micros(-800.0));
    assert_eq!(state.snapshot().counters.starting_equity, micros(10_000.0));
    state.roll_day("2031-01-02");
    assert!(state.killswitch_active());
    assert_eq!(state.snapshot().counters.realized_pnl, 0);
    assert_eq!(state.snapshot().counters.starting_equity, 0);
    state.set_starting_equity_if_unset(micros(7.0));
    state.set_starting_equity_if_unset(micros(8.0));
    assert_eq!(state.snapshot().counters.starting_equity, micros(7.0));
}

#[test]
fn a_saved_state_is_loaded() {
    let empty = State::load(None);
    assert_eq!(empty.snapshot().counters.trades_opened, 0);
    let today = empty.snapshot().counters.utc_date.clone();
    let saved = StateSnapshot {
        counters: DailyCounters {
            utc_date: today,
            trades_opened: 4,
            open_notional: micros(12.0),
            realized_pnl: micros(1.0),
            starting_equity: micros(100.0),
            killswitch_tripped: true,
        },
        recent_trades: vec![],
    };
    let state = State::load(Some(saved.clone()));
    assert_eq!(state.snapshot().counters.trades_opened, 4);
    assert!(state.killswitch_active());
    let mut old = saved;
    old.counters.utc_date = "2001-02-03".into();
    let state = State::load(Some(old.clone()));
    assert_eq!(state.snapshot().counters.trades_opened, 0);
    assert_eq!(state.snapshot().counters.open_notional, micros(12.0));
    assert_ne!(state.snapshot().counters.utc_date, "2001-02-03");
    assert!(state.killswitch_active());
    let state = State::load_on(Some(old), "2001-02-03");
    assert_eq!(state.snapshot().counters.trades_opened, 4);
    assert_eq!(state.snapshot().counters.realized_pnl, micros(1.0));
    assert_eq!(State::load_on(None, "2001-02-03").snapshot().counters.utc_date, "2001-02-03");
}

#[test]
fn the_log_keeps_the_newest_trades() {
    let mut state = State::ephemeral(micros(100.0));
    let order = OrderRequest {
        symbol: "A".into(),
        size: OrderSize::Shares { qty: 1 },
        side: OrderSide::Buy,
        asset_class: AssetClass::UsEquity,
    };
    let refuse = RiskDecision::Reject { reason: "no".into() };
    for i in 0..205i64 {
        state.record_decision(&order, i, "sim", &refuse, None);
    }
    let log = state.snapshot().recent_trades;
    assert_eq!(log.len(), 200);
    assert_eq!(log[0].estimated_notional, 204);
    assert_eq!(log[199].estimated_notional, 5);
}

#[test]
fn a_resize_without_an_answer_is_an_error() {
    let mut state = State::ephemeral(micros(100.0));
    let order = OrderRequest {
        symbol: "A".into(),
        size: OrderSize::Notional { dollars: micros(12.345) },
        side: OrderSide::Sell,
        asset_class: AssetClass::UsEquity,
    };
    let resize = RiskDecision::Resize { new_notional: 1, reason: "why".into() };
    let e = state.record_decision(&order, 1, "sim", &resize, None);
    assert_eq!(e.status, "error");
    assert_eq!(e.notes, "why");
    assert_eq!(e.risk_decision, "resize: why");
    assert_eq!(e.size_repr, "$12.34");
    let e = state.record_decision(&order, 1, "sim", &resize, Some(&taken()));
    assert_eq!(e.status, "accepted");
    assert_eq!(e.notes, "");
    assert_eq!(state.snapshot().counters.trades_opened, 1);
}

#[test]
fn sizes_convert_at_a_price() {
    let shares = OrderSize::Shares { qty: 7 };
    let dollars = OrderSize::Notional { dollars: micros(100.0) };
    assert_eq!(shares.approx_shares(micros(3.0)), 7);
    assert_eq!(shares.notional(micros(3.0)), micros(21.0) as i128);
    assert_eq!(dollars.approx_shares(micros(30.0)), 3);
    assert_eq!(dollars.approx_shares(0), 0);
    assert_eq!(dollars.notional(micros(30.0)), micros(100.0) as i128);
}

#[test]
fn alpaca_orders_name_shares_or_dollars() {
    let mut order = OrderRequest {
        symbol: "MSFT".into(),
        size: OrderSize::Shares { qty: 12 },
        side: OrderSide::Buy,
        asset_class: AssetClass::UsEquity,
    };
    let body = AlpacaPaper::order_body(&order).unwrap();
    assert_eq!(body.symbol, "MSFT");
    assert_eq!(body.side, "buy");
    assert_eq!(body.order_type, "market");
    assert_eq!(body.time_in_force, "day");
    assert_eq!(body.qty.as_deref(), Some("12"));
    assert_eq!(body.notional, None);
    order.size = OrderSize::Notional { dollars: micros(50.5) };
    order.side = OrderSide::Sell;
    let body = AlpacaPaper::order_body(&order).unwrap();
    assert_eq!(body.side, "sell");
    assert_eq!(body.qty, None);
    assert_eq!(body.notional.as_deref(), Some("50.50"));
    order.asset_class = AssetClass::UsOption;
    let e = AlpacaPaper::order_body(&order).unwrap_err();
    assert!(matches!(e, BrokerError::Unsupported(_)));
    assert_eq!(e.message(), "unsupported: Alpaca does not support fractional options");
    order.size = OrderSize::Shares { qty: 1 };
    assert!(AlpacaPaper::order_body(&order).is_ok());
}

#[test]
fn alpaca_refusals_are_kept_as_they_are() {
    assert_eq!(AlpacaPaper::order_reply(true, "{}".into()).unwrap(), "{}");
    let e = AlpacaPaper::order_reply(false, "insufficient buying power".into()).unwrap_err();
    assert_eq!(e.message(), "broker rejected: insufficient buying power");
}

#[test]
fn broker_errors_are_shown_with_their_kind() {
    assert_eq!(BrokerError::Http("x".into()).message(), "http: x");
    assert_eq!(BrokerError::Auth("x".into()).message(), "auth: x");
    assert_eq!(BrokerError::Rejected("x".into()).message(), "broker rejected: x");
    assert_eq!(BrokerError::Unsupported("x".into()).message(), "unsupported: x");
}

#[test]
fn alpaca_needs_both_settings() {
    match default_broker(Some("k".into()), Some("s".into())) {
        BrokerChoice::Alpaca(a) => {
            assert_eq!(a.base, "https://paper-api.alpaca.markets");
            assert_eq!(a.key, "k");
            assert_eq!(a.secret, "s");
        }
        BrokerChoice::DryRun(_) => panic!("expected alpaca"),
    }
    match default_broker(Some("k".into()), None) {
        BrokerChoice::DryRun(d) => {
            assert_eq!(d.mock_equity, micros(100_000.0));
            assert_eq!(d.name(), "dry-run");
            assert!(d.is_paper());
            assert_eq!(d.account_equity().unwrap(), micros(100_000.0));
            assert!(d.list_positions().unwrap().is_empty());
        }
        BrokerChoice::Alpaca(_) => panic!("expected a dry run"),
    }
}

#[test]
fn a_sim_broker_holds_the_account() {
    let mut b = SimBroker::new(micros(10.0));
    b.apply_pnl(micros(-2.5));
    assert_eq!(b.equity_value(), micros(7.5));
    assert_eq!(b.account_equity().unwrap(), micros(7.5));
    assert_eq!(b.name(), "sim");
    assert!(b.is_paper());
    assert!(b.list_positions().unwrap().is_empty());
}

#[test]
fn closing_what_was_opened_releases_it() {
    let mut exec = executor(TradingMode::Standard, 100_000.0);
    let broker = SimBroker::new(micros(100_000.0));
    exec.execute_signal_on(&mut Session::new(&broker), signal("bullish", 50.0), "2024-03-01");
    let before = exec.state.snapshot().counters;
    exec.execute_signal_on(&mut Session::new(&broker), signal("bullish", 50.0), "2024-03-01");
    exec.state.close_position(micros(5_000.0), micros(12.0), micros(-8.0));
    let after = exec.state.snapshot().counters;
    assert_eq!(after.open_notional, before.open_notional);
    assert_eq!(after.trades_opened, before.trades_opened + 1);
    assert_eq!(after.realized_pnl, micros(12.0));
}
