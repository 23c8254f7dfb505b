use options_scanner::risk::{check, OrderSide, ProposedOrder, RiskCaps, RiskDecision, RiskSnapshot};

fn micros(x: f64) -> i64 {
    (x * 1_000_000.0).round() as i64
}

fn snap(equity: f64, trades: u32, open: f64, pnl: f64, kill: bool) -> RiskSnapshot {
    RiskSnapshot {
        account_equity: micros(equity),
        trades_today: trades,
        open_notional: micros(open),
        daily_pnl_pct: micros(pnl) as i128,
        killswitch_tripped: kill,
    }
}

fn order(notional: f64) -> ProposedOrder {
    ProposedOrder {
        symbol: "AAPL".into(),
        side: OrderSide::Buy,
        estimated_notional: micros(notional),
    }
}

fn reason(d: RiskDecision) -> String {
    match d {
        RiskDecision::Approve => "approve".into(),
        RiskDecision::Reject { reason } => reason,
        RiskDecision::Resize { reason, .. } => reason,
    }
}

#[test]
fn approves_when_under_caps() {
    let r = check(&RiskCaps::moderate(), &snap(100_000.0, 0, 0.0, 0.0, false), &order(4_000.0));
    assert!(matches!(r, RiskDecision::Approve));
}

#[test]
fn resizes_when_over_per_trade() {
    let r = check(&RiskCaps::moderate(), &snap(100_000.0, 0, 0.0, 0.0, false), &order(8_000.0));
    match r {
        RiskDecision::Resize { new_notional, .. } => {
            assert!((new_notional as f64 / 1_000_000.0 - 5_000.0).abs() < 0.01)
        }
        other => panic!("expected resize, got {other:?}"),
    }
}

#[test]
fn rejects_when_killswitch_active() {
    let r = check(&RiskCaps::moderate(), &snap(100_000.0, 0, 0.0, 0.0, true), &order(1_000.0));
    assert!(matches!(r, RiskDecision::Reject { .. }));
}

#[test]
fn rejects_when_drawdown_exceeded() {
    let r = check(&RiskCaps::moderate(), &snap(100_000.0, 0, 0.0, -9.0, false), &order(1_000.0));
    assert!(matches!(r, RiskDecision::Reject { .. }));
}

#[test]
fn rejects_when_daily_count_reached() {
    let r = check(&RiskCaps::moderate(), &snap(100_000.0, 5, 0.0, 0.0, false), &order(1_000.0));
    assert!(matches!(r, RiskDecision::Reject { .. }));
}

#[test]
fn rejects_when_total_exposure_full() {
    let r = check(&RiskCaps::moderate(), &snap(100_000.0, 0, 25_000.0, 0.0, false), &order(1.0));
    assert!(matches!(r, RiskDecision::Reject { .. }));
}

#[test]
fn rejects_when_request_absurdly_large() {
    let r = check(&RiskCaps::moderate(), &snap(100_000.0, 0, 0.0, 0.0, false), &order(50_000.0));
    assert!(matches!(r, RiskDecision::Reject { .. }));
}

#[test]
fn presets_are_those_of_the_table() {
    let m = RiskCaps::moderate();
    assert_eq!(m.max_trades_per_day, 5);
    assert_eq!(m.max_pct_per_trade, micros(5.0));
    assert_eq!(m.max_pct_total_exposure, micros(25.0));
    assert_eq!(m.daily_drawdown_killswitch_pct, micros(-8.0));
    let t = RiskCaps::tiny();
    assert_eq!(t.max_trades_per_day, 3);
    assert_eq!(t.max_pct_per_trade, micros(80.0));
    assert_eq!(t.max_pct_total_exposure, micros(80.0));
    assert_eq!(t.daily_drawdown_killswitch_pct, micros(-25.0));
}

#[test]
fn refusals_say_why() {
    let caps = RiskCaps::moderate();
    let say = |s: RiskSnapshot, n: f64| reason(check(&caps, &s, &order(n)));
    assert_eq!(
        say(snap(100_000.0, 0, 0.0, -1.5, true), 1.0),
        "killswitch active (daily P&L -1.50% <= -8.00%)"
    );
    assert_eq!(
        say(snap(100_000.0, 0, 0.0, -8.0, false), 1.0),
        "killswitch tripping now: daily P&L -8.00% <= -8.00%"
    );
    assert_eq!(
        say(snap(100_000.0, 5, 0.0, 0.0, false), 1.0),
        "daily trade count cap reached (5 >= 5)"
    );
    assert_eq!(say(snap(0.0, 0, 0.0, 0.0, false), 1.0), "non-positive account equity");
    assert_eq!(say(snap(100_000.0, 0, 0.0, 0.0, false), 0.0), "non-positive order notional");
    assert_eq!(
        say(snap(100_000.0, 0, 25_000.0, 0.0, false), 1.0),
        "no exposure room left (open 25000.00 / cap 25000.00)"
    );
    assert_eq!(
        say(snap(100_000.0, 0, 0.0, 0.0, false), 20_001.0),
        "requested notional $20001 is >4x the per-order ceiling $5000 — refusing to resize"
    );
    assert_eq!(
        say(snap(100_000.0, 0, 0.0, 0.0, false), 8_000.0),
        "scaled from $8000 to $5000 to respect caps"
    );
}

#[test]
fn boundaries_are_exact() {
    let caps = RiskCaps::moderate();
    let s = snap(100_000.0, 0, 0.0, 0.0, false);
    assert!(matches!(check(&caps, &s, &order(5_000.0)), RiskDecision::Approve));
    assert!(matches!(check(&caps, &s, &order(5_000.000001)), RiskDecision::Resize { .. }));
    assert!(matches!(check(&caps, &s, &order(20_000.0)), RiskDecision::Resize { .. }));
    assert!(matches!(check(&caps, &s, &order(20_000.000001)), RiskDecision::Reject { .. }));
    let just_above = snap(100_000.0, 0, 0.0, -7.999999, false);
    assert!(matches!(check(&caps, &just_above, &order(1.0)), RiskDecision::Approve));
}

#[test]
fn a_resized_order_is_approved() {
    let caps = RiskCaps::moderate();
    let s = snap(100_000.0, 1, 21_000.0, 0.0, false);
    match check(&caps, &s, &order(8_000.0)) {
        RiskDecision::Resize { new_notional, .. } => {
            assert_eq!(new_notional, micros(4_000.0));
            let again = ProposedOrder {
                symbol: "AAPL".into(),
                side: OrderSide::Sell,
                estimated_notional: new_notional,
            };
            assert!(matches!(check(&caps, &s, &again), RiskDecision::Approve));
        }
        other => panic!("expected resize, got {other:?}"),
    }
}

#[test]
fn a_smaller_order_is_approved_too() {
    let caps = RiskCaps::tiny();
    let s = snap(500.0, 2, 0.0, 0.0, false);
    assert!(matches!(check(&caps, &s, &order(400.0)), RiskDecision::Approve));
    assert!(matches!(check(&caps, &s, &order(0.01)), RiskDecision::Approve));
}

#[test]
fn a_ceiling_under_a_millionth_is_no_room() {
    let s = RiskSnapshot {
        account_equity: 10,
        trades_today: 0,
        open_notional: 0,
        daily_pnl_pct: 0,
        killswitch_tripped: false,
    };
    let o = ProposedOrder { symbol: "A".into(), side: OrderSide::Buy, estimated_notional: 1 };
    assert!(matches!(check(&RiskCaps::moderate(), &s, &o), RiskDecision::Reject { .. }));
}
