use options_scanner::risk::RiskCaps;
use options_scanner::sim::{
    date_trades, slipped, BacktestTrade, Bar, DatedTrade, SimError, SimReport, Simulator, SlipKind,
};

fn micros(x: f64) -> i64 {
    (x * 1_000_000.0).round() as i64
}

fn bar(date: &str, close: f64, high: f64, low: f64) -> Bar {
    Bar { date: date.into(), close: micros(close), high: micros(high), low: micros(low) }
}

fn winning_trade(sym: &str, entry_date: &str, exit_date: &str) -> BacktestTrade {
    BacktestTrade {
        symbol: sym.into(),
        direction: "bullish".into(),
        entry_date: entry_date.into(),
        entry: micros(100.0),
        stop: micros(95.0),
        target_10: micros(110.0),
        target_20: micros(120.0),
        score: micros(5.0),
        outcome: "target_20".into(),
        exit_date: exit_date.into(),
        exit_price: micros(120.0),
        return_pct: micros(20.0),
        bars: vec![bar(entry_date, 100.0, 101.0, 99.0), bar(exit_date, 120.0, 121.0, 100.0)],
    }
}

fn losing_trade(sym: &str, entry_date: &str, exit_date: &str) -> BacktestTrade {
    // Larger loss per trade than a real stop would produce: this is for the kill-switch.
    let mut t = winning_trade(sym, entry_date, exit_date);
    t.outcome = "stop".into();
    t.exit_price = micros(50.0);
    t.return_pct = micros(-50.0);
    t.bars = vec![bar(entry_date, 100.0, 100.0, 99.0), bar(exit_date, 50.0, 100.0, 49.0)];
    t
}

fn simulator(caps: RiskCaps, equity: f64, bps: f64) -> Simulator {
    Simulator {
        caps,
        starting_equity: micros(equity),
        target_pct_per_trade: micros(5.0),
        slippage_bps: micros(bps),
    }
}

fn percent(x: i128) -> f64 {
    x as f64 / 1_000_000.0
}

fn return_pct(r: &SimReport) -> f64 {
    percent(r.return_pct.unwrap())
}

fn lines(r: &SimReport) -> Vec<String> {
    r.events
        .iter()
        .map(|e| {
            format!(
                "{} {} {} | {} | {}",
                e.kind,
                e.date,
                e.symbol.clone().unwrap_or_default(),
                e.detail,
                e.equity_after
            )
        })
        .collect()
}

#[test]
fn zero_slippage_matches_backtest_pnl_within_bounds() {
    let sim = simulator(RiskCaps::moderate(), 100_000.0, 0.0);
    let r = sim.run(vec![winning_trade("AAA", "2024-01-02", "2024-01-10")], "t").unwrap();
    assert_eq!(r.orders_filled, 1);
    // entry 100, exit 120, qty = floor(5000/100) = 50: a P&L of +1000, +1% on 100k
    assert!(return_pct(&r) > 0.5 && return_pct(&r) < 1.5, "got {}", return_pct(&r));
}

#[test]
fn slippage_reduces_pnl_vs_no_slippage() {
    let no_slip = simulator(RiskCaps::moderate(), 100_000.0, 0.0);
    let with_slip = simulator(RiskCaps::moderate(), 100_000.0, 50.0);
    let trade = vec![winning_trade("AAA", "2024-01-02", "2024-01-10")];
    let a = no_slip.run(trade.clone(), "no").unwrap();
    let b = with_slip.run(trade, "yes").unwrap();
    assert!(
        return_pct(&b) < return_pct(&a),
        "slip should hurt: {} vs {}",
        return_pct(&a),
        return_pct(&b)
    );
}

#[test]
fn many_losers_trip_killswitch_via_mtm() {
    let trades: Vec<BacktestTrade> = (0..8)
        .map(|i| {
            let d = format!("2024-01-{:02}", i + 2);
            let e = format!("2024-01-{:02}", i + 3);
            losing_trade(&format!("L{i}"), &d, &e)
        })
        .collect();
    let sim = simulator(RiskCaps::moderate(), 10_000.0, 0.0);
    let r = sim.run(trades, "kill").unwrap();
    // Several losers in a row push the combined P&L past -8%.
    assert!(
        r.killswitch_tripped || r.orders_rejected > 0,
        "expected killswitch or cap rejections; got {:?}",
        r
    );
}

#[test]
fn a_winner_is_reported_exactly() {
    let sim = simulator(RiskCaps::moderate(), 100_000.0, 0.0);
    let r = sim.run(vec![winning_trade("AAA", "2024-01-02", "2024-01-10")], "one").unwrap();
    assert_eq!(r.label, "one");
    assert_eq!(r.starting_equity, micros(100_000.0));
    assert_eq!(r.final_equity, micros(101_000.0));
    assert_eq!(r.total_signals, 1);
    assert_eq!(r.orders_rejected, 0);
    assert_eq!(r.orders_resized, 0);
    assert!(!r.killswitch_tripped);
    assert_eq!(r.max_drawdown_pct, 0);
    assert_eq!(r.max_unrealized_drawdown_pct, 0);
    assert_eq!(r.return_pct, Some(1_000_000));
    assert_eq!(
        lines(&r),
        vec![
            "decision 2024-01-02 AAA | FILL qty=50 notional=$5000 (slip 0bps) | 100000000000"
                .to_string(),
            "close 2024-01-10 AAA | close pnl=$1000.00 | 101000000000".to_string(),
        ]
    );
}

#[test]
fn slippage_is_paid_on_both_sides() {
    let at = |price: f64, buy: bool, kind: SlipKind, bps: f64| {
        slipped(micros(price), buy, kind, micros(bps))
    };
    assert_eq!(at(100.0, true, SlipKind::Entry, 50.0), 100_500_000);
    assert_eq!(at(100.0, true, SlipKind::Exit, 50.0), 99_500_000);
    assert_eq!(at(100.0, false, SlipKind::Entry, 50.0), 99_500_000);
    assert_eq!(at(100.0, false, SlipKind::Exit, 50.0), 100_500_000);
    assert_eq!(at(123.45, true, SlipKind::Entry, 0.0), 123_450_000);
}

#[test]
fn a_short_earns_when_the_price_falls() {
    let mut t = losing_trade("SHRT", "2024-01-02", "2024-01-10");
    t.direction = "bearish".into();
    let sim = simulator(RiskCaps::moderate(), 100_000.0, 0.0);
    let r = sim.run(vec![t], "short").unwrap();
    // 50 shares sold at 100, bought back at 50
    assert_eq!(r.final_equity, micros(102_500.0));
}

#[test]
fn the_killswitch_trips_on_open_losses() {
    // 40 shares fall from 100 to 10 before anything is closed: -36% of 10,000 is not reached
    // with one position of 5%, so five are opened.
    let trades: Vec<BacktestTrade> = (0..5)
        .map(|i| {
            let mut t = losing_trade(&format!("L{i}"), "2024-01-02", "2024-02-01");
            t.bars = vec![bar("2024-01-03", 60.0, 60.0, 60.0)];
            t
        })
        .collect();
    let mut late = winning_trade("LATE", "2024-01-04", "2024-02-01");
    late.bars = vec![];
    let mut all = trades;
    all.push(late);
    let sim = simulator(RiskCaps::moderate(), 100_000.0, 0.0);
    let r = sim.run(all, "mtm").unwrap();
    // five positions of 50 shares lose 40 each: -10,000, which is -10%
    assert!(r.killswitch_tripped);
    assert_eq!(r.orders_filled, 5);
    assert_eq!(r.orders_rejected, 1);
    let log = lines(&r);
    assert_eq!(
        log[5],
        "killswitch 2024-01-03  | killswitch tripped on MTM: combined P&L -10.00% <= -8.00% | 90000000000"
    );
    assert_eq!(
        log[6],
        "decision 2024-01-04 LATE | REJECT: killswitch active (daily P&L 0.00% <= -8.00%) | 100000000000"
    );
    assert_eq!(r.max_unrealized_drawdown_pct, 10_000_000);
    // each closes at 50: -12,500 realized
    assert_eq!(r.final_equity, micros(87_500.0));
    assert_eq!(r.max_drawdown_pct, 12_500_000);
    assert_eq!(r.return_pct, Some(-12_500_000));
}

#[test]
fn a_tripped_killswitch_blocks_the_days_after() {
    let mut trades = vec![losing_trade("BIG", "2024-01-02", "2024-01-03")];
    trades[0].exit_price = 0;
    for i in 0..4 {
        trades.push(losing_trade(&format!("B{i}"), "2024-01-02", "2024-01-03"));
    }
    trades.push(winning_trade("NEXT", "2024-01-05", "2024-01-08"));
    trades.push(winning_trade("LAST", "2024-01-09", "2024-01-10"));
    let sim = simulator(RiskCaps::moderate(), 100_000.0, 0.0);
    let r = sim.run(trades, "block").unwrap();
    // -5,000 and four times -2,500: -15%
    assert_eq!(r.orders_filled, 5);
    assert_eq!(r.orders_rejected, 2);
    assert!(r.killswitch_tripped);
    assert_eq!(r.final_equity, micros(85_000.0));
}

#[test]
fn every_readable_signal_is_answered_once() {
    let mut trades: Vec<BacktestTrade> = (0..7)
        .map(|i| winning_trade(&format!("T{i}"), "2024-01-02", "2024-01-10"))
        .collect();
    trades[3].entry_date = "soon".into();
    let sim = simulator(RiskCaps::moderate(), 100_000.0, 10.0);
    let r = sim.run(trades, "count").unwrap();
    assert_eq!(r.total_signals, 7);
    // five fill the day's trades, one is refused, one has no date
    assert_eq!(r.orders_filled, 5);
    assert_eq!(r.orders_rejected, 1);
    let kinds: Vec<&str> = r.events.iter().map(|e| e.kind.as_str()).collect();
    assert_eq!(kinds.iter().filter(|k| **k == "decision").count(), 6);
    assert_eq!(kinds.iter().filter(|k| **k == "close").count(), 5);
}

#[test]
fn an_unreadable_exit_date_closes_at_the_end() {
    let mut t = winning_trade("AAA", "2024-01-02", "2024-01-10");
    t.exit_date = "never".into();
    let sim = simulator(RiskCaps::moderate(), 100_000.0, 0.0);
    let r = sim.run(vec![t], "open").unwrap();
    assert_eq!(
        lines(&r)[1],
        "close 2024-01-10 AAA | end-of-sim close pnl=$1000.00 | 101000000000"
    );
    assert_eq!(r.final_equity, micros(101_000.0));
}

#[test]
fn tiny_mode_trades_dollar_amounts() {
    let mut sim = simulator(RiskCaps::tiny(), 500.0, 0.0);
    sim.target_pct_per_trade = micros(75.0);
    let r = sim.run(vec![winning_trade("AAA", "2024-01-02", "2024-01-10")], "tiny").unwrap();
    assert_eq!(lines(&r)[0], "decision 2024-01-02 AAA | FILL qty=0 notional=$375 (slip 0bps) | 500000000");
    // 3.75 shares earn 20 each
    assert_eq!(r.final_equity, micros(575.0));
}

#[test]
fn trades_are_replayed_in_the_order_of_their_dates() {
    let trades = vec![
        winning_trade("B", "2024-01-03", "2024-01-10"),
        winning_trade("A", "2024-01-02", "2024-01-10"),
    ];
    let sim = simulator(RiskCaps::moderate(), 100_000.0, 0.0);
    let r = sim.run(trades, "sort").unwrap();
    assert_eq!(r.events[0].symbol.as_deref(), Some("A"));
    assert_eq!(r.events[1].symbol.as_deref(), Some("B"));
}

#[test]
fn a_split_replays_both_parts() {
    let trades: Vec<BacktestTrade> = (0..10)
        .map(|i| {
            let d = format!("2024-01-{:02}", 20 - i);
            winning_trade(&format!("T{i}"), &d, "2024-02-01")
        })
        .collect();
    let sim = simulator(RiskCaps::moderate(), 100_000.0, 0.0);
    let (train, test) = sim.run_oos(trades.clone(), micros(0.7)).unwrap();
    assert_eq!(train.label, "train");
    assert_eq!(test.label, "test");
    assert_eq!(train.total_signals, 7);
    assert_eq!(test.total_signals, 3);
    assert_eq!(train.events[0].symbol.as_deref(), Some("T9"));
    assert_eq!(test.events[0].symbol.as_deref(), Some("T2"));
    let (low, _) = sim.run_oos(trades.clone(), micros(-3.0)).unwrap();
    assert_eq!(low.total_signals, 1);
    let (high, _) = sim.run_oos(trades, micros(2.0)).unwrap();
    assert_eq!(high.total_signals, 9);
}

#[test]
fn nothing_to_replay_changes_nothing() {
    let sim = simulator(RiskCaps::moderate(), 100_000.0, 10.0);
    let r = sim.run(vec![], "none").unwrap();
    assert_eq!(r.final_equity, micros(100_000.0));
    assert_eq!(r.total_signals, 0);
    assert_eq!(r.return_pct, Some(0));
    assert!(r.events.is_empty());
    let broke = simulator(RiskCaps::moderate(), 0.0, 10.0);
    assert_eq!(broke.run(vec![], "none").unwrap().return_pct, None);
}

#[test]
fn amounts_out_of_range_are_an_error() {
    let mut t = winning_trade("AAA", "2024-01-02", "2024-01-10");
    t.exit_price = i64::MAX;
    let sim = simulator(RiskCaps::moderate(), 100_000.0, 10.0);
    let e = sim.run(vec![t.clone()], "big").unwrap_err();
    assert_eq!(e, SimError::OutOfRange);
    assert_eq!(e.message(), "an amount of the simulation is out of range");
    assert_eq!(sim.run_oos(vec![t], micros(0.5)).unwrap_err(), SimError::OutOfRange);
}

#[test]
fn trades_of_one_date_keep_their_order() {
    let trades = vec![
        winning_trade("C", "2024-01-03", "2024-01-10"),
        winning_trade("B", "2024-01-03", "2024-01-10"),
        winning_trade("A", "2024-01-02", "2024-01-10"),
        winning_trade("D", "2024-01-03", "2024-01-10"),
    ];
    let sim = simulator(RiskCaps::moderate(), 100_000.0, 0.0);
    let r = sim.run(trades, "ties").unwrap();
    let symbols: Vec<String> =
        r.events.iter().take(4).map(|e| e.symbol.clone().unwrap_or_default()).collect();
    assert_eq!(symbols, vec!["A", "C", "B", "D"]);
}

#[test]
fn a_drawdown_is_remembered_after_a_recovery() {
    let mut t = winning_trade("AAA", "2024-01-02", "2024-01-10");
    t.bars = vec![bar("2024-01-04", 40.0, 40.0, 40.0), bar("2024-01-05", 130.0, 130.0, 130.0)];
    let sim = simulator(RiskCaps::moderate(), 100_000.0, 0.0);
    let r = sim.run(vec![t], "dip").unwrap();
    // 50 shares fall by 60: 3% of the account, while nothing is realized
    assert_eq!(r.max_unrealized_drawdown_pct, 3_000_000);
    assert_eq!(r.max_drawdown_pct, 0);
    assert_eq!(r.final_equity, micros(101_000.0));
}

#[test]
fn open_positions_count_over_the_days() {
    let trades: Vec<BacktestTrade> = (0..6)
        .map(|i| {
            let mut t = winning_trade(&format!("T{i}"), &format!("2024-01-{:02}", i + 2), "2024-01-20");
            t.exit_price = micros(100.0);
            t.bars = vec![];
            t
        })
        .collect();
    let sim = simulator(RiskCaps::moderate(), 100_000.0, 0.0);
    let r = sim.run(trades, "x").unwrap();
    assert_eq!(r.orders_filled, 5);
    assert_eq!(r.orders_rejected, 1);
    assert_eq!(r.final_equity, micros(100_000.0));
    assert_eq!(
        lines(&r)[5],
        "decision 2024-01-07 T5 | REJECT: no exposure room left (open 25000.00 / cap 25000.00) | 100000000000"
    );
}

#[test]
fn a_dear_share_is_not_bought_in_a_simulation() {
    let mut t = winning_trade("AAA", "2024-01-02", "2024-01-10");
    t.entry = micros(500.0);
    let r = simulator(RiskCaps::moderate(), 1_000.0, 0.0).run(vec![t], "dear").unwrap();
    assert_eq!(r.orders_filled, 0);
    assert_eq!(r.orders_rejected, 1);
    assert_eq!(r.final_equity, micros(1_000.0));
}

#[test]
fn trades_are_replayed_over_given_days() {
    let dated = |entry_day: Option<i32>, exit_day: Option<i32>, closes: Vec<(i32, i64)>| DatedTrade {
        trade: winning_trade("AAA", "", ""),
        entry_day,
        exit_day,
        closes,
    };
    let sim = simulator(RiskCaps::moderate(), 100_000.0, 0.0);
    let days = vec![(7, "seven".to_string()), (8, "eight".to_string()), (9, "nine".to_string())];
    let r = sim
        .replay(&vec![dated(Some(7), Some(9), vec![(8, micros(90.0))])], &days, "given")
        .unwrap();
    assert_eq!(
        lines(&r),
        vec![
            "decision seven AAA | FILL qty=50 notional=$5000 (slip 0bps) | 100000000000".to_string(),
            "close nine AAA | close pnl=$1000.00 | 101000000000".to_string(),
        ]
    );
    assert_eq!(r.max_unrealized_drawdown_pct, 500_000);
    let none = sim.replay(&vec![dated(None, Some(9), vec![])], &days, "none").unwrap();
    assert_eq!(none.orders_filled + none.orders_rejected, 0);
    assert_eq!(none.total_signals, 1);
}

#[test]
fn dates_are_read_as_days() {
    let mut t = winning_trade("AAA", "0001-01-01", "2024-01-10");
    t.bars = vec![bar("0001-12-31", 1.0, 1.0, 1.0), bar("x", 2.0, 2.0, 2.0)];
    let d = date_trades(vec![t]);
    assert_eq!(d[0].entry_day, Some(1));
    assert_eq!(d[0].exit_day, Some(738_895));
    assert_eq!(d[0].closes, vec![(365, micros(1.0))]);
}

#[test]
fn slippage_is_rounded_against_the_trader() {
    assert_eq!(slipped(1, true, SlipKind::Entry, micros(1.0)), 2);
    assert_eq!(slipped(1, false, SlipKind::Exit, micros(1.0)), 2);
    assert_eq!(slipped(1, true, SlipKind::Exit, micros(1.0)), 0);
    assert_eq!(slipped(1, false, SlipKind::Entry, micros(1.0)), 0);
    assert_eq!(slipped(micros(33.333333), true, SlipKind::Entry, micros(10.0)), 33_366_667);
    assert_eq!(slipped(micros(33.333333), true, SlipKind::Exit, micros(10.0)), 33_299_999);
}

#[test]
fn more_slippage_ends_lower_for_longs_and_shorts() {
    for direction in ["bullish", "bearish"] {
        let mut t = winning_trade("AAA", "2024-01-02", "2024-01-10");
        t.direction = direction.into();
        let mut last = i64::MAX;
        for bps in [0.0, 1.0, 25.0, 400.0] {
            let r = simulator(RiskCaps::moderate(), 100_000.0, bps).run(vec![t.clone()], "s").unwrap();
            assert_eq!(r.orders_filled, 1);
            assert!(r.final_equity < last);
            last = r.final_equity;
        }
    }
}

#[test]
fn more_slippage_ends_lower_for_dollar_amounts() {
    let t = winning_trade("AAA", "2024-01-02", "2024-01-10");
    let end = |bps: f64| {
        simulator(RiskCaps::tiny(), 500.0, bps).run(vec![t.clone()], "s").unwrap().final_equity
    };
    assert_eq!(end(0.0), micros(575.0));
    // 3.75 shares at 0.01 and 0.012 more
    assert_eq!(end(1.0), micros(574.9175));
}

#[test]
fn event_dates_never_go_back() {
    let trades: Vec<BacktestTrade> = (0..6)
        .map(|i| {
            let d = format!("2024-01-{:02}", 9 - i);
            winning_trade(&format!("T{i}"), &d, &format!("2024-01-{:02}", 12 + i % 3))
        })
        .collect();
    let r = simulator(RiskCaps::moderate(), 100_000.0, 10.0).run(trades, "dates").unwrap();
    let dates: Vec<&str> = r.events.iter().map(|e| e.date.as_str()).collect();
    let mut sorted = dates.clone();
    sorted.sort();
    assert_eq!(dates, sorted);
}
