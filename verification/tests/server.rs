use options_scanner::api::{
    agent_guard, fetch_failure, initial_mode, parse_failure, reported_equity,
    reported_market_open, script_list, script_output, script_reply, script_status, take_chars,
    universe_reply, BacktestParams, Guard, ScanParams, ScriptRun,
    SimulateParams, Simulation,
};
use options_scanner::broker::BrokerError;
use options_scanner::executor::{Signal, TradingMode};
use options_scanner::health::{health, python_probe, uv_version, PythonProbe};
use options_scanner::risk::RiskCaps;
use options_scanner::scheduler::{
    next_step, scan_args, scan_output, Learned, SchedulerConfig, Step,
};
use options_scanner::sim::BacktestTrade;
use options_scanner::text::{decimal_text, fixed0_text, fixed2_text};

fn micros(x: f64) -> i64 {
    (x * 1_000_000.0).round() as i64
}

fn trade(date: &str) -> BacktestTrade {
    BacktestTrade {
        symbol: "AAA".into(),
        direction: "bullish".into(),
        entry_date: date.into(),
        entry: micros(100.0),
        stop: 0,
        target_10: 0,
        target_20: 0,
        score: 0,
        outcome: "timeout".into(),
        exit_date: "2024-06-01".into(),
        exit_price: micros(110.0),
        return_pct: 0,
        bars: vec![],
    }
}

fn backtest() -> BacktestParams {
    BacktestParams {
        min_score: Some("3.5".into()),
        min_relvol: None,
        hold_bars: Some(20),
        period: Some("2y".into()),
        tickers: None,
    }
}

#[test]
fn numbers_are_written_as_decimals() {
    assert_eq!(decimal_text(4_000_000), "4");
    assert_eq!(decimal_text(3_500_000), "3.5");
    assert_eq!(decimal_text(-1), "-0.000001");
    assert_eq!(fixed0_text(2_500_000), "2");
    assert_eq!(fixed0_text(3_500_000), "4");
    assert_eq!(fixed2_text(-1_005_000), "-1.00");
    assert_eq!(fixed2_text(1_015_000), "1.02");
    assert_eq!(fixed2_text(12_345_678), "12.35");
}

#[test]
fn tiny_mode_must_be_asked_for() {
    assert_eq!(initial_mode(Some("tiny")), TradingMode::Tiny);
    assert_eq!(initial_mode(Some("Tiny")), TradingMode::Standard);
    assert_eq!(initial_mode(None), TradingMode::Standard);
}

#[test]
fn scripts_get_the_flags_that_are_given() {
    let scan = ScanParams {
        min_score: Some("4".into()),
        min_relvol: Some("1.3".into()),
        direction: Some("both".into()),
        tickers: Some("AAPL,MSFT".into()),
    };
    assert_eq!(
        scan.args(),
        vec!["--min-score=4", "--min-relvol=1.3", "--direction=both", "--tickers=AAPL,MSFT"]
    );
    assert_eq!(backtest().args(), vec!["--min-score=3.5", "--hold-bars=20", "--period=2y"]);
    let none = ScanParams { min_score: None, min_relvol: None, direction: None, tickers: None };
    assert!(none.args().is_empty());
}

#[test]
fn script_failures_are_told_apart() {
    let a = ScriptRun::NotStarted { error: "no such file".into() };
    assert_eq!(
        a.message(),
        "failed to spawn uv: no such file. Install: https://docs.astral.sh/uv/"
    );
    let b = ScriptRun::Failed { status: "exit status: 1".into(), stderr: "boom".into() };
    assert_eq!(b.message(), "python exited exit status: 1: boom");
    let c = ScriptRun::Unreadable { error: "EOF".into(), stdout: "é".repeat(600) };
    assert_eq!(
        c.message(),
        format!("json parse failed: EOF; stdout: {}", "é".repeat(500))
    );
    let r = fetch_failure(&b);
    assert_eq!(r.status, 502);
    let e = r.body.unwrap_err();
    assert_eq!(e.error, "backtest fetch failed: python exited exit status: 1: boom");
    assert_eq!(e.hint, Some("Visit /api/health for what's wrong."));
    let r = parse_failure("missing field");
    assert_eq!(r.status, 422);
    let e = r.body.unwrap_err();
    assert_eq!(e.error, "trade parse failed: missing field");
    assert_eq!(e.hint, None);
    assert_eq!(script_status(true), 200);
    assert_eq!(script_status(false), 502);
    assert_eq!(take_chars("abc", 5), "abc");
    assert_eq!(take_chars("abc", 2), "ab");
}

#[test]
fn agents_trade_on_paper_only() {
    assert_eq!(agent_guard(true, false), Guard::Open);
    assert_eq!(agent_guard(false, false), Guard::NotPaper);
    assert_eq!(agent_guard(false, true), Guard::NotPaper);
    assert_eq!(agent_guard(true, true), Guard::SchedulerOn);
    assert_eq!(Guard::Open.status(), 200);
    assert_eq!(Guard::NotPaper.status(), 403);
    assert_eq!(Guard::SchedulerOn.status(), 409);
    assert_eq!(Guard::Open.error(), None);
    assert_eq!(Guard::NotPaper.error(), Some("refused: MCP execution is paper-only"));
    assert_eq!(
        Guard::SchedulerOn.error(),
        Some("refused: scheduler is currently auto-trading")
    );
    assert_eq!(Guard::Open.hint(), None);
    assert!(Guard::NotPaper.hint().unwrap().starts_with("The execute_paper_trade tool refuses"));
    assert!(Guard::SchedulerOn.hint().unwrap().starts_with("Stop the unattended scheduler"));
}

#[test]
fn the_state_report_has_stand_ins() {
    assert_eq!(reported_equity(Ok(5)), 5);
    assert_eq!(reported_equity(Err(BrokerError::Auth("no".into()))), 0);
    assert!(!reported_market_open(Ok(false)));
    assert!(reported_market_open(Err(BrokerError::Http("no".into()))));
}

#[test]
fn a_simulation_request_has_defaults() {
    let p = SimulateParams {
        backtest: backtest(),
        starting_equity: None,
        slippage_bps: None,
        oos: None,
        split_fraction: None,
    };
    let s = p.simulator(TradingMode::Tiny);
    assert_eq!(s.caps, RiskCaps::tiny());
    assert_eq!(s.starting_equity, micros(100_000.0));
    assert_eq!(s.slippage_bps, micros(10.0));
    assert_eq!(s.target_pct_per_trade, micros(75.0));
    let none = p.simulate(TradingMode::Standard, vec![]);
    assert!(matches!(none, Simulation::NoTrades));
    assert_eq!(none.status(), 200);
    match p.simulate(TradingMode::Standard, vec![trade("2024-01-02")]) {
        Simulation::Single { report } => {
            assert_eq!(report.label, "single");
            assert_eq!(report.slippage_bps, micros(10.0));
            // 50 shares from 100.10 to 109.89
            assert_eq!(report.final_equity, micros(100_489.5));
        }
        other => panic!("expected one report, got {other:?}"),
    }
}

#[test]
fn a_simulation_request_can_split() {
    let mut p = SimulateParams {
        backtest: backtest(),
        starting_equity: Some(micros(50_000.0)),
        slippage_bps: Some(0),
        oos: Some(true),
        split_fraction: None,
    };
    let trades = vec![trade("2024-01-02"), trade("2024-01-03")];
    match p.simulate(TradingMode::Standard, trades.clone()) {
        Simulation::Split { train, test } => {
            assert_eq!(train.total_signals, 1);
            assert_eq!(test.total_signals, 1);
            assert_eq!(test.final_equity, micros(50_250.0));
        }
        other => panic!("expected two reports, got {other:?}"),
    }
    let mut bad = trades;
    bad[1].exit_price = i64::MAX;
    p.slippage_bps = Some(micros(-10.0));
    let failed = p.simulate(TradingMode::Standard, bad);
    assert!(matches!(failed, Simulation::Failed { .. }));
    assert_eq!(failed.status(), 500);
}

#[test]
fn a_healthy_server_says_so() {
    let r = health(
        Some("uv 0.4.0".into()),
        &PythonProbe::Ready,
        "alpaca-paper",
        &Ok(micros(1_234.5)),
        true,
        "/data/state.json".into(),
    );
    assert!(r.ok);
    assert_eq!(r.checks.len(), 4);
    assert_eq!(r.checks[0].detail.as_deref(), Some("uv 0.4.0"));
    assert_eq!(r.checks[1].name, "python deps (polars + yfinance)");
    assert_eq!(r.checks[1].detail, None);
    assert_eq!(r.checks[2].detail.as_deref(), Some("alpaca-paper · equity $1234.50"));
    assert_eq!(r.checks[3].detail.as_deref(), Some("/data/state.json"));
    assert!(r.checks.iter().all(|c| c.fix.is_none()));
}

#[test]
fn failures_come_with_fixes() {
    let r = health(
        None,
        &PythonProbe::NotRun { error: "no uv".into() },
        "alpaca-paper",
        &Err(BrokerError::Auth("bad key".into())),
        false,
        "p".into(),
    );
    assert!(!r.ok);
    assert!(r.checks.iter().all(|c| !c.ok));
    assert_eq!(r.checks[0].detail.as_deref(), Some("uv binary not found on PATH"));
    assert_eq!(r.checks[1].detail.as_deref(), Some("could not run python: no uv"));
    assert_eq!(r.checks[2].detail.as_deref(), Some("alpaca-paper: auth: bad key"));
    assert!(r.checks.iter().all(|c| c.fix.is_some_and(|f| !f.is_empty())));
    let r = health(
        Some("uv".into()),
        &PythonProbe::Failed { stderr: "x".repeat(1_000) },
        "alpaca-paper",
        &Ok(0),
        true,
        "p".into(),
    );
    assert!(!r.ok);
    assert_eq!(r.checks[1].detail.clone().unwrap().len(), 400);
    assert_eq!(r.checks[1].fix, Some("cd python && uv sync"));
}

#[test]
fn a_dry_run_is_only_a_warning() {
    let r = health(
        Some("uv".into()),
        &PythonProbe::Ready,
        "dry-run",
        &Ok(0),
        true,
        "p".into(),
    );
    assert!(r.ok);
    assert!(!r.checks[2].ok);
    assert_eq!(r.checks[2].name, "broker credentials");
    assert_eq!(r.checks[2].severity, Some("warning"));
}

#[test]
fn the_scheduler_is_off_until_turned_on() {
    let mut cfg = SchedulerConfig::default();
    assert!(!cfg.on);
    assert_eq!(cfg.scan_interval_seconds, 300);
    assert_eq!(cfg.min_score_to_execute, micros(4.0));
    assert!(matches!(next_step(&cfg, Learned::Awake), Step::Sleep { seconds: 15 }));
    cfg.update(Some(true), Some(5), None);
    assert_eq!(cfg.scan_interval_seconds, 30);
    assert!(matches!(next_step(&cfg, Learned::Awake), Step::AskMarket));
    cfg.update(None, Some(45), Some(micros(5.5)));
    assert!(cfg.on);
    assert_eq!(cfg.scan_interval_seconds, 45);
    assert_eq!(cfg.min_score_to_execute, micros(5.5));
}

#[test]
fn the_scheduler_scans_only_when_allowed() {
    let cfg = SchedulerConfig {
        on: true,
        scan_interval_seconds: 120,
        min_score_to_execute: micros(4.25),
    };
    let next = |l: Learned| next_step(&cfg, l);
    assert!(matches!(next(Learned::Market(Ok(false))), Step::Sleep { seconds: 60 }));
    assert!(matches!(
        next(Learned::Market(Err(BrokerError::Http("x".into())))),
        Step::Sleep { seconds: 60 }
    ));
    assert!(matches!(next(Learned::Market(Ok(true))), Step::ReadKillswitch));
    assert!(matches!(next(Learned::Killswitch(true)), Step::Sleep { seconds: 120 }));
    assert!(matches!(next(Learned::Killswitch(false)), Step::Scan { min_score: 4_250_000 }));
    assert!(matches!(next(Learned::Scan(Err("x".into()))), Step::Sleep { seconds: 120 }));
    let sig = Signal {
        symbol: "A".into(),
        direction: "bullish".into(),
        entry: 1,
        stop: 1,
        target_10: 1,
        target_20: 1,
        score: 1,
    };
    match next(Learned::Scan(Ok(vec![sig]))) {
        Step::Execute { signals } => assert_eq!(signals.len(), 1),
        other => panic!("expected signals, got {other:?}"),
    }
    assert!(matches!(next(Learned::Executed), Step::Sleep { seconds: 120 }));
    assert_eq!(
        scan_args(micros(4.25)),
        vec!["run", "--quiet", "python", "scanner.py", "--min-score=4.25"]
    );
}

fn output(success: bool, stdout: &str) -> Result<String, ScriptRun> {
    script_output(
        success,
        "exit status: 3".into(),
        stdout.as_bytes(),
        format!("<{stdout}>"),
        "trouble".into(),
    )
}

#[test]
fn what_a_script_writes_is_read() {
    assert_eq!(output(true, " {\"a\": [1, 2.5]}\n").unwrap(), "{\"a\":[1,2.5]}");
    assert_eq!(output(true, "{}").unwrap(), "{}");
    match output(false, "{}").unwrap_err() {
        ScriptRun::Failed { status, stderr } => {
            assert_eq!(status, "exit status: 3");
            assert_eq!(stderr, "trouble");
        }
        other => panic!("expected a failure, got {other:?}"),
    }
    match output(true, "oops").unwrap_err() {
        ScriptRun::Unreadable { error, stdout } => {
            assert_eq!(error, "expected value at line 1 column 1");
            assert_eq!(stdout, "<oops>");
        }
        other => panic!("expected no JSON, got {other:?}"),
    }
}

#[test]
fn a_failed_scan_is_not_an_empty_one() {
    let empty = script_reply(output(true, "{\"results\": []}"));
    assert_eq!(empty.status, 200);
    assert_eq!(empty.body.unwrap(), "{\"results\":[]}");
    for failed in [output(false, "{\"results\": []}"), output(true, "")] {
        let message = match &failed {
            Err(e) => e.message(),
            Ok(v) => panic!("expected a failure, got {v}"),
        };
        let r = script_reply(failed);
        assert_eq!(r.status, 502);
        let e = r.body.unwrap_err();
        assert_eq!(e.error, message);
        assert_eq!(e.hint, Some("Visit /api/health for what's wrong."));
    }
    let r = universe_reply(output(false, ""));
    assert_eq!(r.status, 200);
    let e = r.body.unwrap_err();
    assert_eq!(e.error, "python exited exit status: 3: trouble");
    assert_eq!(e.hint, None);
    assert_eq!(universe_reply(output(true, "[]")).body.unwrap(), "[]");
}

#[test]
fn lists_are_looked_up_in_what_a_script_wrote() {
    let list = |success: bool, stdout: &str| {
        script_list(success, "1".into(), stdout.as_bytes(), "w".into(), "e".into(), "trades")
    };
    assert_eq!(list(true, "{\"trades\": [ {\"a\": 1} ]}").unwrap(), "[{\"a\":1}]");
    assert_eq!(list(true, "{\"other\": 1}").unwrap(), "[]");
    assert_eq!(list(true, "7").unwrap(), "[]");
    assert!(matches!(list(true, "x").unwrap_err(), ScriptRun::Unreadable { .. }));
    assert!(matches!(list(false, "{}").unwrap_err(), ScriptRun::Failed { .. }));
}

#[test]
fn a_scan_gives_the_scheduler_its_results() {
    let scan = |success: bool, stdout: &str| scan_output(success, "exit 2", stdout.as_bytes(), "no");
    assert_eq!(scan(true, "{\"results\":[1 ,2]}").unwrap(), "[1,2]");
    assert_eq!(scan(true, "{}").unwrap(), "[]");
    assert_eq!(scan(false, "{}").unwrap_err(), "python exit exit 2: no");
    assert_eq!(
        scan(true, "").unwrap_err(),
        "EOF while parsing a value at line 1 column 0"
    );
}

#[test]
fn probes_are_read_from_what_programs_came_to() {
    assert_eq!(uv_version(Ok((true, "uv 1".into()))).as_deref(), Some("uv 1"));
    assert_eq!(uv_version(Ok((false, "uv 1".into()))), None);
    assert_eq!(uv_version(Err("none".into())), None);
    assert!(matches!(python_probe(Ok((true, "".into()))), PythonProbe::Ready));
    match python_probe(Ok((false, "no polars".into()))) {
        PythonProbe::Failed { stderr } => assert_eq!(stderr, "no polars"),
        other => panic!("expected a failure, got {other:?}"),
    }
    match python_probe(Err("no uv".into())) {
        PythonProbe::NotRun { error } => assert_eq!(error, "no uv"),
        other => panic!("expected no run, got {other:?}"),
    }
}
