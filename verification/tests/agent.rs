use options_scanner::agent::{
    chart_answer, get_answer, order_answer, plan_call, Answer, CallPlan, Content, Reply,
};
use options_scanner::catalog::{prompts_list, tools_list, Prompt, Tool};
use options_scanner::json::show_reply;
use options_scanner::prompts::get_prompt;
use options_scanner::query::{path_with_query, urlencode, ArgValue, Arguments};
use options_scanner::rpc::{dispatch, parse_error, triage, Method, Triage};

fn args(fields: Vec<(&str, ArgValue)>) -> Arguments {
    Arguments { fields: fields.into_iter().map(|(k, v)| (k.to_string(), v)).collect() }
}

fn text(s: &str) -> ArgValue {
    ArgValue::Text(s.into())
}

fn number(s: &str) -> ArgValue {
    ArgValue::Number(s.into())
}

fn only_text(a: &Answer) -> String {
    assert_eq!(a.content.len(), 1);
    match &a.content[0] {
        Content::Text(s) => s.clone(),
        other => panic!("expected a text, got {other:?}"),
    }
}

fn replied(success: bool, body: &str) -> Reply {
    Reply::Answered {
        status: if success { "200 OK".into() } else { "409 Conflict".into() },
        success,
        body: body.into(),
    }
}

#[test]
fn urls_are_encoded_byte_by_byte() {
    assert_eq!(urlencode("AZaz09-_.~"), "AZaz09-_.~");
    assert_eq!(urlencode("a b&c=d/?"), "a%20b%26c%3Dd%2F%3F");
    assert_eq!(urlencode("é"), "%C3%A9");
    assert_eq!(urlencode(""), "");
    assert_ne!(urlencode("%41"), urlencode("A"));
}

#[test]
fn queries_hold_what_is_given_and_named() {
    let a = args(vec![
        ("tickers", text("A,B")),
        ("oos", ArgValue::Flag(true)),
        ("min_score", number("3.5")),
        ("list", ArgValue::Other),
        ("extra", text("x")),
    ]);
    let keys = vec!["min_score", "missing", "list", "tickers", "oos"];
    assert_eq!(
        path_with_query("/api/scan", &a, &keys),
        "/api/scan?min_score=3.5&tickers=A%2CB&oos=true"
    );
    assert_eq!(path_with_query("/api/scan", &a, &vec!["list", "missing"]), "/api/scan");
    let off = args(vec![("oos", ArgValue::Flag(false)), ("empty", text(""))]);
    assert_eq!(path_with_query("/p", &off, &vec!["oos", "empty"]), "/p?oos=false&empty=");
}

#[test]
fn the_catalog_lists_tools_and_prompts() {
    let names: Vec<&str> = tools_list().iter().map(|t| t.name()).collect();
    assert_eq!(
        names,
        vec![
            "scan_market",
            "run_backtest",
            "simulate_strategy",
            "get_risk_state",
            "check_health",
            "render_chart_for_vision",
            "detect_chart_patterns",
            "execute_paper_trade",
        ]
    );
    for t in tools_list() {
        assert_eq!(Tool::from_name(t.name()), Some(t));
        assert!(!t.description().is_empty());
        assert!(!t.description().contains("  "));
        let listed: Vec<&str> = t.params().iter().map(|p| p.name).collect();
        assert!(t.required().iter().all(|r| listed.contains(r)));
    }
    assert_eq!(Tool::from_name("scan"), None);
    let names: Vec<&str> = prompts_list().iter().map(|p| p.name()).collect();
    assert_eq!(
        names,
        vec![
            "morning_briefing",
            "risk_audit",
            "propose_trade",
            "analyze_chart",
            "bridge_to_robinhood",
        ]
    );
    for p in prompts_list() {
        assert_eq!(Prompt::from_name(p.name()), Some(p));
        assert!(!p.description().is_empty());
    }
    assert_eq!(Prompt::from_name(""), None);
}

#[test]
fn parameters_are_described() {
    let scan = Tool::ScanMarket.params();
    assert_eq!(scan[0].name, "min_score");
    assert_eq!(scan[0].kind, "number");
    assert_eq!(scan[0].default, Some("3.0"));
    assert_eq!(scan[0].note, Some("Minimum composite score (0-7) to include"));
    assert!(scan[0].choices.is_empty());
    assert_eq!(scan[2].choices, vec!["both", "bullish", "bearish"]);
    assert_eq!(scan[2].default, Some("\"both\""));
    assert_eq!(scan[3].default, None);
    assert!(Tool::GetRiskState.params().is_empty());
    assert_eq!(
        Tool::ExecutePaperTrade.required(),
        vec!["symbol", "direction", "entry", "stop", "target_10", "target_20", "score"]
    );
    let audit = Prompt::RiskAudit.arguments();
    assert_eq!(audit.len(), 1);
    assert_eq!(audit[0].name, "period");
    assert_eq!(audit[0].description, "Lookback window (1y, 2y, or 5y)");
    assert!(!audit[0].required);
    assert!(Prompt::AnalyzeChart.arguments()[0].required);
}

#[test]
fn methods_are_found_by_name() {
    assert_eq!(dispatch("initialize").unwrap(), Method::Initialize);
    assert_eq!(dispatch("initialized").unwrap(), Method::Initialized);
    assert_eq!(dispatch("notifications/initialized").unwrap(), Method::Initialized);
    assert_eq!(dispatch("ping").unwrap(), Method::Ping);
    assert_eq!(dispatch("tools/list").unwrap(), Method::ListTools);
    assert_eq!(dispatch("tools/call").unwrap(), Method::CallTool);
    assert_eq!(dispatch("prompts/list").unwrap(), Method::ListPrompts);
    assert_eq!(dispatch("prompts/get").unwrap(), Method::GetPrompt);
    let e = dispatch("tools").unwrap_err();
    assert_eq!(e.code, -32601);
    assert_eq!(e.message, "method not found: tools");
}

#[test]
fn requests_are_sorted_by_what_they_get() {
    match triage("1.0", false, "ping") {
        Triage::Refuse { error } => {
            assert_eq!(error.code, -32600);
            assert_eq!(error.message, "invalid Request — jsonrpc must be \"2.0\"");
        }
        other => panic!("expected a refusal, got {other:?}"),
    }
    assert!(matches!(
        triage("2.0", true, "ping"),
        Triage::Run { method: Method::Ping, reply: true }
    ));
    assert!(matches!(
        triage("2.0", false, "initialized"),
        Triage::Run { method: Method::Initialized, reply: false }
    ));
    match triage("2.0", false, "nope") {
        Triage::NoMethod { error, reply } => {
            assert_eq!(error.code, -32601);
            assert!(!reply);
        }
        other => panic!("expected no method, got {other:?}"),
    }
    let e = parse_error("EOF");
    assert_eq!(e.code, -32700);
    assert_eq!(e.message, "parse error: EOF");
}

#[test]
fn prompts_have_their_arguments_filled_in() {
    let none = args(vec![]);
    let r = get_prompt(Some("morning_briefing"), &none).unwrap();
    assert_eq!(r.description, "Morning briefing workflow");
    assert!(r.text.starts_with("I need a concise pre-market briefing. Please:\n1. Call `get_risk_state`"));
    let r = get_prompt(Some("risk_audit"), &none).unwrap();
    assert_eq!(r.description, "Strategy edge audit");
    assert!(r.text.starts_with(
        "Run a strategy health audit using an out-of-sample simulation over a 2y lookback.\n\n1. Call `simulate_strategy` with: starting_equity=100000, period=2y, oos=true"
    ));
    assert!(r.text.ends_with("continue paper, retune parameters, or stop trading entirely."));
    let five = args(vec![("period", text("5y"))]);
    let r = get_prompt(Some("risk_audit"), &five).unwrap();
    assert!(r.text.contains("over a 5y lookback") && r.text.contains("period=5y, oos=true"));
    let p = args(vec![("min_score", text("5")), ("direction", number("1"))]);
    let r = get_prompt(Some("propose_trade"), &p).unwrap();
    assert!(r.text.contains("Call `scan_market` with min_score=5 and direction=both.\n"));
    let c = args(vec![("symbol", text("TSLA")), ("period", text(""))]);
    let r = get_prompt(Some("analyze_chart"), &c).unwrap();
    assert!(r.text.starts_with("Analyze TSLA (6mo) using BOTH detection layers, then reconcile:\n\n1. Call `detect_chart_patterns` with symbol=TSLA, period=6mo. This is the deterministic"));
    let b = args(vec![("size_pct_of_rh_equity", text("7"))]);
    let r = get_prompt(Some("bridge_to_robinhood"), &b).unwrap();
    assert_eq!(r.description, "Bridge scanner analytics → Robinhood Agentic execution");
    assert!(r.text.contains("min_score=4.") && r.text.contains("position size as 7% of"));
    assert!(r.text.contains("(~$<notional>, 7% of agentic equity)"));
}

#[test]
fn prompts_are_refused_with_a_reason() {
    let none = args(vec![]);
    let e = get_prompt(None, &none).unwrap_err();
    assert_eq!((e.code, e.message.as_str()), (-32602, "missing prompt name"));
    let e = get_prompt(Some("x"), &none).unwrap_err();
    assert_eq!((e.code, e.message.as_str()), (-32602, "unknown prompt: x"));
    let e = get_prompt(Some("analyze_chart"), &none).unwrap_err();
    assert_eq!(
        (e.code, e.message.as_str()),
        (-32602, "analyze_chart requires a `symbol` argument")
    );
}

#[test]
fn calls_go_to_their_endpoints() {
    let a = args(vec![("min_score", number("4")), ("symbol", text("A B")), ("junk", text("x"))]);
    let get = |name: &str| match plan_call("http://h", Some(name), &a) {
        CallPlan::Get { url } => url,
        other => panic!("expected a request, got {other:?}"),
    };
    assert_eq!(get("scan_market"), "http://h/api/scan?min_score=4");
    assert_eq!(get("run_backtest"), "http://h/api/backtest?min_score=4");
    assert_eq!(get("simulate_strategy"), "http://h/api/simulate?min_score=4");
    assert_eq!(get("get_risk_state"), "http://h/api/state");
    assert_eq!(get("check_health"), "http://h/api/health");
    assert_eq!(get("detect_chart_patterns"), "http://h/api/patterns?symbol=A%20B");
    match plan_call("http://h", Some("render_chart_for_vision"), &a) {
        CallPlan::Chart { url } => assert_eq!(url, "http://h/api/chart?symbol=A%20B"),
        other => panic!("expected a chart, got {other:?}"),
    }
}

#[test]
fn calls_are_refused_with_a_reason() {
    let none = args(vec![]);
    match plan_call("b", None, &none) {
        CallPlan::Reject { error } => {
            assert_eq!((error.code, error.message.as_str()), (-32602, "missing tool name"))
        }
        other => panic!("expected a refusal, got {other:?}"),
    }
    match plan_call("b", Some("buy"), &none) {
        CallPlan::Reject { error } => {
            assert_eq!((error.code, error.message.as_str()), (-32602, "unknown tool: buy"))
        }
        other => panic!("expected a refusal, got {other:?}"),
    }
    match plan_call("b", Some("render_chart_for_vision"), &args(vec![("symbol", number("1"))])) {
        CallPlan::Reply { answer } => {
            assert_eq!(only_text(&answer), "Refusing — `symbol` is required.");
            assert_eq!(answer.is_error, Some(true));
        }
        other => panic!("expected an answer, got {other:?}"),
    }
}

#[test]
fn an_order_needs_every_field() {
    let mut a = args(vec![
        ("symbol", text("A")),
        ("direction", text("bullish")),
        ("entry", number("1")),
        ("stop", number("1")),
        ("target_20", number("1")),
        ("score", ArgValue::Other),
    ]);
    match plan_call("http://h", Some("execute_paper_trade"), &a) {
        CallPlan::Reply { answer } => {
            assert_eq!(answer.is_error, Some(true));
            assert_eq!(
                only_text(&answer),
                "Refusing — missing required field `target_10`. The execute_paper_trade tool requires the full signal object (symbol, direction, entry, stop, target_10, target_20, score) as returned by scan_market. Do not fabricate prices; call scan_market first."
            );
        }
        other => panic!("expected an answer, got {other:?}"),
    }
    a.fields.push(("target_10".into(), number("1")));
    match plan_call("http://h", Some("execute_paper_trade"), &a) {
        CallPlan::Order { url } => assert_eq!(url, "http://h/api/execute-mcp"),
        other => panic!("expected an order, got {other:?}"),
    }
}

#[test]
fn replies_are_laid_out() {
    assert_eq!(show_reply("{\"a\":[1,2]}"), "{\n  \"a\": [\n    1,\n    2\n  ]\n}");
    assert_eq!(show_reply("not \"json\""), "{\n  \"raw\": \"not \\\"json\\\"\"\n}");
    assert_eq!(show_reply(""), "{\n  \"raw\": \"\"\n}");
    assert_eq!(
        show_reply("a\\b\u{8}\t\n\u{c}\r\u{1f}\u{7f}é/"),
        "{\n  \"raw\": \"a\\\\b\\b\\t\\n\\f\\r\\u001f\u{7f}é/\"\n}"
    );
}

#[test]
fn get_replies_become_answers() {
    let ok = get_answer("u", &replied(true, "{}"));
    assert_eq!(only_text(&ok), "{}");
    assert_eq!(ok.is_error, None);
    let bad = get_answer("u", &replied(false, "busy"));
    assert_eq!(
        only_text(&bad),
        "Tool call returned HTTP 409 Conflict.\n\n{\n  \"raw\": \"busy\"\n}"
    );
    assert_eq!(bad.is_error, Some(true));
    let down = get_answer("http://h/x", &Reply::Failed { error: "refused".into() });
    assert!(only_text(&down).starts_with(
        "HTTP request to http://h/x failed: refused\n\nThe MCP server proxies tools to the main scanner HTTP server. Make sure"
    ));
    assert_eq!(down.is_error, Some(true));
}

#[test]
fn order_replies_become_answers() {
    let ok = order_answer("u", &replied(true, "{\"id\":1}"));
    assert_eq!(only_text(&ok), "Order placed (paper).\n\n{\n  \"id\": 1\n}");
    assert_eq!(ok.is_error, Some(false));
    let bad = order_answer("u", &replied(false, "null"));
    assert!(only_text(&bad).starts_with(
        "Order refused (HTTP 409 Conflict).\n\nnull\n\nThis is a SAFETY refusal — the MCP execute tool"
    ));
    assert_eq!(bad.is_error, Some(true));
    let down = order_answer("http://h", &Reply::Failed { error: "refused".into() });
    assert_eq!(
        only_text(&down),
        "HTTP POST to http://h failed: refused.\n\nIs the scanner HTTP server running? Start it with `./run.sh`."
    );
}

#[test]
fn charts_come_with_guidance() {
    let body = b"{\"png_base64\":\"QUJD\",\"symbol\":\"TSLA\",\"annotated_detections\":[\"flag\"]}";
    let a = chart_answer("u", &Ok(body.to_vec()));
    assert_eq!(a.is_error, None);
    assert_eq!(a.content.len(), 2);
    match &a.content[0] {
        Content::Image { data, mime_type } => {
            assert_eq!(data, "QUJD");
            assert_eq!(*mime_type, "image/png");
        }
        other => panic!("expected an image, got {other:?}"),
    }
    match &a.content[1] {
        Content::Text(s) => assert!(s.starts_with(
            "Chart for TSLA. Annotation lines: blue=trigger, green=target, red=stop.\n\nGeometric detector found these (compare your visual read against them):\n[\n  \"flag\"\n]\n\nNow look at the chart image"
        )),
        other => panic!("expected a text, got {other:?}"),
    }
    let bare = chart_answer("u", &Ok(b"{\"png_base64\":\"QUJD\"}".to_vec()));
    match &bare.content[1] {
        Content::Text(s) => {
            assert!(s.starts_with("Chart for ?. Annotation"));
            assert!(s.contains("against them):\n[]\n\nNow"));
        }
        other => panic!("expected a text, got {other:?}"),
    }
}

#[test]
fn charts_that_fail_say_why() {
    let e = chart_answer("u", &Ok(b"{\"error\":\"no data\",\"png_base64\":\"QUJD\"}".to_vec()));
    assert_eq!(only_text(&e), "Chart render error: no data");
    assert_eq!(e.is_error, Some(true));
    for body in [&b"{}"[..], &b"junk"[..], &b"{\"png_base64\":\"\"}"[..], &b"{\"png_base64\":5}"[..]] {
        let e = chart_answer("u", &Ok(body.to_vec()));
        assert_eq!(only_text(&e), "No image returned from chart renderer.");
        assert_eq!(e.is_error, Some(true));
    }
    let down = chart_answer("http://h", &Err("refused".into()));
    assert_eq!(
        only_text(&down),
        "Chart request to http://h failed: refused. Is the scanner HTTP server running (./run.sh)?"
    );
}
