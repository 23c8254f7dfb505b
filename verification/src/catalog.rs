//! The catalog of the agent server: its tools with their parameters, and its prompts with
//! their arguments.

use vstd::prelude::*;

use crate::query;
use crate::text::same;

verus! {

/// What `scan_market` does.
pub const SCAN_MARKET_DESCRIPTION: &'static str = "Run the technical scanner across the configured liquid optionable universe. \
    Combines rolling-VWAP relationship, MACD momentum, relative volume gate, and liquidity-sweep \
    detection to produce ranked bullish/bearish candidates with entry, stop, +10% target, and \
    +20% target. Use this when an agent needs fresh signals to inform a trading decision.";

/// What `run_backtest` does.
pub const RUN_BACKTEST_DESCRIPTION: &'static str = "Walk-forward back-test of the scanner's strategy on historical bars. For every \
    day in the lookback window, the same signal logic is re-evaluated on the data available at \
    that point; outcomes (target_20 hit, stop hit, timeout) are tracked. Returns per-symbol and \
    aggregate stats including win rate, expectancy, and outcome distribution.";

/// What `simulate_strategy` does.
pub const SIMULATE_STRATEGY_DESCRIPTION: &'static str = "Replay historical signals through the LIVE executor + risk caps + slippage + \
    mark-to-market killswitch — the same code path that handles real orders. Returns equity \
    curve, max drawdown, killswitch trip status, and full event log. Supports out-of-sample \
    split: set oos=true to run train/test halves and compare. Use this before recommending \
    any parameter change so the agent sees how caps interact with the strategy.";

/// What `get_risk_state` does.
pub const GET_RISK_STATE_DESCRIPTION: &'static str = "Current account + risk snapshot: which broker is connected, account equity, \
    trading mode (standard/tiny), active risk caps, today's trade counters, recent trade log, \
    and killswitch status. The agent should call this BEFORE proposing trades, to know whether \
    the human caps have already been breached and how much exposure budget remains.";

/// What `check_health` does.
pub const CHECK_HEALTH_DESCRIPTION: &'static str = "Diagnoses every common operational failure: uv installed, Python deps present, \
    broker reachable, state directory writable. Call this first if any other tool returns \
    surprising errors — the response includes concrete `fix` strings for each failed check.";

/// What `render_chart_for_vision` does.
pub const RENDER_CHART_FOR_VISION_DESCRIPTION: &'static str = "Render the symbol's candlestick chart (with volume and the top geometric \
    detections annotated as trigger/target/stop lines) and return it as an IMAGE you can \
    look at directly. This is the LLM-vision second-opinion layer: after calling \
    detect_chart_patterns for the deterministic geometry, call this to SEE the chart and \
    form an independent visual read. Look for things the rule engine can't catch — sloppy \
    or forming patterns, trendline breaks, channels, divergences — and explicitly note where \
    your visual read AGREES or DISAGREES with the geometric detections (blue=trigger, \
    green=target, red=stop lines on the chart). Requires a vision-capable client.";

/// What `detect_chart_patterns` does.
pub const DETECT_CHART_PATTERNS_DESCRIPTION: &'static str = "Run rule-based geometric chart-pattern detection on a symbol's daily bars. \
    Detects reversal patterns (head & shoulders + inverse, double/triple top & bottom), \
    continuation patterns (flags, pennants, triangles, wedges), candlestick signals \
    (engulfing, hammer, shooting star, doji, morning/evening star), and context levels \
    (support/resistance, Fibonacci retracements, VWAP bands). Each detection returns the \
    direction, a confidence score (0-1), the confirmation trigger price, a measured-move \
    target, and an invalidation stop. \
    \n\nThese are DETERMINISTIC geometric facts, not predictions — a detected double_top is \
    a description of the price shape, not a guarantee it resolves bearishly. Cross-reference \
    with scan_market (which combines VWAP/MACD/RVOL/sweep) and run_backtest before acting. \
    Use this when the user asks 'what patterns are forming on X' or to confirm a scanner signal.";

/// What `execute_paper_trade` does.
pub const EXECUTE_PAPER_TRADE_DESCRIPTION: &'static str = "Place a real order at the configured broker — STRICTLY PAPER ONLY. The server \
    refuses with HTTP 403 if any live broker is connected, and refuses with HTTP 409 if the \
    unattended scheduler is currently auto-trading (to prevent races). The order still passes \
    through the full risk-cap pipeline (per-trade size limit, daily count, total exposure, \
    killswitch); the response includes the risk decision (Approve / Resize / Reject) and the \
    broker order id when accepted. \
    \n\nUse this tool ONLY after: (1) calling scan_market for fresh signals, (2) calling \
    get_risk_state to confirm caps have room, and (3) explicit human confirmation. The order \
    fields (entry, stop, target_10, target_20) must come from a scan_market result — do not \
    fabricate prices.";

/// What `morning_briefing` does.
pub const MORNING_BRIEFING_DESCRIPTION: &'static str = "Generate a structured morning brief: current risk state, top scanner candidates, \
    what's worth watching today. No execution.";

/// What `risk_audit` does.
pub const RISK_AUDIT_DESCRIPTION: &'static str = "Audit whether the strategy still has edge by running an out-of-sample simulation \
    and comparing train vs test halves. Flags over-fit or regime-change risk.";

/// What `propose_trade` does.
pub const PROPOSE_TRADE_DESCRIPTION: &'static str = "Find the best current setup, verify the risk caps allow another position, and \
    output a structured proposal. Does NOT execute — the user must confirm and re-prompt with \
    execute_paper_trade.";

/// What `analyze_chart` does.
pub const ANALYZE_CHART_DESCRIPTION: &'static str = "Full dual-read chart analysis for one symbol: deterministic geometric pattern \
    detection PLUS an LLM-vision second opinion, reconciled into one view.";

/// What `bridge_to_robinhood` does.
pub const BRIDGE_TO_ROBINHOOD_DESCRIPTION: &'static str = "Dual-MCP workflow: use this scanner's signals + risk discipline to drive a trade \
    in your Robinhood Agentic Trading sub-account. Requires both MCPs registered in the same \
    LLM session.";

/// A parameter of a tool.
#[derive(Debug)]
pub struct Param {
    pub name: &'static str,
    /// The JSON type.
    pub kind: &'static str,
    /// The texts that it can be, where only some are allowed.
    pub choices: Vec<&'static str>,
    /// The default, as JSON.
    pub default: Option<&'static str>,
    pub note: Option<&'static str>,
}

/// A [`Param`] with its texts as character sequences.
pub struct ParamView {
    pub name: Seq<char>,
    pub kind: Seq<char>,
    pub choices: Seq<Seq<char>>,
    pub default: Option<Seq<char>>,
    pub note: Option<Seq<char>>,
}

impl View for Param {
    type V = ParamView;

    open spec fn view(&self) -> ParamView {
        ParamView {
            name: self.name@,
            kind: self.kind@,
            choices: query::names(self.choices@),
            default: seen(self.default),
            note: seen(self.note),
        }
    }
}

/// The character sequence of an optional text.
pub open spec fn seen(s: Option<&'static str>) -> Option<Seq<char>> {
    match s {
        Some(s) => Some(s@),
        None => None,
    }
}

/// The views of parameters.
pub open spec fn param_views(params: Seq<Param>) -> Seq<ParamView> {
    params.map_values(|p: Param| p@)
}

/// The names of parameters.
pub open spec fn param_names(params: Seq<ParamView>) -> Seq<Seq<char>> {
    params.map_values(|p: ParamView| p.name)
}

/// A parameter, from its parts.
pub open spec fn param_view(
    name: &'static str,
    kind: &'static str,
    choices: Seq<Seq<char>>,
    default: Option<&'static str>,
    note: Option<&'static str>,
) -> ParamView {
    ParamView { name: name@, kind: kind@, choices, default: seen(default), note: seen(note) }
}

fn param(
    name: &'static str,
    kind: &'static str,
    choices: Vec<&'static str>,
    default: Option<&'static str>,
    note: Option<&'static str>,
) -> (r: Param)
    ensures
        r@ == param_view(name, kind, query::names(choices@), default, note),
{
    Param { name, kind, choices, default, note }
}

/// Anything.
pub open spec fn any_value() -> Seq<Seq<char>> {
    seq![]
}

fn any() -> (r: Vec<&'static str>)
    ensures
        query::names(r@) == any_value(),
{
    let r: Vec<&'static str> = Vec::new();
    assert(query::names(r@) =~= any_value());
    r
}

/// One direction or both.
pub open spec fn either_direction() -> Seq<Seq<char>> {
    seq!["both"@, "bullish"@, "bearish"@]
}

fn either_direction_choices() -> (r: Vec<&'static str>)
    ensures
        query::names(r@) == either_direction(),
{
    let r: Vec<&'static str> = vec!["both", "bullish", "bearish"];
    assert(query::names(r@) =~= either_direction());
    r
}

/// One direction.
pub open spec fn one_direction() -> Seq<Seq<char>> {
    seq!["bullish"@, "bearish"@]
}

fn one_direction_choices() -> (r: Vec<&'static str>)
    ensures
        query::names(r@) == one_direction(),
{
    let r: Vec<&'static str> = vec!["bullish", "bearish"];
    assert(query::names(r@) =~= one_direction());
    r
}

/// How far a back-test looks back.
pub open spec fn long_periods() -> Seq<Seq<char>> {
    seq!["1y"@, "2y"@, "5y"@]
}

fn long_periods_choices() -> (r: Vec<&'static str>)
    ensures
        query::names(r@) == long_periods(),
{
    let r: Vec<&'static str> = vec!["1y", "2y", "5y"];
    assert(query::names(r@) =~= long_periods());
    r
}

/// How far a chart looks back.
pub open spec fn chart_periods() -> Seq<Seq<char>> {
    seq!["3mo"@, "6mo"@, "1y"@, "2y"@]
}

fn chart_periods_choices() -> (r: Vec<&'static str>)
    ensures
        query::names(r@) == chart_periods(),
{
    let r: Vec<&'static str> = vec!["3mo", "6mo", "1y", "2y"];
    assert(query::names(r@) =~= chart_periods());
    r
}

/// A tool that an agent can call.
#[derive(Debug, Clone, Copy, PartialEq, Eq, Structural)]
pub enum Tool {
    ScanMarket,
    RunBacktest,
    SimulateStrategy,
    GetRiskState,
    CheckHealth,
    RenderChartForVision,
    DetectChartPatterns,
    ExecutePaperTrade,
}

/// Every tool, in the order in which they are listed.
pub open spec fn all_tools() -> Seq<Tool> {
    seq![
        Tool::ScanMarket,
        Tool::RunBacktest,
        Tool::SimulateStrategy,
        Tool::GetRiskState,
        Tool::CheckHealth,
        Tool::RenderChartForVision,
        Tool::DetectChartPatterns,
        Tool::ExecutePaperTrade,
    ]
}

/// Lists every tool.
pub fn tools_list() -> (r: Vec<Tool>)
    ensures
        r@ == all_tools(),
{
    let r = vec![
        Tool::ScanMarket,
        Tool::RunBacktest,
        Tool::SimulateStrategy,
        Tool::GetRiskState,
        Tool::CheckHealth,
        Tool::RenderChartForVision,
        Tool::DetectChartPatterns,
        Tool::ExecutePaperTrade,
    ];
    assert(r@ =~= all_tools());
    r
}

impl Tool {
    /// The name that the tool is called by.
    pub open spec fn named(self) -> Seq<char> {
        match self {
            Tool::ScanMarket => "scan_market"@,
            Tool::RunBacktest => "run_backtest"@,
            Tool::SimulateStrategy => "simulate_strategy"@,
            Tool::GetRiskState => "get_risk_state"@,
            Tool::CheckHealth => "check_health"@,
            Tool::RenderChartForVision => "render_chart_for_vision"@,
            Tool::DetectChartPatterns => "detect_chart_patterns"@,
            Tool::ExecutePaperTrade => "execute_paper_trade"@,
        }
    }

    pub fn name(&self) -> (r: &'static str)
        ensures
            r@ == self.named(),
    {
        match self {
            Tool::ScanMarket => "scan_market",
            Tool::RunBacktest => "run_backtest",
            Tool::SimulateStrategy => "simulate_strategy",
            Tool::GetRiskState => "get_risk_state",
            Tool::CheckHealth => "check_health",
            Tool::RenderChartForVision => "render_chart_for_vision",
            Tool::DetectChartPatterns => "detect_chart_patterns",
            Tool::ExecutePaperTrade => "execute_paper_trade",
        }
    }

    /// What the tool does.
    pub open spec fn described(self) -> Seq<char> {
        match self {
            Tool::ScanMarket => SCAN_MARKET_DESCRIPTION@,
            Tool::RunBacktest => RUN_BACKTEST_DESCRIPTION@,
            Tool::SimulateStrategy => SIMULATE_STRATEGY_DESCRIPTION@,
            Tool::GetRiskState => GET_RISK_STATE_DESCRIPTION@,
            Tool::CheckHealth => CHECK_HEALTH_DESCRIPTION@,
            Tool::RenderChartForVision => RENDER_CHART_FOR_VISION_DESCRIPTION@,
            Tool::DetectChartPatterns => DETECT_CHART_PATTERNS_DESCRIPTION@,
            Tool::ExecutePaperTrade => EXECUTE_PAPER_TRADE_DESCRIPTION@,
        }
    }

    pub fn description(&self) -> (r: &'static str)
        ensures
            r@ == self.described(),
    {
        match self {
            Tool::ScanMarket => SCAN_MARKET_DESCRIPTION,
            Tool::RunBacktest => RUN_BACKTEST_DESCRIPTION,
            Tool::SimulateStrategy => SIMULATE_STRATEGY_DESCRIPTION,
            Tool::GetRiskState => GET_RISK_STATE_DESCRIPTION,
            Tool::CheckHealth => CHECK_HEALTH_DESCRIPTION,
            Tool::RenderChartForVision => RENDER_CHART_FOR_VISION_DESCRIPTION,
            Tool::DetectChartPatterns => DETECT_CHART_PATTERNS_DESCRIPTION,
            Tool::ExecutePaperTrade => EXECUTE_PAPER_TRADE_DESCRIPTION,
        }
    }

    /// The parameters of the tool.
    pub open spec fn listed(self) -> Seq<ParamView> {
        match self {
            Tool::ScanMarket => seq![
                param_view(
                    "min_score",
                    "number",
                    any_value(),
                    Some("3.0"),
                    Some("Minimum composite score (0-7) to include"),
                ),
                param_view(
                    "min_relvol",
                    "number",
                    any_value(),
                    Some("1.3"),
                    Some("Minimum relative volume multiple vs 20-day avg"),
                ),
                param_view("direction", "string", either_direction(), Some("\"both\""), None),
                param_view(
                    "tickers",
                    "string",
                    any_value(),
                    None,
                    Some("Optional comma-separated symbol list to override the default universe"),
                ),
            ],
            Tool::RunBacktest => seq![
                param_view("min_score", "number", any_value(), Some("3.0"), None),
                param_view("min_relvol", "number", any_value(), Some("1.3"), None),
                param_view(
                    "hold_bars",
                    "integer",
                    any_value(),
                    Some("20"),
                    Some("Max bars to hold a position before timeout exit"),
                ),
                param_view("period", "string", long_periods(), Some("\"2y\""), None),
            ],
            Tool::SimulateStrategy => seq![
                param_view("starting_equity", "number", any_value(), Some("100000"), None),
                param_view("min_score", "number", any_value(), Some("3.0"), None),
                param_view(
                    "slippage_bps",
                    "number",
                    any_value(),
                    Some("10"),
                    Some("Round-trip slippage in basis points (each side)"),
                ),
                param_view("period", "string", long_periods(), Some("\"2y\""), None),
                param_view("oos", "boolean", any_value(), Some("false"), None),
                param_view(
                    "split_fraction",
                    "number",
                    any_value(),
                    Some("0.5"),
                    Some("When oos=true, fraction of trades used for training"),
                ),
            ],
            Tool::GetRiskState => seq![],
            Tool::CheckHealth => seq![],
            Tool::RenderChartForVision => seq![
                param_view("symbol", "string", any_value(), None, None),
                param_view("period", "string", chart_periods(), Some("\"6mo\""), None),
                param_view(
                    "annotate",
                    "boolean",
                    any_value(),
                    Some("true"),
                    Some("Overlay geometric detection levels"),
                ),
            ],
            Tool::DetectChartPatterns => seq![
                param_view("symbol", "string", any_value(), None, Some("Ticker symbol, e.g. AAPL")),
                param_view("period", "string", chart_periods(), Some("\"6mo\""), None),
                param_view(
                    "pivot_order",
                    "integer",
                    any_value(),
                    Some("3"),
                    Some("Swing-pivot sensitivity; lower finds more (noisier) pivots"),
                ),
            ],
            Tool::ExecutePaperTrade => seq![
                param_view(
                    "symbol",
                    "string",
                    any_value(),
                    None,
                    Some("Ticker symbol from a scan_market result"),
                ),
                param_view("direction", "string", one_direction(), None, None),
                param_view("entry", "number", any_value(), None, None),
                param_view("stop", "number", any_value(), None, None),
                param_view("target_10", "number", any_value(), None, None),
                param_view("target_20", "number", any_value(), None, None),
                param_view("score", "number", any_value(), None, None),
            ],
        }
    }

    pub fn params(&self) -> (r: Vec<Param>)
        ensures
            param_views(r@) == self.listed(),
    {
        let r = match self {
            Tool::ScanMarket => vec![
                param(
                    "min_score",
                    "number",
                    any(),
                    Some("3.0"),
                    Some("Minimum composite score (0-7) to include"),
                ),
                param(
                    "min_relvol",
                    "number",
                    any(),
                    Some("1.3"),
                    Some("Minimum relative volume multiple vs 20-day avg"),
                ),
                param("direction", "string", either_direction_choices(), Some("\"both\""), None),
                param(
                    "tickers",
                    "string",
                    any(),
                    None,
                    Some("Optional comma-separated symbol list to override the default universe"),
                ),
            ],
            Tool::RunBacktest => vec![
                param("min_score", "number", any(), Some("3.0"), None),
                param("min_relvol", "number", any(), Some("1.3"), None),
                param(
                    "hold_bars",
                    "integer",
                    any(),
                    Some("20"),
                    Some("Max bars to hold a position before timeout exit"),
                ),
                param("period", "string", long_periods_choices(), Some("\"2y\""), None),
            ],
            Tool::SimulateStrategy => vec![
                param("starting_equity", "number", any(), Some("100000"), None),
                param("min_score", "number", any(), Some("3.0"), None),
                param(
                    "slippage_bps",
                    "number",
                    any(),
                    Some("10"),
                    Some("Round-trip slippage in basis points (each side)"),
                ),
                param("period", "string", long_periods_choices(), Some("\"2y\""), None),
                param("oos", "boolean", any(), Some("false"), None),
                param(
                    "split_fraction",
                    "number",
                    any(),
                    Some("0.5"),
                    Some("When oos=true, fraction of trades used for training"),
                ),
            ],
            Tool::GetRiskState => Vec::new(),
            Tool::CheckHealth => Vec::new(),
            Tool::RenderChartForVision => vec![
                param("symbol", "string", any(), None, None),
                param("period", "string", chart_periods_choices(), Some("\"6mo\""), None),
                param(
                    "annotate",
                    "boolean",
                    any(),
                    Some("true"),
                    Some("Overlay geometric detection levels"),
                ),
            ],
            Tool::DetectChartPatterns => vec![
                param("symbol", "string", any(), None, Some("Ticker symbol, e.g. AAPL")),
                param("period", "string", chart_periods_choices(), Some("\"6mo\""), None),
                param(
                    "pivot_order",
                    "integer",
                    any(),
                    Some("3"),
                    Some("Swing-pivot sensitivity; lower finds more (noisier) pivots"),
                ),
            ],
            Tool::ExecutePaperTrade => vec![
                param(
                    "symbol",
                    "string",
                    any(),
                    None,
                    Some("Ticker symbol from a scan_market result"),
                ),
                param("direction", "string", one_direction_choices(), None, None),
                param("entry", "number", any(), None, None),
                param("stop", "number", any(), None, None),
                param("target_10", "number", any(), None, None),
                param("target_20", "number", any(), None, None),
                param("score", "number", any(), None, None),
            ],
        };
        assert(param_views(r@) =~= self.listed());
        r
    }

    /// The parameters that a call must give.
    pub open spec fn needed(self) -> Seq<Seq<char>> {
        match self {
            Tool::RenderChartForVision => seq!["symbol"@],
            Tool::DetectChartPatterns => seq!["symbol"@],
            Tool::ExecutePaperTrade => seq![
                "symbol"@,
                "direction"@,
                "entry"@,
                "stop"@,
                "target_10"@,
                "target_20"@,
                "score"@,
            ],
            _ => seq![],
        }
    }

    pub fn required(&self) -> (r: Vec<&'static str>)
        ensures
            query::names(r@) == self.needed(),
    {
        let r: Vec<&'static str> = match self {
            Tool::RenderChartForVision => vec!["symbol"],
            Tool::DetectChartPatterns => vec!["symbol"],
            Tool::ExecutePaperTrade => vec![
                "symbol",
                "direction",
                "entry",
                "stop",
                "target_10",
                "target_20",
                "score",
            ],
            _ => Vec::new(),
        };
        assert(query::names(r@) =~= self.needed());
        r
    }

    /// Looks a tool up by its name.
    pub fn from_name(name: &str) -> (r: Option<Tool>)
        ensures
            r == tool_named(name@),
    {
        if same(name, "scan_market") {
            proof {
                lemma_tool_found(Tool::ScanMarket);
            }
            return Some(Tool::ScanMarket);
        }
        if same(name, "run_backtest") {
            proof {
                lemma_tool_found(Tool::RunBacktest);
            }
            return Some(Tool::RunBacktest);
        }
        if same(name, "simulate_strategy") {
            proof {
                lemma_tool_found(Tool::SimulateStrategy);
            }
            return Some(Tool::SimulateStrategy);
        }
        if same(name, "get_risk_state") {
            proof {
                lemma_tool_found(Tool::GetRiskState);
            }
            return Some(Tool::GetRiskState);
        }
        if same(name, "check_health") {
            proof {
                lemma_tool_found(Tool::CheckHealth);
            }
            return Some(Tool::CheckHealth);
        }
        if same(name, "render_chart_for_vision") {
            proof {
                lemma_tool_found(Tool::RenderChartForVision);
            }
            return Some(Tool::RenderChartForVision);
        }
        if same(name, "detect_chart_patterns") {
            proof {
                lemma_tool_found(Tool::DetectChartPatterns);
            }
            return Some(Tool::DetectChartPatterns);
        }
        if same(name, "execute_paper_trade") {
            proof {
                lemma_tool_found(Tool::ExecutePaperTrade);
            }
            return Some(Tool::ExecutePaperTrade);
        }
        None
    }
}

/// The tool with a name.
pub open spec fn tool_named(name: Seq<char>) -> Option<Tool> {
    if exists|tool: Tool| #[trigger] tool.named() == name {
        Some(choose|tool: Tool| #[trigger] tool.named() == name)
    } else {
        None
    }
}

proof fn lemma_tool_found(tool: Tool)
    ensures
        tool_named(tool.named()) == Some(tool),
{
    let found = choose|t: Tool| #[trigger] t.named() == tool.named();
    law_tool_names_are_distinct(found, tool);
}

/// The prompt with a name.
pub open spec fn prompt_named(name: Seq<char>) -> Option<Prompt> {
    if exists|prompt: Prompt| #[trigger] prompt.named() == name {
        Some(choose|prompt: Prompt| #[trigger] prompt.named() == name)
    } else {
        None
    }
}

proof fn lemma_prompt_found(prompt: Prompt)
    ensures
        prompt_named(prompt.named()) == Some(prompt),
{
    let found = choose|p: Prompt| #[trigger] p.named() == prompt.named();
    law_prompt_names_are_distinct(found, prompt);
}

/// An argument of a prompt.
#[derive(Debug)]
pub struct PromptArg {
    pub name: &'static str,
    pub description: &'static str,
    pub required: bool,
}

/// A [`PromptArg`] with its texts as character sequences.
pub struct PromptArgView {
    pub name: Seq<char>,
    pub description: Seq<char>,
    pub required: bool,
}

impl View for PromptArg {
    type V = PromptArgView;

    open spec fn view(&self) -> PromptArgView {
        PromptArgView {
            name: self.name@,
            description: self.description@,
            required: self.required,
        }
    }
}

/// An argument, from its parts.
pub open spec fn prompt_arg_view(name: &'static str, description: &'static str, required: bool)
    -> PromptArgView {
    PromptArgView { name: name@, description: description@, required }
}

fn prompt_arg(name: &'static str, description: &'static str, required: bool) -> (r: PromptArg)
    ensures
        r@ == prompt_arg_view(name, description, required),
{
    PromptArg { name, description, required }
}

/// A prompt that an agent can ask for.
#[derive(Debug, Clone, Copy, PartialEq, Eq, Structural)]
pub enum Prompt {
    MorningBriefing,
    RiskAudit,
    ProposeTrade,
    AnalyzeChart,
    BridgeToRobinhood,
}

/// Every prompt, in the order in which they are listed.
pub open spec fn all_prompts() -> Seq<Prompt> {
    seq![
        Prompt::MorningBriefing,
        Prompt::RiskAudit,
        Prompt::ProposeTrade,
        Prompt::AnalyzeChart,
        Prompt::BridgeToRobinhood,
    ]
}

/// Lists every prompt.
pub fn prompts_list() -> (r: Vec<Prompt>)
    ensures
        r@ == all_prompts(),
{
    let r = vec![
        Prompt::MorningBriefing,
        Prompt::RiskAudit,
        Prompt::ProposeTrade,
        Prompt::AnalyzeChart,
        Prompt::BridgeToRobinhood,
    ];
    assert(r@ =~= all_prompts());
    r
}

impl Prompt {
    /// The name that the prompt is asked for by.
    pub open spec fn named(self) -> Seq<char> {
        match self {
            Prompt::MorningBriefing => "morning_briefing"@,
            Prompt::RiskAudit => "risk_audit"@,
            Prompt::ProposeTrade => "propose_trade"@,
            Prompt::AnalyzeChart => "analyze_chart"@,
            Prompt::BridgeToRobinhood => "bridge_to_robinhood"@,
        }
    }

    pub fn name(&self) -> (r: &'static str)
        ensures
            r@ == self.named(),
    {
        match self {
            Prompt::MorningBriefing => "morning_briefing",
            Prompt::RiskAudit => "risk_audit",
            Prompt::ProposeTrade => "propose_trade",
            Prompt::AnalyzeChart => "analyze_chart",
            Prompt::BridgeToRobinhood => "bridge_to_robinhood",
        }
    }

    /// What the prompt is for.
    pub open spec fn described(self) -> Seq<char> {
        match self {
            Prompt::MorningBriefing => MORNING_BRIEFING_DESCRIPTION@,
            Prompt::RiskAudit => RISK_AUDIT_DESCRIPTION@,
            Prompt::ProposeTrade => PROPOSE_TRADE_DESCRIPTION@,
            Prompt::AnalyzeChart => ANALYZE_CHART_DESCRIPTION@,
            Prompt::BridgeToRobinhood => BRIDGE_TO_ROBINHOOD_DESCRIPTION@,
        }
    }

    pub fn description(&self) -> (r: &'static str)
        ensures
            r@ == self.described(),
    {
        match self {
            Prompt::MorningBriefing => MORNING_BRIEFING_DESCRIPTION,
            Prompt::RiskAudit => RISK_AUDIT_DESCRIPTION,
            Prompt::ProposeTrade => PROPOSE_TRADE_DESCRIPTION,
            Prompt::AnalyzeChart => ANALYZE_CHART_DESCRIPTION,
            Prompt::BridgeToRobinhood => BRIDGE_TO_ROBINHOOD_DESCRIPTION,
        }
    }

    /// The arguments of the prompt.
    pub open spec fn takes(self) -> Seq<PromptArgView> {
        match self {
            Prompt::MorningBriefing => seq![],
            Prompt::RiskAudit => seq![
                prompt_arg_view("period", "Lookback window (1y, 2y, or 5y)", false),
            ],
            Prompt::ProposeTrade => seq![
                prompt_arg_view("min_score", "Minimum composite score (default 4)", false),
                prompt_arg_view("direction", "bullish | bearish | both (default both)", false),
            ],
            Prompt::AnalyzeChart => seq![
                prompt_arg_view("symbol", "Ticker to analyze", true),
                prompt_arg_view("period", "3mo | 6mo | 1y | 2y (default 6mo)", false),
            ],
            Prompt::BridgeToRobinhood => seq![
                prompt_arg_view("min_score", "Minimum composite score (default 4)", false),
                prompt_arg_view(
                    "size_pct_of_rh_equity",
                    "Fraction of Robinhood agentic-account equity to risk (default 5)",
                    false,
                ),
            ],
        }
    }

    pub fn arguments(&self) -> (r: Vec<PromptArg>)
        ensures
            r@.map_values(|a: PromptArg| a@) == self.takes(),
    {
        let r = match self {
            Prompt::MorningBriefing => Vec::new(),
            Prompt::RiskAudit => vec![
                prompt_arg("period", "Lookback window (1y, 2y, or 5y)", false),
            ],
            Prompt::ProposeTrade => vec![
                prompt_arg("min_score", "Minimum composite score (default 4)", false),
                prompt_arg("direction", "bullish | bearish | both (default both)", false),
            ],
            Prompt::AnalyzeChart => vec![
                prompt_arg("symbol", "Ticker to analyze", true),
                prompt_arg("period", "3mo | 6mo | 1y | 2y (default 6mo)", false),
            ],
            Prompt::BridgeToRobinhood => vec![
                prompt_arg("min_score", "Minimum composite score (default 4)", false),
                prompt_arg(
                    "size_pct_of_rh_equity",
                    "Fraction of Robinhood agentic-account equity to risk (default 5)",
                    false,
                ),
            ],
        };
        assert(r@.map_values(|a: PromptArg| a@) =~= self.takes());
        r
    }

    /// Looks a prompt up by its name.
    pub fn from_name(name: &str) -> (r: Option<Prompt>)
        ensures
            r == prompt_named(name@),
    {
        if same(name, "morning_briefing") {
            proof {
                lemma_prompt_found(Prompt::MorningBriefing);
            }
            return Some(Prompt::MorningBriefing);
        }
        if same(name, "risk_audit") {
            proof {
                lemma_prompt_found(Prompt::RiskAudit);
            }
            return Some(Prompt::RiskAudit);
        }
        if same(name, "propose_trade") {
            proof {
                lemma_prompt_found(Prompt::ProposeTrade);
            }
            return Some(Prompt::ProposeTrade);
        }
        if same(name, "analyze_chart") {
            proof {
                lemma_prompt_found(Prompt::AnalyzeChart);
            }
            return Some(Prompt::AnalyzeChart);
        }
        if same(name, "bridge_to_robinhood") {
            proof {
                lemma_prompt_found(Prompt::BridgeToRobinhood);
            }
            return Some(Prompt::BridgeToRobinhood);
        }
        None
    }
}

/// No two tools share a name.
pub proof fn law_tool_names_are_distinct(a: Tool, b: Tool)
    requires
        a.named() == b.named(),
    ensures
        a == b,
{
    reveal_strlit("scan_market");
    reveal_strlit("run_backtest");
    reveal_strlit("simulate_strategy");
    reveal_strlit("get_risk_state");
    reveal_strlit("check_health");
    reveal_strlit("render_chart_for_vision");
    reveal_strlit("detect_chart_patterns");
    reveal_strlit("execute_paper_trade");
    assert("scan_market"@.len() == 11);
    assert("run_backtest"@.len() == 12);
    assert("simulate_strategy"@.len() == 17);
    assert("get_risk_state"@.len() == 14);
    assert("check_health"@.len() == 12);
    assert("render_chart_for_vision"@.len() == 23);
    assert("detect_chart_patterns"@.len() == 21);
    assert("execute_paper_trade"@.len() == 19);
    assert("scan_market"@[0] == 's');
    assert("run_backtest"@[0] == 'r');
    assert("simulate_strategy"@[0] == 's');
    assert("get_risk_state"@[0] == 'g');
    assert("check_health"@[0] == 'c');
    assert("render_chart_for_vision"@[0] == 'r');
    assert("detect_chart_patterns"@[0] == 'd');
    assert("execute_paper_trade"@[0] == 'e');
}

/// No two prompts share a name.
pub proof fn law_prompt_names_are_distinct(a: Prompt, b: Prompt)
    requires
        a.named() == b.named(),
    ensures
        a == b,
{
    reveal_strlit("morning_briefing");
    reveal_strlit("risk_audit");
    reveal_strlit("propose_trade");
    reveal_strlit("analyze_chart");
    reveal_strlit("bridge_to_robinhood");
    assert("morning_briefing"@.len() == 16);
    assert("risk_audit"@.len() == 10);
    assert("propose_trade"@.len() == 13);
    assert("analyze_chart"@.len() == 13);
    assert("bridge_to_robinhood"@.len() == 19);
    assert("morning_briefing"@[0] == 'm');
    assert("risk_audit"@[0] == 'r');
    assert("propose_trade"@[0] == 'p');
    assert("analyze_chart"@[0] == 'a');
    assert("bridge_to_robinhood"@[0] == 'b');
}

/// Every tool and every prompt that can be looked up is listed.
pub proof fn law_catalog_is_complete(tool: Tool, prompt: Prompt)
    ensures
        all_tools().contains(tool),
        all_prompts().contains(prompt),
{
    match tool {
        Tool::ScanMarket => assert(all_tools()[0] == tool),
        Tool::RunBacktest => assert(all_tools()[1] == tool),
        Tool::SimulateStrategy => assert(all_tools()[2] == tool),
        Tool::GetRiskState => assert(all_tools()[3] == tool),
        Tool::CheckHealth => assert(all_tools()[4] == tool),
        Tool::RenderChartForVision => assert(all_tools()[5] == tool),
        Tool::DetectChartPatterns => assert(all_tools()[6] == tool),
        Tool::ExecutePaperTrade => assert(all_tools()[7] == tool),
    }
    match prompt {
        Prompt::MorningBriefing => assert(all_prompts()[0] == prompt),
        Prompt::RiskAudit => assert(all_prompts()[1] == prompt),
        Prompt::ProposeTrade => assert(all_prompts()[2] == prompt),
        Prompt::AnalyzeChart => assert(all_prompts()[3] == prompt),
        Prompt::BridgeToRobinhood => assert(all_prompts()[4] == prompt),
    }
}

/// What a call must give is among the parameters of its tool.
pub proof fn law_required_parameters_are_listed(tool: Tool, i: int)
    requires
        0 <= i < tool.needed().len(),
    ensures
        param_names(tool.listed()).contains(tool.needed()[i]),
{
    let all = param_names(tool.listed());
    assert(all[i] == tool.needed()[i]);
}

/// A tool and a prompt are found by their own names, and by no others.
pub proof fn law_names_find_what_they_name(tool: Tool, prompt: Prompt, name: Seq<char>)
    ensures
        tool_named(tool.named()) == Some(tool),
        prompt_named(prompt.named()) == Some(prompt),
        tool_named(name) matches Some(found) ==> found.named() == name,
        prompt_named(name) matches Some(found) ==> found.named() == name,
        tool_named(name) is None ==> tool.named() != name,
        prompt_named(name) is None ==> prompt.named() != name,
{
    lemma_tool_found(tool);
    lemma_prompt_found(prompt);
}

/// The tools and the prompts, by name, in the order in which they are listed.
pub proof fn law_the_catalog_lists_these()
    ensures
        all_tools().map_values(|t: Tool| t.named()) == seq![
            "scan_market"@,
            "run_backtest"@,
            "simulate_strategy"@,
            "get_risk_state"@,
            "check_health"@,
            "render_chart_for_vision"@,
            "detect_chart_patterns"@,
            "execute_paper_trade"@,
        ],
        all_prompts().map_values(|p: Prompt| p.named()) == seq![
            "morning_briefing"@,
            "risk_audit"@,
            "propose_trade"@,
            "analyze_chart"@,
            "bridge_to_robinhood"@,
        ],
{
    assert(all_tools().map_values(|t: Tool| t.named()) =~= seq![
        "scan_market"@,
        "run_backtest"@,
        "simulate_strategy"@,
        "get_risk_state"@,
        "check_health"@,
        "render_chart_for_vision"@,
        "detect_chart_patterns"@,
        "execute_paper_trade"@,
    ]);
    assert(all_prompts().map_values(|p: Prompt| p.named()) =~= seq![
        "morning_briefing"@,
        "risk_audit"@,
        "propose_trade"@,
        "analyze_chart"@,
        "bridge_to_robinhood"@,
    ]);
}

/// What each tool takes, in the order in which it is sent on.
pub proof fn law_tools_take_these_parameters()
    ensures
        param_names(Tool::ScanMarket.listed()) == seq![
            "min_score"@,
            "min_relvol"@,
            "direction"@,
            "tickers"@,
        ],
        param_names(Tool::RunBacktest.listed()) == seq![
            "min_score"@,
            "min_relvol"@,
            "hold_bars"@,
            "period"@,
        ],
        param_names(Tool::SimulateStrategy.listed()) == seq![
            "starting_equity"@,
            "min_score"@,
            "slippage_bps"@,
            "period"@,
            "oos"@,
            "split_fraction"@,
        ],
        param_names(Tool::GetRiskState.listed()).len() == 0,
        param_names(Tool::CheckHealth.listed()).len() == 0,
        param_names(Tool::RenderChartForVision.listed()) == seq![
            "symbol"@,
            "period"@,
            "annotate"@,
        ],
        param_names(Tool::DetectChartPatterns.listed()) == seq![
            "symbol"@,
            "period"@,
            "pivot_order"@,
        ],
        param_names(Tool::ExecutePaperTrade.listed()) == seq![
            "symbol"@,
            "direction"@,
            "entry"@,
            "stop"@,
            "target_10"@,
            "target_20"@,
            "score"@,
        ],
{
    assert(param_names(Tool::ScanMarket.listed()) =~= seq![
        "min_score"@,
        "min_relvol"@,
        "direction"@,
        "tickers"@,
    ]);
    assert(param_names(Tool::RunBacktest.listed()) =~= seq![
        "min_score"@,
        "min_relvol"@,
        "hold_bars"@,
        "period"@,
    ]);
    assert(param_names(Tool::SimulateStrategy.listed()) =~= seq![
        "starting_equity"@,
        "min_score"@,
        "slippage_bps"@,
        "period"@,
        "oos"@,
        "split_fraction"@,
    ]);
    assert(param_names(Tool::RenderChartForVision.listed()) =~= seq![
        "symbol"@,
        "period"@,
        "annotate"@,
    ]);
    assert(param_names(Tool::DetectChartPatterns.listed()) =~= seq![
        "symbol"@,
        "period"@,
        "pivot_order"@,
    ]);
    assert(param_names(Tool::ExecutePaperTrade.listed()) =~= seq![
        "symbol"@,
        "direction"@,
        "entry"@,
        "stop"@,
        "target_10"@,
        "target_20"@,
        "score"@,
    ]);
}

/// The defaults that are shown for a scan, a back-test, a simulation and a chart.
pub proof fn law_defaults_are_shown()
    ensures
        Tool::ScanMarket.listed()[0].default == Some("3.0"@),
        Tool::ScanMarket.listed()[1].default == Some("1.3"@),
        Tool::ScanMarket.listed()[2].default == Some("\"both\""@),
        Tool::ScanMarket.listed()[3].default is None,
        Tool::RunBacktest.listed()[0].default == Some("3.0"@),
        Tool::RunBacktest.listed()[1].default == Some("1.3"@),
        Tool::RunBacktest.listed()[2].default == Some("20"@),
        Tool::RunBacktest.listed()[3].default == Some("\"2y\""@),
        Tool::SimulateStrategy.listed()[0].default == Some("100000"@),
        Tool::SimulateStrategy.listed()[1].default == Some("3.0"@),
        Tool::SimulateStrategy.listed()[2].default == Some("10"@),
        Tool::SimulateStrategy.listed()[3].default == Some("\"2y\""@),
        Tool::SimulateStrategy.listed()[4].default == Some("false"@),
        Tool::SimulateStrategy.listed()[5].default == Some("0.5"@),
        Tool::RenderChartForVision.listed()[1].default == Some("\"6mo\""@),
        Tool::RenderChartForVision.listed()[2].default == Some("true"@),
        Tool::DetectChartPatterns.listed()[1].default == Some("\"6mo\""@),
        Tool::DetectChartPatterns.listed()[2].default == Some("3"@),
        either_direction() == seq!["both"@, "bullish"@, "bearish"@],
        one_direction() == seq!["bullish"@, "bearish"@],
        long_periods() == seq!["1y"@, "2y"@, "5y"@],
        chart_periods() == seq!["3mo"@, "6mo"@, "1y"@, "2y"@],
{
}

/// A parameter without a default is one that a call must give, but for the list of symbols that
/// a scan can be narrowed to; a parameter with one need not be given.
pub proof fn law_what_has_no_default_is_needed(tool: Tool, i: int)
    requires
        0 <= i < tool.listed().len(),
    ensures
        tool.listed()[i].default is None <==> {
            ||| tool is ScanMarket && i == 3
            ||| i < tool.needed().len() && tool.needed()[i] == tool.listed()[i].name
        },
        tool.needed().len() <= tool.listed().len(),
{
}

/// What each prompt takes; only the analysis of a chart must be given something.
pub proof fn law_prompts_take_these_arguments()
    ensures
        Prompt::MorningBriefing.takes().len() == 0,
        Prompt::RiskAudit.takes().map_values(|a: PromptArgView| (a.name, a.required)) == seq![
            ("period"@, false),
        ],
        Prompt::ProposeTrade.takes().map_values(|a: PromptArgView| (a.name, a.required)) == seq![
            ("min_score"@, false),
            ("direction"@, false),
        ],
        Prompt::AnalyzeChart.takes().map_values(|a: PromptArgView| (a.name, a.required)) == seq![
            ("symbol"@, true),
            ("period"@, false),
        ],
        Prompt::BridgeToRobinhood.takes().map_values(|a: PromptArgView| (a.name, a.required))
            == seq![("min_score"@, false), ("size_pct_of_rh_equity"@, false)],
{
    assert(Prompt::RiskAudit.takes().map_values(|a: PromptArgView| (a.name, a.required))
        =~= seq![("period"@, false)]);
    assert(Prompt::ProposeTrade.takes().map_values(|a: PromptArgView| (a.name, a.required))
        =~= seq![("min_score"@, false), ("direction"@, false)]);
    assert(Prompt::AnalyzeChart.takes().map_values(|a: PromptArgView| (a.name, a.required))
        =~= seq![("symbol"@, true), ("period"@, false)]);
    assert(Prompt::BridgeToRobinhood.takes().map_values(|a: PromptArgView| (a.name, a.required))
        =~= seq![("min_score"@, false), ("size_pct_of_rh_equity"@, false)]);
}

/// What is said of parameters is said of each of them, in their order.
pub proof fn law_views_are_one_for_one(params: Seq<Param>, i: int)
    requires
        0 <= i < params.len(),
    ensures
        param_views(params).len() == params.len(),
        param_views(params)[i].name == params[i].name@,
        param_views(params)[i].kind == params[i].kind@,
        param_views(params)[i].choices == query::names(params[i].choices@),
        param_views(params)[i].default is Some <==> params[i].default is Some,
        params[i].default matches Some(d) ==> param_views(params)[i].default == Some(d@),
        param_views(params)[i].note is Some <==> params[i].note is Some,
        params[i].note matches Some(n) ==> param_views(params)[i].note == Some(n@),
        param_names(param_views(params)).len() == params.len(),
        param_names(param_views(params))[i] == params[i].name@,
{
}

/// A tool and a prompt are described by their own texts.
pub proof fn law_descriptions_are_their_own()
    ensures
        Tool::ScanMarket.described() == SCAN_MARKET_DESCRIPTION@,
        Tool::RunBacktest.described() == RUN_BACKTEST_DESCRIPTION@,
        Tool::SimulateStrategy.described() == SIMULATE_STRATEGY_DESCRIPTION@,
        Tool::GetRiskState.described() == GET_RISK_STATE_DESCRIPTION@,
        Tool::CheckHealth.described() == CHECK_HEALTH_DESCRIPTION@,
        Tool::RenderChartForVision.described() == RENDER_CHART_FOR_VISION_DESCRIPTION@,
        Tool::DetectChartPatterns.described() == DETECT_CHART_PATTERNS_DESCRIPTION@,
        Tool::ExecutePaperTrade.described() == EXECUTE_PAPER_TRADE_DESCRIPTION@,
        Prompt::MorningBriefing.described() == MORNING_BRIEFING_DESCRIPTION@,
        Prompt::RiskAudit.described() == RISK_AUDIT_DESCRIPTION@,
        Prompt::ProposeTrade.described() == PROPOSE_TRADE_DESCRIPTION@,
        Prompt::AnalyzeChart.described() == ANALYZE_CHART_DESCRIPTION@,
        Prompt::BridgeToRobinhood.described() == BRIDGE_TO_ROBINHOOD_DESCRIPTION@,
{
}

/// Directions and periods are texts to choose from, flags are booleans, and counts are integers;
/// every other parameter is a number or a text of its own.
pub proof fn law_kinds_follow_from_names(tool: Tool, i: int)
    requires
        0 <= i < tool.listed().len(),
    ensures
        ({
            let p = tool.listed()[i];
            &&& p.name == "direction"@ || p.name == "period"@ ==> p.kind == "string"@
                && p.choices.len() >= 2
            &&& p.name == "tickers"@ || p.name == "symbol"@ ==> p.kind == "string"@
                && p.choices.len() == 0
            &&& p.name == "oos"@ || p.name == "annotate"@ ==> p.kind == "boolean"@
                && p.choices.len() == 0
            &&& p.name == "hold_bars"@ || p.name == "pivot_order"@ ==> p.kind == "integer"@
                && p.choices.len() == 0
            &&& {
                ||| p.name == "min_score"@
                ||| p.name == "min_relvol"@
                ||| p.name == "starting_equity"@
                ||| p.name == "slippage_bps"@
                ||| p.name == "split_fraction"@
                ||| p.name == "entry"@
                ||| p.name == "stop"@
                ||| p.name == "target_10"@
                ||| p.name == "target_20"@
                ||| p.name == "score"@
            } ==> p.kind == "number"@ && p.choices.len() == 0
        }),
{
    lemma_param_names_differ();
}

proof fn lemma_param_names_differ()
    ensures
        "direction"@.len() == 9,
        "direction"@[0] == 'd',
        "period"@.len() == 6,
        "period"@[0] == 'p',
        "tickers"@.len() == 7,
        "tickers"@[0] == 't',
        "symbol"@.len() == 6,
        "symbol"@[0] == 's',
        "oos"@.len() == 3,
        "oos"@[0] == 'o',
        "annotate"@.len() == 8,
        "annotate"@[0] == 'a',
        "hold_bars"@.len() == 9,
        "hold_bars"@[0] == 'h',
        "pivot_order"@.len() == 11,
        "pivot_order"@[0] == 'p',
        "min_score"@.len() == 9,
        "min_score"@[0] == 'm',
        "min_relvol"@.len() == 10,
        "min_relvol"@[0] == 'm',
        "starting_equity"@.len() == 15,
        "starting_equity"@[0] == 's',
        "slippage_bps"@.len() == 12,
        "slippage_bps"@[0] == 's',
        "split_fraction"@.len() == 14,
        "split_fraction"@[0] == 's',
        "entry"@.len() == 5,
        "entry"@[0] == 'e',
        "stop"@.len() == 4,
        "stop"@[0] == 's',
        "target_10"@.len() == 9,
        "target_10"@[0] == 't',
        "target_20"@.len() == 9,
        "target_20"@[0] == 't',
        "score"@.len() == 5,
        "score"@[0] == 's',
{
    reveal_strlit("direction");
    reveal_strlit("period");
    reveal_strlit("tickers");
    reveal_strlit("symbol");
    reveal_strlit("oos");
    reveal_strlit("annotate");
    reveal_strlit("hold_bars");
    reveal_strlit("pivot_order");
    reveal_strlit("min_score");
    reveal_strlit("min_relvol");
    reveal_strlit("starting_equity");
    reveal_strlit("slippage_bps");
    reveal_strlit("split_fraction");
    reveal_strlit("entry");
    reveal_strlit("stop");
    reveal_strlit("target_10");
    reveal_strlit("target_20");
    reveal_strlit("score");
}

} // verus!
