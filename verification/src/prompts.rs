//! The prompts: recipes that an agent follows, with the arguments filled in.

use vstd::prelude::*;

use crate::catalog;
use crate::catalog::Prompt;
use crate::query;
use crate::query::{ArgValue, Arguments};
use crate::rpc::{RpcError, INVALID_PARAMS};

verus! {

/// A prompt that was asked for.
#[derive(Debug)]
pub struct PromptReply {
    pub description: &'static str,
    pub text: String,
}

/// The text of `morning_briefing`.
pub const MORNING_BRIEFING: &'static str = "I need a concise pre-market briefing. Please:\n\
    1. Call `get_risk_state` to show current account equity, trading mode, today's trade counters, and killswitch status.\n\
    2. If the killswitch is tripped, STOP and report — do not scan for trades.\n\
    3. Otherwise call `scan_market` with min_score=3.5 and direction=both.\n\
    4. Group the results by direction (bullish / bearish) and rank by score within each group.\n\
    5. For the top 3 candidates overall, summarize: symbol, direction, score, entry, stop, +10% target, +20% target, and the signal notes (which indicators fired).\n\
    6. Conclude with one sentence on which (if any) setup looks worth a closer look, and a reminder that nothing is executed without my explicit go-ahead.";

/// The text of `risk_audit`, up to the first argument.
pub const RISK_AUDIT_1: &'static str = "Run a strategy health audit using an out-of-sample simulation over a ";

/// The text of `risk_audit` that follows, up to the next argument.
pub const RISK_AUDIT_2: &'static str = " lookback.\n\
    \n\
    1. Call `simulate_strategy` with: starting_equity=100000, period=";

/// The rest of the text of `risk_audit`.
pub const RISK_AUDIT_3: &'static str = ", oos=true, split_fraction=0.5, slippage_bps=10.\n\
    2. Report the train-period and test-period returns side by side, plus max drawdown for each.\n\
    3. Highlight the gap between train and test returns:\n\
    - If test ≥ 0 and within 30% of train: strategy looks robust.\n\
    - If test < 0 or gap > 30%: strategy may be over-fit or regime has shifted. Recommend NOT trading.\n\
    4. Report whether the killswitch tripped in either half — that's the most important data point.\n\
    5. Be specific about what to do next: continue paper, retune parameters, or stop trading entirely.";

/// The text of `propose_trade`, up to the first argument.
pub const PROPOSE_TRADE_1: &'static str = "Propose (but do NOT execute) the best current trade. Workflow:\n\
    \n\
    1. Call `check_health` — if anything is broken, report and stop.\n\
    2. Call `get_risk_state`. If `killswitch_tripped` is true, or `trades_opened` has reached the daily cap, or `open_notional / account_equity` is already at the exposure cap, STOP and explain — there's no room for a new trade.\n\
    3. Call `scan_market` with min_score=";

/// The text of `propose_trade` that follows, up to the next argument.
pub const PROPOSE_TRADE_2: &'static str = " and direction=";

/// The rest of the text of `propose_trade`.
pub const PROPOSE_TRADE_3: &'static str = ".\n\
    4. Pick the top-scoring candidate. If no candidate meets the threshold, say so.\n\
    5. Output a structured proposal in this exact format:\n\
    ```\n\
    PROPOSAL\n\
    Symbol:    <sym>\n\
    Direction: <bullish|bearish>\n\
    Score:     <n>\n\
    Entry:     $<entry>\n\
    Stop:      $<stop>  (risk: <abs_dollars_at_5%_of_equity>)\n\
    Target +10%: $<t10>\n\
    Target +20%: $<t20>\n\
    Signals: <notes from scanner>\n\
    ```\n\
    6. Conclude with: 'To execute this paper trade, confirm and I will call execute_paper_trade with these exact values.' Do NOT call execute_paper_trade in this turn.";

/// The text of `analyze_chart`, up to the first argument.
pub const ANALYZE_CHART_1: &'static str = "Analyze ";

/// The text of `analyze_chart` that follows, up to the next argument.
pub const ANALYZE_CHART_2: &'static str = " (";

/// The text of `analyze_chart` that follows, up to the next argument.
pub const ANALYZE_CHART_3: &'static str = ") using BOTH detection layers, then reconcile:\n\
    \n\
    1. Call `detect_chart_patterns` with symbol=";

/// The text of `analyze_chart` that follows, up to the next argument.
pub const ANALYZE_CHART_4: &'static str = ", period=";

/// The text of `analyze_chart` that follows, up to the next argument.
pub const ANALYZE_CHART_5: &'static str = ". This is the \
    deterministic geometric read — exact patterns with trigger/target/stop levels.\n\
    2. Call `render_chart_for_vision` with symbol=";

/// The text of `analyze_chart` that follows, up to the next argument.
pub const ANALYZE_CHART_6: &'static str = ", period=";

/// The rest of the text of `analyze_chart`.
pub const ANALYZE_CHART_7: &'static str = ". Actually LOOK \
    at the returned chart image. Form your own visual read.\n\
    3. Reconcile the two into a single table:\n\
    | Pattern | Geometric? | Visual confirm? | Verdict |\n\
    - CONFIRMED: both the rules and your eyes agree.\n\
    - GEOMETRIC-ONLY: rules flagged it but it looks weak/invalid to you — say why.\n\
    - VISUAL-ONLY: you see something (channel, trendline break, divergence) the rules missed.\n\
    4. For each CONFIRMED pattern, restate its trigger / target / stop.\n\
    5. Cross-check against `scan_market` (does the momentum scanner agree on direction?) and \
    note alignment or conflict.\n\
    6. Conclude with the single highest-conviction setup (or 'no clean setup') and the \
    specific level that would confirm or invalidate it. Do NOT place any order — analysis only.";

/// The text of `bridge_to_robinhood`, up to the first argument.
pub const BRIDGE_TO_ROBINHOOD_1: &'static str = "Drive a trade in my Robinhood Agentic sub-account using this scanner's analytics. \
    This workflow assumes BOTH MCPs are connected:\n\
    - `options-scanner` (this server) provides signals, back-test evidence, and risk context.\n\
    - `robinhood-agentic` provides quote, account, and order tools against my sandboxed sub-account.\n\
    \n\
    Step-by-step:\n\
    \n\
    1. From `options-scanner`, call `check_health` — if anything is broken, stop.\n\
    2. From `options-scanner`, call `get_risk_state`. Note today's trade count, killswitch state, mode.\n\
    3. From `robinhood-agentic`, fetch the Agentic sub-account info: equity, buying power, current positions. (Tool name will be something like `get_account` or `account_info` — use whatever the connected Robinhood MCP exposes.)\n\
    4. From `options-scanner`, call `scan_market` with min_score=";

/// The text of `bridge_to_robinhood` that follows, up to the next argument.
pub const BRIDGE_TO_ROBINHOOD_2: &'static str = ".\n\
    5. Filter the scan results to symbols Robinhood actually offers equities for (drop ETFs the agentic sandbox doesn't support if any).\n\
    6. Take the top candidate. Cross-check it isn't already in the Robinhood positions list — if it is, skip to the next candidate to avoid double-sizing.\n\
    7. Compute the position size as ";

/// The text of `bridge_to_robinhood` that follows, up to the next argument.
pub const BRIDGE_TO_ROBINHOOD_3: &'static str = "% of the Robinhood agentic-account equity (NOT this scanner's mock equity — Robinhood is the real account being traded).\n\
    8. Get a fresh quote from `robinhood-agentic` for the chosen symbol. If the live price has moved >2% from the scanner's `entry`, abort and report — the signal has gone stale.\n\
    9. Output a structured proposal in this EXACT format:\n\
    ```\n\
    PROPOSAL FOR ROBINHOOD AGENTIC\n\
    Symbol:     <sym>\n\
    Direction:  <bullish=BUY | bearish=skip equity, agentic shorts not supported>\n\
    Score:      <n>/7\n\
    Robinhood live quote: $<live>\n\
    Scanner entry:        $<entry>  (drift: <pct>%)\n\
    Stop loss:            $<stop>\n\
    +10% target:          $<t10>\n\
    +20% target:          $<t20>\n\
    Size:                 <qty> sh (~$<notional>, ";

/// The rest of the text of `bridge_to_robinhood`.
pub const BRIDGE_TO_ROBINHOOD_4: &'static str = "% of agentic equity)\n\
    Signals fired:        <notes>\n\
    ```\n\
    10. End with: 'Confirm to place this order via Robinhood Agentic. I will use the order tool from `robinhood-agentic` only after explicit confirmation.'\n\
    \n\
    Critical rules:\n\
    - Bearish signals require shorts. Robinhood's agentic account may not support shorts at launch — if not, REPORT and skip rather than placing a long against a bearish signal.\n\
    - Never call `execute_paper_trade` (this scanner's tool) AND a Robinhood order tool in the same turn. They're separate accounts — pick one.\n\
    - If `get_risk_state` shows our scanner's killswitch tripped, that's a signal about market regime, not just our paper account. Be skeptical about placing the Robinhood trade and say so.";

/// The title of a prompt.
pub open spec fn title(prompt: Prompt) -> Seq<char> {
    match prompt {
        Prompt::MorningBriefing => "Morning briefing workflow"@,
        Prompt::RiskAudit => "Strategy edge audit"@,
        Prompt::ProposeTrade => "Trade proposal workflow"@,
        Prompt::AnalyzeChart => "Dual-read chart analysis (geometric + vision)"@,
        Prompt::BridgeToRobinhood => "Bridge scanner analytics → Robinhood Agentic execution"@,
    }
}

/// The text of a prompt with its arguments. Those that are missing or empty have defaults,
/// but for the symbol.
pub open spec fn recipe(prompt: Prompt, args: Arguments) -> Seq<char> {
    match prompt {
        Prompt::MorningBriefing => MORNING_BRIEFING@,
        Prompt::RiskAudit => {
            let period = args.chosen("period"@, "2y"@);
            RISK_AUDIT_1@ + period + RISK_AUDIT_2@ + period + RISK_AUDIT_3@
        },
        Prompt::ProposeTrade => {
            let min_score = args.chosen("min_score"@, "4"@);
            let direction = args.chosen("direction"@, "both"@);
            PROPOSE_TRADE_1@ + min_score + PROPOSE_TRADE_2@ + direction + PROPOSE_TRADE_3@
        },
        Prompt::AnalyzeChart => {
            let symbol = args.text("symbol"@);
            let period = args.chosen("period"@, "6mo"@);
            ANALYZE_CHART_1@ + symbol + ANALYZE_CHART_2@ + period + ANALYZE_CHART_3@ + symbol
                + ANALYZE_CHART_4@ + period + ANALYZE_CHART_5@ + symbol + ANALYZE_CHART_6@
                + period + ANALYZE_CHART_7@
        },
        Prompt::BridgeToRobinhood => {
            let min_score = args.chosen("min_score"@, "4"@);
            let size_pct = args.chosen("size_pct_of_rh_equity"@, "5"@);
            BRIDGE_TO_ROBINHOOD_1@ + min_score + BRIDGE_TO_ROBINHOOD_2@ + size_pct
                + BRIDGE_TO_ROBINHOOD_3@ + size_pct + BRIDGE_TO_ROBINHOOD_4@
        },
    }
}

fn write_recipe(prompt: Prompt, args: &Arguments) -> (r: String)
    ensures
        r@ == recipe(prompt, *args),
{
    match prompt {
        Prompt::MorningBriefing => MORNING_BRIEFING.to_owned(),
        Prompt::RiskAudit => {
            let period = args.text_or("period", "2y");
            let mut out = RISK_AUDIT_1.to_owned();
            out.append(period.as_str());
            out.append(RISK_AUDIT_2);
            out.append(period.as_str());
            out.append(RISK_AUDIT_3);
            out
        },
        Prompt::ProposeTrade => {
            let min_score = args.text_or("min_score", "4");
            let direction = args.text_or("direction", "both");
            let mut out = PROPOSE_TRADE_1.to_owned();
            out.append(min_score.as_str());
            out.append(PROPOSE_TRADE_2);
            out.append(direction.as_str());
            out.append(PROPOSE_TRADE_3);
            out
        },
        Prompt::AnalyzeChart => {
            let symbol = args.get_text("symbol");
            let period = args.text_or("period", "6mo");
            let mut out = ANALYZE_CHART_1.to_owned();
            out.append(symbol.as_str());
            out.append(ANALYZE_CHART_2);
            out.append(period.as_str());
            out.append(ANALYZE_CHART_3);
            out.append(symbol.as_str());
            out.append(ANALYZE_CHART_4);
            out.append(period.as_str());
            out.append(ANALYZE_CHART_5);
            out.append(symbol.as_str());
            out.append(ANALYZE_CHART_6);
            out.append(period.as_str());
            out.append(ANALYZE_CHART_7);
            out
        },
        Prompt::BridgeToRobinhood => {
            let min_score = args.text_or("min_score", "4");
            let size_pct = args.text_or("size_pct_of_rh_equity", "5");
            let mut out = BRIDGE_TO_ROBINHOOD_1.to_owned();
            out.append(min_score.as_str());
            out.append(BRIDGE_TO_ROBINHOOD_2);
            out.append(size_pct.as_str());
            out.append(BRIDGE_TO_ROBINHOOD_3);
            out.append(size_pct.as_str());
            out.append(BRIDGE_TO_ROBINHOOD_4);
            out
        },
    }
}

fn write_title(prompt: Prompt) -> (r: &'static str)
    ensures
        r@ == title(prompt),
{
    match prompt {
        Prompt::MorningBriefing => "Morning briefing workflow",
        Prompt::RiskAudit => "Strategy edge audit",
        Prompt::ProposeTrade => "Trade proposal workflow",
        Prompt::AnalyzeChart => "Dual-read chart analysis (geometric + vision)",
        Prompt::BridgeToRobinhood => "Bridge scanner analytics → Robinhood Agentic execution",
    }
}

/// What is asked for where no symbol is given.
pub const SYMBOL_NEEDED: &'static str = "analyze_chart requires a `symbol` argument";

/// Whether a prompt has what it needs. Only a chart analysis needs something: a symbol.
pub open spec fn has_needed(prompt: Prompt, args: Arguments) -> bool {
    prompt is AnalyzeChart ==> args.text("symbol"@).len() > 0
}

/// Answers a request for a prompt.
pub fn get_prompt(name: Option<&str>, args: &Arguments) -> (r: Result<PromptReply, RpcError>)
    ensures
        match name {
            None => r matches Err(e) && e.says(INVALID_PARAMS, "missing prompt name"@),
            Some(n) => match catalog::prompt_named(n@) {
                None => r matches Err(e) && e.says(INVALID_PARAMS, "unknown prompt: "@ + n@),
                Some(prompt) => if has_needed(prompt, *args) {
                    r matches Ok(reply) && reply.description@ == title(prompt) && reply.text@
                        == recipe(prompt, *args)
                } else {
                    r matches Err(e) && e.says(INVALID_PARAMS, SYMBOL_NEEDED@)
                },
            },
        },
{
    let n = match name {
        Some(n) => n,
        None => {
            return Err(
                RpcError { code: INVALID_PARAMS, message: "missing prompt name".to_owned() },
            );
        },
    };
    let prompt = match Prompt::from_name(n) {
        Some(prompt) => prompt,
        None => {
            return Err(
                RpcError {
                    code: INVALID_PARAMS,
                    message: "unknown prompt: ".to_owned().concat(n),
                },
            );
        },
    };
    if matches!(prompt, Prompt::AnalyzeChart) && args.get_text("symbol").as_str().is_empty() {
        return Err(RpcError { code: INVALID_PARAMS, message: SYMBOL_NEEDED.to_owned() });
    }
    Ok(PromptReply { description: write_title(prompt), text: write_recipe(prompt, args) })
}

/// A prompt has its arguments filled in wherever they stand: each as it was given, or its
/// default where it was not given or is empty. Other arguments do not matter.
pub proof fn law_prompts_show_their_arguments(args: Arguments)
    ensures
        ({
            let given = args.text("period"@);
            let period = if given.len() > 0 { given } else { "2y"@ };
            recipe(Prompt::RiskAudit, args) == RISK_AUDIT_1@ + period + RISK_AUDIT_2@ + period
                + RISK_AUDIT_3@
        }),
        ({
            let score = args.text("min_score"@);
            let way = args.text("direction"@);
            recipe(Prompt::ProposeTrade, args) == PROPOSE_TRADE_1@ + (if score.len() > 0 {
                score
            } else {
                "4"@
            }) + PROPOSE_TRADE_2@ + (if way.len() > 0 { way } else { "both"@ })
                + PROPOSE_TRADE_3@
        }),
        ({
            let symbol = args.text("symbol"@);
            let given = args.text("period"@);
            let period = if given.len() > 0 { given } else { "6mo"@ };
            recipe(Prompt::AnalyzeChart, args) == "Analyze "@ + symbol + " ("@ + period
                + ANALYZE_CHART_3@ + symbol + ", period="@ + period + ANALYZE_CHART_5@ + symbol
                + ", period="@ + period + ANALYZE_CHART_7@
        }),
        ({
            let score = args.text("min_score"@);
            let given = args.text("size_pct_of_rh_equity"@);
            let size = if given.len() > 0 { given } else { "5"@ };
            recipe(Prompt::BridgeToRobinhood, args) == BRIDGE_TO_ROBINHOOD_1@ + (if score.len()
                > 0 {
                score
            } else {
                "4"@
            }) + BRIDGE_TO_ROBINHOOD_2@ + size + BRIDGE_TO_ROBINHOOD_3@ + size
                + BRIDGE_TO_ROBINHOOD_4@
        }),
        recipe(Prompt::MorningBriefing, args) == MORNING_BRIEFING@,
{
    query::law_values_are_sent_as_they_are(ArgValue::Other, args, "period"@, "2y"@);
    query::law_values_are_sent_as_they_are(ArgValue::Other, args, "period"@, "6mo"@);
    query::law_values_are_sent_as_they_are(ArgValue::Other, args, "min_score"@, "4"@);
    query::law_values_are_sent_as_they_are(ArgValue::Other, args, "direction"@, "both"@);
    query::law_values_are_sent_as_they_are(ArgValue::Other, args, "size_pct_of_rh_equity"@, "5"@);
}

/// Only the analysis of a chart can lack something: its symbol.
pub proof fn law_only_charts_need_a_symbol(prompt: Prompt, args: Arguments)
    ensures
        has_needed(prompt, args) <==> !(prompt is AnalyzeChart) || args.text("symbol"@).len() > 0,
        title(Prompt::MorningBriefing) == "Morning briefing workflow"@,
        title(Prompt::RiskAudit) == "Strategy edge audit"@,
        title(Prompt::ProposeTrade) == "Trade proposal workflow"@,
        title(Prompt::AnalyzeChart) == "Dual-read chart analysis (geometric + vision)"@,
        title(Prompt::BridgeToRobinhood)
            == "Bridge scanner analytics → Robinhood Agentic execution"@,
{
}

/// A prompt is given exactly where its name is known and it lacks nothing; otherwise the
/// parameters are refused, with what is wrong with them.
pub proof fn law_prompts_are_given_by_name(
    name: Option<&str>,
    args: Arguments,
    r: Result<PromptReply, RpcError>,
)
    requires
        call_ensures(get_prompt, (name, &args), r),
    ensures
        r is Ok <==> (name matches Some(n) && {
            &&& catalog::prompt_named(n@) matches Some(p) && has_needed(p, args)
        }),
        r matches Err(e) ==> e.code == -32602,
        r matches Err(e) ==> name is None ==> e.message@ == "missing prompt name"@,
        r matches Err(e) ==> (name matches Some(n) ==> {
            &&& catalog::prompt_named(n@) is None ==> e.message@ == "unknown prompt: "@ + n@
            &&& catalog::prompt_named(n@) is Some ==> e.message@
                == "analyze_chart requires a `symbol` argument"@
        }),
        r matches Ok(reply) ==> (name matches Some(n) && {
            &&& catalog::prompt_named(n@) matches Some(p) && {
                &&& reply.text@ == recipe(p, args)
                &&& reply.description@ == title(p)
            }
        }),
{
}

} // verus!
