//! Tool calls of the agent server. A call becomes a request to the HTTP server
//! ([`plan_call`]), and what comes of the request becomes the answer.

use vstd::prelude::*;

use crate::catalog;
use crate::catalog::Tool;
use crate::json;
use crate::json::{get_pretty, get_text, show_reply};
use crate::query;
use crate::query::{path_with_query, Arguments};
use crate::rpc::{RpcError, INVALID_PARAMS};

verus! {

/// A piece of an answer.
#[derive(Debug)]
pub enum Content {
    Text(String),
    /// An image, in base 64.
    Image { data: String, mime_type: &'static str },
}

/// A [`Content`] with its texts as character sequences.
pub enum ContentView {
    Text(Seq<char>),
    Image { data: Seq<char>, mime_type: Seq<char> },
}

impl View for Content {
    type V = ContentView;

    open spec fn view(&self) -> ContentView {
        match *self {
            Content::Text(s) => ContentView::Text(s@),
            Content::Image { data, mime_type } => ContentView::Image {
                data: data@,
                mime_type: mime_type@,
            },
        }
    }
}

/// The answer to a tool call. An error is an answer too, so that the agent sees it and can
/// act on it.
#[derive(Debug)]
pub struct Answer {
    pub content: Vec<Content>,
    /// Whether the answer is an error, where it says so.
    pub is_error: Option<bool>,
}

impl Answer {
    /// Whether the answer is one text.
    pub open spec fn says(&self, text: Seq<char>, is_error: Option<bool>) -> bool {
        &&& self.content@.map_values(|c: Content| c@) == seq![ContentView::Text(text)]
        &&& self.is_error == is_error
    }
}

fn text_answer(text: String, is_error: Option<bool>) -> (r: Answer)
    ensures
        r.says(text@, is_error),
{
    let mut content = Vec::new();
    content.push(Content::Text(text));
    assert(content@.map_values(|c: Content| c@) =~= seq![ContentView::Text(text@)]);
    Answer { content, is_error }
}

/// What is done with a tool call.
#[derive(Debug)]
pub enum CallPlan {
    /// The call is refused as a request.
    Reject { error: RpcError },
    /// The call is answered at once.
    Reply { answer: Answer },
    /// A GET request whose reply [`get_answer`] shows.
    Get { url: String },
    /// A GET request whose reply [`chart_answer`] shows.
    Chart { url: String },
    /// A POST request with the arguments as its body, whose reply [`order_answer`] shows.
    Order { url: String },
}

/// Where a tool's request goes.
pub open spec fn endpoint(tool: Tool) -> Seq<char> {
    match tool {
        Tool::ScanMarket => "/api/scan"@,
        Tool::RunBacktest => "/api/backtest"@,
        Tool::SimulateStrategy => "/api/simulate"@,
        Tool::GetRiskState => "/api/state"@,
        Tool::CheckHealth => "/api/health"@,
        Tool::RenderChartForVision => "/api/chart"@,
        Tool::DetectChartPatterns => "/api/patterns"@,
        Tool::ExecutePaperTrade => "/api/execute-mcp"@,
    }
}

fn endpoint_of(tool: Tool) -> (r: &'static str)
    ensures
        r@ == endpoint(tool),
{
    match tool {
        Tool::ScanMarket => "/api/scan",
        Tool::RunBacktest => "/api/backtest",
        Tool::SimulateStrategy => "/api/simulate",
        Tool::GetRiskState => "/api/state",
        Tool::CheckHealth => "/api/health",
        Tool::RenderChartForVision => "/api/chart",
        Tool::DetectChartPatterns => "/api/patterns",
        Tool::ExecutePaperTrade => "/api/execute-mcp",
    }
}

/// The names of a tool's parameters: what is sent on of a call.
fn forwarded(tool: Tool) -> (r: Vec<&'static str>)
    ensures
        query::names(r@) == catalog::param_names(tool.listed()),
{
    let params = tool.params();
    let mut keys: Vec<&'static str> = Vec::new();
    let mut i: usize = 0;
    while i < params.len()
        invariant
            i <= params@.len(),
            catalog::param_views(params@) == tool.listed(),
            query::names(keys@) == catalog::param_names(tool.listed()).take(i as int),
        decreases params@.len() - i,
    {
        let ghost before = query::names(keys@);
        let name: &'static str = params[i].name;
        keys.push(name);
        assert(query::names(keys@) =~= before.push(name@));
        assert(tool.listed()[i as int] == params@[i as int]@);
        assert(catalog::param_names(tool.listed()).take(i + 1) =~= before.push(name@));
        i = i + 1;
    }
    assert(catalog::param_names(tool.listed()).take(i as int) =~= catalog::param_names(
        tool.listed(),
    ));
    keys
}

/// The URL of a tool's request: its parameters, as far as they are given, in the query.
pub open spec fn url(base: Seq<char>, tool: Tool, args: Arguments) -> Seq<char> {
    base + query::path_and_query(endpoint(tool), args, catalog::param_names(tool.listed()))
}

/// The first of some names that no argument has.
pub open spec fn first_missing(args: Arguments, keys: Seq<Seq<char>>) -> Option<Seq<char>>
    decreases keys.len(),
{
    if keys.len() == 0 {
        None
    } else if args.value(keys[0]) is None {
        Some(keys[0])
    } else {
        first_missing(args, keys.drop_first())
    }
}

fn find_missing(args: &Arguments, keys: &Vec<&'static str>) -> (r: Option<&'static str>)
    ensures
        catalog::seen(r) == first_missing(*args, query::names(keys@)),
{
    let mut i: usize = 0;
    assert(query::names(keys@).skip(0) =~= query::names(keys@));
    while i < keys.len()
        invariant
            i <= keys@.len(),
            first_missing(*args, query::names(keys@)) == first_missing(
                *args,
                query::names(keys@).skip(i as int),
            ),
        decreases keys@.len() - i,
    {
        assert(query::names(keys@).skip(i as int)[0] == keys@[i as int]@);
        if args.get(keys[i]).is_none() {
            return Some(keys[i]);
        }
        assert(query::names(keys@).skip(i as int).drop_first() =~= query::names(keys@).skip(i + 1));
        i = i + 1;
    }
    None
}

/// What is said of an order without one of its fields, before the field.
pub const MISSING_FIELD_1: &'static str = "Refusing — missing required field `";

/// What is said of an order without one of its fields, behind the field.
pub const MISSING_FIELD_2: &'static str = "`. The execute_paper_trade tool requires \
    the full signal object (symbol, direction, entry, stop, target_10, target_20, score) \
    as returned by scan_market. Do not fabricate prices; call scan_market first.";

/// What is said of a chart without a symbol.
pub const NO_SYMBOL: &'static str = "Refusing — `symbol` is required.";

/// Plans a call: an order needs every field of a signal, a chart needs a symbol, and any
/// other tool goes to its endpoint.
pub fn plan_call(base: &str, name: Option<&str>, args: &Arguments) -> (r: CallPlan)
    ensures
        match name {
            None => r matches CallPlan::Reject { error } && error.says(
                INVALID_PARAMS,
                "missing tool name"@,
            ),
            Some(n) => match catalog::tool_named(n@) {
                None => r matches CallPlan::Reject { error } && error.says(
                    INVALID_PARAMS,
                    "unknown tool: "@ + n@,
                ),
                Some(Tool::ExecutePaperTrade) => match first_missing(
                    *args,
                    Tool::ExecutePaperTrade.needed(),
                ) {
                    Some(k) => r matches CallPlan::Reply { answer } && answer.says(
                        MISSING_FIELD_1@ + k + MISSING_FIELD_2@,
                        Some(true),
                    ),
                    None => r matches CallPlan::Order { url: u } && u@ == base@ + endpoint(
                        Tool::ExecutePaperTrade,
                    ),
                },
                Some(Tool::RenderChartForVision) => if args.text("symbol"@).len() == 0 {
                    r matches CallPlan::Reply { answer } && answer.says(NO_SYMBOL@, Some(true))
                } else {
                    r matches CallPlan::Chart { url: u } && u@ == url(
                        base@,
                        Tool::RenderChartForVision,
                        *args,
                    )
                },
                Some(tool) => r matches CallPlan::Get { url: u } && u@ == url(base@, tool, *args),
            },
        },
{
    let n = match name {
        Some(n) => n,
        None => {
            return CallPlan::Reject {
                error: RpcError { code: INVALID_PARAMS, message: "missing tool name".to_owned() },
            };
        },
    };
    let tool = match Tool::from_name(n) {
        Some(tool) => tool,
        None => {
            return CallPlan::Reject {
                error: RpcError {
                    code: INVALID_PARAMS,
                    message: "unknown tool: ".to_owned().concat(n),
                },
            };
        },
    };
    if matches!(tool, Tool::ExecutePaperTrade) {
        return match find_missing(args, &tool.required()) {
            Some(k) => CallPlan::Reply {
                answer: text_answer(
                    MISSING_FIELD_1.to_owned().concat(k).concat(MISSING_FIELD_2),
                    Some(true),
                ),
            },
            None => CallPlan::Order { url: base.to_owned().concat(endpoint_of(tool)) },
        };
    }
    let chart = matches!(tool, Tool::RenderChartForVision);
    if chart && args.get_text("symbol").as_str().is_empty() {
        return CallPlan::Reply { answer: text_answer(NO_SYMBOL.to_owned(), Some(true)) };
    }
    let path = path_with_query(endpoint_of(tool), args, &forwarded(tool));
    let url = base.to_owned().concat(path.as_str());
    if chart {
        CallPlan::Chart { url }
    } else {
        CallPlan::Get { url }
    }
}

/// What came of a request.
#[derive(Debug)]
pub enum Reply {
    /// It could not be made.
    Failed { error: String },
    /// It was answered. The status is as it is shown.
    Answered { status: String, success: bool, body: String },
}

/// What is said where the HTTP server cannot be reached.
pub const SERVER_DOWN: &'static str = "\n\nThe MCP server proxies tools to the main scanner HTTP server. \
    Make sure it's running: `cd /Users/ibraizqazi/RustWorks/options-scanner && ./run.sh`";

/// Answers a call with the reply to its GET request.
pub fn get_answer(url: &str, reply: &Reply) -> (r: Answer)
    ensures
        match *reply {
            Reply::Failed { error } => r.says(
                "HTTP request to "@ + url@ + " failed: "@ + error@ + SERVER_DOWN@,
                Some(true),
            ),
            Reply::Answered { status, success, body } => if success {
                r.says(json::shown_reply(body@), None)
            } else {
                r.says(
                    "Tool call returned HTTP "@ + status@ + ".\n\n"@ + json::shown_reply(body@),
                    Some(true),
                )
            },
        },
{
    match reply {
        Reply::Failed { error } => {
            let mut text = "HTTP request to ".to_owned();
            text.append(url);
            text.append(" failed: ");
            text.append(error.as_str());
            text.append(SERVER_DOWN);
            text_answer(text, Some(true))
        },
        Reply::Answered { status, success, body } => {
            let shown = show_reply(body.as_str());
            if *success {
                text_answer(shown, None)
            } else {
                let mut text = "Tool call returned HTTP ".to_owned();
                text.append(status.as_str());
                text.append(".\n\n");
                text.append(shown.as_str());
                text_answer(text, Some(true))
            }
        },
    }
}

/// What is said where an order cannot be sent.
pub const IS_SERVER_RUNNING: &'static str = ".\n\nIs the scanner HTTP server running? Start it with `./run.sh`.";

/// What is said of an order that was refused.
pub const SAFETY_REFUSAL: &'static str = "\n\nThis is a SAFETY refusal — the MCP execute tool is hard-gated to paper-only. \
    If you intended a live trade, use Robinhood's agentic-trading MCP tools instead. The dashboard's manual Send \
    button bypasses this gate for human-approved orders.";

/// Answers an order with the reply to its POST request.
pub fn order_answer(url: &str, reply: &Reply) -> (r: Answer)
    ensures
        match *reply {
            Reply::Failed { error } => r.says(
                "HTTP POST to "@ + url@ + " failed: "@ + error@ + IS_SERVER_RUNNING@,
                Some(true),
            ),
            Reply::Answered { status, success, body } => if success {
                r.says("Order placed (paper).\n\n"@ + json::shown_reply(body@), Some(false))
            } else {
                r.says(
                    "Order refused (HTTP "@ + status@ + ").\n\n"@ + json::shown_reply(body@)
                        + SAFETY_REFUSAL@,
                    Some(true),
                )
            },
        },
{
    match reply {
        Reply::Failed { error } => {
            let mut text = "HTTP POST to ".to_owned();
            text.append(url);
            text.append(" failed: ");
            text.append(error.as_str());
            text.append(IS_SERVER_RUNNING);
            text_answer(text, Some(true))
        },
        Reply::Answered { status, success, body } => {
            let shown = show_reply(body.as_str());
            if *success {
                text_answer(
                    "Order placed (paper).\n\n".to_owned().concat(shown.as_str()),
                    Some(false),
                )
            } else {
                let mut text = "Order refused (HTTP ".to_owned();
                text.append(status.as_str());
                text.append(").\n\n");
                text.append(shown.as_str());
                text.append(SAFETY_REFUSAL);
                text_answer(text, Some(true))
            }
        },
    }
}

/// What is said where a chart cannot be fetched.
pub const CHART_SERVER_DOWN: &'static str = ". Is the scanner HTTP server running (./run.sh)?";

/// What is said where there is no image.
pub const NO_IMAGE: &'static str = "No image returned from chart renderer.";

/// How a chart is to be read, up to the detections.
pub const READ_CHART_1: &'static str = ". Annotation lines: blue=trigger, green=target, red=stop.\n\n\
    Geometric detector found these (compare your visual read against them):\n";

/// How a chart is to be read, behind the detections.
pub const READ_CHART_2: &'static str = "\n\nNow look at the chart image and give an independent second opinion: which detections do you \
    visually confirm, which look wrong, and what does the rule engine miss?";

/// A value, or a default in its place.
pub open spec fn or_else(value: Option<Seq<char>>, default: Seq<char>) -> Seq<char> {
    match value {
        Some(v) => v,
        None => default,
    }
}

/// What goes with a chart, so that its image can be compared with what the detector found.
pub open spec fn guidance(body: Seq<u8>) -> Seq<char> {
    "Chart for "@ + or_else(json::text_field(body, "symbol"@), "?"@) + READ_CHART_1@ + or_else(
        json::pretty_field(body, "annotated_detections"@),
        "[]"@,
    ) + READ_CHART_2@
}

/// What an answer with the chart in a reply holds.
pub open spec fn is_chart(r: Answer, body: Seq<u8>) -> bool {
    match json::text_field(body, "error"@) {
        Some(e) => r.says("Chart render error: "@ + e, Some(true)),
        None => {
            let png = or_else(json::text_field(body, "png_base64"@), seq![]);
            if png.len() == 0 {
                r.says(NO_IMAGE@, Some(true))
            } else {
                &&& r.content@.map_values(|c: Content| c@) == seq![
                    ContentView::Image { data: png, mime_type: "image/png"@ },
                    ContentView::Text(guidance(body)),
                ]
                &&& r.is_error is None
            }
        },
    }
}

/// Answers a call for a chart with the bytes of the reply to its request, or with why there
/// are none.
pub fn chart_answer(url: &str, reply: &Result<Vec<u8>, String>) -> (r: Answer)
    ensures
        match *reply {
            Err(error) => r.says(
                "Chart request to "@ + url@ + " failed: "@ + error@ + CHART_SERVER_DOWN@,
                Some(true),
            ),
            Ok(body) => is_chart(r, body@),
        },
{
    let body = match reply {
        Ok(body) => body.as_slice(),
        Err(error) => {
            let mut text = "Chart request to ".to_owned();
            text.append(url);
            text.append(" failed: ");
            text.append(error.as_str());
            text.append(CHART_SERVER_DOWN);
            return text_answer(text, Some(true));
        },
    };
    if let Some(error) = get_text(body, "error") {
        return text_answer("Chart render error: ".to_owned().concat(error.as_str()), Some(true));
    }
    let data = match get_text(body, "png_base64") {
        Some(data) => data,
        None => String::new(),
    };
    assert(data@ =~= or_else(json::text_field(body@, "png_base64"@), seq![]));
    if data.as_str().is_empty() {
        return text_answer(NO_IMAGE.to_owned(), Some(true));
    }
    let symbol = match get_text(body, "symbol") {
        Some(symbol) => symbol,
        None => "?".to_owned(),
    };
    let detections = match get_pretty(body, "annotated_detections") {
        Some(detections) => detections,
        None => "[]".to_owned(),
    };
    let mut text = "Chart for ".to_owned();
    text.append(symbol.as_str());
    text.append(READ_CHART_1);
    text.append(detections.as_str());
    text.append(READ_CHART_2);
    let mut content = Vec::new();
    content.push(Content::Image { data, mime_type: "image/png" });
    content.push(Content::Text(text));
    assert(content@.map_values(|c: Content| c@) =~= seq![
        ContentView::Image { data: data@, mime_type: "image/png"@ },
        ContentView::Text(text@),
    ]);
    Answer { content, is_error: None }
}

/// An order lacks no field exactly when each of them is given.
pub proof fn law_complete_orders_lack_nothing(args: Arguments, keys: Seq<Seq<char>>)
    ensures
        first_missing(args, keys) is None <==> forall|i: int|
            0 <= i < keys.len() ==> args.value(#[trigger] keys[i]) is Some,
        first_missing(args, keys) matches Some(k) ==> keys.contains(k) && args.value(k) is None,
    decreases keys.len(),
{
    if keys.len() > 0 {
        let rest = keys.drop_first();
        law_complete_orders_lack_nothing(args, rest);
        assert(keys.contains(keys[0]));
        if first_missing(args, rest) is None {
            assert forall|i: int| 0 < i < keys.len() implies args.value(
                #[trigger] keys[i],
            ) is Some by {
                assert(rest[i - 1] == keys[i]);
            }
        } else {
            let k = first_missing(args, rest)->0;
            let i = choose|i: int| 0 <= i < rest.len() && rest[i] == k;
            assert(keys[i + 1] == k);
        }
    }
}

/// Each tool has its own endpoint.
pub proof fn law_tools_have_their_endpoints(tool: Tool)
    ensures
        endpoint(Tool::ScanMarket) == "/api/scan"@,
        endpoint(Tool::RunBacktest) == "/api/backtest"@,
        endpoint(Tool::SimulateStrategy) == "/api/simulate"@,
        endpoint(Tool::GetRiskState) == "/api/state"@,
        endpoint(Tool::CheckHealth) == "/api/health"@,
        endpoint(Tool::RenderChartForVision) == "/api/chart"@,
        endpoint(Tool::DetectChartPatterns) == "/api/patterns"@,
        endpoint(Tool::ExecutePaperTrade) == "/api/execute-mcp"@,
        endpoint(tool) == endpoint(Tool::ExecutePaperTrade) ==> tool is ExecutePaperTrade,
{
    reveal_strlit("/api/scan");
    reveal_strlit("/api/backtest");
    reveal_strlit("/api/simulate");
    reveal_strlit("/api/state");
    reveal_strlit("/api/health");
    reveal_strlit("/api/chart");
    reveal_strlit("/api/patterns");
    reveal_strlit("/api/execute-mcp");
    assert("/api/execute-mcp"@.len() == 16);
    assert("/api/scan"@.len() == 9);
    assert("/api/backtest"@.len() == 13);
    assert("/api/simulate"@.len() == 13);
    assert("/api/state"@.len() == 10);
    assert("/api/health"@.len() == 11);
    assert("/api/chart"@.len() == 10);
    assert("/api/patterns"@.len() == 13);
}

/// A request goes to the base, the endpoint of its tool, and the parameters of the tool that are
/// given, in the order in which the tool lists them.
pub proof fn law_requests_go_to_their_endpoint(base: Seq<char>, tool: Tool, args: Arguments)
    ensures
        ({
            let keys = catalog::param_names(tool.listed());
            let q = query::query(args, keys);
            &&& q.len() == 0 ==> url(base, tool, args) == base + endpoint(tool)
            &&& q.len() > 0 ==> url(base, tool, args) == base + endpoint(tool) + "?"@ + q
            &&& keys.len() == tool.listed().len()
            &&& forall|i: int| 0 <= i < keys.len() ==> #[trigger] keys[i] == tool.listed()[i].name
        }),
{
    let q = query::query(args, catalog::param_names(tool.listed()));
    if q.len() > 0 {
        assert(url(base, tool, args) =~= base + endpoint(tool) + "?"@ + q);
    }
}

/// The field that an order is refused for is the first that it lacks: those before it are given.
pub proof fn law_the_first_missing_field_is_named(args: Arguments, keys: Seq<Seq<char>>)
    ensures
        match first_missing(args, keys) {
            Some(k) => exists|i: int|
                {
                    &&& 0 <= i < keys.len()
                    &&& #[trigger] keys[i] == k
                    &&& args.value(k) is None
                    &&& forall|j: int| 0 <= j < i ==> args.value(#[trigger] keys[j]) is Some
                },
            None => forall|j: int| 0 <= j < keys.len() ==> args.value(#[trigger] keys[j]) is Some,
        },
    decreases keys.len(),
{
    if keys.len() > 0 {
        if args.value(keys[0]) is None {
            assert(keys[0] == keys[0]);
        } else {
            let rest = keys.drop_first();
            law_the_first_missing_field_is_named(args, rest);
            match first_missing(args, rest) {
                Some(k) => {
                    let i = choose|i: int|
                        {
                            &&& 0 <= i < rest.len()
                            &&& #[trigger] rest[i] == k
                            &&& args.value(k) is None
                            &&& forall|j: int|
                                0 <= j < i ==> args.value(#[trigger] rest[j]) is Some
                        };
                    assert(keys[i + 1] == k);
                    assert forall|j: int| 0 <= j < i + 1 implies args.value(
                        #[trigger] keys[j],
                    ) is Some by {
                        if j > 0 {
                            assert(rest[j - 1] == keys[j]);
                        }
                    }
                },
                None => {
                    assert forall|j: int| 0 <= j < keys.len() implies args.value(
                        #[trigger] keys[j],
                    ) is Some by {
                        if j > 0 {
                            assert(rest[j - 1] == keys[j]);
                        }
                    }
                },
            }
        }
    }
}

/// An answer with a chart holds the image that came and a text that names the symbol and what
/// the detector found. A reply with an error, or without an image, is answered with an error.
pub proof fn law_charts_show_what_came(r: Answer, body: Seq<u8>)
    requires
        is_chart(r, body),
    ensures
        json::text_field(body, "error"@) matches Some(e) ==> {
            &&& r.is_error == Some(true)
            &&& r.content@.len() == 1
            &&& r.content@[0]@ == ContentView::Text("Chart render error: "@ + e)
        },
        json::text_field(body, "error"@) is None ==> match json::text_field(
            body,
            "png_base64"@,
        ) {
            Some(png) => if png.len() > 0 {
                &&& r.is_error is None
                &&& r.content@.len() == 2
                &&& r.content@[0]@ == ContentView::Image { data: png, mime_type: "image/png"@ }
                &&& r.content@[1]@ == ContentView::Text(guidance(body))
            } else {
                r.is_error == Some(true) && r.content@.len() == 1
            },
            None => r.is_error == Some(true) && r.content@.len() == 1,
        },
        json::text_field(body, "symbol"@) matches Some(symbol) ==> guidance(body).take(
            ("Chart for "@ + symbol).len() as int,
        ) == "Chart for "@ + symbol,
{
    let views = r.content@.map_values(|c: Content| c@);
    assert(views.len() == r.content@.len());
    assert(forall|i: int| 0 <= i < views.len() ==> #[trigger] views[i] == r.content@[i]@);
    if let Some(e) = json::text_field(body, "error"@) {
        assert(views[0] == ContentView::Text("Chart render error: "@ + e));
    } else if let Some(png) = json::text_field(body, "png_base64"@) {
        if png.len() > 0 {
            assert(views[0] == ContentView::Image { data: png, mime_type: "image/png"@ });
            assert(views[1] == ContentView::Text(guidance(body)));
        }
    }
    if let Some(symbol) = json::text_field(body, "symbol"@) {
        let lead = "Chart for "@ + symbol;
        assert(guidance(body).take(lead.len() as int) =~= lead);
    }
}

/// An answer that says a text is that text alone.
pub proof fn law_text_answers_are_one_text(r: Answer, text: Seq<char>, is_error: Option<bool>)
    requires
        r.says(text, is_error),
    ensures
        r.content@.len() == 1,
        r.content@[0] is Text,
        r.content@[0]->Text_0@ == text,
        r.is_error == is_error,
{
    let views = r.content@.map_values(|c: Content| c@);
    assert(views.len() == r.content@.len());
    assert(views[0] == r.content@[0]@);
}

/// A call without a name, or with one that is no tool's, is refused as a request. An order that
/// lacks a field, and a chart without a symbol, are answered with an error and go nowhere. Any
/// other call goes to the endpoint of its own tool: an order as one, a chart as one, and the
/// rest as plain requests.
pub proof fn law_calls_go_where_they_belong(
    base: &str,
    name: Option<&str>,
    args: Arguments,
    r: CallPlan,
)
    requires
        call_ensures(plan_call, (base, name, &args), r),
    ensures
        r is Reject <==> (name matches Some(n) ==> catalog::tool_named(n@) is None),
        r matches CallPlan::Reject { error } ==> error.code == -32602,
        r matches CallPlan::Order { url: u } ==> {
            &&& name matches Some(n) && catalog::tool_named(n@) == Some(Tool::ExecutePaperTrade)
            &&& u@ == base@ + "/api/execute-mcp"@
            &&& forall|i: int|
                0 <= i < Tool::ExecutePaperTrade.needed().len() ==> args.value(
                    #[trigger] Tool::ExecutePaperTrade.needed()[i],
                ) is Some
        },
        r matches CallPlan::Chart { url: u } ==> {
            &&& name matches Some(n) && catalog::tool_named(n@) == Some(
                Tool::RenderChartForVision,
            )
            &&& args.text("symbol"@).len() > 0
            &&& u@ == url(base@, Tool::RenderChartForVision, args)
        },
        r matches CallPlan::Get { url: u } ==> {
            &&& name matches Some(n) && {
                &&& catalog::tool_named(n@) matches Some(tool) && {
                    &&& tool !is ExecutePaperTrade
                    &&& tool !is RenderChartForVision
                    &&& u@ == url(base@, tool, args)
                }
            }
        },
        r matches CallPlan::Reply { answer } ==> {
            &&& answer.is_error == Some(true)
            &&& name matches Some(n) && {
                ||| catalog::tool_named(n@) == Some(Tool::ExecutePaperTrade) && first_missing(
                    args,
                    Tool::ExecutePaperTrade.needed(),
                ) is Some
                ||| catalog::tool_named(n@) == Some(Tool::RenderChartForVision) && args.text(
                    "symbol"@,
                ).len() == 0
            }
        },
{
    law_complete_orders_lack_nothing(args, Tool::ExecutePaperTrade.needed());
}

/// An answer is an error exactly where its request was not made or did not succeed, and holds
/// what came back either way; an order that was placed says that it was no error.
pub proof fn law_failed_requests_are_errors(url: &str, reply: Reply, get: Answer, order: Answer)
    requires
        call_ensures(get_answer, (url, &reply), get),
        call_ensures(order_answer, (url, &reply), order),
    ensures
        get.content@.len() == 1,
        order.content@.len() == 1,
        match reply {
            Reply::Failed { error } => {
                &&& get.is_error == Some(true)
                &&& order.is_error == Some(true)
                &&& get.content@[0]@ == ContentView::Text(
                    "HTTP request to "@ + url@ + " failed: "@ + error@ + SERVER_DOWN@,
                )
                &&& order.content@[0]@ == ContentView::Text(
                    "HTTP POST to "@ + url@ + " failed: "@ + error@ + IS_SERVER_RUNNING@,
                )
            },
            Reply::Answered { status, success, body } => {
                let shown = json::shown_reply(body@);
                &&& success ==> {
                    &&& get.is_error is None
                    &&& order.is_error == Some(false)
                    &&& get.content@[0]@ == ContentView::Text(shown)
                    &&& order.content@[0]@ == ContentView::Text(
                        "Order placed (paper).\n\n"@ + shown,
                    )
                }
                &&& !success ==> {
                    &&& get.is_error == Some(true)
                    &&& order.is_error == Some(true)
                    &&& get.content@[0]@ == ContentView::Text(
                        "Tool call returned HTTP "@ + status@ + ".\n\n"@ + shown,
                    )
                    &&& order.content@[0]@ == ContentView::Text(
                        "Order refused (HTTP "@ + status@ + ").\n\n"@ + shown + SAFETY_REFUSAL@,
                    )
                }
            },
        },
{
    let a = get.content@.map_values(|c: Content| c@);
    let b = order.content@.map_values(|c: Content| c@);
    assert(a.len() == get.content@.len());
    assert(b.len() == order.content@.len());
    assert(a[0] == get.content@[0]@);
    assert(b[0] == order.content@[0]@);
}

/// A chart that could not be fetched is answered with why; one that was fetched is shown.
pub proof fn law_charts_are_answered(
    url: &str,
    reply: Result<Vec<u8>, String>,
    r: Answer,
)
    requires
        call_ensures(chart_answer, (url, &reply), r),
    ensures
        reply matches Ok(body) ==> is_chart(r, body@),
        reply matches Err(error) ==> {
            &&& r.is_error == Some(true)
            &&& r.content@.len() == 1
            &&& r.content@[0]@ == ContentView::Text(
                "Chart request to "@ + url@ + " failed: "@ + error@ + CHART_SERVER_DOWN@,
            )
        },
{
    let views = r.content@.map_values(|c: Content| c@);
    assert(views.len() == r.content@.len());
    if reply is Err {
        assert(views[0] == r.content@[0]@);
    }
}

} // verus!
