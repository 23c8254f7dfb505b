//! What the HTTP server computes between a request and its reply: the scripts' arguments, the
//! health report, the guard in front of agent orders, and the simulation requests.

use vstd::prelude::*;

use crate::broker::BrokerResult;
use crate::catalog;
use crate::executor::TradingMode;
use crate::fixed;
use crate::json;
use crate::json::{get_list, read_json};
use crate::sim;
use crate::sim::{BacktestTrade, SimError, SimReport, Simulator};
use crate::text;
use crate::text::{count_text, same};

verus! {

/// Success.
pub const OK: u16 = 200;

/// Agent orders do not go to a live broker.
pub const FORBIDDEN: u16 = 403;

/// The scheduler is trading.
pub const CONFLICT: u16 = 409;

/// A reply of a script that holds no trades.
pub const UNPROCESSABLE_ENTITY: u16 = 422;

/// A request that failed in the server.
pub const INTERNAL_SERVER_ERROR: u16 = 500;

/// A script that failed.
pub const BAD_GATEWAY: u16 = 502;

/// The mode that a server starts in, by its `TRADING_MODE` setting.
pub open spec fn starts_in(setting: Option<Seq<char>>) -> TradingMode {
    if setting == Some("tiny"@) {
        TradingMode::Tiny
    } else {
        TradingMode::Standard
    }
}

/// Picks the mode that a server starts in: Tiny where that is set, Standard otherwise.
pub fn initial_mode(setting: Option<&str>) -> (r: TradingMode)
    ensures
        r == starts_in(
            match setting {
                Some(s) => Some(s@),
                None => None,
            },
        ),
{
    match setting {
        Some(s) => if same(s, "tiny") {
            TradingMode::Tiny
        } else {
            TradingMode::Standard
        },
        None => TradingMode::Standard,
    }
}

/// A script's arguments, in order: each is written only where it is given.
pub open spec fn flags(args: Seq<(Seq<char>, Option<Seq<char>>)>) -> Seq<Seq<char>>
    decreases args.len(),
{
    if args.len() == 0 {
        seq![]
    } else {
        let before = flags(args.drop_last());
        match args.last().1 {
            Some(value) => before.push(args.last().0 + value),
            None => before,
        }
    }
}

/// The character sequence of an optional text.
pub open spec fn shown(s: Option<String>) -> Option<Seq<char>> {
    match s {
        Some(s) => Some(s@),
        None => None,
    }
}

fn push_flag(args: &mut Vec<String>, flag: &str, value: &Option<String>)
    ensures
        text::views(final(args)@) == (match *value {
            Some(v) => text::views(old(args)@).push(flag@ + v@),
            None => text::views(old(args)@),
        }),
{
    if let Some(v) = value {
        args.push(flag.to_owned().concat(v.as_str()));
        assert(text::views(args@) =~= text::views(old(args)@).push(flag@ + v@));
    }
}

proof fn lemma_flags_push(
    args: Seq<(Seq<char>, Option<Seq<char>>)>,
    a: (Seq<char>, Option<Seq<char>>),
)
    ensures
        flags(args.push(a)) == (match a.1 {
            Some(value) => flags(args).push(a.0 + value),
            None => flags(args),
        }),
{
    assert(args.push(a).drop_last() =~= args);
}

/// A request for a scan. Numbers are as they are written on the command line.
#[derive(Debug, Clone)]
pub struct ScanParams {
    pub min_score: Option<String>,
    pub min_relvol: Option<String>,
    pub direction: Option<String>,
    pub tickers: Option<String>,
}

impl ScanParams {
    /// What the request asks for, by the flag that says it.
    pub open spec fn asked(&self) -> Seq<(Seq<char>, Option<Seq<char>>)> {
        seq![
            ("--min-score="@, shown(self.min_score)),
            ("--min-relvol="@, shown(self.min_relvol)),
            ("--direction="@, shown(self.direction)),
            ("--tickers="@, shown(self.tickers)),
        ]
    }

    /// The arguments of the scanner script.
    pub fn args(&self) -> (r: Vec<String>)
        ensures
            text::views(r@) == flags(self.asked()),
    {
        let mut args: Vec<String> = Vec::new();
        push_flag(&mut args, "--min-score=", &self.min_score);
        push_flag(&mut args, "--min-relvol=", &self.min_relvol);
        push_flag(&mut args, "--direction=", &self.direction);
        push_flag(&mut args, "--tickers=", &self.tickers);
        proof {
            let a = self.asked();
            let empty = Seq::<(Seq<char>, Option<Seq<char>>)>::empty();
            lemma_flags_push(empty, a[0]);
            lemma_flags_push(empty.push(a[0]), a[1]);
            lemma_flags_push(empty.push(a[0]).push(a[1]), a[2]);
            lemma_flags_push(empty.push(a[0]).push(a[1]).push(a[2]), a[3]);
            assert(empty.push(a[0]).push(a[1]).push(a[2]).push(a[3]) =~= a);
        }
        args
    }
}

/// A request for a back-test. Numbers are as they are written on the command line.
#[derive(Debug, Clone)]
pub struct BacktestParams {
    pub min_score: Option<String>,
    pub min_relvol: Option<String>,
    pub hold_bars: Option<u32>,
    pub period: Option<String>,
    pub tickers: Option<String>,
}

impl BacktestParams {
    /// What the request asks for, by the flag that says it.
    pub open spec fn asked(&self) -> Seq<(Seq<char>, Option<Seq<char>>)> {
        seq![
            ("--min-score="@, shown(self.min_score)),
            ("--min-relvol="@, shown(self.min_relvol)),
            (
                "--hold-bars="@,
                match self.hold_bars {
                    Some(n) => Some(text::digits(n as nat)),
                    None => None,
                },
            ),
            ("--period="@, shown(self.period)),
            ("--tickers="@, shown(self.tickers)),
        ]
    }

    /// The arguments of the back-test script.
    pub fn args(&self) -> (r: Vec<String>)
        ensures
            text::views(r@) == flags(self.asked()),
    {
        let mut args: Vec<String> = Vec::new();
        push_flag(&mut args, "--min-score=", &self.min_score);
        push_flag(&mut args, "--min-relvol=", &self.min_relvol);
        let hold_bars = match self.hold_bars {
            Some(n) => Some(count_text(n)),
            None => None,
        };
        push_flag(&mut args, "--hold-bars=", &hold_bars);
        push_flag(&mut args, "--period=", &self.period);
        push_flag(&mut args, "--tickers=", &self.tickers);
        proof {
            let a = self.asked();
            let empty = Seq::<(Seq<char>, Option<Seq<char>>)>::empty();
            lemma_flags_push(empty, a[0]);
            lemma_flags_push(empty.push(a[0]), a[1]);
            lemma_flags_push(empty.push(a[0]).push(a[1]), a[2]);
            lemma_flags_push(empty.push(a[0]).push(a[1]).push(a[2]), a[3]);
            lemma_flags_push(empty.push(a[0]).push(a[1]).push(a[2]).push(a[3]), a[4]);
            assert(empty.push(a[0]).push(a[1]).push(a[2]).push(a[3]).push(a[4]) =~= a);
        }
        args
    }
}

/// How a script ended.
#[derive(Debug)]
pub enum ScriptRun {
    /// It could not be started.
    NotStarted { error: String },
    /// It ended with a failure status.
    Failed { status: String, stderr: String },
    /// It succeeded, but what it wrote is not JSON.
    Unreadable { error: String, stdout: String },
}

/// The status of the reply with what a script came to.
#[verifier::allow_in_spec]
pub fn script_status(ok: bool) -> u16
    returns
        (if ok { OK } else { BAD_GATEWAY }),
{
    if ok {
        OK
    } else {
        BAD_GATEWAY
    }
}

/// What a script that ran came to: a failure where its status says so, a failure where what it
/// wrote is not JSON, and otherwise the JSON that it wrote. `written` and `stderr` are what it
/// wrote to its two outputs, as they are shown.
pub fn script_output(
    success: bool,
    status: String,
    stdout: &[u8],
    written: String,
    stderr: String,
) -> (r: Result<String, ScriptRun>)
    ensures
        is_output(success, status@, stdout@, written@, stderr@, r),
        success ==> match json::json_text(stdout@) {
            Ok(value) => r matches Ok(v) && v@ == value,
            Err(_) => r is Err,
        },
{
    if !success {
        return Err(ScriptRun::Failed { status, stderr });
    }
    match read_json(stdout) {
        Ok(value) => Ok(value),
        Err(error) => Err(ScriptRun::Unreadable { error, stdout: written }),
    }
}

/// Whether a result has a script's failure exactly where it failed, and says how.
pub open spec fn is_output(
    success: bool,
    status: Seq<char>,
    stdout: Seq<u8>,
    written: Seq<char>,
    stderr: Seq<char>,
    r: Result<String, ScriptRun>,
) -> bool {
    if !success {
        &&& r matches Err(ScriptRun::Failed { status: s, stderr: e })
        &&& s@ == status
        &&& e@ == stderr
    } else {
        match json::json_text(stdout) {
            Ok(_) => r is Ok,
            Err(why) => {
                &&& r matches Err(ScriptRun::Unreadable { error, stdout: o })
                &&& error@ == why
                &&& o@ == written
            },
        }
    }
}

/// The list that a script wrote under a key: an empty one where it wrote none, and a failure
/// where [`script_output`] has one.
pub fn script_list(
    success: bool,
    status: String,
    stdout: &[u8],
    written: String,
    stderr: String,
    key: &str,
) -> (r: Result<String, ScriptRun>)
    ensures
        is_output(success, status@, stdout@, written@, stderr@, r),
        r matches Ok(v) ==> v@ == json::list_text(stdout@, key@),
{
    match script_output(success, status, stdout, written, stderr) {
        Ok(_) => Ok(get_list(stdout, key)),
        Err(e) => Err(e),
    }
}

/// Where a failure is explained.
pub const HEALTH_HINT: &'static str = "Visit /api/health for what's wrong.";

/// A reply: JSON, or an error with what can be done about it.
#[derive(Debug)]
pub struct Reply {
    pub status: u16,
    pub body: Result<String, ErrorBody>,
}

/// The body of an error reply.
#[derive(Debug)]
pub struct ErrorBody {
    pub error: String,
    pub hint: Option<&'static str>,
}

impl Reply {
    /// Whether the reply is this JSON.
    pub open spec fn holds(&self, status: u16, value: Seq<char>) -> bool {
        self.status == status && (self.body matches Ok(v) && v@ == value)
    }

    /// Whether the reply is this error.
    pub open spec fn fails(&self, status: u16, error: Seq<char>, hint: Option<Seq<char>>)
        -> bool {
        &&& self.status == status
        &&& self.body matches Err(e)
        &&& e.error@ == error
        &&& catalog::seen(e.hint) == hint
    }
}

fn error_reply(status: u16, error: String, hint: Option<&'static str>) -> (r: Reply)
    ensures
        r.fails(status, error@, catalog::seen(hint)),
{
    Reply { status, body: Err(ErrorBody { error, hint }) }
}

/// The reply to a scan or a back-test: the JSON that the script wrote, unchanged, also where it
/// found nothing; a script that failed never looks like one that found nothing.
pub fn script_reply(run: Result<String, ScriptRun>) -> (r: Reply)
    ensures
        match run {
            Ok(value) => r.holds(OK, value@),
            Err(e) => r.fails(BAD_GATEWAY, e.reported(), Some(HEALTH_HINT@)),
        },
{
    let status: u16 = script_status(run.is_ok());
    match run {
        Ok(value) => Reply { status, body: Ok(value) },
        Err(e) => error_reply(status, e.message(), Some(HEALTH_HINT)),
    }
}

/// The reply with the universe of symbols: an error has no status of its own.
pub fn universe_reply(run: Result<String, ScriptRun>) -> (r: Reply)
    ensures
        match run {
            Ok(value) => r.holds(OK, value@),
            Err(e) => r.fails(OK, e.reported(), None),
        },
{
    match run {
        Ok(value) => Reply { status: OK, body: Ok(value) },
        Err(e) => error_reply(OK, e.message(), None),
    }
}

/// The reply where the trades for a simulation could not be fetched.
pub fn fetch_failure(run: &ScriptRun) -> (r: Reply)
    ensures
        r.fails(BAD_GATEWAY, "backtest fetch failed: "@ + run.reported(), Some(HEALTH_HINT@)),
{
    error_reply(
        BAD_GATEWAY,
        "backtest fetch failed: ".to_owned().concat(run.message().as_str()),
        Some(HEALTH_HINT),
    )
}

/// The reply where what was fetched for a simulation holds no trades.
pub fn parse_failure(error: &str) -> (r: Reply)
    ensures
        r.fails(UNPROCESSABLE_ENTITY, "trade parse failed: "@ + error@, None),
{
    error_reply(UNPROCESSABLE_ENTITY, "trade parse failed: ".to_owned().concat(error), None)
}

/// A script that failed is never replied to like one that succeeded, whatever the latter wrote.
pub proof fn law_failed_scripts_show(
    run: Result<String, ScriptRun>,
    other: Result<String, ScriptRun>,
    r: Reply,
    s: Reply,
)
    requires
        run is Err,
        other is Ok,
        r.fails(BAD_GATEWAY, run->Err_0.reported(), Some(HEALTH_HINT@)),
        s.holds(OK, other->Ok_0@),
    ensures
        r.status != s.status,
        r.body is Err,
        s.body is Ok,
{
}

/// The first `n` characters of a text.
pub open spec fn first_chars(s: Seq<char>, n: int) -> Seq<char> {
    s.take(fixed::smaller(s.len() as int, n))
}

/// Copies the first characters of a text.
pub fn take_chars(s: &str, n: usize) -> (r: String)
    ensures
        r@ == first_chars(s@, n as int),
{
    let mut out = String::new();
    let count: usize = s.unicode_len();
    let mut i: usize = 0;
    while i < n && i < count
        invariant
            i <= n,
            i <= count,
            count == s@.len(),
            out@ == s@.take(i as int),
        decreases count - i,
    {
        out.push(s.get_char(i));
        i = i + 1;
        assert(out@ =~= s@.take(i as int));
    }
    assert(out@ =~= first_chars(s@, n as int));
    out
}

impl ScriptRun {
    /// The error that is reported.
    pub open spec fn reported(&self) -> Seq<char> {
        match *self {
            ScriptRun::NotStarted { error } => "failed to spawn uv: "@ + error@
                + ". Install: https://docs.astral.sh/uv/"@,
            ScriptRun::Failed { status, stderr } => "python exited "@ + status@ + ": "@ + stderr@,
            ScriptRun::Unreadable { error, stdout } => "json parse failed: "@ + error@
                + "; stdout: "@ + first_chars(stdout@, 500),
        }
    }

    pub fn message(&self) -> (r: String)
        ensures
            r@ == self.reported(),
    {
        match self {
            ScriptRun::NotStarted { error } => "failed to spawn uv: ".to_owned().concat(
                error.as_str(),
            ).concat(". Install: https://docs.astral.sh/uv/"),
            ScriptRun::Failed { status, stderr } => "python exited ".to_owned().concat(
                status.as_str(),
            ).concat(": ").concat(stderr.as_str()),
            ScriptRun::Unreadable { error, stdout } => "json parse failed: ".to_owned().concat(
                error.as_str(),
            ).concat("; stdout: ").concat(take_chars(stdout.as_str(), 500).as_str()),
        }
    }
}

/// Where an order from an agent stands before it is executed.
#[derive(Debug, Clone, Copy, PartialEq, Eq, Structural)]
pub enum Guard {
    Open,
    /// The broker trades real money.
    NotPaper,
    /// The scheduler is trading.
    SchedulerOn,
}

impl Guard {
    /// The status of the reply to an order that is held back; [`OK`] where it is not.
    #[verifier::allow_in_spec]
    pub fn status(&self) -> u16
        returns
            (match *self {
                Guard::Open => OK,
                Guard::NotPaper => FORBIDDEN,
                Guard::SchedulerOn => CONFLICT,
            }),
    {
        match self {
            Guard::Open => OK,
            Guard::NotPaper => FORBIDDEN,
            Guard::SchedulerOn => CONFLICT,
        }
    }

    /// Why an order is held back.
    pub fn error(&self) -> (r: Option<&'static str>)
        ensures
            match (*self, r) {
                (Guard::Open, r) => r is None,
                (Guard::NotPaper, r) => r is Some && r->0@
                    == "refused: MCP execution is paper-only"@,
                (Guard::SchedulerOn, r) => r is Some && r->0@
                    == "refused: scheduler is currently auto-trading"@,
            },
    {
        match self {
            Guard::Open => None,
            Guard::NotPaper => Some("refused: MCP execution is paper-only"),
            Guard::SchedulerOn => Some("refused: scheduler is currently auto-trading"),
        }
    }

    /// What can be done about it.
    pub fn hint(&self) -> (r: Option<&'static str>)
        ensures
            match (*self, r) {
                (Guard::Open, r) => r is None,
                (Guard::NotPaper, r) => r is Some && r->0@ == NOT_PAPER_HINT@,
                (Guard::SchedulerOn, r) => r is Some && r->0@ == SCHEDULER_ON_HINT@,
            },
    {
        match self {
            Guard::Open => None,
            Guard::NotPaper => Some(NOT_PAPER_HINT),
            Guard::SchedulerOn => Some(SCHEDULER_ON_HINT),
        }
    }
}

/// What to do where the broker is live.
pub const NOT_PAPER_HINT: &'static str = "The execute_paper_trade tool refuses to route orders to a live broker. Connect a paper broker (Alpaca paper) or use the dashboard's manual Send button on the scan tab.";

/// What to do where the scheduler is on.
pub const SCHEDULER_ON_HINT: &'static str = "Stop the unattended scheduler from the dashboard before placing manual MCP trades, so orders don't race.";

/// The guard in front of orders from agents: it opens only for a paper broker while the
/// scheduler is off, so that an agent cannot trigger a live order whatever broker a human
/// connected.
#[verifier::allow_in_spec]
pub fn agent_guard(is_paper: bool, scheduler_on: bool) -> Guard
    returns
        (if !is_paper {
            Guard::NotPaper
        } else if scheduler_on {
            Guard::SchedulerOn
        } else {
            Guard::Open
        }),
{
    if !is_paper {
        Guard::NotPaper
    } else if scheduler_on {
        Guard::SchedulerOn
    } else {
        Guard::Open
    }
}

/// No order from an agent passes to a live broker, nor while the scheduler trades; each
/// refusal has its own status.
pub proof fn law_guard_is_paper_only(is_paper: bool, scheduler_on: bool)
    ensures
        agent_guard(is_paper, scheduler_on) is Open <==> is_paper && !scheduler_on,
        !is_paper ==> agent_guard(is_paper, scheduler_on).status() == FORBIDDEN,
        is_paper && scheduler_on ==> agent_guard(is_paper, scheduler_on).status() == CONFLICT,
{
}

/// The equity that the state report shows: none where the broker would not say.
pub fn reported_equity(equity: BrokerResult<i64>) -> (r: i64)
    ensures
        r == (match equity {
            Ok(e) => e,
            Err(_) => 0,
        }),
{
    match equity {
        Ok(e) => e,
        Err(_) => 0,
    }
}

/// Whether the state report shows the market as open: also where the broker would not say.
pub fn reported_market_open(answer: BrokerResult<bool>) -> (r: bool)
    ensures
        r == (match answer {
            Ok(open) => open,
            Err(_) => true,
        }),
{
    match answer {
        Ok(open) => open,
        Err(_) => true,
    }
}

/// A request for a simulation: the back-test whose trades it replays, and how. Amounts,
/// basis points and fractions are in millionths.
#[derive(Debug, Clone)]
pub struct SimulateParams {
    pub backtest: BacktestParams,
    pub starting_equity: Option<i64>,
    pub slippage_bps: Option<i64>,
    /// Whether to split the trades into a train part and a test part.
    pub oos: Option<bool>,
    pub split_fraction: Option<i64>,
}

/// What comes of a request for a simulation.
#[derive(Debug)]
pub enum Simulation {
    /// There is nothing to replay.
    NoTrades,
    Single { report: SimReport },
    Split { train: SimReport, test: SimReport },
    Failed { error: SimError },
}

/// What is said where there is nothing to replay.
pub const NO_TRADES_WARNING: &'static str = "Back-test produced 0 trades. Lower the score filter, widen the universe, or check that the scanner is finding any signals at all.";

impl SimulateParams {
    /// What the trades are replayed with: the caps of the active mode, $100,000 and 10 basis
    /// points unless the request says otherwise.
    pub open spec fn replayed_with(&self, mode: TradingMode) -> Simulator {
        Simulator {
            caps: mode.caps(),
            starting_equity: match self.starting_equity {
                Some(e) => e,
                None => 100_000_000_000,
            },
            target_pct_per_trade: mode.target_pct_per_trade(),
            slippage_bps: match self.slippage_bps {
                Some(bps) => bps,
                None => 10_000_000,
            },
        }
    }

    /// Where the trades are split, in millionths: in the middle unless the request says
    /// otherwise.
    pub open spec fn split(&self) -> int {
        match self.split_fraction {
            Some(f) => f as int,
            None => 500_000,
        }
    }

    /// Sets the simulator up.
    pub fn simulator(&self, mode: TradingMode) -> (r: Simulator)
        ensures
            r == self.replayed_with(mode),
    {
        Simulator {
            caps: mode.caps(),
            starting_equity: match self.starting_equity {
                Some(e) => e,
                None => 100_000_000_000,
            },
            target_pct_per_trade: mode.target_pct_per_trade(),
            slippage_bps: match self.slippage_bps {
                Some(bps) => bps,
                None => 10_000_000,
            },
        }
    }

    /// Replays the trades of the back-test, whole or split.
    pub fn simulate(&self, mode: TradingMode, trades: Vec<BacktestTrade>) -> (r: Simulation)
        ensures
            r is NoTrades <==> trades@.len() == 0,
            r is Single ==> self.oos != Some(true),
            r is Split ==> self.oos == Some(true),
            trades@.len() > 0 && self.oos != Some(true) ==> sim::replays(
                self.replayed_with(mode),
                trades@,
                "single"@,
                match r {
                    Simulation::Single { report } => Ok(report),
                    _ => Err(SimError::OutOfRange),
                },
            ),
            trades@.len() > 0 && self.oos == Some(true) ==> sim::replays_split(
                self.replayed_with(mode),
                trades@,
                self.split(),
                match r {
                    Simulation::Split { train, test } => Ok((train, test)),
                    _ => Err(SimError::OutOfRange),
                },
            ),
    {
        if trades.len() == 0 {
            return Simulation::NoTrades;
        }
        let simulator = self.simulator(mode);
        let oos = match self.oos {
            Some(oos) => oos,
            None => false,
        };
        if oos {
            let fraction: i64 = match self.split_fraction {
                Some(f) => f,
                None => 500_000,
            };
            match simulator.run_oos(trades, fraction) {
                Ok((train, test)) => Simulation::Split { train, test },
                Err(error) => Simulation::Failed { error },
            }
        } else {
            match simulator.run(trades, "single") {
                Ok(report) => Simulation::Single { report },
                Err(error) => Simulation::Failed { error },
            }
        }
    }
}

impl Simulation {
    /// The status of the reply.
    #[verifier::allow_in_spec]
    pub fn status(&self) -> u16
        returns
            (if *self is Failed { INTERNAL_SERVER_ERROR } else { OK }),
    {
        match self {
            Simulation::Failed { .. } => INTERNAL_SERVER_ERROR,
            _ => OK,
        }
    }
}

/// A server starts in Tiny mode where its setting is exactly "tiny", and in Standard mode
/// otherwise.
pub proof fn law_tiny_mode_must_be_asked_for(setting: Option<Seq<char>>)
    ensures
        starts_in(setting) is Tiny <==> setting == Some("tiny"@),
        starts_in(setting) is Standard <==> setting != Some("tiny"@),
{
}

/// The arguments of a script are those that are given, in order, each its flag with its value
/// behind it; those that are not given leave nothing.
pub proof fn law_flags_are_written_where_given(
    some: Seq<(Seq<char>, Option<Seq<char>>)>,
    others: Seq<(Seq<char>, Option<Seq<char>>)>,
    flag: Seq<char>,
    value: Seq<char>,
)
    ensures
        flags(seq![(flag, Some(value))]) == seq![flag + value],
        flags(seq![(flag, None)]).len() == 0,
        flags(some + others) == flags(some) + flags(others),
    decreases others.len(),
{
    let empty = Seq::<(Seq<char>, Option<Seq<char>>)>::empty();
    lemma_flags_push(empty, (flag, Some(value)));
    lemma_flags_push(empty, (flag, None));
    assert(empty.push((flag, Some(value))) =~= seq![(flag, Some(value))]);
    assert(empty.push((flag, None)) =~= seq![(flag, None)]);
    assert(flags(seq![(flag, Some(value))]) =~= seq![flag + value]);
    if others.len() == 0 {
        assert(some + others =~= some);
        assert(flags(some) + flags(others) =~= flags(some));
    } else {
        law_flags_are_written_where_given(some, others.drop_last(), flag, value);
        assert((some + others).drop_last() =~= some + others.drop_last());
        assert(flags(some + others) =~= flags(some) + flags(others));
    }
}

/// Each thing that a scan can be asked for has its own flag.
pub proof fn law_scans_are_asked_by_flag(p: ScanParams)
    ensures
        p.asked().len() == 4,
        p.asked()[0] == ("--min-score="@, shown(p.min_score)),
        p.asked()[1] == ("--min-relvol="@, shown(p.min_relvol)),
        p.asked()[2] == ("--direction="@, shown(p.direction)),
        p.asked()[3] == ("--tickers="@, shown(p.tickers)),
        p.tickers matches Some(s) ==> shown(p.tickers) == Some(s@),
        p.tickers is None ==> shown(p.tickers) is None,
{
}

/// Each thing that a back-test can be asked for has its own flag, and the bars are a count.
pub proof fn law_backtests_are_asked_by_flag(p: BacktestParams)
    ensures
        p.asked().len() == 5,
        p.asked()[0] == ("--min-score="@, shown(p.min_score)),
        p.asked()[1] == ("--min-relvol="@, shown(p.min_relvol)),
        p.asked()[2].0 == "--hold-bars="@,
        p.hold_bars matches Some(n) ==> p.asked()[2].1 == Some(text::digits(n as nat)),
        p.hold_bars is None ==> p.asked()[2].1 is None,
        p.asked()[3] == ("--period="@, shown(p.period)),
        p.asked()[4] == ("--tickers="@, shown(p.tickers)),
{
}

/// The first characters of a text are its beginning: all of it where it is no longer than asked
/// for, and exactly as many characters as asked for otherwise.
pub proof fn law_first_characters_are_the_beginning(s: Seq<char>, n: int)
    requires
        n >= 0,
    ensures
        s.len() <= n ==> first_chars(s, n) == s,
        s.len() > n ==> first_chars(s, n).len() == n,
        forall|i: int| 0 <= i < first_chars(s, n).len() ==> #[trigger] first_chars(s, n)[i] == s[i],
{
    if s.len() <= n {
        assert(first_chars(s, n) =~= s);
    }
}

/// A failed script is reported with how it failed and what it said: all of its error output, or
/// the beginning of an output that is no JSON, as far as 500 characters.
pub proof fn law_failures_are_reported_in_full(run: ScriptRun)
    ensures
        match run {
            ScriptRun::NotStarted { error } => run.reported() == "failed to spawn uv: "@ + error@
                + ". Install: https://docs.astral.sh/uv/"@,
            ScriptRun::Failed { status, stderr } => run.reported() == "python exited "@ + status@
                + ": "@ + stderr@,
            ScriptRun::Unreadable { error, stdout } => {
                let lead = "json parse failed: "@ + error@ + "; stdout: "@;
                &&& stdout@.len() <= 500 ==> run.reported() == lead + stdout@
                &&& stdout@.len() > 500 ==> run.reported() == lead + stdout@.take(500)
            },
        },
{
    if let ScriptRun::Unreadable { error, stdout } = run {
        law_first_characters_are_the_beginning(stdout@, 500);
        if stdout@.len() > 500 {
            assert(first_chars(stdout@, 500) =~= stdout@.take(500));
        }
    }
}

/// What a script that ran came to is a result exactly where its status is a success and its
/// output is JSON.
pub proof fn law_outputs_need_success_and_json(
    success: bool,
    status: Seq<char>,
    stdout: Seq<u8>,
    written: Seq<char>,
    stderr: Seq<char>,
    r: Result<String, ScriptRun>,
)
    requires
        is_output(success, status, stdout, written, stderr, r),
    ensures
        r is Ok <==> success && json::json_text(stdout) is Ok,
        !success ==> (r matches Err(ScriptRun::Failed { status: s, stderr: e }) && s@ == status
            && e@ == stderr),
        success && r is Err ==> (r matches Err(ScriptRun::Unreadable { error, stdout: o })
            && json::json_text(stdout) == Err::<Seq<char>, Seq<char>>(error@) && o@ == written),
{
}

/// A reply is what it is said to be: its status, and its JSON or its error and hint.
pub proof fn law_replies_are_what_is_said(
    r: Reply,
    status: u16,
    text: Seq<char>,
    hint: Option<Seq<char>>,
)
    ensures
        r.holds(status, text) <==> r.status == status && r.body is Ok && r.body->Ok_0@ == text,
        r.fails(status, text, hint) <==> {
            &&& r.status == status
            &&& r.body is Err
            &&& r.body->Err_0.error@ == text
            &&& r.body->Err_0.hint is Some <==> hint is Some
            &&& r.body->Err_0.hint matches Some(h) ==> hint == Some(h@)
        },
{
}

/// The statuses are those of HTTP: 200 for what worked, 403 and 409 for an order that is held
/// back, 500 for a simulation that failed and 502 for a script that did.
pub proof fn law_statuses_are_those_of_http(s: Simulation)
    ensures
        script_status(true) == 200,
        script_status(false) == 502,
        Guard::Open.status() == 200,
        Guard::NotPaper.status() == 403,
        Guard::SchedulerOn.status() == 409,
        s is Failed ==> s.status() == 500,
        s !is Failed ==> s.status() == 200,
        UNPROCESSABLE_ENTITY == 422,
{
}

/// A simulation is run as it is asked for: with the caps of its mode, and where the request does
/// not say otherwise with $100,000, 10 basis points, and a split in the middle.
pub proof fn law_simulations_run_as_asked(p: SimulateParams, mode: TradingMode)
    ensures
        ({
            let s = p.replayed_with(mode);
            &&& s.caps == mode.caps()
            &&& s.target_pct_per_trade == mode.target_pct_per_trade()
            &&& p.starting_equity matches Some(e) ==> s.starting_equity == e
            &&& p.starting_equity is None ==> s.starting_equity == 100_000 * 1_000_000
            &&& p.slippage_bps matches Some(bps) ==> s.slippage_bps == bps
            &&& p.slippage_bps is None ==> s.slippage_bps == 10 * 1_000_000
            &&& p.split_fraction matches Some(f) ==> p.split() == f
            &&& p.split_fraction is None ==> 2 * p.split() == 1_000_000
        }),
{
}

/// The mode, the equity and the market that a server shows: Tiny mode only where it is asked
/// for, an equity of nothing where the broker would not say, and an open market there.
pub proof fn law_settings_and_answers_are_shown(
    setting: Option<&str>,
    mode: TradingMode,
    equity: BrokerResult<i64>,
    shown_equity: i64,
    answer: BrokerResult<bool>,
    open: bool,
)
    requires
        call_ensures(initial_mode, (setting,), mode),
        call_ensures(reported_equity, (equity,), shown_equity),
        call_ensures(reported_market_open, (answer,), open),
    ensures
        mode is Tiny <==> (setting matches Some(s) && s@ == "tiny"@),
        equity matches Ok(e) ==> shown_equity == e,
        equity is Err ==> shown_equity == 0,
        answer matches Ok(o) ==> open == o,
        answer is Err ==> open,
{
}

/// The scripts get a flag for each thing that was asked for, with its value behind it, and none
/// for what was not.
pub proof fn law_scripts_get_what_was_asked(
    scan: ScanParams,
    a: Vec<String>,
    test: BacktestParams,
    b: Vec<String>,
)
    requires
        call_ensures(ScanParams::args, (&scan,), a),
        call_ensures(BacktestParams::args, (&test,), b),
    ensures
        a@.len() == given(shown(scan.min_score)) + given(shown(scan.min_relvol)) + given(
            shown(scan.direction),
        ) + given(shown(scan.tickers)),
        scan.min_score matches Some(v) ==> text::views(a@).contains("--min-score="@ + v@),
        scan.min_relvol matches Some(v) ==> text::views(a@).contains("--min-relvol="@ + v@),
        scan.direction matches Some(v) ==> text::views(a@).contains("--direction="@ + v@),
        scan.tickers matches Some(v) ==> text::views(a@).contains("--tickers="@ + v@),
        b@.len() == given(shown(test.min_score)) + given(shown(test.min_relvol)) + given(
            test.asked()[2].1,
        ) + given(shown(test.period)) + given(shown(test.tickers)),
        test.min_score matches Some(v) ==> text::views(b@).contains("--min-score="@ + v@),
        test.min_relvol matches Some(v) ==> text::views(b@).contains("--min-relvol="@ + v@),
        test.hold_bars matches Some(n) ==> text::views(b@).contains(
            "--hold-bars="@ + text::digits(n as nat),
        ),
        test.period matches Some(v) ==> text::views(b@).contains("--period="@ + v@),
        test.tickers matches Some(v) ==> text::views(b@).contains("--tickers="@ + v@),
{
    assert(text::views(a@).len() == a@.len());
    assert(text::views(b@).len() == b@.len());
    let s = scan.asked();
    let t = test.asked();
    lemma_given_flags(s, s.len());
    lemma_given_flags(t, t.len());
    assert(s.take(4) =~= s);
    assert(t.take(5) =~= t);
    reveal_with_fuel(count_given, 6);
    assert(s[0].1 == shown(scan.min_score));
    assert(s[1].1 == shown(scan.min_relvol));
    assert(s[2].1 == shown(scan.direction));
    assert(s[3].1 == shown(scan.tickers));
    assert(t[0].1 == shown(test.min_score));
    assert(t[1].1 == shown(test.min_relvol));
    assert(t[3].1 == shown(test.period));
    assert(t[4].1 == shown(test.tickers));
}

/// One where there is a value, and none otherwise.
pub open spec fn given(value: Option<Seq<char>>) -> nat {
    if value is Some {
        1
    } else {
        0
    }
}

/// How many of the first `k` arguments are given.
spec fn count_given(args: Seq<(Seq<char>, Option<Seq<char>>)>, k: nat) -> nat
    decreases k,
{
    if k == 0 {
        0
    } else {
        count_given(args, (k - 1) as nat) + given(args[k - 1].1)
    }
}

proof fn lemma_given_flags(args: Seq<(Seq<char>, Option<Seq<char>>)>, k: nat)
    requires
        k <= args.len(),
    ensures
        flags(args.take(k as int)).len() == count_given(args, k),
        forall|i: int|
            0 <= i < k && (#[trigger] args[i]).1 is Some ==> flags(args.take(k as int)).contains(
                args[i].0 + args[i].1->0,
            ),
    decreases k,
{
    if k > 0 {
        let before = flags(args.take(k - 1));
        lemma_given_flags(args, (k - 1) as nat);
        lemma_flags_push(args.take(k - 1), args[k - 1]);
        assert(args.take(k as int) =~= args.take(k - 1).push(args[k - 1]));
        let all = flags(args.take(k as int));
        assert forall|i: int| 0 <= i < k && (#[trigger] args[i]).1 is Some implies all.contains(
            args[i].0 + args[i].1->0,
        ) by {
            let f = args[i].0 + args[i].1->0;
            if i < k - 1 {
                assert(before.contains(f));
                let j = choose|j: int| 0 <= j < before.len() && before[j] == f;
                assert(all[j] == f);
            } else {
                assert(all.last() == f);
            }
        }
    }
}

/// What a script wrote is given on exactly where it succeeded and wrote JSON, and a list that is
/// looked for in it is the one that it wrote, or an empty one where it wrote none.
pub proof fn law_scripts_give_what_they_wrote(
    success: bool,
    status: String,
    stdout: &[u8],
    written: String,
    stderr: String,
    key: &str,
    r: Result<String, ScriptRun>,
    s: Result<String, ScriptRun>,
)
    requires
        call_ensures(script_output, (success, status, stdout, written, stderr), r),
        call_ensures(script_list, (success, status, stdout, written, stderr, key), s),
    ensures
        r is Ok <==> success && json::json_text(stdout@) is Ok,
        s is Ok <==> r is Ok,
        r matches Ok(value) ==> json::json_text(stdout@) == Ok::<Seq<char>, Seq<char>>(value@),
        s matches Ok(list) ==> match json::field_text(stdout@, key@) {
            Some(text) => list@ == text,
            None => list@ == "[]"@,
        },
        !success ==> r is Err && r->Err_0 is Failed && s is Err && s->Err_0 is Failed,
        success && r is Err ==> r->Err_0 is Unreadable && s->Err_0 is Unreadable,
{
}

/// A script that succeeded is replied to with what it wrote, whatever that is. One that failed
/// is replied to with its error: with 502 and where to look for what is wrong for a scan, a
/// back-test or a simulation, and without a status of its own for the universe. Trades that
/// cannot be read are replied to with 422.
pub proof fn law_replies_tell_failures(
    run: Result<String, ScriptRun>,
    scan: Reply,
    universe: Reply,
    failed: ScriptRun,
    fetch: Reply,
    error: &str,
    parse: Reply,
)
    requires
        call_ensures(script_reply, (run,), scan),
        call_ensures(universe_reply, (run,), universe),
        call_ensures(fetch_failure, (&failed,), fetch),
        call_ensures(parse_failure, (error,), parse),
    ensures
        run matches Ok(value) ==> {
            &&& scan.status == 200
            &&& scan.body is Ok
            &&& scan.body->Ok_0@ == value@
            &&& universe.status == 200
            &&& universe.body is Ok
            &&& universe.body->Ok_0@ == value@
        },
        run matches Err(e) ==> {
            &&& scan.status == 502
            &&& scan.body is Err
            &&& scan.body->Err_0.error@ == e.reported()
            &&& scan.body->Err_0.hint is Some
            &&& scan.body->Err_0.hint->0@ == "Visit /api/health for what's wrong."@
            &&& universe.status == 200
            &&& universe.body is Err
            &&& universe.body->Err_0.error@ == e.reported()
            &&& universe.body->Err_0.hint is None
        },
        fetch.status == 502,
        fetch.body is Err,
        fetch.body->Err_0.error@ == "backtest fetch failed: "@ + failed.reported(),
        fetch.body->Err_0.hint is Some,
        parse.status == 422,
        parse.body is Err,
        parse.body->Err_0.error@ == "trade parse failed: "@ + error@,
        parse.body->Err_0.hint is None,
{
}

/// An order from an agent that is held back comes with why and with what can be done about it;
/// one that is not has neither.
pub proof fn law_held_back_orders_say_why(
    guard: Guard,
    error: Option<&'static str>,
    hint: Option<&'static str>,
)
    requires
        call_ensures(Guard::error, (&guard,), error),
        call_ensures(Guard::hint, (&guard,), hint),
    ensures
        error is None <==> guard is Open,
        hint is None <==> guard is Open,
        guard is NotPaper ==> error->0@ == "refused: MCP execution is paper-only"@ && hint->0@
            == NOT_PAPER_HINT@,
        guard is SchedulerOn ==> error->0@ == "refused: scheduler is currently auto-trading"@
            && hint->0@ == SCHEDULER_ON_HINT@,
{
}

/// A request for a simulation replays its trades whole, or split where it asks for that, with
/// the caps of the mode and what it asks for. Without trades there is nothing to replay.
pub proof fn law_simulation_requests_are_carried_out(
    p: SimulateParams,
    mode: TradingMode,
    trades: Vec<BacktestTrade>,
    r: Simulation,
)
    requires
        call_ensures(SimulateParams::simulate, (&p, mode, trades), r),
    ensures
        r is NoTrades <==> trades@.len() == 0,
        r matches Simulation::Single { report } ==> {
            &&& p.oos != Some(true)
            &&& sim::replays(p.replayed_with(mode), trades@, "single"@, Ok(report))
            &&& report.total_signals == trades@.len()
        },
        r matches Simulation::Split { train, test } ==> {
            &&& p.oos == Some(true)
            &&& sim::replays_split(p.replayed_with(mode), trades@, p.split(), Ok((train, test)))
        },
        r is Failed ==> {
            &&& p.oos != Some(true) ==> sim::replays(
                p.replayed_with(mode),
                trades@,
                "single"@,
                Err(SimError::OutOfRange),
            )
            &&& p.oos == Some(true) ==> sim::replays_split(
                p.replayed_with(mode),
                trades@,
                p.split(),
                Err(SimError::OutOfRange),
            )
        },
{
    crate::order::law_sorting_orders_and_keeps_trades(trades@);
}

} // verus!
