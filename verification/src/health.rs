//! The health report: every common failure that the dashboard should warn about, with what to
//! do about it.

use vstd::prelude::*;

use crate::api;
use crate::api::take_chars;
use crate::broker::BrokerResult;
use crate::text;
use crate::text::{fixed2_text, same};

verus! {

/// How to get `uv`.
pub const INSTALL_UV: &'static str = "Install uv: curl -LsSf https://astral.sh/uv/install.sh | sh — then restart the server.";

/// What a dry run means.
pub const DRY_RUN_DETAIL: &'static str = "Using DryRunBroker — orders are logged but never sent. The scanner still works.";

/// How to connect a broker.
pub const SET_CREDENTIALS: &'static str = "Set ALPACA_API_KEY and ALPACA_API_SECRET (get free paper keys at alpaca.markets) and restart the server.";

/// How to make the state directory writable.
pub const FIX_STATE_DIRECTORY: &'static str = "Make the state directory exist and let the server write to it: mkdir -p data && chmod u+rwx data";

/// How to reach the broker.
pub const CHECK_CREDENTIALS: &'static str = "Check ALPACA_API_KEY/ALPACA_API_SECRET are correct and the account is enabled.";

/// One line of the report.
#[derive(Debug)]
pub struct HealthCheck {
    pub name: &'static str,
    pub ok: bool,
    /// "warning" where a failure is none of the whole.
    pub severity: Option<&'static str>,
    pub detail: Option<String>,
    pub fix: Option<&'static str>,
}

/// A [`HealthCheck`] with its texts as character sequences.
pub struct CheckView {
    pub name: Seq<char>,
    pub ok: bool,
    pub severity: Option<Seq<char>>,
    pub detail: Option<Seq<char>>,
    pub fix: Option<Seq<char>>,
}

impl View for HealthCheck {
    type V = CheckView;

    open spec fn view(&self) -> CheckView {
        CheckView {
            name: self.name@,
            ok: self.ok,
            severity: match self.severity {
                Some(s) => Some(s@),
                None => None,
            },
            detail: match self.detail {
                Some(s) => Some(s@),
                None => None,
            },
            fix: match self.fix {
                Some(s) => Some(s@),
                None => None,
            },
        }
    }
}

/// The report.
#[derive(Debug)]
pub struct HealthReport {
    pub ok: bool,
    pub checks: Vec<HealthCheck>,
}

/// What became of asking Python for its packages.
#[derive(Debug)]
pub enum PythonProbe {
    Ready,
    Failed { stderr: String },
    NotRun { error: String },
}

/// What a program came to: whether it succeeded and what it wrote, or why it did not run.
pub type Ran = Result<(bool, String), String>;

/// The version of `uv`, from what asking for it came to.
pub fn uv_version(ran: Ran) -> (r: Option<String>)
    ensures
        r == (match ran {
            Ok((success, written)) => if success {
                Some(written)
            } else {
                None
            },
            Err(_) => None,
        }),
{
    match ran {
        Ok((success, written)) => if success {
            Some(written)
        } else {
            None
        },
        Err(_) => None,
    }
}

/// Whether Python has its packages, from what asking for them came to.
pub fn python_probe(ran: Ran) -> (r: PythonProbe)
    ensures
        r == (match ran {
            Ok((success, written)) => if success {
                PythonProbe::Ready
            } else {
                PythonProbe::Failed { stderr: written }
            },
            Err(error) => PythonProbe::NotRun { error },
        }),
{
    match ran {
        Ok((success, written)) => if success {
            PythonProbe::Ready
        } else {
            PythonProbe::Failed { stderr: written }
        },
        Err(error) => PythonProbe::NotRun { error },
    }
}

/// The line on the `uv` program, from the version it gave.
pub open spec fn uv_line(version: Option<Seq<char>>) -> CheckView {
    match version {
        Some(v) => CheckView {
            name: "uv installed"@,
            ok: true,
            severity: None,
            detail: Some(v),
            fix: None,
        },
        None => CheckView {
            name: "uv installed"@,
            ok: false,
            severity: None,
            detail: Some("uv binary not found on PATH"@),
            fix: Some(INSTALL_UV@),
        },
    }
}

/// The line on the Python packages.
pub open spec fn python_line(probe: PythonProbe) -> CheckView {
    let name = "python deps (polars + yfinance)"@;
    match probe {
        PythonProbe::Ready => CheckView { name, ok: true, severity: None, detail: None, fix: None },
        PythonProbe::Failed { stderr } => CheckView {
            name,
            ok: false,
            severity: None,
            detail: Some(api::first_chars(stderr@, 400)),
            fix: Some("cd python && uv sync"@),
        },
        PythonProbe::NotRun { error } => CheckView {
            name,
            ok: false,
            severity: None,
            detail: Some("could not run python: "@ + error@),
            fix: Some("Install uv first, then `cd python && uv sync`."@),
        },
    }
}

/// The line on the broker. A dry run is a warning: it matters for fills, not for the scanner.
pub open spec fn broker_line(name: Seq<char>, equity: BrokerResult<i64>) -> CheckView {
    if name == "dry-run"@ {
        CheckView {
            name: "broker credentials"@,
            ok: false,
            severity: Some("warning"@),
            detail: Some(DRY_RUN_DETAIL@),
            fix: Some(SET_CREDENTIALS@),
        }
    } else {
        match equity {
            Ok(equity) => CheckView {
                name: "broker reachable"@,
                ok: true,
                severity: None,
                detail: Some(name + " · equity $"@ + text::fixed2(equity as int)),
                fix: None,
            },
            Err(e) => CheckView {
                name: "broker reachable"@,
                ok: false,
                severity: None,
                detail: Some(name + ": "@ + e.shown()),
                fix: Some(CHECK_CREDENTIALS@),
            },
        }
    }
}

/// The line on the state directory.
pub open spec fn state_line(writable: bool, path: Seq<char>) -> CheckView {
    CheckView {
        name: "state directory writable"@,
        ok: writable,
        severity: None,
        detail: Some(path),
        fix: if writable { None } else { Some(FIX_STATE_DIRECTORY@) },
    }
}

/// Whether a line is no reason to call the whole unhealthy.
pub open spec fn tolerable(line: CheckView) -> bool {
    line.ok || line.severity == Some("warning"@)
}

/// Reports on the `uv` program.
pub fn uv_check(version: Option<String>) -> (r: HealthCheck)
    ensures
        r@ == uv_line(api::shown(version)),
{
    match version {
        Some(v) => HealthCheck {
            name: "uv installed",
            ok: true,
            severity: None,
            detail: Some(v),
            fix: None,
        },
        None => HealthCheck {
            name: "uv installed",
            ok: false,
            severity: None,
            detail: Some("uv binary not found on PATH".to_owned()),
            fix: Some(INSTALL_UV),
        },
    }
}

/// Reports on the Python packages.
pub fn python_check(probe: &PythonProbe) -> (r: HealthCheck)
    ensures
        r@ == python_line(*probe),
{
    let name: &'static str = "python deps (polars + yfinance)";
    match probe {
        PythonProbe::Ready => HealthCheck {
            name,
            ok: true,
            severity: None,
            detail: None,
            fix: None,
        },
        PythonProbe::Failed { stderr } => HealthCheck {
            name,
            ok: false,
            severity: None,
            detail: Some(take_chars(stderr.as_str(), 400)),
            fix: Some("cd python && uv sync"),
        },
        PythonProbe::NotRun { error } => HealthCheck {
            name,
            ok: false,
            severity: None,
            detail: Some("could not run python: ".to_owned().concat(error.as_str())),
            fix: Some("Install uv first, then `cd python && uv sync`."),
        },
    }
}

/// Reports on the broker. Its equity is not looked at in a dry run.
pub fn broker_check(name: &str, equity: &BrokerResult<i64>) -> (r: HealthCheck)
    ensures
        r@ == broker_line(name@, *equity),
{
    if same(name, "dry-run") {
        return HealthCheck {
            name: "broker credentials",
            ok: false,
            severity: Some("warning"),
            detail: Some(DRY_RUN_DETAIL.to_owned()),
            fix: Some(SET_CREDENTIALS),
        };
    }
    match equity {
        Ok(equity) => HealthCheck {
            name: "broker reachable",
            ok: true,
            severity: None,
            detail: Some(
                name.to_owned().concat(" · equity $").concat(
                    fixed2_text(*equity as i128).as_str(),
                ),
            ),
            fix: None,
        },
        Err(e) => HealthCheck {
            name: "broker reachable",
            ok: false,
            severity: None,
            detail: Some(name.to_owned().concat(": ").concat(e.message().as_str())),
            fix: Some(CHECK_CREDENTIALS),
        },
    }
}

/// Reports on the state directory.
pub fn state_check(writable: bool, path: String) -> (r: HealthCheck)
    ensures
        r@ == state_line(writable, path@),
{
    HealthCheck {
        name: "state directory writable",
        ok: writable,
        severity: None,
        detail: Some(path),
        fix: if writable { None } else { Some(FIX_STATE_DIRECTORY) },
    }
}

fn fine(check: &HealthCheck) -> (r: bool)
    ensures
        r == tolerable(check@),
{
    if check.ok {
        return true;
    }
    match check.severity {
        Some(s) => same(s, "warning"),
        None => false,
    }
}

/// Puts the report together. The whole is well exactly when no line is a failure.
pub fn health(
    version: Option<String>,
    probe: &PythonProbe,
    broker: &str,
    equity: &BrokerResult<i64>,
    writable: bool,
    path: String,
) -> (r: HealthReport)
    ensures
        r.checks@.map_values(|c: HealthCheck| c@) == seq![
            uv_line(api::shown(version)),
            python_line(*probe),
            broker_line(broker@, *equity),
            state_line(writable, path@),
        ],
        r.ok <==> {
            &&& tolerable(uv_line(api::shown(version)))
            &&& tolerable(python_line(*probe))
            &&& tolerable(broker_line(broker@, *equity))
            &&& tolerable(state_line(writable, path@))
        },
{
    let uv = uv_check(version);
    let python = python_check(probe);
    let account = broker_check(broker, equity);
    let state = state_check(writable, path);
    let ok = fine(&uv) && fine(&python) && fine(&account) && fine(&state);
    let mut checks = Vec::new();
    checks.push(uv);
    checks.push(python);
    checks.push(account);
    checks.push(state);
    assert(checks@.map_values(|c: HealthCheck| c@) =~= seq![uv@, python@, account@, state@]);
    HealthReport { ok, checks }
}

/// The whole is well exactly when `uv` gave its version, Python has its packages, the broker
/// is a dry run or gave its equity, and the state directory can be written.
pub proof fn law_healthy_means_working(
    version: Option<Seq<char>>,
    probe: PythonProbe,
    broker: Seq<char>,
    equity: BrokerResult<i64>,
    writable: bool,
    path: Seq<char>,
)
    ensures
        tolerable(uv_line(version)) <==> version is Some,
        tolerable(python_line(probe)) <==> probe is Ready,
        tolerable(broker_line(broker, equity)) <==> broker == "dry-run"@ || equity is Ok,
        tolerable(state_line(writable, path)) <==> writable,
{
}

/// Whether a line that reports a failure says how to fix it.
pub open spec fn says_how(line: CheckView) -> bool {
    !line.ok ==> line.fix is Some && line.fix->0.len() > 0
}

/// Every failure comes with a fix.
pub proof fn law_failures_come_with_a_fix(
    version: Option<Seq<char>>,
    probe: PythonProbe,
    broker: Seq<char>,
    equity: BrokerResult<i64>,
    writable: bool,
    path: Seq<char>,
)
    ensures
        says_how(uv_line(version)),
        says_how(python_line(probe)),
        says_how(broker_line(broker, equity)),
        says_how(state_line(writable, path)),
{
    reveal_strlit("Install uv: curl -LsSf https://astral.sh/uv/install.sh | sh — then restart the server.");
    reveal_strlit("cd python && uv sync");
    reveal_strlit("Install uv first, then `cd python && uv sync`.");
    reveal_strlit("Set ALPACA_API_KEY and ALPACA_API_SECRET (get free paper keys at alpaca.markets) and restart the server.");
    reveal_strlit("Check ALPACA_API_KEY/ALPACA_API_SECRET are correct and the account is enabled.");
    reveal_strlit("Make the state directory exist and let the server write to it: mkdir -p data && chmod u+rwx data");
}

/// A line says what was found: the version of `uv`, the beginning of what Python complained
/// about as far as 400 characters, or why it did not run, the broker with its equity or its
/// error, and where the state is kept.
pub proof fn law_lines_say_what_was_found(
    version: Option<Seq<char>>,
    probe: PythonProbe,
    broker: Seq<char>,
    equity: BrokerResult<i64>,
    writable: bool,
    path: Seq<char>,
)
    ensures
        version matches Some(v) ==> uv_line(version).detail == Some(v),
        probe matches PythonProbe::Failed { stderr } ==> {
            &&& stderr@.len() <= 400 ==> python_line(probe).detail == Some(stderr@)
            &&& stderr@.len() > 400 ==> python_line(probe).detail == Some(stderr@.take(400))
        },
        probe matches PythonProbe::NotRun { error } ==> python_line(probe).detail == Some(
            "could not run python: "@ + error@,
        ),
        broker != "dry-run"@ ==> match equity {
            Ok(e) => broker_line(broker, equity).detail == Some(
                broker + " · equity $"@ + text::fixed2(e as int),
            ),
            Err(e) => broker_line(broker, equity).detail == Some(broker + ": "@ + e.shown()),
        },
        state_line(writable, path).detail == Some(path),
{
    if let PythonProbe::Failed { stderr } = probe {
        api::law_first_characters_are_the_beginning(stderr@, 400);
        if stderr@.len() > 400 {
            assert(api::first_chars(stderr@, 400) =~= stderr@.take(400));
        }
    }
}

/// A line is well exactly where what it is about works; only a dry run is a mere warning, which
/// its equity does not matter to.
pub proof fn law_only_dry_runs_are_warnings(
    version: Option<Seq<char>>,
    probe: PythonProbe,
    broker: Seq<char>,
    equity: BrokerResult<i64>,
    other: BrokerResult<i64>,
    writable: bool,
    path: Seq<char>,
)
    ensures
        uv_line(version).ok <==> version is Some,
        python_line(probe).ok <==> probe is Ready,
        broker_line(broker, equity).ok <==> broker != "dry-run"@ && equity is Ok,
        state_line(writable, path).ok <==> writable,
        uv_line(version).severity is None,
        python_line(probe).severity is None,
        broker_line(broker, equity).severity == (if broker == "dry-run"@ {
            Some("warning"@)
        } else {
            None
        }),
        state_line(writable, path).severity is None,
        broker == "dry-run"@ ==> broker_line(broker, equity) == broker_line(broker, other),
        uv_line(version).name == "uv installed"@,
        python_line(probe).name == "python deps (polars + yfinance)"@,
        broker_line(broker, equity).name == (if broker == "dry-run"@ {
            "broker credentials"@
        } else {
            "broker reachable"@
        }),
        state_line(writable, path).name == "state directory writable"@,
        uv_line(version).ok ==> uv_line(version).fix is None,
        python_line(probe).ok ==> python_line(probe).fix is None,
        broker_line(broker, equity).ok ==> broker_line(broker, equity).fix is None,
        writable ==> state_line(writable, path).fix is None,
{
}

/// The report has one line for each thing that can fail, in a fixed order, and is well exactly
/// when `uv` and Python work, the state can be written, and the broker is a dry run or answers.
pub proof fn law_reports_are_well_when_all_works(
    version: Option<String>,
    probe: PythonProbe,
    broker: &str,
    equity: BrokerResult<i64>,
    writable: bool,
    path: String,
    r: HealthReport,
)
    requires
        call_ensures(health, (version, &probe, broker, &equity, writable, path), r),
    ensures
        r.ok <==> {
            &&& version is Some
            &&& probe is Ready
            &&& broker@ == "dry-run"@ || equity is Ok
            &&& writable
        },
        r.checks@.len() == 4,
        r.checks@[0]@ == uv_line(api::shown(version)),
        r.checks@[1]@ == python_line(probe),
        r.checks@[2]@ == broker_line(broker@, equity),
        r.checks@[3]@ == state_line(writable, path@),
{
    let views = r.checks@.map_values(|c: HealthCheck| c@);
    assert(views.len() == r.checks@.len());
    assert(views[0] == r.checks@[0]@);
    assert(views[1] == r.checks@[1]@);
    assert(views[2] == r.checks@[2]@);
    assert(views[3] == r.checks@[3]@);
}

/// A program works where it ran and succeeded: `uv` then says its version, and Python has its
/// packages. A program that failed says why, and one that did not run why not.
pub proof fn law_probes_tell_failures_apart(
    ran: Ran,
    version: Option<String>,
    probe: PythonProbe,
)
    requires
        call_ensures(uv_version, (ran,), version),
        call_ensures(python_probe, (ran,), probe),
    ensures
        match ran {
            Ok((success, written)) => {
                &&& success ==> version == Some(written) && probe is Ready
                &&& !success ==> version is None && probe == (PythonProbe::Failed {
                    stderr: written,
                })
            },
            Err(error) => version is None && probe == (PythonProbe::NotRun { error }),
        },
{
}

} // verus!
