//! The unattended scheduler's decisions. When it is on, it periodically
//!   1. asks the broker whether the market is open, and waits a short tick if not,
//!   2. runs the scanner with the configured threshold, unless the kill-switch is tripped,
//!   3. hands every signal found to the executor.
//!
//! It does not bypass the risk layer: each signal goes through the executor like one that a
//! human sent. It is off until it is turned on.
//!
//! [`next_step`] decides; who runs the scheduler does what it says and reports what came of
//! it.

use vstd::prelude::*;

use crate::broker::{BrokerError, BrokerResult};
use crate::executor::Signal;
use crate::json;
use crate::json::{get_list, read_json};
use crate::text;
use crate::text::decimal_text;

verus! {

/// Seconds between looks at the settings while the scheduler is off.
pub const OFF_TICK: u64 = 15;

/// Seconds to wait when the market is closed or would not say.
pub const CLOSED_TICK: u64 = 60;

/// The shortest interval between scans that can be set, in seconds.
pub const SHORTEST_INTERVAL: u64 = 30;

/// The scheduler's settings. The score is in millionths.
#[derive(Debug, Clone, Copy, PartialEq, Eq, Structural)]
pub struct SchedulerConfig {
    pub on: bool,
    pub scan_interval_seconds: u64,
    pub min_score_to_execute: i64,
}

impl Default for SchedulerConfig {
    fn default() -> (r: Self)
        ensures
            r == (SchedulerConfig {
                on: false,
                scan_interval_seconds: 300,
                min_score_to_execute: 4_000_000,
            }),
    {
        SchedulerConfig { on: false, scan_interval_seconds: 300, min_score_to_execute: 4_000_000 }
    }
}

impl SchedulerConfig {
    /// The settings with those replaced that are given. An interval is never shorter than
    /// [`SHORTEST_INTERVAL`].
    pub open spec fn with(
        self,
        on: Option<bool>,
        scan_interval_seconds: Option<u64>,
        min_score_to_execute: Option<i64>,
    ) -> SchedulerConfig {
        SchedulerConfig {
            on: match on {
                Some(on) => on,
                None => self.on,
            },
            scan_interval_seconds: match scan_interval_seconds {
                Some(s) => if s < SHORTEST_INTERVAL {
                    SHORTEST_INTERVAL
                } else {
                    s
                },
                None => self.scan_interval_seconds,
            },
            min_score_to_execute: match min_score_to_execute {
                Some(m) => m,
                None => self.min_score_to_execute,
            },
        }
    }

    /// Replaces the settings that are given.
    pub fn update(
        &mut self,
        on: Option<bool>,
        scan_interval_seconds: Option<u64>,
        min_score_to_execute: Option<i64>,
    )
        ensures
            *final(self) == old(self).with(on, scan_interval_seconds, min_score_to_execute),
    {
        if let Some(on) = on {
            self.on = on;
        }
        if let Some(s) = scan_interval_seconds {
            self.scan_interval_seconds = if s < SHORTEST_INTERVAL { SHORTEST_INTERVAL } else { s };
        }
        if let Some(m) = min_score_to_execute {
            self.min_score_to_execute = m;
        }
    }
}

/// What the scheduler has just learned.
#[derive(Debug)]
pub enum Learned {
    /// It woke up and read its settings.
    Awake,
    /// Whether the broker says that the market is open.
    Market(BrokerResult<bool>),
    /// Whether the kill-switch is tripped.
    Killswitch(bool),
    /// What the scanner found, or why it failed.
    Scan(Result<Vec<Signal>, String>),
    /// Every signal went through the executor.
    Executed,
}

/// What the scheduler does next.
#[derive(Debug)]
pub enum Step {
    Sleep { seconds: u64 },
    AskMarket,
    ReadKillswitch,
    Scan { min_score: i64 },
    /// Hands the signals to the executor, in order.
    Execute { signals: Vec<Signal> },
}

/// What the scheduler does next, by the settings that it woke up to.
pub open spec fn decided(cfg: SchedulerConfig, learned: Learned) -> Step {
    match learned {
        Learned::Awake => if cfg.on {
            Step::AskMarket
        } else {
            Step::Sleep { seconds: OFF_TICK }
        },
        Learned::Market(answer) => match answer {
            Ok(true) => Step::ReadKillswitch,
            _ => Step::Sleep { seconds: CLOSED_TICK },
        },
        Learned::Killswitch(tripped) => if tripped {
            Step::Sleep { seconds: cfg.scan_interval_seconds }
        } else {
            Step::Scan { min_score: cfg.min_score_to_execute }
        },
        Learned::Scan(found) => match found {
            Ok(signals) => Step::Execute { signals },
            Err(_) => Step::Sleep { seconds: cfg.scan_interval_seconds },
        },
        Learned::Executed => Step::Sleep { seconds: cfg.scan_interval_seconds },
    }
}

/// Decides what to do next, by the settings that the scheduler woke up to.
pub fn next_step(cfg: &SchedulerConfig, learned: Learned) -> (r: Step)
    ensures
        r == decided(*cfg, learned),
{
    match learned {
        Learned::Awake => if cfg.on {
            Step::AskMarket
        } else {
            Step::Sleep { seconds: OFF_TICK }
        },
        Learned::Market(answer) => match answer {
            Ok(open) => if open {
                Step::ReadKillswitch
            } else {
                Step::Sleep { seconds: CLOSED_TICK }
            },
            Err(_) => Step::Sleep { seconds: CLOSED_TICK },
        },
        Learned::Killswitch(tripped) => if tripped {
            Step::Sleep { seconds: cfg.scan_interval_seconds }
        } else {
            Step::Scan { min_score: cfg.min_score_to_execute }
        },
        Learned::Scan(found) => match found {
            Ok(signals) => Step::Execute { signals },
            Err(_) => Step::Sleep { seconds: cfg.scan_interval_seconds },
        },
        Learned::Executed => Step::Sleep { seconds: cfg.scan_interval_seconds },
    }
}

/// The scheduler's command line for a scan, after the program itself.
pub open spec fn scan_command(min_score: int) -> Seq<Seq<char>> {
    seq![
        "run"@,
        "--quiet"@,
        "python"@,
        "scanner.py"@,
        "--min-score="@ + text::decimal(min_score),
    ]
}

/// Writes the command line for a scan.
pub fn scan_args(min_score: i64) -> (r: Vec<String>)
    ensures
        text::views(r@) == scan_command(min_score as int),
{
    let mut args = Vec::new();
    args.push("run".to_owned());
    args.push("--quiet".to_owned());
    args.push("python".to_owned());
    args.push("scanner.py".to_owned());
    args.push("--min-score=".to_owned().concat(decimal_text(min_score as i128).as_str()));
    assert(text::views(args@) =~= scan_command(min_score as int));
    args
}

/// What a scan that ran came to: the list of signals that the scanner wrote, an empty one where
/// it wrote none, or why there is no list.
pub fn scan_output(success: bool, status: &str, stdout: &[u8], stderr: &str) -> (r: Result<
    String,
    String,
>)
    ensures
        if !success {
            r matches Err(e) && e@ == "python exit "@ + status@ + ": "@ + stderr@
        } else {
            match json::json_text(stdout@) {
                Ok(_) => r matches Ok(list) && list@ == json::list_text(stdout@, "results"@),
                Err(why) => r matches Err(e) && e@ == why,
            }
        },
{
    if !success {
        return Err("python exit ".to_owned().concat(status).concat(": ").concat(stderr));
    }
    match read_json(stdout) {
        Ok(_) => Ok(get_list(stdout, "results")),
        Err(e) => Err(e),
    }
}

/// What a scheduler that wakes up does in the end: the step that follows the market's answer
/// and the state of the kill-switch, as far as it asks for them.
pub open spec fn after_checks(cfg: SchedulerConfig, market: BrokerResult<bool>, tripped: bool)
    -> Step {
    match decided(cfg, Learned::Awake) {
        Step::AskMarket => match decided(cfg, Learned::Market(market)) {
            Step::ReadKillswitch => decided(cfg, Learned::Killswitch(tripped)),
            step => step,
        },
        step => step,
    }
}

/// A scan happens exactly when the scheduler is on, the broker says that the market is open,
/// and the kill-switch is not tripped. Otherwise the scheduler waits: the off tick, the
/// closed tick or the interval.
pub proof fn law_scans_only_when_allowed(
    cfg: SchedulerConfig,
    market: BrokerResult<bool>,
    tripped: bool,
)
    ensures
        ({
            let step = after_checks(cfg, market, tripped);
            let open = market == Ok::<bool, BrokerError>(true);
            &&& step is Scan <==> cfg.on && open && !tripped
            &&& !cfg.on ==> step == Step::Sleep { seconds: OFF_TICK }
            &&& cfg.on && !open ==> step == Step::Sleep { seconds: CLOSED_TICK }
            &&& cfg.on && open && tripped ==> step == Step::Sleep {
                seconds: cfg.scan_interval_seconds,
            }
        }),
{
}

/// Whatever is set, an interval that was at least the shortest one stays so, and an interval
/// that is given is kept as given where it is long enough.
pub proof fn law_interval_has_a_floor(
    cfg: SchedulerConfig,
    on: Option<bool>,
    interval: Option<u64>,
    min_score: Option<i64>,
)
    requires
        cfg.scan_interval_seconds >= SHORTEST_INTERVAL,
    ensures
        cfg.with(on, interval, min_score).scan_interval_seconds >= SHORTEST_INTERVAL,
        interval matches Some(s) ==> s >= SHORTEST_INTERVAL ==> cfg.with(
            on,
            interval,
            min_score,
        ).scan_interval_seconds == s,
{
}

/// What a scan found is executed: a successful scan, however many signals it found, leads to
/// exactly those signals being handed to the executor, in the order in which they were found.
/// Only a scan that failed leads to a wait.
pub proof fn law_every_scanned_signal_is_executed(
    cfg: SchedulerConfig,
    found: Result<Vec<Signal>, String>,
    r: Step,
)
    requires
        call_ensures(next_step, (&cfg, Learned::Scan(found)), r),
    ensures
        found matches Ok(signals) ==> (r matches Step::Execute { signals: handed } && handed@
            == signals@),
        found is Err <==> r is Sleep,
        r matches Step::Sleep { seconds } ==> seconds == cfg.scan_interval_seconds,
{
}

/// A signal is executed only where a scan found it: nothing else that the scheduler learns
/// leads to an order. A scan is run with the score that is set, and the settings are looked at
/// again after 15 seconds while it is off, after 60 while the market is not open, and after the
/// interval otherwise.
pub proof fn law_only_scans_lead_to_orders(cfg: SchedulerConfig, learned: Learned, r: Step)
    requires
        call_ensures(next_step, (&cfg, learned), r),
    ensures
        r is Execute ==> learned is Scan,
        r is AskMarket <==> learned is Awake && cfg.on,
        r is ReadKillswitch <==> learned == Learned::Market(Ok::<bool, BrokerError>(true)),
        r is Scan <==> learned == Learned::Killswitch(false),
        r matches Step::Scan { min_score } ==> min_score == cfg.min_score_to_execute,
        r matches Step::Sleep { seconds } ==> {
            ||| learned is Awake && !cfg.on && seconds == 15
            ||| learned is Market && seconds == 60
            ||| (learned is Killswitch || learned is Scan || learned is Executed) && seconds
                == cfg.scan_interval_seconds
        },
{
}

/// Settings that are given are taken as they are, an interval under 30 seconds as 30, and those
/// that are not given stay.
pub proof fn law_settings_are_taken_as_given(
    cfg: SchedulerConfig,
    on: Option<bool>,
    interval: Option<u64>,
    min_score: Option<i64>,
)
    ensures
        ({
            let new = cfg.with(on, interval, min_score);
            &&& match on {
                Some(b) => new.on == b,
                None => new.on == cfg.on,
            }
            &&& match min_score {
                Some(m) => new.min_score_to_execute == m,
                None => new.min_score_to_execute == cfg.min_score_to_execute,
            }
            &&& match interval {
                Some(s) => {
                    &&& new.scan_interval_seconds >= s
                    &&& new.scan_interval_seconds >= 30
                    &&& new.scan_interval_seconds == s || new.scan_interval_seconds == 30
                },
                None => new.scan_interval_seconds == cfg.scan_interval_seconds,
            }
        }),
{
}

/// Setting the same twice is setting it once, and settings of different things can be set in
/// either order.
pub proof fn law_settings_do_not_interfere(
    cfg: SchedulerConfig,
    on: Option<bool>,
    interval: Option<u64>,
    min_score: Option<i64>,
)
    ensures
        cfg.with(on, interval, min_score).with(on, interval, min_score) == cfg.with(
            on,
            interval,
            min_score,
        ),
        cfg.with(on, None, None).with(None, interval, min_score) == cfg.with(
            on,
            interval,
            min_score,
        ),
        cfg.with(None, interval, None).with(on, None, min_score) == cfg.with(
            on,
            interval,
            min_score,
        ),
        cfg.with(None, None, None) == cfg,
{
}

/// The command line of a scan differs with the score alone: it ends with the score as a decimal
/// and is otherwise the same.
pub proof fn law_scans_are_run_with_their_score(min_score: int, other: int)
    ensures
        scan_command(min_score).len() == 5,
        scan_command(min_score).take(4) == scan_command(other).take(4),
        scan_command(min_score).take(4) == seq!["run"@, "--quiet"@, "python"@, "scanner.py"@],
        scan_command(min_score)[4] == "--min-score="@ + text::decimal(min_score),
{
    assert(scan_command(min_score).take(4) =~= scan_command(other).take(4));
    assert(scan_command(min_score).take(4) =~= seq![
        "run"@,
        "--quiet"@,
        "python"@,
        "scanner.py"@,
    ]);
}

/// A scan gives the scheduler the list of results that the scanner wrote, and none of its own;
/// it fails exactly where the scanner did, or wrote no JSON.
pub proof fn law_scans_give_what_was_written(
    success: bool,
    status: &str,
    stdout: &[u8],
    stderr: &str,
    r: Result<String, String>,
)
    requires
        call_ensures(scan_output, (success, status, stdout, stderr), r),
    ensures
        r is Ok <==> success && json::json_text(stdout@) is Ok,
        r matches Ok(list) ==> match json::field_text(stdout@, "results"@) {
            Some(written) => list@ == written,
            None => list@ == "[]"@,
        },
        r matches Err(e) ==> if success {
            json::json_text(stdout@) == Err::<Seq<char>, Seq<char>>(e@)
        } else {
            e@ == "python exit "@ + status@ + ": "@ + stderr@
        },
{
}

/// The scanner is run with the score that is set, as a decimal.
pub proof fn law_the_scanner_gets_the_score(min_score: i64, args: Vec<String>)
    requires
        call_ensures(scan_args, (min_score,), args),
    ensures
        args@.len() == 5,
        args@[0]@ == "run"@,
        args@[1]@ == "--quiet"@,
        args@[2]@ == "python"@,
        args@[3]@ == "scanner.py"@,
        args@[4]@ == "--min-score="@ + text::decimal(min_score as int),
{
    let views = text::views(args@);
    assert(views.len() == args@.len());
    assert(views[0] == args@[0]@);
    assert(views[1] == args@[1]@);
    assert(views[2] == args@[2]@);
    assert(views[3] == args@[3]@);
    assert(views[4] == args@[4]@);
}

} // verus!
