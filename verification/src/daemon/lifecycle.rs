//! The daemon's lifecycle states and the decisions taken on them: when it
//! goes idle, when it shuts down, what a command line asks of it, and the
//! settings it reads from its environment.

use vstd::prelude::*;
use crate::config::opt_view;
use crate::text::{chars_of, parse_unsigned, parse_unsigned_exec, str_eq};

verus! {

/// Lifecycle states for the recurld daemon.
#[derive(Debug, Clone, Copy, PartialEq, Eq, Structural)]
pub enum DaemonState {
    /// Daemon is starting up, warming the browser pool
    Starting,
    /// Daemon is running and accepting connections
    Running,
    /// Daemon is running but has no recent activity (can auto-shutdown)
    Idle,
    /// Daemon is shutting down, draining active requests
    ShuttingDown,
}

/// How a daemon state is written.
pub open spec fn daemon_state_name(s: DaemonState) -> Seq<char> {
    match s {
        DaemonState::Starting => "starting"@,
        DaemonState::Running => "running"@,
        DaemonState::Idle => "idle"@,
        DaemonState::ShuttingDown => "shutting_down"@,
    }
}

impl DaemonState {
    /// The state's name, as it is displayed.
    pub fn to_string(&self) -> (r: String)
        ensures
            r@ == daemon_state_name(*self),
    {
        let s = match self {
            DaemonState::Starting => "starting",
            DaemonState::Running => "running",
            DaemonState::Idle => "idle",
            DaemonState::ShuttingDown => "shutting_down",
        };
        String::from_str(s)
    }
}

/// The outcome of an idle check: the daemon's next state, and whether it
/// has been idle too long.
pub open spec fn idle_outcome(state: DaemonState, idle_too_long: bool) -> (DaemonState, bool) {
    if state != DaemonState::Running && state != DaemonState::Idle {
        (state, false)
    } else if idle_too_long && state == DaemonState::Running {
        (DaemonState::Idle, true)
    } else {
        (state, idle_too_long)
    }
}

/// Check a daemon for idleness, given whether the time since its last
/// activity exceeds its idle timeout: only a running or idle daemon can
/// time out, and a running one that does becomes idle.
pub fn check_idle(state: DaemonState, idle_too_long: bool) -> (r: (DaemonState, bool))
    ensures
        r == idle_outcome(state, idle_too_long),
{
    match state {
        DaemonState::Running | DaemonState::Idle => {
            if idle_too_long && state == DaemonState::Running {
                (DaemonState::Idle, true)
            } else {
                (state, idle_too_long)
            }
        },
        _ => (state, false),
    }
}

/// An idle check never takes a daemon out of shutting down or starting,
/// never reports a timeout for them, and never brings an idle daemon back
/// to running.
pub proof fn lemma_idle_check_monotone(state: DaemonState, idle_too_long: bool)
    ensures
        state == DaemonState::ShuttingDown ==> idle_outcome(state, idle_too_long) == (
            DaemonState::ShuttingDown,
            false,
        ),
        state == DaemonState::Starting ==> idle_outcome(state, idle_too_long) == (
            DaemonState::Starting,
            false,
        ),
        state == DaemonState::Idle ==> idle_outcome(state, idle_too_long).0 == DaemonState::Idle,
        idle_outcome(state, idle_too_long).1 ==> idle_too_long,
{
}

/// How many requests are active when `available_permits` of the daemon's
/// `max_permits` request permits are free (none when more seem free than
/// there are).
pub fn active_requests(max_permits: usize, available_permits: usize) -> (r: usize)
    ensures
        r == (if available_permits <= max_permits {
            max_permits - available_permits
        } else {
            0
        }),
{
    if available_permits <= max_permits {
        max_permits - available_permits
    } else {
        0
    }
}

/// A command of the recurld program.
#[derive(Debug, Clone, PartialEq, Eq, Structural)]
pub enum DaemonCommand {
    /// Start the daemon (default)
    Start,
    /// Show daemon status
    Status,
    /// Stop the daemon
    Stop,
    /// Show the help
    Help,
    /// Show the version
    Version,
    /// Anything else
    Unknown,
}

/// The command named by recurld's first argument (`start` without one).
pub open spec fn command_of(arg: Option<Seq<char>>) -> DaemonCommand {
    match arg {
        None => DaemonCommand::Start,
        Some(a) => if a == "start"@ {
            DaemonCommand::Start
        } else if a == "status"@ {
            DaemonCommand::Status
        } else if a == "stop"@ {
            DaemonCommand::Stop
        } else if a == "--help"@ || a == "-h"@ {
            DaemonCommand::Help
        } else if a == "--version"@ || a == "-V"@ {
            DaemonCommand::Version
        } else {
            DaemonCommand::Unknown
        },
    }
}

/// Read recurld's command from its first argument.
pub fn parse_command(arg: Option<&str>) -> (r: DaemonCommand)
    ensures
        r == command_of(
            match arg {
                Some(a) => Some(a@),
                None => None,
            },
        ),
{
    match arg {
        None => DaemonCommand::Start,
        Some(a) => {
            if str_eq(a, "start") {
                DaemonCommand::Start
            } else if str_eq(a, "status") {
                DaemonCommand::Status
            } else if str_eq(a, "stop") {
                DaemonCommand::Stop
            } else if str_eq(a, "--help") || str_eq(a, "-h") {
                DaemonCommand::Help
            } else if str_eq(a, "--version") || str_eq(a, "-V") {
                DaemonCommand::Version
            } else {
                DaemonCommand::Unknown
            }
        },
    }
}

/// Idle timeout before auto-shutdown, in milliseconds, when none is set.
pub const DEFAULT_IDLE_TIMEOUT_MS: u64 = 60000;

/// The daemon's settings, read from `RECURL_DAEMON_IDLE_MS`,
/// `RECURL_POOL_MIN` and `RECURL_POOL_MAX`.
#[derive(Debug, Clone, Copy)]
pub struct DaemonSettings {
    pub idle_timeout_ms: u64,
    pub pool_min: usize,
    pub pool_max: usize,
}

/// A number read from a variable, or `default` when it is unset or does
/// not parse.
pub open spec fn number_or(v: Option<Seq<char>>, max: nat, default: nat) -> nat {
    match v {
        Some(s) => match parse_unsigned(s, max) {
            Some(n) => n,
            None => default,
        },
        None => default,
    }
}

/// Reads a number from a variable's value.
fn number_or_exec(v: &Option<String>, max: u64, default: u64) -> (r: u64)
    requires
        default <= max,
    ensures
        r == number_or(opt_view(*v), max as nat, default as nat),
{
    match v {
        Some(s) => {
            let c = chars_of(s.as_str());
            match parse_unsigned_exec(c.as_slice(), max) {
                Some(n) => n,
                None => default,
            }
        },
        None => default,
    }
}

/// Read the daemon's settings from the values of `RECURL_DAEMON_IDLE_MS`,
/// `RECURL_POOL_MIN` and `RECURL_POOL_MAX` (`None` where unset): an idle
/// timeout of 60000 ms, and one to three browsers, unless set otherwise.
pub fn daemon_settings(
    idle_var: Option<String>,
    min_var: Option<String>,
    max_var: Option<String>,
) -> (r: DaemonSettings)
    ensures
        r.idle_timeout_ms == number_or(opt_view(idle_var), u64::MAX as nat, 60000),
        r.pool_min == number_or(opt_view(min_var), usize::MAX as nat, 1),
        r.pool_max == number_or(opt_view(max_var), usize::MAX as nat, 3),
{
    let idle = number_or_exec(&idle_var, u64::MAX, DEFAULT_IDLE_TIMEOUT_MS);
    let min = number_or_exec(&min_var, usize::MAX as u64, 1);
    let max = number_or_exec(&max_var, usize::MAX as u64, 3);
    DaemonSettings { idle_timeout_ms: idle, pool_min: min as usize, pool_max: max as usize }
}

} // verus!
