//! The messages exchanged between recurl and recurld, and the names of the
//! socket or pipe they travel through. Each message is one line of JSON;
//! the encoding itself is done where the messages are sent.

use vstd::prelude::*;
use crate::config::opt_view;

verus! {

/// Request message from recurl to recurld.
#[derive(Debug, Clone)]
pub enum DaemonRequest {
    /// Execute JS preflight for a URL
    JsPreflight {
        /// URL to preflight
        url: String,
        /// Timeout in milliseconds
        timeout_ms: Option<u64>,
        /// CSS selector to wait for
        wait_selector: Option<String>,
        /// Whether to return rendered HTML
        return_html: bool,
    },
    /// Get daemon status
    Status,
    /// Shutdown the daemon
    Shutdown,
    /// Ping to check if daemon is alive
    Ping,
}

/// Response message from recurld to recurl.
#[derive(Debug, Clone)]
pub enum DaemonResponse {
    /// Preflight completed successfully
    PreflightSuccess {
        /// Extracted cookies (name, value)
        cookies: Vec<(String, String)>,
        /// Final URL after redirects
        final_url: String,
        /// Rendered HTML (if requested)
        html: Option<String>,
    },
    /// Preflight failed
    PreflightError {
        /// Error message
        error: String,
    },
    /// Daemon status
    Status {
        /// Daemon version
        version: String,
        /// Uptime in seconds
        uptime_secs: u64,
        /// Number of browser instances in pool
        pool_size: usize,
        /// Number of requests served
        requests_served: u64,
        /// Number of active requests
        active_requests: usize,
    },
    /// Shutdown acknowledged
    ShutdownAck,
    /// Pong response
    Pong,
    /// Generic error
    Error {
        /// Error message
        error: String,
    },
}

/// The request for a preflight of `url` with the given options.
pub fn preflight_request(
    url: &str,
    timeout_ms: Option<u64>,
    wait_selector: Option<String>,
    return_html: bool,
) -> (r: DaemonRequest)
    ensures
        r matches DaemonRequest::JsPreflight { url: u, timeout_ms: t, wait_selector: w, return_html: h }
            && u@ == url@ && t == timeout_ms && w == wait_selector && h == return_html,
{
    DaemonRequest::JsPreflight { url: String::from_str(url), timeout_ms, wait_selector, return_html }
}

/// The directory, under the user's cache directory, that holds the socket.
pub open spec fn socket_dir_name() -> Seq<char> {
    "recurl"@
}

/// The file name of the daemon's Unix socket.
pub open spec fn socket_file_name() -> Seq<char> {
    "daemon.sock"@
}

/// The prefix of the daemon's Windows named pipe.
pub open spec fn pipe_prefix() -> Seq<char> {
    "\\\\.\\pipe\\recurl-"@
}

/// The name of the user the daemon belongs to: `USER`, else `USERNAME`,
/// else `unknown` (given the values of those variables, `None` where
/// unset).
pub fn user_name(user_var: Option<String>, username_var: Option<String>) -> (r: String)
    ensures
        r@ == match opt_view(user_var) {
            Some(u) => u,
            None => match opt_view(username_var) {
                Some(u) => u,
                None => "unknown"@,
            },
        },
{
    match user_var {
        Some(u) => u,
        None => match username_var {
            Some(u) => u,
            None => String::from_str("unknown"),
        },
    }
}

/// The Windows named pipe of the daemon of `user`.
pub fn get_pipe_name(user: &str) -> (r: String)
    ensures
        r@ == pipe_prefix() + user@,
{
    let mut s = String::from_str("\\\\.\\pipe\\recurl-");
    s.append(user);
    s
}

/// The file name of the daemon's Unix socket.
pub fn socket_file() -> (r: &'static str)
    ensures
        r@ == socket_file_name(),
{
    "daemon.sock"
}

/// The directory, under the user's cache directory, that holds the socket.
pub fn socket_dir() -> (r: &'static str)
    ensures
        r@ == socket_dir_name(),
{
    "recurl"
}

} // verus!
