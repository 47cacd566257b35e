//! JavaScript preflight: the results and options of a headless Chromium run
//! whose cookies are replayed with curl.

pub mod browser;
pub mod chromium;
pub mod cookies;
pub mod preflight_state;
pub mod stealth;

pub use cookies::{Cookie, ExtractedCookies};

use std::time::Duration;
use vstd::prelude::*;
use crate::clock::{duration_from_millis, duration_of_millis};
use crate::config::opt_view;
use cookies::CookieModel;

verus! {

/// Result of a JS preflight operation.
#[derive(Debug, Clone)]
pub struct PreflightResult {
    /// Cookies extracted from the browser session
    pub cookies: ExtractedCookies,
    /// Final URL after redirects/challenge resolution
    pub final_url: String,
    /// Whether the preflight was successful
    pub success: bool,
    /// Error message if preflight failed
    pub error: Option<String>,
    /// HTML content if js_rendered mode is enabled
    pub rendered_html: Option<String>,
}

impl PreflightResult {
    /// Create a successful result.
    pub fn success(cookies: ExtractedCookies, final_url: String) -> (r: Self)
        ensures
            r.cookies@ == cookies@,
            r.final_url@ == final_url@,
            r.success,
            r.error is None,
            r.rendered_html is None,
    {
        PreflightResult { cookies, final_url, success: true, error: None, rendered_html: None }
    }

    /// Create a successful result with rendered HTML.
    pub fn success_with_html(cookies: ExtractedCookies, final_url: String, html: String) -> (r:
        Self)
        ensures
            r.cookies@ == cookies@,
            r.final_url@ == final_url@,
            r.success,
            r.error is None,
            opt_view(r.rendered_html) == Some(html@),
    {
        PreflightResult {
            cookies,
            final_url,
            success: true,
            error: None,
            rendered_html: Some(html),
        }
    }

    /// Create a failed result.
    pub fn failed(error: String) -> (r: Self)
        ensures
            r.cookies@ == Seq::<CookieModel>::empty(),
            r.final_url@ == Seq::<char>::empty(),
            !r.success,
            opt_view(r.error) == Some(error@),
            r.rendered_html is None,
    {
        PreflightResult {
            cookies: ExtractedCookies::empty(),
            final_url: String::new(),
            success: false,
            error: Some(error),
            rendered_html: None,
        }
    }
}

/// Options for JS preflight.
#[derive(Debug)]
pub struct PreflightOptions {
    /// Timeout for the entire preflight operation
    pub timeout: Duration,
    /// Optional CSS selector to wait for
    pub wait_selector: Option<String>,
    /// Whether to return rendered HTML instead of just cookies
    pub return_html: bool,
    /// Enable debug output
    pub debug: bool,
}

/// The preflight timeout used when none is given, in milliseconds.
pub const DEFAULT_PREFLIGHT_TIMEOUT_MS: u64 = 30000;

impl Default for PreflightOptions {
    fn default() -> (r: Self)
        ensures
            r.timeout == duration_of_millis(DEFAULT_PREFLIGHT_TIMEOUT_MS),
            r.wait_selector is None,
            !r.return_html,
            !r.debug,
    {
        PreflightOptions {
            timeout: duration_from_millis(DEFAULT_PREFLIGHT_TIMEOUT_MS),
            wait_selector: None,
            return_html: false,
            debug: false,
        }
    }
}

impl PreflightOptions {
    /// Create options from the configuration values; the timeout defaults
    /// to 30 seconds.
    pub fn from_config(
        timeout_ms: Option<u64>,
        wait_selector: Option<String>,
        return_html: bool,
        debug: bool,
    ) -> (r: Self)
        ensures
            r.timeout == duration_of_millis(
                match timeout_ms {
                    Some(t) => t,
                    None => DEFAULT_PREFLIGHT_TIMEOUT_MS,
                },
            ),
            r.wait_selector == wait_selector,
            r.return_html == return_html,
            r.debug == debug,
    {
        let ms = match timeout_ms {
            Some(t) => t,
            None => DEFAULT_PREFLIGHT_TIMEOUT_MS,
        };
        PreflightOptions { timeout: duration_from_millis(ms), wait_selector, return_html, debug }
    }
}

} // verus!
