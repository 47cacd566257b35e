//! The browser used for a JS preflight: its configuration, the command
//! line flags that make headless Chromium harder to tell from a desktop
//! browser, and the checks made on the page it loads.

use vstd::prelude::*;
use crate::text::{chars_of, contains_chars, contains_seq};

verus! {

/// Browser configuration for preflight.
#[derive(Debug, Clone)]
pub struct BrowserConfig {
    /// Path to Chrome/Chromium executable (None = auto-detect)
    pub chrome_path: Option<String>,
    /// Whether to run in headless mode
    pub headless: bool,
    /// Viewport width
    pub width: u32,
    /// Viewport height
    pub height: u32,
}

impl Default for BrowserConfig {
    /// Auto-detected, headless, 1920 by 1080.
    fn default() -> (r: Self)
        ensures
            r.chrome_path is None,
            r.headless,
            r.width == 1920,
            r.height == 1080,
    {
        BrowserConfig { chrome_path: None, headless: true, width: 1920, height: 1080 }
    }
}

/// The flags Chromium is launched with (its default flags are turned
/// off): new headless mode, a desktop window, no automation indicators,
/// and the language and user agent of Chrome 120 on Windows.
pub open spec fn stealth_flags() -> Seq<Seq<char>> {
    seq![
        "--headless=new"@,
        "--no-sandbox"@,
        "--disable-dev-shm-usage"@,
        "--disable-gpu"@,
        "--window-size=1920,1080"@,
        "--start-maximized"@,
        "--disable-blink-features=AutomationControlled"@,
        "--disable-features=TranslateUI"@,
        "--disable-infobars"@,
        "--disable-background-networking"@,
        "--disable-backgrounding-occluded-windows"@,
        "--disable-breakpad"@,
        "--disable-component-update"@,
        "--disable-default-apps"@,
        "--disable-domain-reliability"@,
        "--disable-extensions"@,
        "--disable-hang-monitor"@,
        "--disable-ipc-flooding-protection"@,
        "--disable-popup-blocking"@,
        "--disable-prompt-on-repost"@,
        "--disable-renderer-backgrounding"@,
        "--disable-sync"@,
        "--enable-features=NetworkService,NetworkServiceInProcess"@,
        "--force-color-profile=srgb"@,
        "--metrics-recording-only"@,
        "--no-first-run"@,
        "--password-store=basic"@,
        "--use-mock-keychain"@,
        "--lang=en-US,en"@,
        "--user-agent=Mozilla/5.0 (Windows NT 10.0; Win64; x64) AppleWebKit/537.36 (KHTML, like Gecko) Chrome/120.0.0.0 Safari/537.36"@,
    ]
}

/// The views of a sequence of string slices.
pub open spec fn flag_views(v: Seq<&str>) -> Seq<Seq<char>> {
    v.map_values(|s: &str| s@)
}

/// The Chromium flags of a stealth preflight browser, in order.
pub fn stealth_browser_args() -> (r: Vec<&'static str>)
    ensures
        flag_views(r@) == stealth_flags(),
{
    let r = vec![
        "--headless=new",
        "--no-sandbox",
        "--disable-dev-shm-usage",
        "--disable-gpu",
        "--window-size=1920,1080",
        "--start-maximized",
        "--disable-blink-features=AutomationControlled",
        "--disable-features=TranslateUI",
        "--disable-infobars",
        "--disable-background-networking",
        "--disable-backgrounding-occluded-windows",
        "--disable-breakpad",
        "--disable-component-update",
        "--disable-default-apps",
        "--disable-domain-reliability",
        "--disable-extensions",
        "--disable-hang-monitor",
        "--disable-ipc-flooding-protection",
        "--disable-popup-blocking",
        "--disable-prompt-on-repost",
        "--disable-renderer-backgrounding",
        "--disable-sync",
        "--enable-features=NetworkService,NetworkServiceInProcess",
        "--force-color-profile=srgb",
        "--metrics-recording-only",
        "--no-first-run",
        "--password-store=basic",
        "--use-mock-keychain",
        "--lang=en-US,en",
        "--user-agent=Mozilla/5.0 (Windows NT 10.0; Win64; x64) AppleWebKit/537.36 (KHTML, like Gecko) Chrome/120.0.0.0 Safari/537.36",
    ];
    assert(flag_views(r@) =~= stealth_flags());
    r
}

/// The page still shows an anti-bot challenge: it holds `Just a moment`,
/// `cf-browser-verification` or `challenge-platform`.
pub open spec fn challenge_in_page(html: Seq<char>) -> bool {
    contains_seq(html, "Just a moment"@) || contains_seq(html, "cf-browser-verification"@)
        || contains_seq(html, "challenge-platform"@)
}

/// Whether a loaded page still shows a challenge, so that the preflight
/// waits longer before reading cookies.
pub fn challenge_pending(html: &str) -> (r: bool)
    ensures
        r == challenge_in_page(html@),
{
    let h = chars_of(html);
    let a = chars_of("Just a moment");
    let b = chars_of("cf-browser-verification");
    let c = chars_of("challenge-platform");
    contains_chars(h.as_slice(), a.as_slice()) || contains_chars(h.as_slice(), b.as_slice())
        || contains_chars(h.as_slice(), c.as_slice())
}

/// The URL a preflight ended on: the page's URL when the browser reports
/// one, otherwise the requested URL.
pub fn final_url_of(page_url: Option<String>, requested: &str) -> (r: String)
    ensures
        r@ == match page_url {
            Some(u) => u@,
            None => requested@,
        },
{
    match page_url {
        Some(u) => u,
        None => String::from_str(requested),
    }
}

} // verus!
