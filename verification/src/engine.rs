//! The curl engines recurl runs: plain curl and the curl-impersonate
//! builds.

use vstd::prelude::*;
use crate::text::{lowercase_of, str_eq, to_lowercase};

verus! {

/// Engine types available for execution.
#[derive(Debug, Clone, Copy, PartialEq, Eq, Structural)]
pub enum EngineType {
    /// Standard curl engine (curl_engine)
    Curl,
    /// Chrome impersonation (curl_chrome)
    Chrome,
    /// Firefox impersonation (curl_ff)
    Firefox,
    /// Safari impersonation (curl_safari)
    Safari,
    /// Edge impersonation (curl_edge)
    Edge,
}

/// The binary name of an engine.
pub open spec fn engine_binary(e: EngineType) -> Seq<char> {
    match e {
        EngineType::Curl => "curl_engine"@,
        EngineType::Chrome => "curl_chrome"@,
        EngineType::Firefox => "curl_ff"@,
        EngineType::Safari => "curl_safari"@,
        EngineType::Edge => "curl_edge"@,
    }
}

/// The engine named by an (already lowercased) profile name.
pub open spec fn engine_for_profile(p: Seq<char>) -> Option<EngineType> {
    if p == "chrome"@ || p == "chrome119"@ || p == "chrome120"@ {
        Some(EngineType::Chrome)
    } else if p == "firefox"@ || p == "ff"@ || p == "firefox121"@ {
        Some(EngineType::Firefox)
    } else if p == "safari"@ {
        Some(EngineType::Safari)
    } else if p == "edge"@ {
        Some(EngineType::Edge)
    } else {
        None
    }
}

impl EngineType {
    /// Get the binary name for this engine type.
    pub fn binary_name(&self) -> (r: &'static str)
        ensures
            r@ == engine_binary(*self),
    {
        match self {
            EngineType::Curl => "curl_engine",
            EngineType::Chrome => "curl_chrome",
            EngineType::Firefox => "curl_ff",
            EngineType::Safari => "curl_safari",
            EngineType::Edge => "curl_edge",
        }
    }

    /// Parse from profile name (case-insensitive).
    pub fn from_profile(profile: &str) -> (r: Option<Self>)
        ensures
            r == engine_for_profile(lowercase_of(profile@)),
    {
        let l = to_lowercase(profile);
        let p = l.as_str();
        if str_eq(p, "chrome") || str_eq(p, "chrome119") || str_eq(p, "chrome120") {
            Some(EngineType::Chrome)
        } else if str_eq(p, "firefox") || str_eq(p, "ff") || str_eq(p, "firefox121") {
            Some(EngineType::Firefox)
        } else if str_eq(p, "safari") {
            Some(EngineType::Safari)
        } else if str_eq(p, "edge") {
            Some(EngineType::Edge)
        } else {
            None
        }
    }
}

/// Get the platform-specific binary name: `.exe` is appended on Windows.
pub fn engine_binary_name(name: &str, windows: bool) -> (r: String)
    ensures
        r@ == (if windows {
            name@ + ".exe"@
        } else {
            name@
        }),
{
    let mut s = String::from_str(name);
    if windows {
        s.append(".exe");
    }
    s
}

/// The places where an engine binary is looked for.
#[derive(Debug, Clone, Copy, PartialEq, Eq, Structural)]
pub enum EngineLocation {
    /// The path in `RECURL_ENGINE_PATH`, if it exists
    EnvironmentPath,
    /// `bin/<binary>` next to the recurl executable
    BundledBin,
    /// `<binary>` in the directory of the recurl executable
    BesideExecutable,
    /// `curl` on the system `PATH`
    SystemCurl,
}

/// The order in which an engine is looked for: the environment variable
/// and the system curl only serve the plain curl engine.
pub open spec fn engine_search_order(e: EngineType) -> Seq<EngineLocation> {
    if e == EngineType::Curl {
        seq![
            EngineLocation::EnvironmentPath,
            EngineLocation::BundledBin,
            EngineLocation::BesideExecutable,
            EngineLocation::SystemCurl,
        ]
    } else {
        seq![EngineLocation::BundledBin, EngineLocation::BesideExecutable]
    }
}

/// The places to look for an engine, in order.
pub fn engine_search_plan(e: EngineType) -> (r: Vec<EngineLocation>)
    ensures
        r@ == engine_search_order(e),
{
    let r = if e == EngineType::Curl {
        vec![
            EngineLocation::EnvironmentPath,
            EngineLocation::BundledBin,
            EngineLocation::BesideExecutable,
            EngineLocation::SystemCurl,
        ]
    } else {
        vec![EngineLocation::BundledBin, EngineLocation::BesideExecutable]
    };
    assert(r@ =~= engine_search_order(e));
    r
}

/// The error reported when no engine binary was found.
pub fn engine_not_found_message(binary_name: &str) -> (r: String)
    ensures
        r@ == binary_name@ + " not found. Set RECURL_ENGINE_PATH or install recurl properly."@,
{
    let mut s = String::from_str(binary_name);
    s.append(" not found. Set RECURL_ENGINE_PATH or install recurl properly.");
    s
}

} // verus!
