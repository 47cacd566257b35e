//! Browser TLS fingerprint impersonation through the curl-impersonate
//! engines.

use vstd::prelude::*;
use crate::engine::{engine_for_profile, EngineType};
use crate::text::{lowercase_of, str_eq, to_lowercase};

verus! {

/// Available impersonation profiles.
#[derive(Debug, Clone, Copy, PartialEq, Eq, Structural)]
pub enum ImpersonationProfile {
    /// Chrome browser fingerprint (default)
    Chrome,
    /// Firefox browser fingerprint
    Firefox,
    /// Safari browser fingerprint
    Safari,
    /// Edge browser fingerprint (only when asked for)
    Edge,
}

impl Default for ImpersonationProfile {
    fn default() -> (r: Self)
        ensures
            r == ImpersonationProfile::Chrome,
    {
        ImpersonationProfile::Chrome
    }
}

/// The engine that implements a profile.
pub open spec fn profile_engine(p: ImpersonationProfile) -> EngineType {
    match p {
        ImpersonationProfile::Chrome => EngineType::Chrome,
        ImpersonationProfile::Firefox => EngineType::Firefox,
        ImpersonationProfile::Safari => EngineType::Safari,
        ImpersonationProfile::Edge => EngineType::Edge,
    }
}

/// The name of a profile.
pub open spec fn profile_name(p: ImpersonationProfile) -> Seq<char> {
    match p {
        ImpersonationProfile::Chrome => "chrome"@,
        ImpersonationProfile::Firefox => "firefox"@,
        ImpersonationProfile::Safari => "safari"@,
        ImpersonationProfile::Edge => "edge"@,
    }
}

/// The profile named by an (already lowercased) name.
pub open spec fn profile_for_name(s: Seq<char>) -> Option<ImpersonationProfile> {
    if s == "chrome"@ || s == "chrome119"@ || s == "chrome120"@ {
        Some(ImpersonationProfile::Chrome)
    } else if s == "firefox"@ || s == "ff"@ || s == "firefox121"@ {
        Some(ImpersonationProfile::Firefox)
    } else if s == "safari"@ {
        Some(ImpersonationProfile::Safari)
    } else if s == "edge"@ {
        Some(ImpersonationProfile::Edge)
    } else {
        None
    }
}

/// The profiles in the order escalation tries them.
pub open spec fn profile_order() -> Seq<ImpersonationProfile> {
    seq![ImpersonationProfile::Chrome, ImpersonationProfile::Firefox, ImpersonationProfile::Safari]
}

impl ImpersonationProfile {
    /// Get the engine type for this profile.
    pub fn engine_type(&self) -> (r: EngineType)
        ensures
            r == profile_engine(*self),
    {
        match self {
            ImpersonationProfile::Chrome => EngineType::Chrome,
            ImpersonationProfile::Firefox => EngineType::Firefox,
            ImpersonationProfile::Safari => EngineType::Safari,
            ImpersonationProfile::Edge => EngineType::Edge,
        }
    }

    /// Parse profile from string (case-insensitive).
    pub fn from_str(s: &str) -> (r: Option<Self>)
        ensures
            r == profile_for_name(lowercase_of(s@)),
    {
        let l = to_lowercase(s);
        let p = l.as_str();
        if str_eq(p, "chrome") || str_eq(p, "chrome119") || str_eq(p, "chrome120") {
            Some(ImpersonationProfile::Chrome)
        } else if str_eq(p, "firefox") || str_eq(p, "ff") || str_eq(p, "firefox121") {
            Some(ImpersonationProfile::Firefox)
        } else if str_eq(p, "safari") {
            Some(ImpersonationProfile::Safari)
        } else if str_eq(p, "edge") {
            Some(ImpersonationProfile::Edge)
        } else {
            None
        }
    }

    /// Get profile name.
    pub fn name(&self) -> (r: &'static str)
        ensures
            r@ == profile_name(*self),
    {
        match self {
            ImpersonationProfile::Chrome => "chrome",
            ImpersonationProfile::Firefox => "firefox",
            ImpersonationProfile::Safari => "safari",
            ImpersonationProfile::Edge => "edge",
        }
    }

    /// List of profiles to try in escalation order.
    pub fn escalation_order() -> (r: Vec<ImpersonationProfile>)
        ensures
            r@ == profile_order(),
    {
        let r = vec![
            ImpersonationProfile::Chrome,
            ImpersonationProfile::Firefox,
            ImpersonationProfile::Safari,
        ];
        assert(r@ =~= profile_order());
        r
    }
}

/// A profile parses to the engine that implements it: each profile name
/// selects the same engine through [`EngineType::from_profile`] as through
/// the profile itself.
pub proof fn lemma_profile_names_agree(s: Seq<char>)
    ensures
        match profile_for_name(s) {
            Some(p) => engine_for_profile(s) == Some(profile_engine(p)),
            None => engine_for_profile(s) is None,
        },
{
}

/// A profile's name reads back as that profile.
pub proof fn lemma_profile_name_round_trip(p: ImpersonationProfile)
    ensures
        profile_for_name(profile_name(p)) == Some(p),
{
    reveal_strlit("chrome");
    reveal_strlit("chrome119");
    reveal_strlit("chrome120");
    reveal_strlit("firefox");
    reveal_strlit("ff");
    reveal_strlit("firefox121");
    reveal_strlit("safari");
    reveal_strlit("edge");
    match p {
        ImpersonationProfile::Chrome => {},
        ImpersonationProfile::Firefox => {
            assert("firefox"@[0] != "chrome"@[0]);
            assert("firefox"@.len() != "chrome119"@.len());
            assert("firefox"@.len() != "chrome120"@.len());
        },
        ImpersonationProfile::Safari => {
            assert("safari"@[0] != "chrome"@[0]);
            assert("safari"@.len() != "chrome119"@.len());
            assert("safari"@.len() != "chrome120"@.len());
            assert("safari"@[0] != "firefox"@[0]);
            assert("safari"@.len() != "ff"@.len());
            assert("safari"@.len() != "firefox121"@.len());
        },
        ImpersonationProfile::Edge => {
            assert("edge"@[0] != "chrome"@[0]);
            assert("edge"@.len() != "chrome119"@.len());
            assert("edge"@.len() != "chrome120"@.len());
            assert("edge"@[0] != "firefox"@[0]);
            assert("edge"@[0] != "ff"@[0]);
            assert("edge"@.len() != "firefox121"@.len());
            assert("edge"@[0] != "safari"@[0]);
        },
    }
}

/// What a finished curl process left: its standard output and its exit
/// code (`None` when it was ended by a signal).
#[derive(Debug, Clone)]
pub struct ProcessOutput {
    pub stdout: Vec<u8>,
    pub code: Option<i32>,
}

/// The exit code recurl reports for a process: its code truncated to a
/// byte, or 1 when there is none.
pub open spec fn exit_byte(code: Option<i32>) -> u8 {
    match code {
        Some(c) => c as u8,
        None => 1u8,
    }
}

/// The exit code recurl reports for a process that exited with `code`.
pub fn exit_code_of(code: Option<i32>) -> (r: u8)
    ensures
        r == exit_byte(code),
{
    match code {
        Some(c) => c as u8,
        None => 1u8,
    }
}

/// Result of an impersonation attempt.
#[derive(Debug)]
pub struct ImpersonationResult {
    /// The profile that was used
    pub profile: ImpersonationProfile,
    /// Whether impersonation engine was available
    pub available: bool,
    /// The command output (if execution succeeded)
    pub output: Option<ProcessOutput>,
    /// Error message (if execution failed)
    pub error: Option<String>,
}

/// The standard output of an attempt (empty without output).
pub open spec fn attempt_stdout(r: ImpersonationResult) -> Seq<u8> {
    match r.output {
        Some(o) => o.stdout@,
        None => Seq::empty(),
    }
}

/// The exit code of an attempt (1 without output or code).
pub open spec fn attempt_exit_code(r: ImpersonationResult) -> u8 {
    match r.output {
        Some(o) => exit_byte(o.code),
        None => 1u8,
    }
}

impl ImpersonationResult {
    /// Create a result for unavailable engine.
    pub fn unavailable(profile: ImpersonationProfile) -> (r: Self)
        ensures
            r.profile == profile,
            !r.available,
            r.output is None,
            r.error matches Some(e) && e@ == profile_name(profile)
                + " impersonation engine not found"@,
    {
        let mut e = String::from_str(profile.name());
        e.append(" impersonation engine not found");
        ImpersonationResult { profile, available: false, output: None, error: Some(e) }
    }

    /// Create a result for successful execution.
    pub fn success(profile: ImpersonationProfile, output: ProcessOutput) -> (r: Self)
        ensures
            r.profile == profile,
            r.available,
            r.output == Some(output),
            r.error is None,
    {
        ImpersonationResult { profile, available: true, output: Some(output), error: None }
    }

    /// Create a result for execution error.
    pub fn failed(profile: ImpersonationProfile, error: String) -> (r: Self)
        ensures
            r.profile == profile,
            r.available,
            r.output is None,
            r.error == Some(error),
    {
        ImpersonationResult { profile, available: true, output: None, error: Some(error) }
    }

    /// Check if the request succeeded (exit code 0).
    pub fn is_success(&self) -> (r: bool)
        ensures
            r == (self.output matches Some(o) && o.code == Some(0i32)),
    {
        match &self.output {
            Some(o) => match o.code {
                Some(c) => c == 0,
                None => false,
            },
            None => false,
        }
    }

    /// Get stdout bytes.
    pub fn stdout(&self) -> (r: &[u8])
        ensures
            r@ == attempt_stdout(*self),
    {
        match &self.output {
            Some(o) => o.stdout.as_slice(),
            None => &[],
        }
    }

    /// Get exit code.
    pub fn exit_code(&self) -> (r: u8)
        ensures
            r == attempt_exit_code(*self),
    {
        match &self.output {
            Some(o) => match o.code {
                Some(c) => c as u8,
                None => 1u8,
            },
            None => 1u8,
        }
    }
}

/// The profiles an escalation tries: only the preferred one when one is
/// given, otherwise all of them in escalation order.
pub open spec fn impersonation_attempts(preferred: Option<ImpersonationProfile>) -> Seq<
    ImpersonationProfile,
> {
    match preferred {
        Some(p) => seq![p],
        None => profile_order(),
    }
}

/// The profiles to try, in order.
pub fn impersonation_plan(preferred: Option<ImpersonationProfile>) -> (r: Vec<
    ImpersonationProfile,
>)
    ensures
        r@ == impersonation_attempts(preferred),
{
    match preferred {
        Some(p) => {
            let r = vec![p];
            assert(r@ =~= seq![p]);
            r
        },
        None => ImpersonationProfile::escalation_order(),
    }
}

/// Whether an escalation stops at this attempt and returns it: a requested
/// profile is returned whatever happened; otherwise the first available
/// engine's attempt is returned, even if its request failed.
pub fn accept_attempt(preferred: Option<ImpersonationProfile>, result: &ImpersonationResult) -> (r:
    bool)
    ensures
        r == (preferred is Some || result.available),
{
    preferred.is_some() || result.available
}

/// How an attempt is reported in debug output.
pub fn attempt_label(result: &ImpersonationResult) -> (r: &'static str)
    ensures
        r@ == (if result.available {
            if result.output matches Some(o) && o.code == Some(0i32) {
                "success"@
            } else {
                "failed"@
            }
        } else {
            "unavailable"@
        }),
{
    if result.available {
        if result.is_success() {
            "success"
        } else {
            "failed"
        }
    } else {
        "unavailable"
    }
}

} // verus!
