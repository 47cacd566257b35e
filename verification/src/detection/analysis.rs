//! Combining status code and body signatures into one verdict.

use vstd::prelude::*;
use crate::detection::patterns::{detect_antibot, detect_antibot_patterns, service_name, AntibotService};
use crate::detection::status::{blocking_status, is_blocking_status};
use crate::text::{decimal_digits, push_decimal};

verus! {

/// Result of analyzing a curl response for blocking signals.
#[derive(Debug, Clone)]
pub struct DetectionResult {
    /// HTTP status code (if detected)
    pub status_code: Option<u16>,
    /// Whether the status code indicates blocking
    pub status_blocked: bool,
    /// Detected anti-bot service (if any)
    pub antibot_service: Option<AntibotService>,
    /// Whether we should escalate to next layer
    pub should_escalate: bool,
    /// Human-readable summary
    pub summary: String,
}

/// The status code is known and is one that signals blocking.
pub open spec fn status_is_blocking(status_code: Option<u16>) -> bool {
    match status_code {
        Some(c) => blocking_status(c),
        None => false,
    }
}

/// Whether a response calls for escalation: its status code signals
/// blocking (with or without a signature in the body), or its status code
/// is unknown and its body carries a known anti-bot signature. A response
/// whose status is known and not blocking (a 200, say) does not escalate,
/// whatever its body holds.
pub open spec fn escalation_needed(status_code: Option<u16>, body: Seq<u8>) -> bool {
    status_is_blocking(status_code) || (status_code is None && detect_antibot(body) is Some)
}

/// How a status code is shown in a summary.
pub open spec fn status_text(status_code: Option<u16>) -> Seq<char> {
    match status_code {
        Some(c) => decimal_digits(c as nat),
        None => "unknown"@,
    }
}

/// The summary of an analysis.
pub open spec fn summary_of(
    status_code: Option<u16>,
    blocked: bool,
    service: Option<AntibotService>,
) -> Seq<char> {
    match service {
        Some(s) => "Blocked: "@ + service_name(s) + " (status: "@ + status_text(status_code) + ")"@,
        None => if blocked {
            "Blocked: HTTP "@ + status_text(status_code)
        } else {
            "No blocking detected"@
        },
    }
}

/// Appends the text of a status code to `s`.
fn push_status_text(s: &mut String, status_code: Option<u16>)
    ensures
        final(s)@ == old(s)@ + status_text(status_code),
{
    match status_code {
        Some(c) => push_decimal(s, c as u64),
        None => s.append("unknown"),
    }
}

impl DetectionResult {
    /// Create a result indicating no blocking detected.
    pub fn ok() -> (r: Self)
        ensures
            r.status_code is None,
            !r.status_blocked,
            r.antibot_service is None,
            !r.should_escalate,
            r.summary@ == "No blocking detected"@,
    {
        DetectionResult {
            status_code: None,
            status_blocked: false,
            antibot_service: None,
            should_escalate: false,
            summary: String::from_str("No blocking detected"),
        }
    }

    /// Create a result from status code and body analysis: escalation is
    /// called for when the status code signals blocking, or when the status
    /// code is unknown and a known anti-bot signature occurs in the body. A
    /// known, non-blocking status never escalates; the signature found is
    /// still reported.
    pub fn analyze(status_code: Option<u16>, body: &[u8]) -> (r: Self)
        ensures
            r.status_code == status_code,
            r.status_blocked == status_is_blocking(status_code),
            r.antibot_service == detect_antibot(body@),
            r.should_escalate == (r.status_blocked || (status_code is None
                && r.antibot_service is Some)),
            r.should_escalate == escalation_needed(status_code, body@),
            r.summary@ == summary_of(status_code, r.status_blocked, r.antibot_service),
    {
        let status_blocked = match status_code {
            Some(c) => is_blocking_status(c),
            None => false,
        };
        let antibot_service = detect_antibot_patterns(body);
        let should_escalate = status_blocked || (status_code.is_none()
            && antibot_service.is_some());
        let summary = match antibot_service {
            Some(service) => {
                let mut s = String::from_str("Blocked: ");
                let name = service.to_string();
                s.append(name.as_str());
                s.append(" (status: ");
                push_status_text(&mut s, status_code);
                s.append(")");
                s
            },
            None => if status_blocked {
                let mut s = String::from_str("Blocked: HTTP ");
                push_status_text(&mut s, status_code);
                s
            } else {
                String::from_str("No blocking detected")
            },
        };
        DetectionResult { status_code, status_blocked, antibot_service, should_escalate, summary }
    }
}

/// The escalation rule: a blocking status always escalates, a known
/// status that is not blocking never does (whatever the body holds), and
/// without a status the body's signature decides.
pub proof fn lemma_escalation_rule(status_code: Option<u16>, body: Seq<u8>)
    ensures
        status_is_blocking(status_code) ==> escalation_needed(status_code, body),
        (status_code matches Some(c) && !blocking_status(c)) ==> !escalation_needed(
            status_code,
            body,
        ),
        status_code is None ==> (escalation_needed(status_code, body) == (detect_antibot(body) is Some)),
{
}

} // verus!
