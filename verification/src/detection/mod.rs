//! Failure detection: decides from a response whether recurl was blocked,
//! so that it can escalate to impersonation or the JavaScript preflight.

pub mod analysis;
pub mod patterns;
pub mod status;

pub use analysis::DetectionResult;
pub use patterns::{detect_antibot_patterns, AntibotService};
pub use status::is_blocking_status;
