//! recurl: a curl front end that detects anti-bot blocking and escalates
//! through browser impersonation and a JavaScript preflight.
//!
//! This crate holds the decision logic of recurl: argument parsing,
//! response analysis, the escalation state machine, cookie handling and
//! the bookkeeping of the browser pool and daemon.

pub mod clock;
pub mod text;
pub mod detection;
pub mod config;
pub mod escalation;
pub mod engine;
pub mod impersonation;
pub mod js_preflight;
pub mod daemon;
