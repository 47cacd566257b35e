//! The bookkeeping of recurld, the daemon that keeps warm browsers for
//! fast JS preflights: browser states, the pool, the daemon's lifecycle
//! and its request/response messages.

pub mod browser_state;
pub mod lifecycle;
pub mod pool;
pub mod protocol;
