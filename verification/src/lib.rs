//! Fleet discovery and remote-execution engine.
//!
//! The crate finds machines advertised on the local network, classifies the
//! output of remote shell sessions, folds diagnostic command output into
//! structured inventory records, inspects license files for their remaining
//! validity, and dispatches one command across many hosts while keeping the
//! results in input order.  All decision and parsing logic lives here,
//! verified; process spawning, networking and clocks are left to callers.

pub mod config;
pub mod dispatch;
pub mod error;
pub mod inventory;
pub mod license;
pub mod scan;
pub mod ssh;
pub mod text;
pub mod theme;
