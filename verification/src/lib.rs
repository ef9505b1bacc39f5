//! Static security auditing of third-party code: signature-based detection,
//! scoring, verdicts, result diffing, caching and the quarantine ledger.

pub mod api;
pub mod cache;
pub mod diff;
pub mod output;
pub mod paths;
pub mod quarantine;
pub mod scanner;
pub mod text;
