//! A rate-limited probe pipeline: targets are normalised and deduplicated by a
//! dispatcher, admitted through a token bucket, and scanned pattern by pattern
//! with first-match-wins reporting.

pub mod config;
pub mod dispatch;
pub mod limiter;
pub mod pattern;
pub mod target;
pub mod worker;
