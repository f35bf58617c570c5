//! Daily foreign-exchange rates and currency conversion.
//!
//! The library holds the verified core of the service: the decimal
//! arithmetic boundary, the rate-snapshot model, the converter, the feed
//! parser, the error taxonomy, and the request-level decision logic.
//! Network and cache I/O live outside, in the surrounding application.

pub mod api;
pub mod config;
pub mod converter;
pub mod decimal;
pub mod error;
pub mod feed;
pub mod rate;
pub mod text;
