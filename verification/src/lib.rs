//! Endpoint extraction and reachability bookkeeping for lists of bridge and proxy lines.

pub mod config;
pub mod decimal;
pub mod endpoint;
pub mod extract;
pub mod report;
pub mod scan;
pub mod text;
