//! Verified core of the asset ingestion service: upload classification,
//! per-format parsing into records, API-key checks, rate-limit bucketing,
//! configuration parsing and the decisions behind each HTTP response.

pub mod auth;
pub mod text;
pub mod error;
pub mod ingest;
pub mod config;
pub mod rate_limit;
pub mod routes;
