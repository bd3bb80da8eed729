//! A verified in-memory response cache and request pipeline for a caching
//! HTTP reverse proxy.
//!
//! The cache store keeps fully materialized upstream responses under string
//! keys, with a fixed time-to-live and a flush-on-capacity eviction policy.
//! The pipeline decides, for one inbound request, whether to serve a stored
//! entry, reject an unparsable target URL, or forward upstream, and maps
//! every upstream failure to a fixed client-visible response.

pub mod cache;
pub mod config;
pub mod pipeline;
