//! A pluggable request-handling framework: configuration validation, a cache of
//! shared module instances, and an executor that chains per-request handlers.

pub mod cache;
pub mod chain;
pub mod config;
pub mod example;
pub mod message;
