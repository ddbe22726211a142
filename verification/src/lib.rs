//! A verified core for a weather-metrics exporter.
//!
//! A background poller fetches current weather conditions for one fixed
//! coordinate and records them in a registry of labelled instruments; a
//! metrics endpoint serializes that registry into a text exposition format.
//! This crate holds the verified logic of that pipeline: coordinate parsing,
//! the registry of instruments and its update rules, and the text encoder.
//! The surrounding process (HTTP client and server, timer, environment) is
//! ordinary unverified code that hands this crate plain values.

pub mod expo;
pub mod metrics;
pub mod owm_api;
