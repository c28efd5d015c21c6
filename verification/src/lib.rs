//! Core of a concurrent HTTP reconnaissance tool: a shrink-only pool of
//! failover proxies that many scan workers share, and the per-target scan
//! protocol (bounded retries, failover on timeout, page-title extraction).
//!
//! The surrounding program supplies the configuration, enumerates the target
//! addresses and performs the network traffic; everything that decides —
//! which proxy a scan uses, when a failed attempt is retried, what a scan
//! reports — lives here.

pub mod config;
pub mod errors;
pub mod proxy;
pub mod scanner;
