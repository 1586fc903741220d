//! The verified core of a text and data analysis service: a bounded cache
//! with expiry and scored eviction, the guards at the service's boundary, its
//! log and metrics, its settings, and what it counts of texts and numbers.
//!
//! Outside crates and the clock are reached through a few functions whose
//! contracts are stated and not proved; they are marked as such where they
//! stand. Everything else is proved against its contract.

pub mod analysis;
pub mod cache;
pub mod cache_laws;
pub mod cipher;
pub mod clock;
pub mod config;
pub mod crypto;
pub mod digest;
pub mod index;
pub mod logging;
pub mod numeric;
pub mod pattern;
pub mod performance;
pub mod random;
pub mod ranking;
pub mod ratio;
pub mod realtime;
pub mod recent;
pub mod security;
pub mod store;
pub mod text;
pub mod validation;
pub mod wallclock;
