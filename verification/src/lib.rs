//! Core pipeline for a live-show aggregator: normalization of scraped text
//! and dates, venue adapters, an orchestrator with a partial-failure policy,
//! a deduplicating event store with a posting lifecycle, and a rate-limited,
//! two-tier enrichment cache.

pub mod config;
pub mod dates;
pub mod enrich;
pub mod facebook;
pub mod fox_theater;
pub mod htmlq;
pub mod knitting_factory;
pub mod models;
pub mod pine_box;
pub mod revolution;
pub mod scrape;
pub mod store;
pub mod text;
pub mod timezone;
pub mod treefort;
