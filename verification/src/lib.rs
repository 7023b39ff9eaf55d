//! Ingestion engine for an incremental social-network archiver.
//!
//! The library holds the verified core: the archive data model, the
//! resumable paging store, the rate-limit governor, the per-endpoint
//! crawl state machines with their sync early-stop policy, the media
//! download planner, the archive importer and the local full-text search.
//! Network transport, file persistence and the command-line front end
//! live outside the library and drive it through these types.

pub mod config;
pub mod governor;
pub mod importer;
pub mod inspect;
pub mod lists;
pub mod media;
pub mod orchestrator;
pub mod profiles;
pub mod phase;
pub mod search;
pub mod storage;
pub mod store;
pub mod types;
