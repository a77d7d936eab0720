//! Resumable per-item listing automation: a progress record of already-listed
//! item ids, a durable snapshot codec, selector-lookup and retry decisions,
//! the per-item listing state machine, and the sell-run orchestrator.
//!
//! All browser and file interaction is performed by a thin driver outside this
//! library; the library makes every decision and states it in a contract.

pub mod digits;
pub mod lookup;
pub mod machine;
pub mod progress;
pub mod run;
pub mod snapshot;
