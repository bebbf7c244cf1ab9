//! A batched, rate-adaptive web crawler core with transactional persistence,
//! together with the small interface and animation state machines that ship
//! with it.
//!
//! The crate verifies the logic: pacing of requests, page-count discovery,
//! field extraction from fetched documents, content compression framing,
//! batch scheduling with a barrier between waves, and the all-or-nothing
//! commit of a parent record with its children. Network, filesystem and
//! database work stays outside, behind the thin shells that drive this
//! library.

pub mod textscan;
pub mod pacing;
pub mod client;
pub mod htmldoc;
pub mod scrape;
pub mod normtext;
pub mod batches;
pub mod codec;
pub mod store;
pub mod timeline;
pub mod context;
pub mod anim;
pub mod interface;
pub mod exercises;
