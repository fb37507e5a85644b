//! Confirmation-aware ingestion of swap events: a sliding window over block
//! summaries that validates parent-hash linkage before a block is treated as
//! final, and a decoder from raw log records to swap details.

pub mod address;
pub mod amount;
pub mod block;
pub mod digits;
pub mod errors;
pub mod event_subscriber;
pub mod reorg_watcher;
pub mod swap_event;
pub mod swap_processor;
