//! Execution core of a record-processing pipeline: entries flow through
//! stages with a write/close lifecycle and boolean flow control, stages are
//! found by name in a plugin registry, and a guarded-state bridge hands
//! entries to background workers.

pub mod aggregator;
pub mod bridge;
pub mod compound;
pub mod flow;
pub mod head;
pub mod operation;
pub mod opts;
pub mod parse_num;
pub mod record;
pub mod registry;
pub mod tail;
pub mod validates;
pub mod window;
pub mod wns;
