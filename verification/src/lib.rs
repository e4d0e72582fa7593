//! A verified link-layer traffic dissector and statistics engine.
//!
//! Raw Ethernet frames are walked down through network and transport headers;
//! each classified packet yields a flow record, and every frame folds into
//! rolling per-minute counters that are snapshotted and reset at each
//! minute-of-hour rollover.

mod clock;
pub mod counter;
pub mod dissect;
pub mod engine;
pub mod record;
pub mod text;
pub mod window;
