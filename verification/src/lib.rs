//! Comparative-latency probe core: races multiple event streams and records,
//! per event key, which source delivered it first and by what margin.

pub mod adapter;
pub mod channel;
pub mod key;
pub mod report;
pub mod supervisor;
pub mod tracker;
