//! Reconstructs a storage pool's device topology from the flat, tab-delimited
//! iostat listing, correlates it with an independently obtained topology
//! snapshot, and builds a label-addressed metric set per device.

pub mod correlate;
pub mod device;
pub mod metrics;
pub mod reconstruct;
pub mod scrape;
pub mod text;
pub mod topology;
