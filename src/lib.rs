//! Per-packet admission for a driver-level hook: frames are classified by
//! source address against a bounded denylist, and the sources that pass it
//! are held to a byte-rate ceiling by a token bucket kept in a bounded,
//! least-recently-used table.
pub mod verdict;
pub mod frame;
pub mod bucket;
pub mod buckets;
pub mod denylist;
pub mod classifier;
pub mod lifecycle;
