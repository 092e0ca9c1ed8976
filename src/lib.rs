//! A seedable workload generator that drives a bounded pool of memory blocks
//! through allocate and evict decisions.
//!
//! The decision engine ([`actions::Actions`]) combines a reproducible random
//! source ([`random::Random`]), a stateful size trend and a capacity-bounded
//! block pool ([`pool::Pool`]) that reports every allocation and release to a
//! byte-count tracker ([`tracker::Tracker`]).

pub mod options;
pub mod text;
pub mod random;
pub mod tracker;
pub mod units;
pub mod pool;
pub mod actions;
pub mod progress;
