pub mod trackers;
pub mod signal;
pub mod policy;
pub mod decision;
pub mod config;
