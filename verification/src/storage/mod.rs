pub mod quota;
pub mod error;
pub mod framing;
pub mod segment_log;
