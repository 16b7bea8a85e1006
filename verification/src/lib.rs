//! Local application-security runtime: audit chain, evidence log accounting,
//! detection signals and policies, pressure governor, and payment lifecycles.

pub mod text;
pub mod table;
pub mod bytes;
pub mod storage;
pub mod audit;
pub mod detection;
pub mod governor;
pub mod event;
pub mod lifecycle;
pub mod calendar;
pub mod ingest;
