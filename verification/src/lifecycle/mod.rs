pub mod types;
pub mod store;
pub mod engine;
pub mod scanner;
