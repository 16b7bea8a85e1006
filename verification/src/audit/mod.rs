pub mod hex;
pub mod crypto;
pub mod chain;
pub mod persistence;
pub mod signer;
pub mod writer;
