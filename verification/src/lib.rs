//! An append-only, tamper-evident ledger of opaque payloads.
//!
//! Each committed block chains the content hash of its predecessor, and every
//! append is gated behind a proof-of-work puzzle. The crate is organised
//! leaf-first: `hashing` holds the content-addressing primitive, `block` the
//! immutable record type and the miner, `store` the durable ledger store and
//! the chain engine, and `errors` the failure taxonomy.

pub mod block;
pub mod errors;
pub mod hashing;
pub mod store;

pub use block::Block;
pub use block::MiningConfig;
pub use errors::LedgerError;
pub use store::BlockChain;
pub use store::ChainStatus;
