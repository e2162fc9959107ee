//! Extraction of a self-contained block witness from an Ethereum-compatible
//! JSON-RPC node: a block's header, its predecessor's header, the full
//! transactions with their receipts, and per-account state and Merkle proofs
//! for every account the block touches.
//!
//! This crate holds the verified core: height arithmetic on hex-encoded block
//! numbers, participant-address collection, JSON-RPC response acceptance, and
//! the assembly of one internally consistent `BlockWitness`. Transport (HTTP,
//! request encoding) is left to the caller, which hands the core plain values.

pub mod assembler;
pub mod codec;
pub mod collector;
pub mod heights;
pub mod rpc;
pub mod types;

pub use types::Block;
pub use types::Transaction;
pub use types::TransactionOrHash;
pub use types::TransactionReceipt;
pub use types::AccountProof;
pub use types::StorageProof;
pub use types::AccountState;
pub use types::BlockWitness;
pub use types::WitnessError;
pub use types::RpcOutcome;
