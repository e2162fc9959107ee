//! The data model of a block witness: blocks, transactions, receipts,
//! account state deltas, Merkle proofs, the aggregate `BlockWitness`, the
//! error taxonomy, and the shape of a remote procedure call's outcome.
//!
//! All fields are plain values (strings are the node's hex encodings, kept
//! verbatim). The three per-account maps of a witness are association lists
//! keyed by normalized address, all three in the same collection order.

use vstd::prelude::*;

verus! {

/// A block header and body. `number` is the hex-encoded height
/// (`0x`-prefixed); each transaction slot is either a full body or a bare
/// hash, depending on how the block was fetched.
#[allow(non_snake_case)]
#[derive(Debug, PartialEq, Eq)]
pub struct Block {
    pub number: String,
    pub hash: String,
    pub parentHash: String,
    pub stateRoot: String,
    pub transactions: Vec<TransactionOrHash>,
}

/// A full transaction body. `to` is absent for a contract-creation
/// transaction; `input` is the raw call data as a hex string.
#[derive(Debug, PartialEq, Eq)]
pub struct Transaction {
    pub hash: String,
    pub from: String,
    pub to: Option<String>,
    pub input: String,
}

/// One slot of a block's transaction list: a full body when the block was
/// fetched with full transactions, otherwise a bare transaction hash.
#[derive(Debug, PartialEq, Eq)]
pub enum TransactionOrHash {
    Full(Transaction),
    Hash(String),
}

/// The receipt of one executed transaction. `logs` keeps each log entry as
/// its raw JSON text: the entries are opaque to the core.
#[allow(non_snake_case)]
#[derive(Debug, PartialEq, Eq)]
pub struct TransactionReceipt {
    pub transactionHash: String,
    pub gasUsed: String,
    pub status: String,
    pub logs: Vec<String>,
}

/// An account-level Merkle proof together with the storage proofs that were
/// requested with it.
#[allow(non_snake_case)]
#[derive(Debug, PartialEq, Eq)]
pub struct AccountProof {
    pub address: String,
    pub balance: String,
    pub nonce: String,
    pub codeHash: String,
    pub storageHash: String,
    pub accountProof: Vec<String>,
    pub storageProof: Vec<StorageProof>,
}

/// A Merkle proof for one key/value pair of an account's storage trie.
#[derive(Debug, PartialEq, Eq)]
pub struct StorageProof {
    pub key: String,
    pub value: String,
    pub proof: Vec<String>,
}

/// One account's state delta across two heights: balance and nonce before
/// and after block execution, and the code at the later height.
#[derive(Debug, PartialEq, Eq)]
pub struct AccountState {
    pub balance_before: String,
    pub balance_after: String,
    pub nonce_before: String,
    pub nonce_after: String,
    pub code: String,
}

/// The aggregate witness: the current and previous block headers, the full
/// transactions of the current block with their receipts in the same order,
/// and three per-account maps (association lists sharing one key order):
/// state keyed for the previous height, state keyed for the current height,
/// and the pair of account proofs at both heights.
#[derive(Debug, PartialEq, Eq)]
pub struct BlockWitness {
    pub block_header: Block,
    pub prev_block_header: Block,
    pub transactions: Vec<Transaction>,
    pub receipts: Vec<TransactionReceipt>,
    pub pre_state: Vec<(String, AccountState)>,
    pub post_state: Vec<(String, AccountState)>,
    pub merkle_proofs: Vec<(String, (AccountProof, AccountProof))>,
}

/// Why an extraction failed. Each context string names the operation and the
/// address or height involved, so a single terminating error is diagnosable.
#[derive(Debug, PartialEq, Eq)]
pub enum WitnessError {
    /// Connection, name resolution or timeout failure at the transport layer.
    TransportError { context: String },
    /// The endpoint answered with a JSON-RPC `error` object instead of a result.
    RpcError { context: String },
    /// The result payload does not conform to the expected shape.
    DecodeError { context: String },
    /// The node reports no block or receipt for the given key.
    NotFoundError { context: String },
    /// The current block is the genesis block: it has no predecessor, and
    /// this assembler fails fast rather than reuse block zero as its own
    /// predecessor.
    GenesisBoundaryError,
    /// The per-account inputs handed to assembly do not line up with the
    /// collected address set.
    InconsistentSetError,
}

/// The outcome of one remote call, after transport succeeded: the decoded
/// result, a null result, the endpoint's `error` object (its message), or a
/// result payload that did not decode (what went wrong).
#[derive(Debug, PartialEq, Eq)]
pub enum RpcOutcome<T> {
    Decoded(T),
    NullResult,
    ErrorObject(String),
    Malformed(String),
}

impl Clone for Transaction {
    fn clone(&self) -> (res: Self)
        ensures
            res == *self,
    {
        let to = match &self.to {
            Some(a) => Some(a.clone()),
            None => None,
        };
        Transaction {
            hash: self.hash.clone(),
            from: self.from.clone(),
            to,
            input: self.input.clone(),
        }
    }
}

impl Clone for AccountState {
    fn clone(&self) -> (res: Self)
        ensures
            res == *self,
    {
        AccountState {
            balance_before: self.balance_before.clone(),
            balance_after: self.balance_after.clone(),
            nonce_before: self.nonce_before.clone(),
            nonce_after: self.nonce_after.clone(),
            code: self.code.clone(),
        }
    }
}

} // verus!
