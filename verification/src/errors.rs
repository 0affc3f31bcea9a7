use vstd::prelude::*;

verus! {

/// Failure taxonomy for ledger operations. Every failure is returned as an
/// explicit value; none is swallowed, and none is retried silently.
#[derive(Clone, Copy, Debug, PartialEq, Eq, Structural)]
pub enum LedgerError {
    /// The backing store is unreachable, or it rejected an operation for a
    /// reason other than a uniqueness constraint. Fatal to the current
    /// operation.
    StorageUnavailable,
    /// A uniqueness constraint (block index, hash or timestamp) was violated
    /// at commit time. The caller may retry with a fresh mining attempt.
    ConstraintViolation,
    /// The store holds no blocks at all, though a genesis block was expected.
    /// Indicates the store was bypassed or corrupted outside this engine.
    EmptyChain,
    /// Mining gave up: no nonce below the configured attempt ceiling produced
    /// a hash meeting the difficulty. Recoverable by raising the ceiling.
    MiningExhausted,
}

} // verus!
