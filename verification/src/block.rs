//! The immutable block record and the proof-of-work miner.
//!
//! A block is constructed once — nonce search, then hash computation over a
//! single fixed timestamp — and never mutated afterwards. The same timestamp
//! value feeds both the validity check during mining and the stored block, so
//! the stored hash is always reproducible from the stored fields.

use crate::errors::LedgerError;
use crate::hashing::blake3_hex_exec;
use crate::hashing::content_of;
use crate::hashing::has_leading_zeros;
use crate::hashing::hash_of;
use crate::hashing::push_hex_u64;
use crate::hashing::starts_with_zeros;
use vstd::prelude::*;
use vstd::string::StrSliceExecFns;
use vstd::string::StringExecFns;

verus! {

/// The mathematical model of a block: its six fields as plain values.
#[verifier::ext_equal]
pub ghost struct BlockView {
    pub index: u64,
    pub timestamp: Seq<char>,
    pub nonce: u64,
    pub hash: Seq<char>,
    pub previous_hash: Seq<char>,
    pub encoded_model: Seq<char>,
}

/// The content hash a block's own stored fields dictate.
pub open spec fn view_hash(b: BlockView) -> Seq<char> {
    hash_of(b.index, b.timestamp, b.nonce, b.previous_hash, b.encoded_model)
}

/// The stored hash is a cache of the content hash, not an independent fact.
pub open spec fn hash_reproducible(b: BlockView) -> bool {
    b.hash == view_hash(b)
}

/// A nonce is valid for a field tuple when the resulting content hash begins
/// with at least `difficulty` leading zero hexadecimal characters.
pub open spec fn valid_nonce(
    index: u64,
    timestamp: Seq<char>,
    nonce: u64,
    previous_hash: Seq<char>,
    payload: Seq<char>,
    difficulty: nat,
) -> bool {
    starts_with_zeros(hash_of(index, timestamp, nonce, previous_hash, payload), difficulty)
}

/// The genesis block for a given creation timestamp: index zero, zero nonce,
/// empty previous hash and empty payload, with its content hash computed.
pub open spec fn genesis_view(timestamp: Seq<char>) -> BlockView {
    BlockView {
        index: 0,
        timestamp: timestamp,
        nonce: 0,
        hash: hash_of(0, timestamp, 0, Seq::<char>::empty(), Seq::<char>::empty()),
        previous_hash: Seq::<char>::empty(),
        encoded_model: Seq::<char>::empty(),
    }
}

/// Runtime mining configuration: the difficulty (required count of leading
/// zero hexadecimal characters) and the attempt ceiling after which mining
/// reports exhaustion rather than searching forever.
#[derive(Clone, Copy, Debug, PartialEq, Eq, Structural)]
pub struct MiningConfig {
    pub difficulty: u64,
    pub max_attempts: u64,
}

/// An immutable ledger record. `encoded_model` is the opaque, caller-supplied
/// payload; `nonce` is the integer proof discovered by mining.
#[derive(Debug)]
pub struct Block {
    pub index: u64,
    pub timestamp: String,
    pub nonce: u64,
    pub hash: String,
    pub previous_hash: String,
    pub encoded_model: String,
}

impl View for Block {
    type V = BlockView;

    open spec fn view(&self) -> BlockView {
        BlockView {
            index: self.index,
            timestamp: self.timestamp@,
            nonce: self.nonce,
            hash: self.hash@,
            previous_hash: self.previous_hash@,
            encoded_model: self.encoded_model@,
        }
    }
}

/// Relies on `chrono::Utc::now` and `chrono::DateTime::to_rfc3339`: the
/// current instant, rendered as a non-empty RFC 3339 timestamp string.
#[verifier::external_body]
pub(crate) fn now_rfc3339() -> (r: String)
    ensures
        r@.len() > 0,
{
    chrono::Utc::now().to_rfc3339()
}

impl Block {
    /// Computes the content hash over the given field tuple: deterministic,
    /// no side effects, rendered as 64 lowercase hexadecimal characters.
    pub fn calculate_hash(
        index: u64,
        timestamp: &str,
        nonce: u64,
        previous_hash: &str,
        encoded_model: &str,
    ) -> (r: String)
        ensures
            r@ == hash_of(index, timestamp@, nonce, previous_hash@, encoded_model@),
            r@.len() == 64,
    {
        let mut content = String::new();
        push_hex_u64(&mut content, index);
        push_hex_u64(&mut content, nonce);
        let ts_len = timestamp.unicode_len();
        push_hex_u64(&mut content, ts_len as u64);
        content.append(timestamp);
        let ph_len = previous_hash.unicode_len();
        push_hex_u64(&mut content, ph_len as u64);
        content.append(previous_hash);
        content.append(encoded_model);
        proof {
            assert(content@ =~= content_of(
                index,
                timestamp@,
                nonce,
                previous_hash@,
                encoded_model@,
            ));
        }
        blake3_hex_exec(content.as_str())
    }

    /// Decides whether `nonce` satisfies the difficulty predicate for the
    /// given field tuple.
    pub fn is_valid_proof(
        nonce: u64,
        index: u64,
        timestamp: &str,
        previous_hash: &str,
        encoded_model: &str,
        difficulty: u64,
    ) -> (r: bool)
        ensures
            r == valid_nonce(
                index,
                timestamp@,
                nonce,
                previous_hash@,
                encoded_model@,
                difficulty as nat,
            ),
    {
        let h = Block::calculate_hash(index, timestamp, nonce, previous_hash, encoded_model);
        has_leading_zeros(h.as_str(), difficulty)
    }

    /// Brute-force incrementing nonce search from zero: returns the smallest
    /// valid nonce below the attempt ceiling, or reports that none exists
    /// below it.
    pub fn proof_of_work(
        index: u64,
        timestamp: &str,
        previous_hash: &str,
        encoded_model: &str,
        config: MiningConfig,
    ) -> (r: Option<u64>)
        ensures
            match r {
                Some(nonce) => {
                    &&& nonce < config.max_attempts
                    &&& valid_nonce(
                        index,
                        timestamp@,
                        nonce,
                        previous_hash@,
                        encoded_model@,
                        config.difficulty as nat,
                    )
                    &&& forall|q: u64|
                        q < nonce ==> !valid_nonce(
                            index,
                            timestamp@,
                            q,
                            previous_hash@,
                            encoded_model@,
                            config.difficulty as nat,
                        )
                },
                None => forall|q: u64|
                    q < config.max_attempts ==> !valid_nonce(
                        index,
                        timestamp@,
                        q,
                        previous_hash@,
                        encoded_model@,
                        config.difficulty as nat,
                    ),
            },
    {
        let mut nonce: u64 = 0;
        while nonce < config.max_attempts
            invariant
                nonce <= config.max_attempts,
                forall|q: u64|
                    q < nonce ==> !valid_nonce(
                        index,
                        timestamp@,
                        q,
                        previous_hash@,
                        encoded_model@,
                        config.difficulty as nat,
                    ),
            decreases config.max_attempts - nonce,
        {
            if Block::is_valid_proof(nonce, index, timestamp, previous_hash, encoded_model, config.difficulty) {
                return Some(nonce);
            }
            nonce = nonce + 1;
        }
        None
    }

    /// Constructs a block: mines the smallest valid nonce for the given
    /// fields, then computes and caches the content hash over the same
    /// timestamp used during mining. Fails with `MiningExhausted` exactly
    /// when no nonce below the attempt ceiling is valid.
    pub fn new(
        index: u64,
        timestamp: String,
        previous_hash: String,
        encoded_model: String,
        config: MiningConfig,
    ) -> (r: Result<Block, LedgerError>)
        ensures
            match r {
                Ok(b) => {
                    &&& b@.index == index
                    &&& b@.timestamp == timestamp@
                    &&& b@.previous_hash == previous_hash@
                    &&& b@.encoded_model == encoded_model@
                    &&& b@.nonce < config.max_attempts
                    &&& valid_nonce(
                        index,
                        timestamp@,
                        b@.nonce,
                        previous_hash@,
                        encoded_model@,
                        config.difficulty as nat,
                    )
                    &&& forall|q: u64|
                        q < b@.nonce ==> !valid_nonce(
                            index,
                            timestamp@,
                            q,
                            previous_hash@,
                            encoded_model@,
                            config.difficulty as nat,
                        )
                    &&& b@.hash == view_hash(b@)
                    &&& starts_with_zeros(b@.hash, config.difficulty as nat)
                },
                Err(e) => {
                    &&& e == LedgerError::MiningExhausted
                    &&& forall|q: u64|
                        q < config.max_attempts ==> !valid_nonce(
                            index,
                            timestamp@,
                            q,
                            previous_hash@,
                            encoded_model@,
                            config.difficulty as nat,
                        )
                },
            },
    {
        let mined = Block::proof_of_work(
            index,
            timestamp.as_str(),
            previous_hash.as_str(),
            encoded_model.as_str(),
            config,
        );
        let nonce = match mined {
            Some(n) => n,
            None => {
                return Err(LedgerError::MiningExhausted);
            },
        };
        let hash = Block::calculate_hash(
            index,
            timestamp.as_str(),
            nonce,
            previous_hash.as_str(),
            encoded_model.as_str(),
        );
        Ok(Block { index, timestamp, nonce, hash, previous_hash, encoded_model })
    }

    /// Constructs the genesis block for the given creation timestamp, with
    /// default (zero or empty) field values and its content hash computed.
    pub fn genesis(timestamp: String) -> (r: Block)
        ensures
            r@ == genesis_view(timestamp@),
    {
        proof {
            reveal_strlit("");
        }
        let hash = Block::calculate_hash(0, timestamp.as_str(), 0, "", "");
        let b = Block {
            index: 0,
            timestamp,
            nonce: 0,
            hash,
            previous_hash: String::new(),
            encoded_model: String::new(),
        };
        proof {
            assert(""@ =~= Seq::<char>::empty());
            assert(b@ =~= genesis_view(b.timestamp@));
        }
        b
    }
}

impl Default for Block {
    /// A genesis block stamped with the current instant.
    fn default() -> (r: Block)
        ensures
            exists|ts: Seq<char>| r@ == genesis_view(ts),
    {
        Block::genesis(now_rfc3339())
    }
}

} // verus!
