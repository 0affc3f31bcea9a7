//! End-to-end tests of the ledger: genesis uniqueness, chain linkage, hash
//! reproducibility, proof validity, monotonic indices, tamper detection and
//! the error taxonomy.

use rs_blockchain::Block;
use rs_blockchain::BlockChain;
use rs_blockchain::ChainStatus;
use rs_blockchain::LedgerError;
use rs_blockchain::MiningConfig;

fn quick() -> MiningConfig {
    MiningConfig { difficulty: 0, max_attempts: 1_000_000 }
}

#[test]
fn genesis_unique_across_repeated_initialization() {
    let mut chain = BlockChain::new().unwrap();
    // Repeated initialization of the same store must not add a second
    // genesis block.
    chain.initialize().unwrap();
    chain.initialize().unwrap();
    chain.initialize().unwrap();

    let genesis = chain.get_block_by_index(0).unwrap().unwrap();
    assert_eq!(genesis.index, 0);
    assert_eq!(genesis.nonce, 0);
    assert_eq!(genesis.previous_hash, "");
    assert_eq!(genesis.encoded_model, "");

    assert!(chain.get_block_by_index(1).unwrap().is_none());
    let last = chain.get_last_block().unwrap().unwrap();
    assert_eq!(last.index, 0);
    assert_eq!(last.hash, genesis.hash);
}

#[test]
fn append_links_to_genesis_and_meets_difficulty() {
    let mut chain = BlockChain::new().unwrap();
    let genesis = chain.get_last_block().unwrap().unwrap();

    let config = MiningConfig { difficulty: 2, max_attempts: 1_000_000 };
    let block = chain.append_entry(String::from("model-v1"), config).unwrap();

    assert_eq!(block.index, 1);
    assert_eq!(block.previous_hash, genesis.hash);
    assert_eq!(block.encoded_model, "model-v1");
    assert!(block.hash.starts_with("00"));
    assert!(matches!(chain.verify_chain().unwrap(), ChainStatus::Valid));
}

#[test]
fn appended_indices_are_contiguous_and_linked() {
    let mut chain = BlockChain::new().unwrap();
    let b1 = chain.append_entry(String::from("one"), quick()).unwrap();
    let b2 = chain.append_entry(String::from("two"), quick()).unwrap();
    let b3 = chain.append_entry(String::from("three"), quick()).unwrap();

    assert_eq!(b1.index, 1);
    assert_eq!(b2.index, 2);
    assert_eq!(b3.index, 3);
    assert_eq!(b2.previous_hash, b1.hash);
    assert_eq!(b3.previous_hash, b2.hash);

    let last = chain.get_last_block().unwrap().unwrap();
    assert_eq!(last.index, 3);
    assert!(matches!(chain.verify_chain().unwrap(), ChainStatus::Valid));

    // An empty payload is opaque data like any other.
    let b4 = chain.append_entry(String::new(), quick()).unwrap();
    assert_eq!(b4.index, 4);
    assert_eq!(b4.encoded_model, "");
    assert!(matches!(chain.verify_chain().unwrap(), ChainStatus::Valid));
}

#[test]
fn get_by_index_absence_is_not_an_error() {
    let mut chain = BlockChain::new().unwrap();
    chain.append_entry(String::from("model-v1"), quick()).unwrap();
    // A two-block chain: a lookup far past the tail reports absence.
    let missing = chain.get_block_by_index(99).unwrap();
    assert!(missing.is_none());
}

#[test]
fn stored_hashes_reproduce_from_stored_fields() {
    let mut chain = BlockChain::new().unwrap();
    chain.append_entry(String::from("model-v1"), quick()).unwrap();
    for i in 0..2u64 {
        let b = chain.get_block_by_index(i).unwrap().unwrap();
        let recomputed = Block::calculate_hash(
            b.index,
            &b.timestamp,
            b.nonce,
            &b.previous_hash,
            &b.encoded_model,
        );
        assert_eq!(b.hash, recomputed);
    }
}

#[test]
fn corrupt_row_is_reported_at_its_index() {
    let mut chain = BlockChain::new().unwrap();
    let genesis = chain.get_last_block().unwrap().unwrap();
    // A row whose stored hash cannot be recomputed from its stored fields:
    // uniqueness checks admit it, integrity checking must flag it.
    let forged = Block {
        index: 1,
        timestamp: String::from("2001-01-01T00:00:00+00:00"),
        nonce: 5,
        hash: String::from("not-a-real-digest"),
        previous_hash: genesis.hash,
        encoded_model: String::from("model-v1"),
    };
    chain.save_block(&forged).unwrap();
    match chain.verify_chain().unwrap() {
        ChainStatus::MismatchAt(k) => assert_eq!(k, 1),
        ChainStatus::Valid => panic!("corrupt row went undetected"),
    }
}

#[test]
fn broken_linkage_is_reported_at_its_index() {
    let mut chain = BlockChain::new().unwrap();
    chain.append_entry(String::from("one"), quick()).unwrap();
    // A block whose previous hash names nothing in the chain, but whose own
    // hash is internally consistent.
    let ts = String::from("2002-02-02T00:00:00+00:00");
    let hash = Block::calculate_hash(2, &ts, 0, "bogus-parent", "stray");
    let stray = Block {
        index: 2,
        timestamp: ts,
        nonce: 0,
        hash,
        previous_hash: String::from("bogus-parent"),
        encoded_model: String::from("stray"),
    };
    chain.save_block(&stray).unwrap();
    match chain.verify_chain().unwrap() {
        ChainStatus::MismatchAt(k) => assert_eq!(k, 2),
        ChainStatus::Valid => panic!("broken linkage went undetected"),
    }
}

#[test]
fn tampered_payload_in_storage_is_detected() {
    let nanos = chrono::Utc::now().timestamp_nanos_opt().unwrap();
    let path = format!("/tmp/rs_blockchain_tamper_{nanos}.db");
    {
        let mut chain = BlockChain::open(&path).unwrap();
        let config = MiningConfig { difficulty: 2, max_attempts: 1_000_000 };
        let block = chain.append_entry(String::from("model-v1"), config).unwrap();
        assert_eq!(block.index, 1);
        assert!(matches!(chain.verify_chain().unwrap(), ChainStatus::Valid));
    }
    {
        // Mutate the stored payload behind the engine's back.
        let conn = rusqlite::Connection::open(&path).unwrap();
        conn.execute("UPDATE blocks SET encoded_model = ?1 WHERE idx = 1", ("tampered",))
            .unwrap();
    }
    let chain = BlockChain::open(&path).unwrap();
    match chain.verify_chain().unwrap() {
        ChainStatus::MismatchAt(k) => assert_eq!(k, 1),
        ChainStatus::Valid => panic!("tampering went undetected"),
    }
}

#[test]
fn duplicate_index_is_a_constraint_violation() {
    let mut chain = BlockChain::new().unwrap();
    let duplicate = Block {
        index: 0,
        timestamp: String::from("2003-03-03T00:00:00+00:00"),
        nonce: 9,
        hash: String::from("distinct-hash-value"),
        previous_hash: String::new(),
        encoded_model: String::new(),
    };
    let err = chain.save_block(&duplicate).unwrap_err();
    assert_eq!(err, LedgerError::ConstraintViolation);
    // The failed append stored nothing.
    assert!(chain.get_block_by_index(1).unwrap().is_none());
}

#[test]
fn unreachable_store_is_storage_unavailable() {
    match BlockChain::open("/nonexistent-dir-for-ledger-tests/x/y.db") {
        Ok(_) => panic!("opening an unreachable store succeeded"),
        Err(err) => assert_eq!(err, LedgerError::StorageUnavailable),
    }
}
