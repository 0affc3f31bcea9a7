//! Tests of the hashing primitive, the content encoding and the miner.

use rs_blockchain::hashing::has_leading_zeros;
use rs_blockchain::hashing::push_hex_u64;
use rs_blockchain::Block;
use rs_blockchain::LedgerError;
use rs_blockchain::MiningConfig;

#[test]
fn hex_rendering_is_fixed_width_lowercase() {
    let mut s = String::new();
    push_hex_u64(&mut s, 255);
    assert_eq!(s, "00000000000000ff");
    let mut t = String::new();
    push_hex_u64(&mut t, 0);
    assert_eq!(t, "0000000000000000");
    let mut u = String::new();
    push_hex_u64(&mut u, u64::MAX);
    assert_eq!(u, "ffffffffffffffff");
    let mut v = String::new();
    push_hex_u64(&mut v, 0x0123_4567_89ab_cdef);
    assert_eq!(v, "0123456789abcdef");
}

#[test]
fn leading_zero_check_counts_characters() {
    assert!(has_leading_zeros("00ab", 2));
    assert!(has_leading_zeros("00ab", 0));
    assert!(!has_leading_zeros("0a", 2));
    assert!(!has_leading_zeros("a0", 1));
    assert!(!has_leading_zeros("0", 2));
}

#[test]
fn content_hash_matches_the_documented_formula() {
    let index: u64 = 3;
    let nonce: u64 = 42;
    let timestamp = "2024-01-01T00:00:00+00:00";
    let previous_hash = "abcd";
    let payload = "model-v1";
    // The content string: fixed-width hex for the numeric fields, each
    // variable-length field but the last preceded by its fixed-width length.
    let content = format!(
        "{index:016x}{nonce:016x}{:016x}{timestamp}{:016x}{previous_hash}{payload}",
        timestamp.len(),
        previous_hash.len(),
    );
    let expected = blake3::hash(content.as_bytes()).to_hex();
    let got = Block::calculate_hash(index, timestamp, nonce, previous_hash, payload);
    assert_eq!(got, expected.as_str());
    assert_eq!(got.len(), 64);
    // Deterministic: no hidden inputs.
    let again = Block::calculate_hash(index, timestamp, nonce, previous_hash, payload);
    assert_eq!(got, again);
    // Sensitive to every field.
    let other = Block::calculate_hash(index, timestamp, nonce + 1, previous_hash, payload);
    assert_ne!(got, other);
}

#[test]
fn mining_finds_the_smallest_valid_nonce() {
    let config = MiningConfig { difficulty: 1, max_attempts: 1_000_000 };
    let ts = String::from("2024-01-01T00:00:00+00:00");
    let block =
        Block::new(7, ts.clone(), String::from("prev"), String::from("payload"), config).unwrap();
    assert!(block.hash.starts_with("0"));
    assert_eq!(
        block.hash,
        Block::calculate_hash(7, &ts, block.nonce, "prev", "payload"),
    );
    for smaller in 0..block.nonce {
        let h = Block::calculate_hash(7, &ts, smaller, "prev", "payload");
        assert!(!h.starts_with("0"));
    }
}

#[test]
fn zero_difficulty_accepts_the_first_nonce() {
    let config = MiningConfig { difficulty: 0, max_attempts: 10 };
    let block = Block::new(
        1,
        String::from("2024-01-01T00:00:00+00:00"),
        String::from("prev"),
        String::from("p"),
        config,
    )
    .unwrap();
    assert_eq!(block.nonce, 0);
}

#[test]
fn impossible_difficulty_exhausts_mining() {
    // The digest is 64 characters long, so 65 leading zeros can never occur.
    let config = MiningConfig { difficulty: 65, max_attempts: 10 };
    let err = Block::new(
        1,
        String::from("2024-01-01T00:00:00+00:00"),
        String::from("prev"),
        String::from("p"),
        config,
    )
    .unwrap_err();
    assert_eq!(err, LedgerError::MiningExhausted);
}

#[test]
fn is_valid_proof_agrees_with_the_difficulty_predicate() {
    let ts = "2024-01-01T00:00:00+00:00";
    let h = Block::calculate_hash(5, ts, 11, "prev", "p");
    let valid_at_zero = Block::is_valid_proof(11, 5, ts, "prev", "p", 0);
    assert!(valid_at_zero);
    let valid_at_one = Block::is_valid_proof(11, 5, ts, "prev", "p", 1);
    assert_eq!(valid_at_one, h.starts_with("0"));
}

#[test]
fn genesis_has_default_fields_and_a_computed_hash() {
    let ts = String::from("2024-01-01T00:00:00+00:00");
    let g = Block::genesis(ts.clone());
    assert_eq!(g.index, 0);
    assert_eq!(g.nonce, 0);
    assert_eq!(g.timestamp, ts);
    assert_eq!(g.previous_hash, "");
    assert_eq!(g.encoded_model, "");
    assert_eq!(g.hash, Block::calculate_hash(0, &ts, 0, "", ""));

    let d = Block::default();
    assert_eq!(d.index, 0);
    assert_eq!(d.nonce, 0);
    assert_eq!(d.previous_hash, "");
    assert_eq!(d.encoded_model, "");
    assert!(!d.timestamp.is_empty());
    assert_eq!(d.hash, Block::calculate_hash(0, &d.timestamp, 0, "", ""));
}
