use powex::{compute, compute_parallel, get_hash, meets_difficulty, valid, PowError};

#[test]
fn hash_is_deterministic() {
    let payload: Vec<u8> = vec![1, 2, 3, 250];
    let a = get_hash(&payload, 42);
    let b = get_hash(&payload, 42);
    assert_eq!(a, b);
}

#[test]
fn hash_of_nonce_zero_matches_reference() {
    // SHA-256 of the 8 zero bytes that encode nonce 0 after an empty payload.
    assert_eq!(
        get_hash(&[], 0),
        "af5570f5a1810b7af78caf4bc70a660f0df51e42baf91d4de5b2328de0e83dfc"
    );
}

#[test]
fn hash_matches_independent_recomputation() {
    let payload = b"abc";
    let nonce: u64 = 7;
    let mut message = payload.to_vec();
    message.extend_from_slice(&nonce.to_le_bytes());
    let expected = hex::encode(<sha2::Sha256 as sha2::Digest>::digest(&message));
    assert_eq!(get_hash(payload, nonce), expected);
}

#[test]
fn hash_is_64_lowercase_hex_chars() {
    let h = get_hash(b"payload", 123);
    assert_eq!(h.len(), 64);
    assert!(h.chars().all(|c| c.is_ascii_hexdigit() && !c.is_ascii_uppercase()));
}

#[test]
fn valid_agrees_with_predicate_on_hash() {
    for nonce in 0..50u64 {
        for difficulty in 0..4u32 {
            let h = get_hash(b"xyz", nonce);
            assert_eq!(valid(b"xyz", nonce, difficulty), meets_difficulty(&h, difficulty));
        }
    }
}

#[test]
fn difficulty_zero_succeeds_with_nonce_zero() {
    assert_eq!(compute(&[], 0), Ok(0));
    assert_eq!(compute(b"anything", 0), Ok(0));
    assert!(valid(b"anything", 0, 0));
}

#[test]
fn boundary_difficulty_too_high() {
    assert_eq!(compute(b"p", 65), Err(PowError::DifficultyTooHigh));
    assert_eq!(compute_parallel(b"p", 65, 4), Err(PowError::DifficultyTooHigh));
}

#[test]
fn boundary_worker_count() {
    assert_eq!(compute_parallel(b"p", 1, 0), Err(PowError::InvalidWorkerCount));
    assert_eq!(compute_parallel(b"p", 1, 65), Err(PowError::InvalidWorkerCount));
}

#[test]
fn empty_payload_difficulty_one() {
    let n = match compute(&[], 1) {
        Ok(n) => n,
        Err(_) => panic!("a solution exists at difficulty 1"),
    };
    // The smallest nonce whose digest starts with '0' for the empty payload.
    assert_eq!(n, 20);
    let h = get_hash(&[], n);
    assert!(h.starts_with('0'));
    for m in 0..n {
        assert!(!valid(&[], m, 1));
    }
}

#[test]
fn parallel_and_sequential_agree_on_validity() {
    let payload = b"hello";
    let n1 = compute(payload, 2).unwrap();
    assert!(valid(payload, n1, 2));
    let n2 = compute_parallel(payload, 2, 4).unwrap();
    assert!(valid(payload, n2, 2));
}

#[test]
fn parallel_difficulty_zero_finds_valid_nonce() {
    let n = compute_parallel(b"pl", 0, 8).unwrap();
    assert!(valid(b"pl", n, 0));
}

#[test]
fn valid_is_total_even_above_the_ceiling() {
    // The validator does not range-check the difficulty: a requirement
    // longer than the 64-character digest is simply never met.
    assert!(!valid(b"p", 0, 65));
    assert!(!valid(b"p", 0, 1000));
}

#[test]
fn meets_difficulty_basic() {
    assert!(meets_difficulty("abc", 0));
    assert!(meets_difficulty("", 0));
    assert!(meets_difficulty("00ab", 2));
    assert!(!meets_difficulty("0a1b", 2));
    assert!(!meets_difficulty("a0", 1));
    assert!(meets_difficulty("0000", 4));
    // A digest shorter than the difficulty never meets it.
    assert!(!meets_difficulty("0", 2));
    assert!(!meets_difficulty("", 1));
}
