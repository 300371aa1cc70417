use dtrex::hashing::{hash_bytes, hash_contract_content, verify_hash};

#[test]
fn test_hash_content() {
    let content = "test contract";
    let hash = hash_contract_content(content);

    // SHA256 produces 64 character hex string
    assert_eq!(hash.len(), 64);

    // Hashing same content produces same hash
    let hash2 = hash_contract_content(content);
    assert_eq!(hash, hash2);
}

#[test]
fn test_verify_hash() {
    let content = "contract terms";
    let hash = hash_contract_content(content);

    assert!(verify_hash(content, &hash));
    assert!(!verify_hash("different content", &hash));
}

#[test]
fn test_hash_bytes() {
    let data = b"test data";
    let hash = hash_bytes(data);
    assert_eq!(hash.len(), 64);
}

#[test]
fn empty_input_hashes_to_the_known_digest() {
    // The SHA-256 of the empty string, as published.
    assert_eq!(
        hash_bytes(b""),
        "e3b0c44298fc1c149afbf4c8996fb92427ae41e4649b934ca495991b7852b855".to_string()
    );
    assert_eq!(hash_contract_content(""), hash_bytes(b""));
}

#[test]
fn known_vector_abc_matches() {
    // SHA-256("abc"), as published.
    assert_eq!(
        hash_contract_content("abc"),
        "ba7816bf8f01cfea414140de5dae2223b00361a396177a9cb410ff61f20015ad".to_string()
    );
}
