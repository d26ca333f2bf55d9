use hashfile::{HashAlgorithm, Hasher, Verifier};

#[test]
fn test_verify_file_success() {
    let content = b"test content\n";
    let hasher = Hasher::new(HashAlgorithm::Sha256);
    let hash = hasher.hash_bytes(content);

    let verifier = Verifier::new(hasher);
    let result = verifier.verify_bytes(content, &hash);

    assert!(result);
}

#[test]
fn test_verify_file_failure() {
    let content = b"test content\n";
    let hasher = Hasher::new(HashAlgorithm::Sha256);
    let verifier = Verifier::new(hasher);
    let result = verifier.verify_bytes(content, "wronghash123");

    assert!(!result);
}

#[test]
fn test_verify_file_case_insensitive() {
    let content = b"case test\n";
    let hasher = Hasher::new(HashAlgorithm::Sha256);
    let hash = hasher.hash_bytes(content);
    let uppercase_hash = hash.to_uppercase();

    let verifier = Verifier::new(hasher);
    let result = verifier.verify_bytes(content, &uppercase_hash);

    assert!(result);
}

#[test]
fn test_verify_file_with_whitespace() {
    let content = b"whitespace test\n";
    let hasher = Hasher::new(HashAlgorithm::Sha256);
    let hash = hasher.hash_bytes(content);
    let hash_with_spaces = format!("  {}  ", hash);

    let verifier = Verifier::new(hasher);
    let result = verifier.verify_bytes(content, &hash_with_spaces);

    assert!(result);
}

#[test]
fn test_verify_rejects_one_char_change() {
    let content = b"almost right\n";
    let hasher = Hasher::new(HashAlgorithm::Sha256);
    let hash = hasher.hash_bytes(content);

    let mut chars: Vec<char> = hash.chars().collect();
    chars[0] = if chars[0] == '0' { '1' } else { '0' };
    let tampered: String = chars.into_iter().collect();

    let verifier = Verifier::new(hasher);
    assert!(verifier.verify_bytes(content, &hash));
    assert!(!verifier.verify_bytes(content, &tampered));
}

#[test]
fn test_verify_tab_and_newline_padding() {
    let content = b"padded";
    let hasher = Hasher::new(HashAlgorithm::Md5);
    let hash = hasher.hash_bytes(content);
    let padded = format!("\t{}\n", hash);

    let verifier = Verifier::new(hasher);
    assert!(verifier.verify_bytes(content, &padded));
}

#[test]
fn test_verify_other_algorithm_digest_fails() {
    let content = b"algorithm mixup";
    let sha256_hash = Hasher::new(HashAlgorithm::Sha256).hash_bytes(content);

    let verifier = Verifier::new(Hasher::new(HashAlgorithm::Md5));
    assert!(!verifier.verify_bytes(content, &sha256_hash));
}
