use hashfile::{DigestStream, HashAlgorithm, Hasher};

#[test]
fn test_hash_file_sha256() {
    let content = b"hello world\n";
    let hasher = Hasher::new(HashAlgorithm::Sha256);
    let hash = hasher.hash_bytes(content);

    assert_eq!(hash.len(), 64);
    assert!(hash.chars().all(|c| c.is_ascii_hexdigit()));
}

#[test]
fn test_hash_file_md5() {
    let content = b"test\n";
    let hasher = Hasher::new(HashAlgorithm::Md5);
    let hash = hasher.hash_bytes(content);

    assert_eq!(hash.len(), 32);
}

#[test]
fn test_hash_file_blake3() {
    let content = b"blake3 test\n";
    let hasher = Hasher::new(HashAlgorithm::Blake3);
    let hash = hasher.hash_bytes(content);

    assert_eq!(hash.len(), 64);
}

#[test]
fn test_digest_len_per_algorithm() {
    assert_eq!(HashAlgorithm::Md5.digest_len(), 32);
    assert_eq!(HashAlgorithm::Sha1.digest_len(), 40);
    assert_eq!(HashAlgorithm::Sha256.digest_len(), 64);
    assert_eq!(HashAlgorithm::Sha512.digest_len(), 128);
    assert_eq!(HashAlgorithm::Blake3.digest_len(), 64);
}

#[test]
fn test_digest_width_and_alphabet_all_algorithms() {
    let content = b"width check";
    for alg in [
        HashAlgorithm::Md5,
        HashAlgorithm::Sha1,
        HashAlgorithm::Sha256,
        HashAlgorithm::Sha512,
        HashAlgorithm::Blake3,
    ] {
        let hash = Hasher::new(alg).hash_bytes(content);
        assert_eq!(hash.len(), alg.digest_len());
        assert!(hash
            .chars()
            .all(|c| c.is_ascii_hexdigit() && !c.is_ascii_uppercase()));
    }
}

#[test]
fn test_known_digest_md5() {
    let hash = Hasher::new(HashAlgorithm::Md5).hash_bytes(b"abc");
    assert_eq!(hash, "900150983cd24fb0d6963f7d28e17f72");
}

#[test]
fn test_known_digest_sha1() {
    let hash = Hasher::new(HashAlgorithm::Sha1).hash_bytes(b"abc");
    assert_eq!(hash, "a9993e364706816aba3e25717850c26c9cd0d89d");
}

#[test]
fn test_known_digest_sha256() {
    let hash = Hasher::new(HashAlgorithm::Sha256).hash_bytes(b"abc");
    assert_eq!(
        hash,
        "ba7816bf8f01cfea414140de5dae2223b00361a396177a9cb410ff61f20015ad"
    );
}

#[test]
fn test_known_digest_sha512() {
    let hash = Hasher::new(HashAlgorithm::Sha512).hash_bytes(b"abc");
    assert_eq!(
        hash,
        "ddaf35a193617abacc417349ae20413112e6fa4e89a97ea20a9eeee64b55d39a\
         2192992a274fc1a836ba3c23a3feebbd454d4423643ce80e2a9ac94fa54ca49f"
    );
}

#[test]
fn test_known_digest_blake3_empty() {
    let hash = Hasher::new(HashAlgorithm::Blake3).hash_bytes(b"");
    assert_eq!(
        hash,
        "af1349b9f5f9a1a6a0404dea36dcc9499bcb25c9adc112b7cc9a93cae41f3262"
    );
}

#[test]
fn test_blake3_absorbs_input() {
    let empty = Hasher::new(HashAlgorithm::Blake3).hash_bytes(b"");
    let nonempty = Hasher::new(HashAlgorithm::Blake3).hash_bytes(b"x");
    assert_ne!(empty, nonempty);
}

#[test]
fn test_hashing_is_idempotent() {
    let content = b"same bytes, hashed twice";
    for alg in [
        HashAlgorithm::Md5,
        HashAlgorithm::Sha1,
        HashAlgorithm::Sha256,
        HashAlgorithm::Sha512,
        HashAlgorithm::Blake3,
    ] {
        let hasher = Hasher::new(alg);
        assert_eq!(hasher.hash_bytes(content), hasher.hash_bytes(content));
    }
}

#[test]
fn test_stream_chunking_matches_whole_buffer() {
    let data = vec![0xabu8; 20000];
    let whole = Hasher::new(HashAlgorithm::Sha256).hash_bytes(&data);

    let mut stream = DigestStream::new(HashAlgorithm::Sha256);
    for chunk in data.chunks(977) {
        stream = stream.update(chunk);
    }
    assert_eq!(stream.finalize(), whole);
}

#[test]
fn test_large_buffer_spans_several_chunks() {
    let data = vec![0x5au8; 3 * 8192 + 11];
    let hash = Hasher::new(HashAlgorithm::Sha1).hash_bytes(&data);
    assert_eq!(hash.len(), 40);
    let again = Hasher::new(HashAlgorithm::Sha1).hash_bytes(&data);
    assert_eq!(hash, again);
}
