use hashfile::{group_duplicates, HashAlgorithm, Hasher};

fn pairs_for(contents: &[(&str, &[u8])]) -> Vec<(String, String)> {
    let hasher = Hasher::new(HashAlgorithm::Sha256);
    contents
        .iter()
        .map(|(path, data)| (hasher.hash_bytes(data), path.to_string()))
        .collect()
}

#[test]
fn test_find_duplicates() {
    let pairs = pairs_for(&[
        ("file1", b"same content\n"),
        ("file2", b"same content\n"),
        ("file3", b"different\n"),
    ]);

    let duplicates = group_duplicates(&pairs);

    assert_eq!(duplicates.len(), 1);
    let dup_files = &duplicates[0].1;
    assert_eq!(dup_files.len(), 2);
}

#[test]
fn test_find_duplicates_no_duplicates() {
    let pairs = pairs_for(&[("file1", b"unique1\n"), ("file2", b"unique2\n")]);

    let duplicates = group_duplicates(&pairs);

    assert_eq!(duplicates.len(), 0);
}

#[test]
fn test_duplicate_group_membership_and_order() {
    let pairs = pairs_for(&[
        ("a", b"shared"),
        ("b", b"lonely"),
        ("c", b"shared"),
        ("d", b"shared"),
    ]);
    let shared_digest = pairs[0].0.clone();

    let duplicates = group_duplicates(&pairs);

    assert_eq!(duplicates.len(), 1);
    assert_eq!(duplicates[0].0, shared_digest);
    assert_eq!(duplicates[0].1, vec!["a", "c", "d"]);
}

#[test]
fn test_two_separate_duplicate_groups() {
    let pairs = pairs_for(&[
        ("a1", b"alpha"),
        ("b1", b"beta"),
        ("a2", b"alpha"),
        ("b2", b"beta"),
        ("solo", b"gamma"),
    ]);

    let duplicates = group_duplicates(&pairs);

    assert_eq!(duplicates.len(), 2);
    for (digest, files) in &duplicates {
        assert_eq!(files.len(), 2);
        assert_eq!(digest.len(), 64);
    }
    let all_files: Vec<&str> = duplicates
        .iter()
        .flat_map(|(_, files)| files.iter().map(|f| f.as_str()))
        .collect();
    assert!(all_files.contains(&"a1") && all_files.contains(&"a2"));
    assert!(all_files.contains(&"b1") && all_files.contains(&"b2"));
    assert!(!all_files.contains(&"solo"));
}

#[test]
fn test_empty_input_gives_empty_result() {
    let pairs: Vec<(String, String)> = Vec::new();
    let duplicates = group_duplicates(&pairs);
    assert!(duplicates.is_empty());
}
