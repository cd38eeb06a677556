use oxiddd::hash::{ForensicHasher, HashAlgo};
use sha2::Digest;

#[test]
fn test_forensic_binding() {
    let data = b"hello forensic world";
    let ts = "2026-02-25T120000Z";

    let mut h1 = ForensicHasher::new(HashAlgo::Sha256, "file1.dd".to_string(), ts.to_string());
    let mut h2 = ForensicHasher::new(HashAlgo::Sha256, "file2.dd".to_string(), ts.to_string());

    h1.update(data);
    h2.update(data);

    let (std1, cust1) = h1.finalize();
    let (std2, cust2) = h2.finalize();

    assert_eq!(std1, std2);
    assert_ne!(cust1, cust2);
}

#[test]
fn test_sha512_logic() {
    let mut h = ForensicHasher::new(HashAlgo::Sha512, "test.dd".to_string(), "ts".to_string());
    h.update(b"abc");
    let (std, _) = h.finalize();
    // Standard SHA512 for "abc" starts with ddaf...
    assert!(std.starts_with("ddaf"));
}

#[test]
fn test_sha256_known_value() {
    let mut h = ForensicHasher::new(HashAlgo::Sha256, "a.dd".to_string(), "ts".to_string());
    h.update(b"abc");
    let (std, _) = h.finalize();
    assert_eq!(
        std,
        "ba7816bf8f01cfea414140de5dae2223b00361a396177a9cb410ff61f20015ad"
    );
}

#[test]
fn test_empty_content_standard_hash() {
    // A zero-length source yields the standard hash of the empty byte string.
    let h = ForensicHasher::new(HashAlgo::Sha256, "empty.dd".to_string(), "ts".to_string());
    let (std, _) = h.finalize();
    assert_eq!(
        std,
        "e3b0c44298fc1c149afbf4c8996fb92427ae41e4649b934ca495991b7852b855"
    );
}

#[test]
fn test_binding_is_content_then_name_then_timestamp() {
    // The binding hash must equal the digest of content || filename || timestamp.
    let filename = "case01_20260101T000000Z.dd";
    let timestamp = "2026-01-01T000000Z";
    let content = vec![0u8; 1024 * 1024];

    let mut h = ForensicHasher::new(
        HashAlgo::Sha256,
        filename.to_string(),
        timestamp.to_string(),
    );
    let chunks = 10;
    for _ in 0..chunks {
        h.update(&content);
    }
    let (std, binding) = h.finalize();

    let mut direct = sha2::Sha256::new();
    for _ in 0..chunks {
        direct.update(&content);
    }
    let expected_std = hex::encode(direct.finalize());
    assert_eq!(std, expected_std);

    let mut bound = sha2::Sha256::new();
    for _ in 0..chunks {
        bound.update(&content);
    }
    bound.update(filename.as_bytes());
    bound.update(timestamp.as_bytes());
    let expected_binding = hex::encode(bound.finalize());
    assert_eq!(binding, expected_binding);
}

#[test]
fn test_binding_differs_for_timestamps() {
    let data = b"same content";
    let mut h1 = ForensicHasher::new(
        HashAlgo::Sha512,
        "img.dd".to_string(),
        "2026-01-01T000000Z".to_string(),
    );
    let mut h2 = ForensicHasher::new(
        HashAlgo::Sha512,
        "img.dd".to_string(),
        "2026-01-02T000000Z".to_string(),
    );
    h1.update(data);
    h2.update(data);
    let (std1, cust1) = h1.finalize();
    let (std2, cust2) = h2.finalize();
    assert_eq!(std1, std2);
    assert_ne!(cust1, cust2);
}

#[test]
fn test_determinism_across_runs() {
    let data = b"repeatable";
    let mut results = Vec::new();
    for _ in 0..2 {
        let mut h = ForensicHasher::new(
            HashAlgo::Sha256,
            "same.dd".to_string(),
            "2026-02-25T120000Z".to_string(),
        );
        h.update(data);
        results.push(h.finalize());
    }
    assert_eq!(results[0], results[1]);
}

#[test]
fn test_extension() {
    let h256 = ForensicHasher::new(HashAlgo::Sha256, "a".to_string(), "t".to_string());
    assert_eq!(h256.extension(), "sha256");
    let h512 = ForensicHasher::new(HashAlgo::Sha512, "a".to_string(), "t".to_string());
    assert_eq!(h512.extension(), "sha512");
}

#[test]
fn test_digest_hex_lengths() {
    let h256 = ForensicHasher::new(HashAlgo::Sha256, "a".to_string(), "t".to_string());
    let (s, b) = h256.finalize();
    assert_eq!(s.len(), 64);
    assert_eq!(b.len(), 64);
    let h512 = ForensicHasher::new(HashAlgo::Sha512, "a".to_string(), "t".to_string());
    let (s, b) = h512.finalize();
    assert_eq!(s.len(), 128);
    assert_eq!(b.len(), 128);
}
