use oxiddd::cli::{algo_of_name, append_timestamp_to_path, parse_block_size, parse_key_val};
use oxiddd::hash::HashAlgo;

#[test]
fn test_path_appending() {
    let ts = "2026-02-25";
    let result = append_timestamp_to_path("evidence.dd", ts, "dd");
    assert_eq!(result, "evidence_2026-02-25.dd");

    let result_hash = append_timestamp_to_path("/tmp/case1", ts, "sha256");
    assert_eq!(result_hash, "/tmp/case1_2026-02-25.sha256");
}

#[test]
fn test_kv_parsing() {
    let (k, v) = parse_key_val("if=/dev/sda").unwrap();
    assert_eq!(k, "if");
    assert_eq!(v, "/dev/sda");

    assert!(parse_key_val("invalid_arg").is_err());
}

#[test]
fn test_kv_splits_at_first_equals() {
    let (k, v) = parse_key_val("of=name=odd.dd").unwrap();
    assert_eq!(k, "of");
    assert_eq!(v, "name=odd.dd");
    let (k, v) = parse_key_val("=leading").unwrap();
    assert_eq!(k, "");
    assert_eq!(v, "leading");
}

#[test]
fn test_path_appending_edge_cases() {
    let ts = "2026-02-25";
    // Several dots: only the last extension is stripped.
    assert_eq!(
        append_timestamp_to_path("case.img.dd", ts, "dd"),
        "case.img_2026-02-25.dd"
    );
    // A leading dot alone is not an extension separator.
    assert_eq!(
        append_timestamp_to_path(".hidden", ts, "dd"),
        ".hidden_2026-02-25.dd"
    );
    // A device-like absolute path.
    assert_eq!(
        append_timestamp_to_path("/dev/sdb", ts, "dd"),
        "/dev/sdb_2026-02-25.dd"
    );
}

#[test]
fn test_block_size_suffixes() {
    assert_eq!(parse_block_size("512"), 512);
    assert_eq!(parse_block_size("1K"), 1024);
    assert_eq!(parse_block_size("4M"), 4 * 1024 * 1024);
    assert_eq!(parse_block_size("2G"), 2 * 1024 * 1024 * 1024);
}

#[test]
fn test_block_size_defaults() {
    // No digits at all: the 4 MiB default, scaled by any suffix present.
    assert_eq!(parse_block_size(""), 4194304);
    assert_eq!(parse_block_size("junk"), 4194304);
    assert_eq!(parse_block_size("M"), 4194304 * 1024 * 1024);
    // A malformed magnitude also falls back to the default.
    assert_eq!(parse_block_size("4x7M"), 4194304 * 1024 * 1024);
}

#[test]
fn test_block_size_plus_sign() {
    assert_eq!(parse_block_size("+2K"), 2048);
}

#[test]
fn test_block_size_saturates() {
    // An enormous magnitude times a suffix cannot wrap around.
    assert_eq!(parse_block_size("18446744073709551615G"), usize::MAX);
}

#[test]
fn test_algo_selection() {
    assert_eq!(algo_of_name("sha256"), Some(HashAlgo::Sha256));
    assert_eq!(algo_of_name("sha512"), Some(HashAlgo::Sha512));
    assert_eq!(algo_of_name("md5"), None);
    assert_eq!(algo_of_name(""), None);
}
