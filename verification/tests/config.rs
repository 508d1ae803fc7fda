use ferrocopy::config::{parse_hash_algorithm, parse_overwrite_mode, FerroConfig, HashAlgorithm, OverwriteMode};
use ferrocopy::standalone;

#[test]
fn hash_names_are_read_without_regard_to_case() {
    assert_eq!(parse_hash_algorithm("blake3"), Ok(HashAlgorithm::Blake3));
    assert_eq!(parse_hash_algorithm("BLAKE3"), Ok(HashAlgorithm::Blake3));
    assert_eq!(parse_hash_algorithm("Xxh3"), Ok(HashAlgorithm::Xxh3));
    assert_eq!(parse_hash_algorithm("XXHASH"), Ok(HashAlgorithm::Xxh3));
}

#[test]
fn unknown_hash_name_is_refused() {
    assert_eq!(
        parse_hash_algorithm("md5"),
        Err("Unsupported hash algorithm. Use 'blake3' or 'xxh3'.".to_string())
    );
    assert!(parse_hash_algorithm("XXH3-128").is_err());
}

#[test]
fn overwrite_modes_are_read_without_regard_to_case() {
    assert_eq!(parse_overwrite_mode("always"), Ok(OverwriteMode::Always));
    assert_eq!(parse_overwrite_mode("SKIP"), Ok(OverwriteMode::Skip));
    assert_eq!(parse_overwrite_mode("If-Different"), Ok(OverwriteMode::IfDifferent));
    assert_eq!(
        parse_overwrite_mode("prompt"),
        Err("Unsupported overwrite mode. Use 'always', 'skip', or 'if-different'.".to_string())
    );
}

#[test]
fn algorithm_labels() {
    assert_eq!(HashAlgorithm::Blake3.label(), "BLAKE3");
    assert_eq!(HashAlgorithm::Xxh3.label(), "XXH3-128");
    assert_eq!(standalone::HashAlgorithm::Blake3.label(), "BLAKE3");
    assert_eq!(standalone::HashAlgorithm::Xxh3.label(), "XXH3-128");
}

#[test]
fn default_settings() {
    let c = FerroConfig::default();
    assert!(!c.verify);
    assert_eq!(c.hash_algorithm, "xxh3");
    assert_eq!(c.threads, num_cpus::get());
    assert!(c.threads >= 1);
    assert_eq!(c.overwrite, "always");
    assert_eq!(c.theme, "cosmic");
}
