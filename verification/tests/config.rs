//! Storage locations.
use evento::config::StorageConfig;

#[test]
fn test_default_paths() {
    let config = StorageConfig::default();
    let duckdb = config.duckdb_path();
    let sled = config.sled_dir();

    assert!(duckdb.ends_with("evento.db"));
    assert!(sled.ends_with("sled"));
}

#[test]
fn paths_under_a_home_directory() {
    let config = StorageConfig::with_home(Some("/home/u".to_string()));
    assert_eq!(config.data_dir, "/home/u/.evento/data");
    assert_eq!(config.sled_dir(), "/home/u/.evento/data/sled");
    assert_eq!(config.duckdb_path(), "/home/u/.evento/data/duckdb/evento.db");
    assert_eq!(config.sled_cache_capacity, 1024 * 1024 * 1024);
    assert_eq!(config.sled_flush_interval_ms, 2000);
}

#[test]
fn paths_without_home_and_with_trailing_slash() {
    assert_eq!(StorageConfig::with_home(None).data_dir, "./.evento/data");
    assert_eq!(StorageConfig::with_home(Some("/root/".to_string())).data_dir, "/root/.evento/data");
}
