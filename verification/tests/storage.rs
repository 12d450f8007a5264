use mydistinctai::storage::{
    chat_history_key, file_name_for_key, key_of_file_name, keys_of_file_names, model_config_key,
    storage_stats, LocalStorage, StorageStats,
};
use std::path::PathBuf;

#[test]
fn a_key_is_held_by_a_json_file() {
    assert_eq!(file_name_for_key("test_key"), "test_key.json");
    assert_eq!(file_name_for_key(""), ".json");
}

#[test]
fn a_listing_shows_the_keys_of_json_files() {
    assert_eq!(key_of_file_name("test_key.json"), Some("test_key".to_string()));
    assert_eq!(key_of_file_name("notes.txt"), None);
    assert_eq!(key_of_file_name("json"), None);
    assert_eq!(key_of_file_name(".json"), Some(String::new()));
    // the suffix is taken off as often as it stands at the end
    assert_eq!(key_of_file_name("a.json.json"), Some("a".to_string()));
    assert_eq!(key_of_file_name("a.JSON"), None);
    assert_eq!(key_of_file_name("a.json.bak"), None);

    let names: Vec<String> =
        ["key1.json", "readme.md", "key2.json", "key3.json", ".hidden"].iter().map(|s| s.to_string()).collect();
    let keys = keys_of_file_names(&names);
    assert_eq!(keys.len(), 3);
    assert!(keys.contains(&"key1".to_string()));
    assert!(keys.contains(&"key2".to_string()));
    assert!(keys.contains(&"key3".to_string()));
    assert_eq!(keys, vec!["key1", "key2", "key3"]);
    assert!(keys_of_file_names(&Vec::new()).is_empty());
}

#[test]
fn stats_count_every_key_and_add_the_sizes_that_are_known() {
    assert_eq!(
        storage_stats(&vec![Some(10), None, Some(32)], "/data"),
        StorageStats { total_keys: 3, total_size_bytes: 42, data_dir: "/data".to_string() }
    );
    assert_eq!(
        storage_stats(&Vec::new(), ""),
        StorageStats { total_keys: 0, total_size_bytes: 0, data_dir: String::new() }
    );
    assert_eq!(storage_stats(&vec![Some(u64::MAX), Some(1), Some(5)], "d").total_size_bytes, u64::MAX);
}

#[test]
fn the_cache_holds_what_was_last_remembered() {
    let mut storage = LocalStorage::new(PathBuf::from("/tmp/mydistinctai_test"));
    assert_eq!(storage.data_dir(), &PathBuf::from("/tmp/mydistinctai_test"));
    assert_eq!(storage.cached("test_key"), None);
    assert!(!storage.is_cached("test_key"));

    storage.remember("test_key", "test_data");
    assert_eq!(storage.cached("test_key"), Some("test_data".to_string()));
    assert!(storage.is_cached("test_key"));
    storage.remember("other", "x");
    storage.remember("test_key", "newer");
    assert_eq!(storage.cached("test_key"), Some("newer".to_string()));
    assert_eq!(storage.cached("other"), Some("x".to_string()));

    assert!(storage.forget("test_key"));
    assert!(!storage.forget("test_key"));
    assert!(!storage.is_cached("test_key"));
    assert!(storage.is_cached("other"));

    storage.remember("a", "1");
    storage.forget_all();
    assert!(!storage.is_cached("a"));
    assert!(!storage.is_cached("other"));
}

#[test]
fn keys_of_configurations_and_histories() {
    assert_eq!(model_config_key("m-1"), "model_config_m-1");
    assert_eq!(chat_history_key("s-1"), "chat_history_s-1");
    assert_eq!(model_config_key(""), "model_config_");
}
