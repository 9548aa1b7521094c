use ziptauri::config::AppConfig;
use ziptauri::error::AppError;
use ziptauri::recency::RecencyStore;

#[test]
fn load_or_default_keeps_loaded_config() {
    let mut store = RecencyStore::new();
    store.touch("seen.zip".to_string());
    let loaded = AppConfig { multi_threaded_decompression: true, recently_viewed: store };
    let config = AppConfig::load_or_default(Ok(loaded));
    assert!(config.multi_threaded_decompression);
    assert_eq!(config.recently_viewed.to_list(), vec!["seen.zip".to_string()]);
}

#[test]
fn load_or_default_falls_back_on_error() {
    let config = AppConfig::load_or_default(Err(AppError::IoError("no file".to_string())));
    assert!(!config.multi_threaded_decompression);
    assert_eq!(config.recently_viewed.len(), 0);
}
