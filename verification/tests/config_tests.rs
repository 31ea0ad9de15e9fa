use cyberpunk::config::{
    default_base_dir, default_cache_base_dir, default_port, default_s3_endpoint,
    ApplicationSettings, CacheSettings, Environment, ProcessorSettings, Settings,
    StorageSettings,
};
use cyberpunk::normalize::SafeCharsType;

#[test]
fn defaults_are_as_documented() {
    assert_eq!(default_port(), 8080);
    assert_eq!(default_base_dir(), "uploads");
    assert_eq!(default_cache_base_dir(), "cache");
    assert_eq!(default_s3_endpoint(), "https://s3.amazonaws.com");
    let app = ApplicationSettings::default();
    assert_eq!(app.host, "127.0.0.1");
    assert_eq!(app.hmac_secret, "this-is-a-secret");
    let processor = ProcessorSettings::default();
    assert_eq!(processor.concurrency, None);
    assert!(processor.disabled_filters.is_empty());
    assert_eq!(processor.max_filter_ops, 0);
    let storage = StorageSettings::default();
    assert_eq!(storage.base_dir, "uploads");
    assert_eq!(storage.path_prefix, "");
    assert_eq!(storage.safe_chars, SafeCharsType::Default);
    assert!(storage.client.is_none());
    let settings = Settings::default();
    assert_eq!(settings.port, 8080);
    assert!(settings.custom_tags.is_empty());
    assert!(matches!(settings.cache, CacheSettings::Filesystem(_)));
}

#[test]
fn environments_are_read_by_name() {
    assert_eq!(Environment::Local.as_str(), "local");
    assert_eq!(Environment::Production.as_str(), "production");
    assert_eq!(Environment::try_from("local".to_string()), Ok(Environment::Local));
    assert_eq!(
        Environment::try_from("PRODUCTION".to_string()),
        Ok(Environment::Production)
    );
    assert_eq!(
        Environment::try_from("Staging".to_string()),
        Err(
            "staging is not a supported environment. Use either `local` or `production`"
                .to_string()
        )
    );
    for e in [Environment::Local, Environment::Production] {
        assert_eq!(Environment::try_from(e.as_str().to_string()), Ok(e));
    }
}
