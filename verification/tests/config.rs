use strandgut::config::Config;

#[test]
fn test_default() {
    let config = Config::default();
    assert_eq!(config.title, "Strandgut");
    assert_eq!(config.language, "en");
    assert_eq!(config.scan_defaults, "simple");
    assert!(config.services.is_empty());
}

#[test]
fn test_background_rotate_default() {
    let config = Config::default();
    assert!(!config.background_rotate, "background_rotate should default to false");
}
