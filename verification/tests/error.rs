use strandgut::error::AppError;

#[test]
fn test_status_codes() {
    let cases: Vec<(AppError, u16)> = vec![
        (AppError::Config("x".into()), 500),
        (AppError::Serialization("x".into()), 400),
        (AppError::NotFound("x".into()), 404),
        (AppError::BadRequest("x".into()), 400),
        (AppError::Internal("x".into()), 500),
        (AppError::ScanError("x".into()), 500),
    ];
    for (err, expected) in cases {
        let actual = err.to_http_status();
        assert_eq!(actual, expected, "expected status {expected} for {err:?}, got {actual}");
    }
}

#[test]
fn test_from_io() {
    let io_err = std::io::Error::new(std::io::ErrorKind::NotFound, "file not found");
    let app_err: AppError = io_err.into();
    assert!(matches!(app_err, AppError::Config(..)), "expected Config variant, got {app_err:?}");
}

#[test]
fn from_io_keeps_the_message() {
    let io_err = std::io::Error::new(std::io::ErrorKind::Other, "disk on fire");
    let app_err: AppError = io_err.into();
    assert_eq!(app_err, AppError::Config("disk on fire".into()));
    assert_eq!(app_err.message(), "configuration error: disk on fire");
}

#[test]
fn test_display_format() {
    assert_eq!(AppError::Config("bad config".into()).message(), "configuration error: bad config");
    assert_eq!(AppError::Serialization("bad data".into()).message(), "serialization error: bad data");
    assert_eq!(AppError::NotFound("missing".into()).message(), "not found: missing");
    assert_eq!(AppError::BadRequest("invalid input".into()).message(), "bad request: invalid input");
    assert_eq!(AppError::Internal("oops".into()).message(), "internal error: oops");
    assert_eq!(AppError::ScanError("timeout".into()).message(), "scan error: timeout");
}

#[test]
fn test_from_toml_de() {
    let raw = "key = ";
    let toml_err: toml::de::Error = toml::from_str::<toml::Value>(raw).unwrap_err();
    let app_err: AppError = toml_err.into();
    assert!(matches!(app_err, AppError::Config(..)), "expected Config variant, got {app_err:?}");
}

#[test]
fn test_from_toml_ser() {
    let mut map = std::collections::BTreeMap::new();
    map.insert(vec![1u8], "value");
    let toml_err = toml::to_string(&map).unwrap_err();
    let app_err: AppError = toml_err.into();
    assert!(matches!(app_err, AppError::Serialization(..)), "expected Serialization variant, got {app_err:?}");
}

#[test]
fn test_from_serde_json() {
    let raw = "not valid json";
    let json_err: serde_json::Error = serde_json::from_str::<serde_json::Value>(raw).unwrap_err();
    let app_err: AppError = json_err.into();
    assert!(matches!(app_err, AppError::Serialization(..)), "expected Serialization variant, got {app_err:?}");
}

#[test]
fn conversions_keep_the_error_text() {
    let json_err = serde_json::from_str::<serde_json::Value>("{").unwrap_err();
    let text = json_err.to_string();
    assert_eq!(AppError::from(json_err), AppError::Serialization(text));
    let de_err = toml::from_str::<toml::Value>("a = ").unwrap_err();
    let text = de_err.to_string();
    assert_eq!(AppError::from(de_err), AppError::Config(text));
    let mut map = std::collections::BTreeMap::new();
    map.insert(vec![1u8], "value");
    let ser_err = toml::to_string(&map).unwrap_err();
    let text = ser_err.to_string();
    assert_eq!(AppError::from(ser_err), AppError::Serialization(text));
}
