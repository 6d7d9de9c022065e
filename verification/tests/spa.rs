use strandgut::spa::{clean_path, detect_mime, get_asset, serve_asset, serve_index};

#[test]
fn test_assets_embedded() {
    assert!(get_asset("index.html").is_some());
    assert!(get_asset("css/style.css").is_some());
    assert!(get_asset("js/app.js").is_some());
}

#[test]
fn unknown_assets_are_missing() {
    assert!(get_asset("css/missing.css").is_none());
    assert!(get_asset("").is_none());
    assert!(get_asset("/index.html").is_none());
}

#[test]
fn test_serve_index_ok() {
    let resp = serve_index().expect("serve_index should succeed");
    assert_eq!(resp.content_type, "text/html");
    assert_eq!(resp.cache_control, "no-cache");
}

#[test]
fn test_serve_asset_without_prefix() {
    let resp = serve_asset("css/style.css").expect("serve_asset should succeed");
    assert_eq!(resp.content_type, "text/css");
    assert_eq!(resp.cache_control, "public, max-age=3600");
}

#[test]
fn test_serve_asset_with_prefix() {
    let resp = serve_asset("/assets/js/app.js").expect("serve_asset with prefix should succeed");
    assert_eq!(resp.content_type, "application/javascript");
    assert_eq!(resp.cache_control, "public, max-age=3600");
}

#[test]
fn test_serve_unknown_asset_falls_back_to_index() {
    let resp = serve_asset("nonexistent/file.js").expect("fallback should succeed");
    assert_eq!(resp.content_type, "text/html");
    assert_eq!(resp.asset.name, "index.html");
}

#[test]
fn test_serve_asset_svg_mime() {
    let resp = serve_asset("img/logo.svg").expect("serve_asset should succeed");
    assert_eq!(resp.content_type, "image/svg+xml");
}

#[test]
fn test_serve_asset_strips_query_params() {
    let resp = serve_asset("css/style.css?v=0.1.0").expect("serve_asset should succeed");
    assert_eq!(resp.cache_control, "public, max-age=3600");
    assert_eq!(resp.asset.name, "css/style.css");
}

#[test]
fn test_serve_index_cache_control() {
    let resp = serve_index().expect("serve_index should succeed");
    assert_eq!(resp.cache_control, "no-cache");
}

#[test]
fn mime_types_by_extension() {
    assert_eq!(detect_mime("a.js"), "application/javascript");
    assert_eq!(detect_mime("a.css"), "text/css");
    assert_eq!(detect_mime("index.html"), "text/html");
    assert_eq!(detect_mime("logo.svg"), "image/svg+xml");
    assert_eq!(detect_mime("img/background.webp"), "image/webp");
    assert_eq!(detect_mime("font.woff2"), "application/octet-stream");
    assert_eq!(detect_mime("js"), "application/octet-stream");
}

#[test]
fn clean_path_strips_prefix_and_query() {
    assert_eq!(clean_path("/assets/js/app.js?v=1?x"), "js/app.js");
    assert_eq!(clean_path("assets/js/app.js"), "assets/js/app.js");
    assert_eq!(clean_path("?only"), "");
    assert_eq!(clean_path("/assets/"), "");
}

#[test]
fn index_served_as_asset_keeps_asset_caching() {
    let resp = serve_asset("/assets/index.html").unwrap();
    assert_eq!(resp.content_type, "text/html");
    assert_eq!(resp.cache_control, "public, max-age=3600");
}
