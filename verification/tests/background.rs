use strandgut::background::{
    build_pexels_url, check_cached_photo_age, check_cached_photo_bytes, choose_image_url, fetch_credentials,
    cached_photo_path, fetched_photo, get_background_status, photo_path_in, photo_tmp_path_in, get_cache_dir, pick_random_photo, select_best_url, validate_image,
    BackgroundState, FetchedPhoto, PexelsPhoto, PexelsPhotoResponse, PexelsRetry, PexelsSrc, PEXELS_SEARCH_QUERY,
};
use strandgut::config::Config;
use strandgut::error::AppError;

fn valid_jpeg_bytes() -> Vec<u8> {
    vec![0xFF, 0xD8, 0xFF, 0xE0, 0x00, 0x10, 0x4A, 0x46, 0x49, 0x46]
}

fn valid_png_bytes() -> Vec<u8> {
    vec![0x89, 0x50, 0x4E, 0x47, 0x0D, 0x0A, 0x1A, 0x0A]
}

fn valid_webp_bytes() -> Vec<u8> {
    let mut data = vec![0x52, 0x49, 0x46, 0x46];
    data.extend_from_slice(&[0x00; 4]);
    data.extend_from_slice(b"WEBP");
    data
}

fn empty_src() -> PexelsSrc {
    PexelsSrc {
        original: None,
        large2x: None,
        large: None,
        medium: None,
        small: None,
        portrait: None,
        landscape: None,
        tiny: None,
    }
}

fn photo_with(src: PexelsSrc, photographer: &str) -> PexelsPhoto {
    PexelsPhoto {
        id: 1,
        width: 800,
        height: 600,
        url: "https://example.com/photo".into(),
        photographer: photographer.into(),
        photographer_url: "https://example.com".into(),
        photographer_id: 1,
        avg_color: "#000000".into(),
        src,
        alt: "test".into(),
    }
}

#[test]
fn test_build_pexels_url() {
    let url = build_pexels_url("nordsee", 1, 1);
    assert!(url.contains("api.pexels.com"), "URL should contain pexels domain");
    assert!(url.contains("nordsee"), "URL should contain the search query");
}

#[test]
fn build_pexels_url_exact() {
    assert_eq!(
        build_pexels_url("nordsee", 80, 1),
        "https://api.pexels.com/v1/search?query=nordsee&orientation=landscape&per_page=80&page=1"
    );
    assert_eq!(
        build_pexels_url("x", 0, 1234567),
        "https://api.pexels.com/v1/search?query=x&orientation=landscape&per_page=0&page=1234567"
    );
}

#[test]
fn test_fetch_pexels_photo_empty_key() {
    let result = PexelsRetry::start("", "nordsee");
    assert!(result.is_err(), "empty API key should return an error");
    assert_eq!(result.err().unwrap(), AppError::Internal("pexels API key is empty".into()));
}

#[test]
fn pexels_retry_waits_one_two_four_seconds() {
    let (mut retry, url) = PexelsRetry::start("key", PEXELS_SEARCH_QUERY).unwrap();
    assert_eq!(
        url,
        "https://api.pexels.com/v1/search?query=nordsee&orientation=landscape&per_page=80&page=1"
    );
    let mut waits = Vec::new();
    while retry.may_request() {
        match retry.on_status(429) {
            Some(w) => waits.push(w),
            None => break,
        }
    }
    assert_eq!(waits, vec![1, 2, 4]);
    assert!(!retry.may_request());
}

#[test]
fn pexels_retry_success_status_reads_body() {
    let (mut retry, _) = PexelsRetry::start("key", "q").unwrap();
    assert_eq!(retry.on_status(200), None);
    assert_eq!(retry.attempts, 0);
    assert!(retry.may_request());
}

#[test]
fn test_select_best_url_landscape() {
    let src = PexelsSrc {
        original: Some("https://example.com/original.jpg".into()),
        large2x: Some("https://example.com/large2x.jpg".into()),
        large: Some("https://example.com/large.jpg".into()),
        medium: Some("https://example.com/medium.jpg".into()),
        small: Some("https://example.com/small.jpg".into()),
        portrait: Some("https://example.com/portrait.jpg".into()),
        landscape: Some("https://example.com/landscape.jpg".into()),
        tiny: Some("https://example.com/tiny.jpg".into()),
    };
    assert_eq!(
        select_best_url(&src),
        Some("https://example.com/landscape.jpg"),
        "landscape variant should be preferred"
    );
}

#[test]
fn test_select_best_url_fallback() {
    let src = PexelsSrc {
        original: None,
        large2x: None,
        large: Some("https://example.com/large.jpg".into()),
        medium: None,
        small: None,
        portrait: None,
        landscape: None,
        tiny: None,
    };
    assert_eq!(
        select_best_url(&src),
        Some("https://example.com/large.jpg"),
        "large variant should be returned when landscape is absent"
    );
}

#[test]
fn test_select_best_url_none() {
    let src = empty_src();
    assert_eq!(select_best_url(&src), None, "all-absent src should return None");
}

#[test]
fn select_best_url_medium_then_original() {
    let mut src = empty_src();
    src.original = Some("o".into());
    assert_eq!(select_best_url(&src), Some("o"));
    src.medium = Some("m".into());
    assert_eq!(select_best_url(&src), Some("m"));
    src.small = Some("s".into());
    src.tiny = Some("t".into());
    assert_eq!(select_best_url(&src), Some("m"));
}

#[test]
fn test_validate_image_jpeg() {
    let result = validate_image(&valid_jpeg_bytes());
    assert!(result.is_ok(), "valid JPEG should be Ok");
}

#[test]
fn test_validate_image_png() {
    let result = validate_image(&valid_png_bytes());
    assert!(result.is_ok(), "valid PNG should be Ok");
}

#[test]
fn test_validate_image_webp() {
    let result = validate_image(&valid_webp_bytes());
    assert!(result.is_ok(), "valid WebP should be Ok");
}

#[test]
fn test_validate_image_invalid() {
    let garbage = b"this is not an image";
    let result = validate_image(garbage);
    assert!(result.is_err(), "garbage bytes should be invalid");
    assert_eq!(result.unwrap_err().message(), "internal error: invalid image format");
}

#[test]
fn test_validate_image_too_short() {
    let result = validate_image(&[0xFF, 0xD8]);
    assert!(result.is_err(), "too-short data should be invalid");
}

#[test]
fn validate_image_riff_without_webp_marker() {
    let mut data = vec![0x52, 0x49, 0x46, 0x46, 0, 0, 0, 0];
    data.extend_from_slice(b"WAVE");
    assert!(validate_image(&data).is_err());
    assert!(validate_image(&[]).is_err());
    assert!(validate_image(&[0x89, 0x50, 0x4E]).is_err());
}

#[test]
fn test_get_cache_dir_with_parent() {
    let dir = get_cache_dir("/data/config.toml");
    assert_eq!(dir, "/data/cache");
}

#[test]
fn test_get_cache_dir_no_parent() {
    let dir = get_cache_dir("config.toml");
    assert_eq!(dir, "./cache");
}

#[test]
fn test_get_cache_dir_relative_path() {
    let dir = get_cache_dir("./subdir/config.toml");
    assert_eq!(dir, "./subdir/cache");
}

#[test]
fn get_cache_dir_root_file() {
    assert_eq!(get_cache_dir("/config.toml"), "/cache");
    assert_eq!(get_cache_dir("/"), "./cache");
}

#[test]
fn test_get_background_status_no_key() {
    let state = BackgroundState::new();
    let config = Config::default();
    let status = get_background_status(&state, &config, None);
    assert!(!status.available, "available should be false when PEXELS_API_KEY is not set");
    assert!(!status.rotate_enabled, "rotate_enabled should default to false");
    assert!(status.photo.is_none(), "photo should be None when no cached data");
}

#[test]
fn background_status_with_photo_and_key() {
    let mut state = BackgroundState::new();
    state.photographer = Some("Ann".into());
    state.photo_url = Some("https://img".into());
    let mut config = Config::default();
    config.background_rotate = true;
    let status = get_background_status(&state, &config, Some("k"));
    assert!(status.available);
    assert!(status.rotate_enabled);
    let credit = status.photo.unwrap();
    assert_eq!(credit.photographer, "Ann");
    assert_eq!(credit.photographer_url, "");
    assert_eq!(credit.photo_url, "https://img");
    assert!(!get_background_status(&state, &config, Some("")).available);
}

#[test]
fn fetch_credentials_errors() {
    let mut config = Config::default();
    assert_eq!(
        fetch_credentials(&config, Some("k")),
        Err(AppError::Internal("background rotation disabled".into()))
    );
    config.background_rotate = true;
    assert_eq!(fetch_credentials(&config, None), Err(AppError::Internal("PEXELS_API_KEY not set".into())));
    assert_eq!(fetch_credentials(&config, Some("")), Err(AppError::Internal("PEXELS_API_KEY not set".into())));
    assert_eq!(fetch_credentials(&config, Some("k")), Ok("k".to_string()));
}

#[test]
fn choose_image_url_prefers_landscape_and_fails_without_variants() {
    let mut src = empty_src();
    src.large = Some("L".into());
    src.landscape = Some("W".into());
    assert_eq!(choose_image_url(&photo_with(src, "P")), Ok("W".to_string()));
    assert_eq!(
        choose_image_url(&photo_with(empty_src(), "P")),
        Err(AppError::Internal("no suitable image URL found in Pexels response".into()))
    );
}

#[test]
fn fetch_cycle_updates_state() {
    let mut state = BackgroundState::new();
    assert!(state.needs_fetch(true, 10));
    assert!(!state.needs_fetch(false, 10));
    assert!(state.begin_fetch());
    assert!(!state.begin_fetch(), "a second fetch must not start while one runs");
    assert!(!state.needs_fetch(true, 10));
    let mut src = empty_src();
    src.medium = Some("https://img".into());
    let photo = photo_with(src, "Ann");
    let fetched = fetched_photo("/c/config.toml", &photo).unwrap();
    assert_eq!(state.finish_fetch(Ok(fetched), 100), Ok(()));
    assert!(!state.fetch_in_progress);
    assert_eq!(state.cached_path.as_deref(), Some("/c/cache/background.jpg"));
    assert_eq!(state.photographer.as_deref(), Some("Ann"));
    assert_eq!(state.photographer_url.as_deref(), Some("https://example.com"));
    assert_eq!(state.photo_url.as_deref(), Some("https://img"));
    assert_eq!(state.last_fetch, Some(100));
    let sec: u64 = 1_000_000_000;
    assert!(!state.needs_fetch(true, 100 + 3600 * sec));
    assert!(!state.needs_fetch(true, 100 + 3601 * sec - 1));
    assert!(state.needs_fetch(true, 100 + 3601 * sec));
    assert!(!state.needs_fetch(true, 50), "a clock reading before the fetch counts as no time passed");
}

#[test]
fn failed_fetch_clears_photo() {
    let mut state = BackgroundState::new();
    state.cached_path = Some("p".into());
    state.photographer = Some("Ann".into());
    state.last_fetch = Some(5);
    assert!(state.begin_fetch());
    let err = AppError::Internal("boom".into());
    assert_eq!(state.finish_fetch(Err(err.clone()), 50), Err(err));
    assert!(state.cached_path.is_none());
    assert!(state.photographer.is_none());
    assert_eq!(state.last_fetch, Some(5));
    assert!(state.needs_fetch(true, 6));
    let _unused: Option<FetchedPhoto> = None;
}

#[test]
fn pick_random_photo_takes_one_of_the_photos() {
    let empty = PexelsPhotoResponse { photos: vec![] };
    assert_eq!(pick_random_photo(empty).err(), Some(AppError::Internal("no results from Pexels".into())));
    let photos = vec![photo_with(empty_src(), "A"), photo_with(empty_src(), "B"), photo_with(empty_src(), "C")];
    for _ in 0..20 {
        let p = pick_random_photo(PexelsPhotoResponse { photos: photos.clone() }).unwrap();
        assert!(["A", "B", "C"].contains(&p.photographer.as_str()));
    }
}

#[test]
fn fetched_photo_paths_and_failure() {
    assert_eq!(
        fetched_photo("config.toml", &photo_with(empty_src(), "A")).err(),
        Some(AppError::Internal("no suitable image URL found in Pexels response".into()))
    );
    assert_eq!(cached_photo_path("/data/config.toml"), "/data/cache/background.jpg");
    assert_eq!(cached_photo_path("config.toml"), "./cache/background.jpg");
    assert_eq!(photo_path_in("/x/"), "/x/background.jpg");
    assert_eq!(photo_tmp_path_in("./cache"), "./cache/background.tmp");
}

#[test]
fn cached_photo_checks() {
    assert!(check_cached_photo_age(10, 10).is_ok());
    assert!(check_cached_photo_age(604_800_000_000_000, 604_800_000_000_000).is_ok());
    assert!(check_cached_photo_age(604_800_000_000_001, 604_800_000_000_000).is_err());
    assert_eq!(
        check_cached_photo_age(11, 10),
        Err(AppError::Internal("cached photo expired".into()))
    );
    assert_eq!(check_cached_photo_bytes(valid_png_bytes()), Ok(valid_png_bytes()));
    assert_eq!(
        check_cached_photo_bytes(b"not a valid image".to_vec()),
        Err(AppError::Internal("cached photo corrupted".into()))
    );
}

#[test]
fn default_state_is_new_state() {
    let s = BackgroundState::default();
    assert!(s.cached_path.is_none() && s.photographer.is_none() && s.last_fetch.is_none());
    assert!(!s.fetch_in_progress);
}
