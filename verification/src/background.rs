//! Background photo rotation: choosing a Pexels photo and image variant,
//! checking image data, and the state kept between fetches.
//!
//! The network and disk work happens outside the library; the functions here
//! decide what to request, what to keep, and what to report.

use vstd::prelude::*;
use crate::config::Config;
use crate::error::{is_internal, AppError};
use crate::paths::{join_path, join_relative, path_parent, spec_path_parent};
use crate::text::{concat_str, decimal, decimal_chars, string_of};

verus! {

/// Interval (in seconds) between background image rotations.
pub const ROTATION_INTERVAL_SECS: u64 = 3600;

/// Nanoseconds in a second.
pub const NANOS_PER_SEC: u64 = 1000000000;

/// Maximum age (in days) for cached photos before they are re-fetched.
pub const CACHE_MAX_AGE_DAYS: u64 = 7;

/// Search query used to fetch background photos from Pexels.
pub const PEXELS_SEARCH_QUERY: &'static str = "nordsee";

/// Photos requested per page from Pexels.
pub const PEXELS_PER_PAGE: u32 = 80;

/// Response from the Pexels search API.
#[derive(Debug, Clone)]
pub struct PexelsPhotoResponse {
    pub photos: Vec<PexelsPhoto>,
}

/// A single photo from the Pexels API.
#[derive(Debug, Clone)]
pub struct PexelsPhoto {
    pub id: u64,
    pub width: u32,
    pub height: u32,
    pub url: String,
    pub photographer: String,
    pub photographer_url: String,
    pub photographer_id: u64,
    pub avg_color: String,
    pub src: PexelsSrc,
    pub alt: String,
}

/// Available image URL variants for a Pexels photo.
#[derive(Debug, Clone)]
pub struct PexelsSrc {
    pub original: Option<String>,
    pub large2x: Option<String>,
    pub large: Option<String>,
    pub medium: Option<String>,
    pub small: Option<String>,
    pub portrait: Option<String>,
    pub landscape: Option<String>,
    pub tiny: Option<String>,
}

/// Credit information for the currently displayed background photo.
#[derive(Debug, Clone)]
pub struct PhotoCredit {
    pub photographer: String,
    pub photographer_url: String,
    pub photo_url: String,
}

/// Status of the background rotation feature, as reported to the dashboard.
#[derive(Debug, Clone)]
pub struct BackgroundStatus {
    pub available: bool,
    pub rotate_enabled: bool,
    pub photo: Option<PhotoCredit>,
}

/// The state of the background rotation between fetches.
///
/// `last_fetch` is a reading, in nanoseconds, of a monotonic clock that the
/// caller keeps; the same clock must supply `now` to
/// [`BackgroundState::needs_fetch`].
#[derive(Debug, Clone)]
pub struct BackgroundState {
    pub cached_path: Option<String>,
    pub photographer: Option<String>,
    pub photographer_url: Option<String>,
    pub photo_url: Option<String>,
    pub last_fetch: Option<u64>,
    pub fetch_in_progress: bool,
}

/// What a successful fetch produced: where the photo was cached and whom to credit.
#[derive(Debug, Clone)]
pub struct FetchedPhoto {
    pub cached_path: String,
    pub photographer: String,
    pub photographer_url: String,
    pub photo_url: String,
}

/// The text of an optional string.
pub open spec fn opt_view(o: Option<String>) -> Option<Seq<char>> {
    match o {
        Some(s) => Some(s@),
        None => None,
    }
}

// ---------------------------------------------------------------------------
// Image variants and image data
// ---------------------------------------------------------------------------

/// The preferred image variant: landscape, then large, medium, original.
pub open spec fn best_url(src: PexelsSrc) -> Option<Seq<char>> {
    if src.landscape is Some {
        opt_view(src.landscape)
    } else if src.large is Some {
        opt_view(src.large)
    } else if src.medium is Some {
        opt_view(src.medium)
    } else {
        opt_view(src.original)
    }
}

/// Pick the image URL to download: landscape, then large, medium, original.
pub fn select_best_url(src: &PexelsSrc) -> (r: Option<&str>)
    ensures
        match r {
            Some(u) => best_url(*src) == Some(u@),
            None => best_url(*src) is None,
        },
{
    if let Some(u) = &src.landscape {
        return Some(u.as_str());
    }
    if let Some(u) = &src.large {
        return Some(u.as_str());
    }
    if let Some(u) = &src.medium {
        return Some(u.as_str());
    }
    match &src.original {
        Some(u) => Some(u.as_str()),
        None => None,
    }
}

/// JPEG data starts with `FF D8 FF`.
pub open spec fn is_jpeg(d: Seq<u8>) -> bool {
    d.len() >= 3 && d[0] == 0xFF && d[1] == 0xD8 && d[2] == 0xFF
}

/// PNG data starts with `89 50 4E 47`.
pub open spec fn is_png(d: Seq<u8>) -> bool {
    d.len() >= 4 && d[0] == 0x89 && d[1] == 0x50 && d[2] == 0x4E && d[3] == 0x47
}

/// WebP data starts with `RIFF` and has `WEBP` at bytes 8 to 11.
pub open spec fn is_webp(d: Seq<u8>) -> bool {
    &&& d.len() >= 12
    &&& d[0] == 0x52 && d[1] == 0x49 && d[2] == 0x46 && d[3] == 0x46
    &&& d[8] == 0x57 && d[9] == 0x45 && d[10] == 0x42 && d[11] == 0x50
}

/// Image data in one of the supported formats (JPEG, PNG, WebP).
pub open spec fn is_supported_image(d: Seq<u8>) -> bool {
    is_jpeg(d) || is_png(d) || is_webp(d)
}

/// Validate that image data is a supported format (JPEG, PNG, WebP).
pub fn validate_image(data: &[u8]) -> (r: Result<(), AppError>)
    ensures
        r is Ok <==> is_supported_image(data@),
        r matches Err(e) ==> is_internal(e, "invalid image format"@),
{
    if data.len() >= 3 && data[0] == 0xFF && data[1] == 0xD8 && data[2] == 0xFF {
        return Ok(());
    }
    if data.len() >= 4 && data[0] == 0x89 && data[1] == 0x50 && data[2] == 0x4E && data[3] == 0x47 {
        return Ok(());
    }
    if data.len() >= 12 && data[0] == 0x52 && data[1] == 0x49 && data[2] == 0x46 && data[3] == 0x46
        && data[8] == 0x57 && data[9] == 0x45 && data[10] == 0x42 && data[11] == 0x50 {
        return Ok(());
    }
    Err(AppError::Internal(String::from_str("invalid image format")))
}

// ---------------------------------------------------------------------------
// Pexels request URL
// ---------------------------------------------------------------------------

/// The Pexels search URL for a query and page parameters.
pub open spec fn spec_pexels_url(query: Seq<char>, per_page: nat, page: nat) -> Seq<char> {
    "https://api.pexels.com/v1/search?query="@ + query + "&orientation=landscape&per_page="@
        + decimal(per_page) + "&page="@ + decimal(page)
}

/// Build the Pexels API URL for the given search query and page parameters.
pub fn build_pexels_url(query: &str, per_page: u32, page: u32) -> (url: String)
    ensures
        url@ == spec_pexels_url(query@, per_page as nat, page as nat),
{
    let a = concat_str("https://api.pexels.com/v1/search?query=", query);
    let b = concat_str(a.as_str(), "&orientation=landscape&per_page=");
    let pp = string_of(decimal_chars(per_page as u64).as_slice());
    let c = concat_str(b.as_str(), pp.as_str());
    let d = concat_str(c.as_str(), "&page=");
    let pg = string_of(decimal_chars(page as u64).as_slice());
    let url = concat_str(d.as_str(), pg.as_str());
    url
}

// ---------------------------------------------------------------------------
// Cache directory
// ---------------------------------------------------------------------------

/// The cache directory for a configuration file whose parent directory is
/// `parent`: `<parent>/cache`, or `./cache` when there is no (or an empty) parent.
pub open spec fn cache_dir_of_parent(parent: Option<Seq<char>>) -> Seq<char> {
    match parent {
        Some(p) => if p.len() > 0 { join_path(p, "cache"@) } else { "./cache"@ },
        None => "./cache"@,
    }
}

/// The cache directory, given the parent directory of the configuration file.
pub fn cache_dir_for_parent(parent: Option<&str>) -> (dir: String)
    ensures
        dir@ == cache_dir_of_parent(match parent { Some(p) => Some(p@), None => None }),
{
    match parent {
        Some(p) => {
            if !p.is_empty() {
                join_relative(p, "cache")
            } else {
                String::from_str("./cache")
            }
        },
        None => String::from_str("./cache"),
    }
}

/// The cached photo inside a cache directory.
pub fn photo_path_in(cache_dir: &str) -> (path: String)
    ensures
        path@ == join_path(cache_dir@, "background.jpg"@),
{
    join_relative(cache_dir, "background.jpg")
}

/// The file a photo is written to before it replaces the cached photo.
pub fn photo_tmp_path_in(cache_dir: &str) -> (path: String)
    ensures
        path@ == join_path(cache_dir@, "background.tmp"@),
{
    join_relative(cache_dir, "background.tmp")
}

/// The cached photo for a configuration file: `background.jpg` in its cache
/// directory.
pub open spec fn spec_cached_photo_path(config_path: Seq<char>) -> Seq<char> {
    join_path(cache_dir_of_parent(spec_path_parent(config_path)), "background.jpg"@)
}

/// The cached photo for a configuration file.
pub fn cached_photo_path(config_path: &str) -> (path: String)
    ensures
        path@ == spec_cached_photo_path(config_path@),
{
    let dir = get_cache_dir(config_path);
    photo_path_in(dir.as_str())
}

/// Determine the cache directory from the config file path: a `cache/`
/// directory next to the config file, or `./cache` for a bare file name.
pub fn get_cache_dir(config_path: &str) -> (dir: String)
    ensures
        dir@ == cache_dir_of_parent(spec_path_parent(config_path@)),
{
    let parent = path_parent(config_path);
    match parent {
        Some(p) => cache_dir_for_parent(Some(p.as_str())),
        None => cache_dir_for_parent(None),
    }
}

// ---------------------------------------------------------------------------
// Rotation state
// ---------------------------------------------------------------------------

/// The status report for a state, a configuration and the Pexels API key (if set).
pub open spec fn spec_background_status(
    state: BackgroundState,
    config: Config,
    api_key: Option<Seq<char>>,
    status: BackgroundStatus,
) -> bool {
    &&& status.available == (api_key matches Some(k) && k.len() > 0)
    &&& status.rotate_enabled == config.background_rotate
    &&& (status.photo is Some <==> state.photographer is Some)
    &&& status.photo matches Some(credit) ==> {
        &&& opt_view(state.photographer) == Some(credit.photographer@)
        &&& credit.photographer_url@ == opt_text_or_empty(opt_view(state.photographer_url))
        &&& credit.photo_url@ == opt_text_or_empty(opt_view(state.photo_url))
    }
}

/// The text of an optional string, or the empty text.
pub open spec fn opt_text_or_empty(o: Option<Seq<char>>) -> Seq<char> {
    match o {
        Some(t) => t,
        None => Seq::<char>::empty(),
    }
}

fn clone_or_empty(o: &Option<String>) -> (s: String)
    ensures
        s@ == opt_text_or_empty(opt_view(*o)),
{
    match o {
        Some(t) => t.clone(),
        None => String::new(),
    }
}

/// Whether fetching may start: rotation is enabled and the Pexels key is set.
pub open spec fn fetch_allowed(config: Config, api_key: Option<Seq<char>>) -> bool {
    config.background_rotate && (api_key matches Some(k) && k.len() > 0)
}

/// The state after a fetch starts: a fetch is in progress, nothing else changes.
pub open spec fn spec_begin_fetch(s: BackgroundState) -> BackgroundState {
    BackgroundState { fetch_in_progress: true, ..s }
}

/// The state after a fetch finished at time `now` with the given outcome: no
/// fetch in progress; on success the new photo and its credits, fetched at
/// `now`; on failure no photo and no credits, the time of the last fetch kept.
pub open spec fn spec_finish_fetch(s: BackgroundState, outcome: Result<FetchedPhoto, AppError>, now: u64) -> BackgroundState {
    match outcome {
        Ok(p) => BackgroundState {
            cached_path: Some(p.cached_path),
            photographer: Some(p.photographer),
            photographer_url: Some(p.photographer_url),
            photo_url: Some(p.photo_url),
            last_fetch: Some(now),
            fetch_in_progress: false,
        },
        Err(_) => BackgroundState {
            cached_path: None,
            photographer: None,
            photographer_url: None,
            photo_url: None,
            last_fetch: s.last_fetch,
            fetch_in_progress: false,
        },
    }
}

/// The whole seconds elapsed from clock reading `t` to `now` (none when
/// `now` is not later), as `Instant::elapsed` and `Duration::as_secs` count them.
pub open spec fn elapsed_secs(t: u64, now: u64) -> int {
    if now > t {
        (now - t) / (NANOS_PER_SEC as int)
    } else {
        0
    }
}

/// Whether a new photo is due at time `now`: rotation is enabled, no fetch
/// is running, and there is no cached photo or more than
/// [`ROTATION_INTERVAL_SECS`] whole seconds have passed since the last fetch
/// (or none happened).
pub open spec fn spec_needs_fetch(s: BackgroundState, rotate_enabled: bool, now: u64) -> bool {
    rotate_enabled && !s.fetch_in_progress && (s.cached_path is None || match s.last_fetch {
        Some(t) => elapsed_secs(t, now) > ROTATION_INTERVAL_SECS,
        None => true,
    })
}

impl BackgroundState {
    /// A state with no photo, no fetch yet, and no fetch in progress.
    pub fn new() -> (s: Self)
        ensures
            s.cached_path is None,
            s.photographer is None,
            s.photographer_url is None,
            s.photo_url is None,
            s.last_fetch is None,
            !s.fetch_in_progress,
    {
        BackgroundState {
            cached_path: None,
            photographer: None,
            photographer_url: None,
            photo_url: None,
            last_fetch: None,
            fetch_in_progress: false,
        }
    }

    /// Start a fetch unless one is already running.  Returns whether the caller
    /// should go on and fetch; the state then records a fetch in progress.
    pub fn begin_fetch(&mut self) -> (go: bool)
        ensures
            go == !old(self).fetch_in_progress,
            *final(self) == spec_begin_fetch(*old(self)),
    {
        if self.fetch_in_progress {
            false
        } else {
            self.fetch_in_progress = true;
            true
        }
    }

    /// Record the outcome of a fetch finished at time `now`.  On success the
    /// photo and its credits replace the old ones and `now` becomes the time of
    /// the last fetch; on failure the photo and credits are cleared and the
    /// error is handed back.  Either way no fetch is in progress afterwards.
    pub fn finish_fetch(&mut self, outcome: Result<FetchedPhoto, AppError>, now: u64) -> (r: Result<(), AppError>)
        ensures
            *final(self) == spec_finish_fetch(*old(self), outcome, now),
            match outcome {
                Ok(_) => r is Ok,
                Err(e) => r == Err::<(), AppError>(e),
            },
    {
        self.fetch_in_progress = false;
        match outcome {
            Ok(p) => {
                self.cached_path = Some(p.cached_path);
                self.photographer = Some(p.photographer);
                self.photographer_url = Some(p.photographer_url);
                self.photo_url = Some(p.photo_url);
                self.last_fetch = Some(now);
                Ok(())
            },
            Err(e) => {
                self.cached_path = None;
                self.photographer = None;
                self.photographer_url = None;
                self.photo_url = None;
                Err(e)
            },
        }
    }

    /// Whether a new photo should be fetched at time `now` (nanoseconds):
    /// rotation is enabled, no fetch is running, and there is no cached photo
    /// or more than [`ROTATION_INTERVAL_SECS`] whole seconds have passed since
    /// the last fetch (or none happened).
    pub fn needs_fetch(&self, rotate_enabled: bool, now: u64) -> (b: bool)
        ensures
            b == spec_needs_fetch(*self, rotate_enabled, now),
    {
        if !rotate_enabled || self.fetch_in_progress {
            return false;
        }
        let has_cache = self.cached_path.is_some();
        let is_stale = match self.last_fetch {
            Some(t) => {
                let elapsed: u64 = if now > t { (now - t) / NANOS_PER_SEC } else { 0 };
                elapsed > ROTATION_INTERVAL_SECS
            },
            None => true,
        };
        !has_cache || is_stale
    }
}

impl Default for BackgroundState {
    /// The same state as [`BackgroundState::new`].
    fn default() -> (s: Self)
        ensures
            s.cached_path is None,
            s.photographer is None,
            s.photographer_url is None,
            s.photo_url is None,
            s.last_fetch is None,
            !s.fetch_in_progress,
    {
        BackgroundState::new()
    }
}

/// Build the status report of the background rotation.  `api_key` is the
/// value of the `PEXELS_API_KEY` setting, if it is set.
pub fn get_background_status(state: &BackgroundState, config: &Config, api_key: Option<&str>) -> (status: BackgroundStatus)
    ensures
        spec_background_status(*state, *config, match api_key { Some(k) => Some(k@), None => None }, status),
{
    let available = match api_key {
        Some(k) => !k.is_empty(),
        None => false,
    };
    let photo = match &state.photographer {
        Some(p) => Some(PhotoCredit {
            photographer: p.clone(),
            photographer_url: clone_or_empty(&state.photographer_url),
            photo_url: clone_or_empty(&state.photo_url),
        }),
        None => None,
    };
    BackgroundStatus { available, rotate_enabled: config.background_rotate, photo }
}

/// Check that a fetch may start: rotation must be enabled and the Pexels key
/// set and non-empty.  Returns the key.
pub fn fetch_credentials(config: &Config, api_key: Option<&str>) -> (r: Result<String, AppError>)
    ensures
        !config.background_rotate ==> (r matches Err(e) && is_internal(e, "background rotation disabled"@)),
        config.background_rotate && !fetch_allowed(*config, match api_key { Some(k) => Some(k@), None => None })
            ==> (r matches Err(e) && is_internal(e, "PEXELS_API_KEY not set"@)),
        fetch_allowed(*config, match api_key { Some(k) => Some(k@), None => None })
            ==> (r matches Ok(k) && api_key matches Some(a) && k@ == a@),
{
    if !config.background_rotate {
        return Err(AppError::Internal(String::from_str("background rotation disabled")));
    }
    match api_key {
        Some(k) => {
            if k.is_empty() {
                Err(AppError::Internal(String::from_str("PEXELS_API_KEY not set")))
            } else {
                Ok(String::from_str(k))
            }
        },
        None => Err(AppError::Internal(String::from_str("PEXELS_API_KEY not set"))),
    }
}

/// Pick the image to download for a photo and describe the fetched result:
/// the photo is credited to its photographer, and the chosen image URL is
/// recorded.  Fails when the photo offers no usable image variant.
pub fn choose_image_url(photo: &PexelsPhoto) -> (r: Result<String, AppError>)
    ensures
        match best_url(photo.src) {
            Some(u) => r matches Ok(s) && s@ == u,
            None => r matches Err(e) && is_internal(e, "no suitable image URL found in Pexels response"@),
        },
{
    match select_best_url(&photo.src) {
        Some(u) => Ok(String::from_str(u)),
        None => Err(AppError::Internal(String::from_str("no suitable image URL found in Pexels response"))),
    }
}

/// `f` records a photo fetched for the configuration file `config_path`: the
/// photo cached at [`spec_cached_photo_path`], credited to its photographer,
/// with the image URL chosen by [`best_url`].
pub open spec fn is_fetched_photo(f: FetchedPhoto, config_path: Seq<char>, photo: PexelsPhoto) -> bool {
    &&& f.cached_path@ == spec_cached_photo_path(config_path)
    &&& f.photographer@ == photo.photographer@
    &&& f.photographer_url@ == photo.photographer_url@
    &&& best_url(photo.src) == Some(f.photo_url@)
}

/// The result of a fetch for the configuration file `config_path`: the
/// cached file, the photographer's credits, and the chosen image URL.  Fails
/// when the photo offers no usable image variant.
pub fn fetched_photo(config_path: &str, photo: &PexelsPhoto) -> (r: Result<FetchedPhoto, AppError>)
    ensures
        match best_url(photo.src) {
            Some(_) => r matches Ok(f) && is_fetched_photo(f, config_path@, *photo),
            None => r matches Err(e) && is_internal(e, "no suitable image URL found in Pexels response"@),
        },
{
    let image_url = match choose_image_url(photo) {
        Ok(u) => u,
        Err(e) => {
            return Err(e);
        },
    };
    Ok(FetchedPhoto {
        cached_path: cached_photo_path(config_path),
        photographer: photo.photographer.clone(),
        photographer_url: photo.photographer_url.clone(),
        photo_url: image_url,
    })
}

// ---------------------------------------------------------------------------
// Pexels requests: retries and choosing a photo
// ---------------------------------------------------------------------------

/// The number of requests made before giving up on rate limiting.
pub const PEXELS_MAX_ATTEMPTS: usize = 3;

/// The wait, in seconds, after the `attempt`-th rate-limited response: 1, 2, 4.
pub open spec fn retry_delay(attempt: nat) -> u64 {
    if attempt == 0 { 1 } else if attempt == 1 { 2 } else { 4 }
}

/// The progress of a Pexels search through its rate-limit retries.
#[derive(Debug, Clone)]
pub struct PexelsRetry {
    /// Requests answered so far with a rate-limit status.
    pub attempts: usize,
}

/// The HTTP status with which Pexels reports rate limiting.
pub const STATUS_TOO_MANY_REQUESTS: u16 = 429;

impl PexelsRetry {
    /// The search URL for an API key and a query.  Fails when the key is empty.
    pub fn start(api_key: &str, query: &str) -> (r: Result<(PexelsRetry, String), AppError>)
        ensures
            api_key@.len() == 0 ==> (r matches Err(e) && is_internal(e, "pexels API key is empty"@)),
            api_key@.len() > 0 ==> (r matches Ok((retry, url)) && retry.attempts == 0
                && url@ == spec_pexels_url(query@, PEXELS_PER_PAGE as nat, 1)),
    {
        if api_key.is_empty() {
            return Err(AppError::Internal(String::from_str("pexels API key is empty")));
        }
        Ok((PexelsRetry { attempts: 0 }, build_pexels_url(query, PEXELS_PER_PAGE, 1)))
    }

    /// Whether another request may be made.
    pub fn may_request(&self) -> (b: bool)
        ensures
            b == (self.attempts < PEXELS_MAX_ATTEMPTS),
    {
        self.attempts < PEXELS_MAX_ATTEMPTS
    }

    /// Handle the status of a response.  A rate-limit status counts an attempt
    /// and yields the seconds to wait before the next request; any other
    /// status yields `None` and the response body is to be read.
    pub fn on_status(&mut self, status: u16) -> (wait: Option<u64>)
        requires
            old(self).attempts < PEXELS_MAX_ATTEMPTS,
        ensures
            status == STATUS_TOO_MANY_REQUESTS ==> wait == Some(retry_delay(old(self).attempts as nat))
                && final(self).attempts == old(self).attempts + 1,
            status != STATUS_TOO_MANY_REQUESTS ==> wait is None && final(self).attempts == old(self).attempts,
    {
        if status == STATUS_TOO_MANY_REQUESTS {
            let delay: u64 = if self.attempts == 0 { 1 } else if self.attempts == 1 { 2 } else { 4 };
            self.attempts = self.attempts + 1;
            Some(delay)
        } else {
            None
        }
    }
}

/// The error reported when every attempt was rate limited.
pub fn rate_limited_error() -> (e: AppError)
    ensures
        is_internal(e, "pexels request rate limited after all retries"@),
{
    AppError::Internal(String::from_str("pexels request rate limited after all retries"))
}

/// The error reported when a Pexels request, its body or its JSON failed.
pub fn request_failed_error(detail: &str) -> (e: AppError)
    ensures
        is_internal(e, "pexels request failed: "@ + detail@),
{
    AppError::Internal(concat_str("pexels request failed: ", detail))
}

/// Calls `fastrand::usize(..n)`.  Claimed: the result is below `n`; which
/// index comes back is left to chance and not stated.
#[verifier::external_body]
fn random_index(n: usize) -> (i: usize)
    requires
        n > 0,
    ensures
        i < n,
{
    fastrand::usize(..n)
}

/// Take the photo at index `idx` out of a search response.
pub fn take_photo(response: PexelsPhotoResponse, idx: usize) -> (photo: PexelsPhoto)
    requires
        idx < response.photos@.len(),
    ensures
        photo == response.photos@[idx as int],
{
    let mut photos = response.photos;
    photos.swap_remove(idx)
}

/// Choose one photo of a search response at random.  Fails when the response
/// has no photos.
pub fn pick_random_photo(response: PexelsPhotoResponse) -> (r: Result<PexelsPhoto, AppError>)
    ensures
        response.photos@.len() == 0 ==> (r matches Err(e) && is_internal(e, "no results from Pexels"@)),
        response.photos@.len() > 0 ==> (r matches Ok(p) && response.photos@.contains(p)),
{
    if response.photos.len() == 0 {
        return Err(AppError::Internal(String::from_str("no results from Pexels")));
    }
    let idx = random_index(response.photos.len());
    let ghost photos = response.photos@;
    let photo = take_photo(response, idx);
    assert(photos[idx as int] == photo);
    Ok(photo)
}

// ---------------------------------------------------------------------------
// Cached photo checks
// ---------------------------------------------------------------------------

/// The maximum age of a cached photo, in seconds (seven days).
pub fn cache_max_age_secs() -> (s: u64)
    ensures
        s == CACHE_MAX_AGE_DAYS * 86400,
{
    CACHE_MAX_AGE_DAYS * 86400
}

/// The error for a cached photo that does not exist.
pub fn cached_photo_missing() -> (e: AppError)
    ensures
        is_internal(e, "cached photo not found"@),
{
    AppError::Internal(String::from_str("cached photo not found"))
}

/// A cached photo of the given age may be used unless it is older than the
/// maximum age (both in nanoseconds).
pub fn check_cached_photo_age(age_nanos: u128, max_age_nanos: u128) -> (r: Result<(), AppError>)
    ensures
        r is Ok <==> age_nanos <= max_age_nanos,
        r matches Err(e) ==> is_internal(e, "cached photo expired"@),
{
    if age_nanos > max_age_nanos {
        Err(AppError::Internal(String::from_str("cached photo expired")))
    } else {
        Ok(())
    }
}

/// A cached photo's bytes may be served only if they hold a supported image.
pub fn check_cached_photo_bytes(bytes: Vec<u8>) -> (r: Result<Vec<u8>, AppError>)
    ensures
        is_supported_image(bytes@) ==> (r matches Ok(b) && b@ == bytes@),
        !is_supported_image(bytes@) ==> (r matches Err(e) && is_internal(e, "cached photo corrupted"@)),
{
    if validate_image(bytes.as_slice()).is_err() {
        Err(AppError::Internal(String::from_str("cached photo corrupted")))
    } else {
        Ok(bytes)
    }
}

// ---------------------------------------------------------------------------
// Laws of the rotation state
// ---------------------------------------------------------------------------

/// Fetches never overlap: once a fetch has started, starting another one is
/// refused and changes nothing, until the first one finishes.
pub proof fn lemma_fetches_do_not_overlap(s: BackgroundState)
    ensures
        spec_begin_fetch(s).fetch_in_progress,
        spec_begin_fetch(spec_begin_fetch(s)) == spec_begin_fetch(s),
{
}

/// Finishing a fetch, whatever its outcome, lets the next fetch start.
pub proof fn lemma_finish_frees_fetch(s: BackgroundState, outcome: Result<FetchedPhoto, AppError>, now: u64)
    ensures
        !spec_finish_fetch(s, outcome, now).fetch_in_progress,
{
}

/// While a fetch runs no other one is due.
pub proof fn lemma_no_fetch_due_while_fetching(s: BackgroundState, rotate_enabled: bool, now: u64)
    requires
        s.fetch_in_progress,
    ensures
        !spec_needs_fetch(s, rotate_enabled, now),
{
}

/// After a successful fetch at time `t`, no new photo is due until
/// [`ROTATION_INTERVAL_SECS`] + 1 whole seconds have passed; from then on one
/// is due whenever rotation is enabled.
pub proof fn lemma_rotation_interval(s: BackgroundState, p: FetchedPhoto, t: u64, now: u64, rotate_enabled: bool)
    ensures
        now < t + (ROTATION_INTERVAL_SECS + 1) * NANOS_PER_SEC ==> !spec_needs_fetch(
            spec_finish_fetch(s, Ok(p), t),
            rotate_enabled,
            now,
        ),
        now >= t + (ROTATION_INTERVAL_SECS + 1) * NANOS_PER_SEC ==> spec_needs_fetch(
            spec_finish_fetch(s, Ok(p), t),
            rotate_enabled,
            now,
        ) == rotate_enabled,
{
}

/// A successful fetch records the photo cached in the configuration's cache
/// directory, its photographer's credits, the chosen image URL and the time
/// of the fetch, and leaves no fetch in progress.
pub proof fn lemma_fetch_records_photo(s: BackgroundState, f: FetchedPhoto, config_path: Seq<char>, photo: PexelsPhoto, now: u64)
    requires
        is_fetched_photo(f, config_path, photo),
    ensures
        opt_view(spec_finish_fetch(s, Ok(f), now).cached_path) == Some(spec_cached_photo_path(config_path)),
        opt_view(spec_finish_fetch(s, Ok(f), now).photographer) == Some(photo.photographer@),
        opt_view(spec_finish_fetch(s, Ok(f), now).photographer_url) == Some(photo.photographer_url@),
        best_url(photo.src) == opt_view(spec_finish_fetch(s, Ok(f), now).photo_url),
        spec_finish_fetch(s, Ok(f), now).last_fetch == Some(now),
        !spec_finish_fetch(s, Ok(f), now).fetch_in_progress,
{
}

/// After a failed fetch there is no photo, so a new one is due as soon as
/// rotation is enabled.
pub proof fn lemma_failed_fetch_retries(s: BackgroundState, e: AppError, now: u64)
    ensures
        spec_finish_fetch(s, Err(e), now).cached_path is None,
        spec_needs_fetch(spec_finish_fetch(s, Err(e), now), true, now),
{
}

/// The image formats accepted, by their leading bytes: data of at least
/// three bytes starting `FF D8 FF` (JPEG), of at least four starting
/// `89 50 4E 47` (PNG), and of at least twelve starting `52 49 46 46` with
/// `57 45 42 50` at bytes 8 to 11 (WebP), whatever else follows; nothing else.
pub proof fn lemma_supported_images_by_magic(d: Seq<u8>)
    ensures
        d.len() >= 3 && d[0] == 0xFFu8 && d[1] == 0xD8u8 && d[2] == 0xFFu8 ==> is_supported_image(d),
        d.len() >= 4 && d[0] == 0x89u8 && d[1] == 0x50u8 && d[2] == 0x4Eu8 && d[3] == 0x47u8 ==> is_supported_image(d),
        d.len() >= 12 && d[0] == 0x52u8 && d[1] == 0x49u8 && d[2] == 0x46u8 && d[3] == 0x46u8 && d[8] == 0x57u8 && d[9]
            == 0x45u8 && d[10] == 0x42u8 && d[11] == 0x50u8 ==> is_supported_image(d),
        is_supported_image(d) ==> (d.len() >= 3 && d[0] == 0xFFu8 && d[1] == 0xD8u8 && d[2] == 0xFFu8) || (d.len() >= 4
            && d[0] == 0x89u8 && d[1] == 0x50u8 && d[2] == 0x4Eu8 && d[3] == 0x47u8) || (d.len() >= 12 && d[0] == 0x52u8
            && d[1] == 0x49u8 && d[2] == 0x46u8 && d[3] == 0x46u8 && d[8] == 0x57u8 && d[9] == 0x45u8 && d[10] == 0x42u8
            && d[11] == 0x50u8),
{
}

} // verus!
