//! The embedded single-page application: which asset a request path names,
//! its MIME type, and its caching policy.  Unknown asset paths fall back to
//! the application shell (`index.html`) so that client-side routing works.

use vstd::prelude::*;
use crate::error::AppError;
use crate::text::{chars_of, ends_with, ends_with_chars, split_chars, split_on, starts_with, starts_with_chars,
    lemma_split_on_nonempty, str_equals_chars, string_of};

verus! {

/// The assets embedded in the application, by path relative to `assets/`.
pub open spec fn asset_names() -> Seq<Seq<char>> {
    seq![
        "css/reset.css"@, "css/tokens.css"@, "css/themes.css"@, "css/layout.css"@,
        "css/components.css"@, "css/animations.css"@, "css/style.css"@,
        "js/app.js"@, "js/api.js"@, "js/state.js"@, "js/grid.js"@, "js/icon-picker.js"@,
        "js/drag.js"@, "js/edit.js"@, "js/add-dialog.js"@, "js/scan.js"@, "js/theme.js"@,
        "js/pill-switch.js"@, "js/background.js"@, "js/ping.js"@, "js/i18n/en.js"@,
        "js/i18n/de.js"@, "img/logo.svg"@, "img/background.webp"@, "index.html"@,
    ]
}

fn asset_list() -> (v: Vec<&'static str>)
    ensures
        v@.len() == asset_names().len(),
        forall|i: int| 0 <= i < v@.len() ==> #[trigger] v@[i]@ == asset_names()[i],
{
    let v: Vec<&'static str> = vec![
        "css/reset.css", "css/tokens.css", "css/themes.css", "css/layout.css",
        "css/components.css", "css/animations.css", "css/style.css",
        "js/app.js", "js/api.js", "js/state.js", "js/grid.js", "js/icon-picker.js",
        "js/drag.js", "js/edit.js", "js/add-dialog.js", "js/scan.js", "js/theme.js",
        "js/pill-switch.js", "js/background.js", "js/ping.js", "js/i18n/en.js",
        "js/i18n/de.js", "img/logo.svg", "img/background.webp", "index.html",
    ];
    v
}

/// An embedded asset, named by its path relative to `assets/`.
#[derive(Debug, Clone, PartialEq, Eq)]
pub struct AssetData {
    pub name: &'static str,
}

/// A response serving an embedded asset: its headers and the asset itself.
#[derive(Debug, Clone, PartialEq, Eq)]
pub struct AssetResponse {
    pub content_type: &'static str,
    pub cache_control: &'static str,
    pub asset: AssetData,
}

/// Look up an embedded asset by its path (relative to `assets/`).
pub fn get_asset(path: &str) -> (r: Option<AssetData>)
    ensures
        r is Some <==> asset_names().contains(path@),
        r matches Some(a) ==> a.name@ == path@,
{
    let names = asset_list();
    let chars = chars_of(path);
    let mut i: usize = 0;
    while i < names.len()
        invariant
            i <= names@.len(),
            names@.len() == asset_names().len(),
            forall|k: int| 0 <= k < names@.len() ==> #[trigger] names@[k]@ == asset_names()[k],
            chars@ == path@,
            forall|k: int| 0 <= k < i ==> asset_names()[k] != path@,
        decreases names@.len() - i,
    {
        let name = names[i];
        if str_equals_chars(name, chars.as_slice()) {
            assert(asset_names()[i as int] == path@);
            return Some(AssetData { name });
        }
        i = i + 1;
    }
    assert(!asset_names().contains(path@)) by {
        if asset_names().contains(path@) {
            let k = choose|k: int| 0 <= k < asset_names().len() && asset_names()[k] == path@;
            assert(asset_names()[k] != path@);
        }
    }
    None
}

/// The MIME type for a file path, by extension.
pub open spec fn spec_mime(path: Seq<char>) -> Seq<char> {
    if ends_with(path, ".js"@) {
        "application/javascript"@
    } else if ends_with(path, ".css"@) {
        "text/css"@
    } else if ends_with(path, ".html"@) {
        "text/html"@
    } else if ends_with(path, ".svg"@) {
        "image/svg+xml"@
    } else if ends_with(path, ".webp"@) {
        "image/webp"@
    } else {
        "application/octet-stream"@
    }
}

fn str_ends_with(s: &[char], suffix: &str) -> (b: bool)
    ensures
        b == ends_with(s@, suffix@),
{
    let p = chars_of(suffix);
    ends_with_chars(s, p.as_slice())
}

/// Map a file path to its MIME type string.
pub fn detect_mime(path: &str) -> (mime: &'static str)
    ensures
        mime@ == spec_mime(path@),
{
    let chars = chars_of(path);
    if str_ends_with(chars.as_slice(), ".js") {
        return "application/javascript";
    }
    if str_ends_with(chars.as_slice(), ".css") {
        return "text/css";
    }
    if str_ends_with(chars.as_slice(), ".html") {
        return "text/html";
    }
    if str_ends_with(chars.as_slice(), ".svg") {
        return "image/svg+xml";
    }
    if str_ends_with(chars.as_slice(), ".webp") {
        return "image/webp";
    }
    "application/octet-stream"
}

/// The asset path a request path names: without a leading `/assets/` and
/// without a query string.
pub open spec fn clean_asset_path(path: Seq<char>) -> Seq<char> {
    let stripped = if starts_with(path, "/assets/"@) { path.skip("/assets/"@.len() as int) } else { path };
    split_on(stripped, '?')[0]
}

/// The asset path a request path names.
pub fn clean_path(path: &str) -> (clean: String)
    ensures
        clean@ == clean_asset_path(path@),
{
    let chars = chars_of(path);
    let prefix = chars_of("/assets/");
    let stripped: Vec<char> = if starts_with_chars(chars.as_slice(), prefix.as_slice()) {
        let mut rest: Vec<char> = Vec::new();
        let mut i: usize = prefix.len();
        while i < chars.len()
            invariant
                prefix@.len() <= i <= chars@.len(),
                rest@ == chars@.subrange(prefix@.len() as int, i as int),
            decreases chars@.len() - i,
        {
            rest.push(chars[i]);
            assert(chars@.subrange(prefix@.len() as int, i + 1) =~= chars@.subrange(prefix@.len() as int, i as int).push(chars@[i as int]));
            i = i + 1;
        }
        assert(rest@ =~= chars@.skip(prefix@.len() as int));
        rest
    } else {
        chars
    };
    proof {
        lemma_split_on_nonempty(stripped@, '?');
    }
    let pieces = split_chars(stripped.as_slice(), '?');
    string_of(pieces[0].as_slice())
}

/// The cache policy for assets other than the application shell.
pub open spec fn asset_cache_control() -> Seq<char> {
    "public, max-age=3600"@
}

/// Serve the SPA entry point (`index.html`), which clients must not cache.
pub fn serve_index() -> (r: Result<AssetResponse, AppError>)
    ensures
        r matches Ok(resp) && resp.content_type@ == "text/html"@ && resp.cache_control@ == "no-cache"@
            && resp.asset.name@ == "index.html"@,
{
    proof {
        assert(asset_names()[24] == "index.html"@);
    }
    match get_asset("index.html") {
        Some(asset) => Ok(AssetResponse { content_type: "text/html", cache_control: "no-cache", asset }),
        None => Err(AppError::NotFound(String::from_str("index.html"))),
    }
}

/// Serve a static asset: the request path loses a leading `/assets/` and any
/// query string; a known asset is served with its MIME type and a one-hour
/// cache policy, anything else falls back to the application shell.
pub fn serve_asset(path: &str) -> (r: Result<AssetResponse, AppError>)
    ensures
        asset_names().contains(clean_asset_path(path@)) ==> (r matches Ok(resp)
            && resp.asset.name@ == clean_asset_path(path@)
            && resp.content_type@ == spec_mime(clean_asset_path(path@))
            && resp.cache_control@ == asset_cache_control()),
        !asset_names().contains(clean_asset_path(path@)) ==> (r matches Ok(resp)
            && resp.content_type@ == "text/html"@ && resp.cache_control@ == "no-cache"@
            && resp.asset.name@ == "index.html"@),
{
    let clean = clean_path(path);
    match get_asset(clean.as_str()) {
        Some(asset) => {
            let content_type = detect_mime(clean.as_str());
            Ok(AssetResponse { content_type, cache_control: "public, max-age=3600", asset })
        },
        None => serve_index(),
    }
}

/// The application's files are all embedded, each under its own path: the
/// stylesheets, the scripts (with both locale bundles), the logo, the
/// background and the shell; there are 25 of them.
pub proof fn lemma_assets_embedded()
    ensures
        asset_names().contains("css/reset.css"@),
        asset_names().contains("css/tokens.css"@),
        asset_names().contains("css/themes.css"@),
        asset_names().contains("css/layout.css"@),
        asset_names().contains("css/components.css"@),
        asset_names().contains("css/animations.css"@),
        asset_names().contains("css/style.css"@),
        asset_names().contains("js/app.js"@),
        asset_names().contains("js/api.js"@),
        asset_names().contains("js/state.js"@),
        asset_names().contains("js/grid.js"@),
        asset_names().contains("js/icon-picker.js"@),
        asset_names().contains("js/drag.js"@),
        asset_names().contains("js/edit.js"@),
        asset_names().contains("js/add-dialog.js"@),
        asset_names().contains("js/scan.js"@),
        asset_names().contains("js/theme.js"@),
        asset_names().contains("js/pill-switch.js"@),
        asset_names().contains("js/background.js"@),
        asset_names().contains("js/ping.js"@),
        asset_names().contains("js/i18n/en.js"@),
        asset_names().contains("js/i18n/de.js"@),
        asset_names().contains("img/logo.svg"@),
        asset_names().contains("img/background.webp"@),
        asset_names().contains("index.html"@),
        asset_names().len() == 25,
{
    assert(asset_names()[0] == "css/reset.css"@);
    assert(asset_names()[1] == "css/tokens.css"@);
    assert(asset_names()[2] == "css/themes.css"@);
    assert(asset_names()[3] == "css/layout.css"@);
    assert(asset_names()[4] == "css/components.css"@);
    assert(asset_names()[5] == "css/animations.css"@);
    assert(asset_names()[6] == "css/style.css"@);
    assert(asset_names()[7] == "js/app.js"@);
    assert(asset_names()[8] == "js/api.js"@);
    assert(asset_names()[9] == "js/state.js"@);
    assert(asset_names()[10] == "js/grid.js"@);
    assert(asset_names()[11] == "js/icon-picker.js"@);
    assert(asset_names()[12] == "js/drag.js"@);
    assert(asset_names()[13] == "js/edit.js"@);
    assert(asset_names()[14] == "js/add-dialog.js"@);
    assert(asset_names()[15] == "js/scan.js"@);
    assert(asset_names()[16] == "js/theme.js"@);
    assert(asset_names()[17] == "js/pill-switch.js"@);
    assert(asset_names()[18] == "js/background.js"@);
    assert(asset_names()[19] == "js/ping.js"@);
    assert(asset_names()[20] == "js/i18n/en.js"@);
    assert(asset_names()[21] == "js/i18n/de.js"@);
    assert(asset_names()[22] == "img/logo.svg"@);
    assert(asset_names()[23] == "img/background.webp"@);
    assert(asset_names()[24] == "index.html"@);
}

} // verus!
