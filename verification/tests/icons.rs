use strandgut::icons::{merge_keyed, rank_entries};
use strandgut::error::AppError;
use strandgut::icons::{
    accepts, dashboard_icons_entries, entry_for, humanize_path, listing_url, match_score, merge_catalogue,
    search_entries, search_query, simple_icons_entries, IconCache, IconEntry, IconSource, ICON_CACHE_MAX_AGE_SECS,
};

fn entry(n: &str, u: &str, s: &str) -> IconEntry {
    IconEntry { n: n.into(), u: u.into(), s: s.into() }
}

fn names(v: &[IconEntry]) -> Vec<&str> {
    v.iter().map(|e| e.n.as_str()).collect()
}

#[test]
fn test_humanize_path() {
    assert_eq!(humanize_path("svg/plex.svg"), "Plex");
    assert_eq!(humanize_path("icons/home-assistant.svg"), "Home Assistant");
    assert_eq!(humanize_path("Papirus/64x64/apps/visual-studio-code.svg"), "Visual Studio Code");
    assert_eq!(humanize_path("simple.svg"), "Simple");
}

#[test]
fn humanize_path_edge_cases() {
    assert_eq!(humanize_path("a/b/my__weird--NAME.tar.gz"), "My Weird Name");
    assert_eq!(humanize_path(""), "");
    assert_eq!(humanize_path("dir/"), "");
    assert_eq!(humanize_path(".hidden"), "");
    assert_eq!(humanize_path("x/ßtraße.svg"), "SStraße");
}

#[test]
fn test_match_score() {
    assert!(match_score("plex", "plex") < match_score("plex media", "plex"));
    assert!(match_score("plex media", "plex") < match_score("simple plex", "plex"));
}

#[test]
fn match_score_values() {
    assert_eq!(match_score("plex", "plex"), 0);
    assert_eq!(match_score("plex media", "plex"), 1);
    assert_eq!(match_score("simple plex", "plex"), 2);
    assert_eq!(match_score("", ""), 0);
    assert_eq!(match_score("abc", ""), 1);
}

#[test]
fn test_cache_new() {
    let cache = IconCache::new("/data/config.toml");
    assert_eq!(cache.cache_path, "/data/cache/icons.json");
}

#[test]
fn test_cache_new_no_parent() {
    let cache = IconCache::new("config.toml");
    assert_eq!(cache.cache_path, "cache/icons.json");
}

#[test]
fn cache_dir_and_freshness() {
    let cache = IconCache::new("/data/config.toml");
    assert_eq!(cache.cache_dir(), "/data/cache");
    assert_eq!(cache.refresh_interval_secs, ICON_CACHE_MAX_AGE_SECS);
    assert_eq!(ICON_CACHE_MAX_AGE_SECS, 7 * 86400);
    assert!(cache.is_fresh_age(Some(0)));
    assert!(cache.is_fresh_age(Some(7 * 86400 - 1)));
    assert!(!cache.is_fresh_age(Some(7 * 86400)));
}

#[test]
fn test_is_fresh_no_file() {
    let cache = IconCache { cache_path: "/tmp/nonexistent/icons.json".into(), refresh_interval_secs: ICON_CACHE_MAX_AGE_SECS };
    assert!(!cache.is_fresh_age(None));
}

#[test]
fn test_search_empty_query() {
    let results = search_entries(vec![entry("Plex", "u", "s")], "", 50);
    assert!(results.is_empty());
    assert!(search_entries(vec![entry("Plex", "u", "s")], "   ", 50).is_empty());
}

#[test]
fn test_search_filters_and_sorts() {
    let entries = vec![
        entry("Plex", "https://example.com/plex.svg", "s1"),
        entry("Plex Media Server", "https://example.com/plex-media.svg", "s2"),
        entry("Emby", "https://example.com/emby.svg", "s3"),
        entry("Simple Plex", "https://example.com/simple-plex.svg", "s4"),
    ];
    let results = search_entries(entries, "plex", 50);
    assert_eq!(results.len(), 3);
    assert_eq!(results[0].n, "Plex");
    assert_eq!(results[1].n, "Plex Media Server");
    assert_eq!(results[2].n, "Simple Plex");
}

#[test]
fn test_search_respects_limit() {
    let entries: Vec<IconEntry> = (1..=10)
        .map(|i| entry(&format!("Service {i}"), &format!("https://example.com/s{i}.svg"), "test"))
        .collect();
    let results = search_entries(entries, "service", 3);
    assert_eq!(results.len(), 3);
    assert_eq!(names(&results), vec!["Service 1", "Service 10", "Service 2"]);
}

#[test]
fn search_is_case_insensitive_trims_and_keeps_ties_in_order() {
    let entries = vec![
        entry("zeta plex", "1", "a"),
        entry("PLEX", "2", "a"),
        entry("Alpha Plex", "3", "a"),
        entry("plex", "4", "b"),
        entry("Plexamp", "5", "a"),
    ];
    let results = search_entries(entries, "  PleX ", 10);
    assert_eq!(
        results.iter().map(|e| e.u.as_str()).collect::<Vec<_>>(),
        vec!["2", "4", "5", "3", "1"]
    );
    assert!(search_entries(vec![entry("Plex", "u", "s")], "plex", 0).is_empty());
    assert_eq!(search_query("  ÄBC\t"), "äbc");
}

#[test]
fn listing_urls() {
    assert_eq!(
        listing_url(IconSource::DashboardIcons),
        "https://api.github.com/repos/homarr-labs/dashboard-icons/git/trees/main?recursive=true"
    );
    assert_eq!(
        listing_url(IconSource::Selfhst),
        "https://data.jsdelivr.com/v1/packages/gh/selfhst/icons@master?structure=flat"
    );
    assert_eq!(
        listing_url(IconSource::HomelabSvg),
        "https://data.jsdelivr.com/v1/packages/gh/loganmarchione/homelab-svg-assets@main?structure=flat"
    );
}

#[test]
fn source_filters_and_entries() {
    assert!(accepts(IconSource::DashboardIcons, "svg/plex.svg"));
    assert!(!accepts(IconSource::DashboardIcons, "png/plex.png"));
    assert!(!accepts(IconSource::SimpleIcons, "svg/plex.svg"));
    assert!(accepts(IconSource::Papirus, "Papirus/64x64/apps/code.svg"));
    assert_eq!(
        entry_for(IconSource::SimpleIcons, "icons/homeassistant.svg"),
        entry("homeassistant", "https://cdn.simpleicons.org/homeassistant", "simple-icons")
    );
    assert_eq!(
        entry_for(IconSource::Selfhst, "svg/pi-hole.svg"),
        entry("Pi Hole", "https://cdn.jsdelivr.net/gh/selfhst/icons/svg/pi-hole.svg", "selfh.st")
    );
    let paths = vec!["svg/plex.svg".to_string(), "README.md".to_string(), "svg/home-assistant.svg".to_string()];
    let d = dashboard_icons_entries(&paths);
    assert_eq!(names(&d), vec!["Plex", "Home Assistant"]);
    assert_eq!(d[1].u, "https://cdn.jsdelivr.net/gh/homarr-labs/dashboard-icons/svg/home-assistant.svg");
    assert!(simple_icons_entries(&paths).is_empty());
}

#[test]
fn merge_keeps_first_of_each_name_and_sorts() {
    let results = vec![
        Ok(vec![entry("Plex", "d1", "dashboard-icons"), entry("Zulu", "d2", "dashboard-icons")]),
        Err("selfh.st: request failed".to_string()),
        Ok(vec![entry("plex", "s1", "simple-icons"), entry("alpha", "s2", "simple-icons"), entry("Zulu", "s3", "simple-icons")]),
    ];
    let merged = merge_catalogue(results).unwrap();
    assert_eq!(names(&merged), vec!["alpha", "Plex", "Zulu"]);
    assert_eq!(merged[1].u, "d1");
    assert_eq!(merged[2].u, "d2");
}

#[test]
fn merge_fails_when_no_source_gave_entries() {
    let results: Vec<Result<Vec<IconEntry>, String>> = vec![Err("a".into()), Ok(vec![]), Err("b".into())];
    assert_eq!(merge_catalogue(results), Err(AppError::Internal("all icon sources failed".into())));
    assert_eq!(merge_catalogue(vec![]), Err(AppError::Internal("all icon sources failed".into())));
}

#[test]
fn rank_entries_uses_the_given_names() {
    let ps = vec![
        (entry("Zeta", "1", "a"), "b-plex".to_string()),
        (entry("Alpha", "2", "a"), "plex".to_string()),
        (entry("Beta", "3", "a"), "a-plex".to_string()),
        (entry("Gamma", "4", "a"), "plexamp".to_string()),
        (entry("Delta", "5", "a"), "emby".to_string()),
    ];
    let r = rank_entries(ps, "plex", 10);
    assert_eq!(names(&r), vec!["Alpha", "Gamma", "Beta", "Zeta"]);
}

#[test]
fn merge_keyed_uses_the_given_names() {
    let ps = vec![
        (entry("B", "1", "a"), "same".to_string()),
        (entry("A", "2", "a"), "other".to_string()),
        (entry("C", "3", "a"), "same".to_string()),
    ];
    let m = merge_keyed(ps);
    assert_eq!(names(&m), vec!["A", "B"]);
    assert!(merge_keyed(vec![]).is_empty());
}
