use strandgut::background::get_cache_dir;
use strandgut::icons::{merge_catalogue, search_entries, IconCache, IconEntry};
use strandgut::scan::{extract_title, get_ports};

fn entry(n: &str, u: &str) -> IconEntry {
    IconEntry { n: n.into(), u: u.into(), s: "s".into() }
}

#[test]
fn icon_cache_lies_beside_photo_cache() {
    for config in ["/data/config.toml", "./subdir/config.toml", "/config.toml"] {
        let icons = IconCache::new(config).cache_path;
        assert_eq!(icons, format!("{}/icons.json", get_cache_dir(config)));
    }
    // A bare file name has an empty parent: the two caches differ there.
    assert_eq!(IconCache::new("config.toml").cache_path, "cache/icons.json");
    assert_eq!(get_cache_dir("config.toml"), "./cache");
}

#[test]
fn catalogue_names_are_distinct() {
    let merged = merge_catalogue(vec![
        Ok(vec![entry("Gitea", "1"), entry("gitea", "2"), entry("GITEA", "3")]),
        Ok(vec![entry("Gitea", "4"), entry("Forgejo", "5")]),
    ])
    .unwrap();
    let lower: Vec<String> = merged.iter().map(|e| e.n.to_lowercase()).collect();
    assert_eq!(lower, vec!["forgejo", "gitea"]);
    assert_eq!(merged[1].u, "1");
}

#[test]
fn search_answer_is_ranked_and_bounded() {
    let entries = vec![entry("b plex", "1"), entry("Plex", "2"), entry("plexx", "3"), entry("a plex", "4")];
    let first = search_entries(entries.clone(), "plex", 3);
    let second = search_entries(entries, "plex", 3);
    assert_eq!(first, second);
    assert_eq!(first.iter().map(|e| e.u.as_str()).collect::<Vec<_>>(), vec!["2", "3", "4"]);
}

#[test]
fn every_depth_scans_the_quick_ports() {
    let simple = get_ports("simple");
    for depth in ["simple", "medium", "deep", "other"] {
        let ports = get_ports(depth);
        assert!(simple.iter().all(|p| ports.contains(p)), "{depth}");
    }
    let deep = get_ports("deep");
    assert!(deep.windows(2).all(|w| w[0] < w[1]));
}

#[test]
fn titles_are_single_spaced() {
    let t = extract_title("<title>\t a \u{a0}\u{2003} b\r\n\nc  </title>").unwrap();
    assert_eq!(t, "a b c");
}
