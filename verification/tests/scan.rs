use strandgut::scan::{claim_scan, release_scan, scan_conflict_message, ScanClaim};
use strandgut::scan::{hyphenate_spaces, identify_lowered, title_in_lowered};
use strandgut::error::AppError;
use strandgut::scan::{
    default_scan_depth, extract_title, extract_title_checked, get_ports, http_info_from_response, identify_service,
    scan_result, slugify, sort_by_port, HttpInfo, ScanRequest, ScanResult,
};

const SIMPLE_PORTS: &[u16] = &[80, 443, 8080, 8443, 3000, 5000, 8006, 9090, 9443];

const MEDIUM_EXTRA_PORTS: &[u16] = &[
    81, 4443, 8000, 8001, 8002, 8003, 8004, 8005, 8007, 8008, 8009, 8010, 8888, 9000, 9001, 9002,
    9003, 9004, 9005, 9006, 9007, 9008, 9009, 9010,
];

#[test]
fn test_get_ports_simple() {
    let ports = get_ports("simple");
    assert_eq!(ports, SIMPLE_PORTS);
}

#[test]
fn test_get_ports_medium() {
    let ports = get_ports("medium");
    let mut expected = SIMPLE_PORTS.to_vec();
    expected.extend_from_slice(MEDIUM_EXTRA_PORTS);
    assert_eq!(ports, expected);
}

#[test]
fn get_ports_deep_and_unknown() {
    let deep = get_ports("deep");
    assert_eq!(deep.len(), 65535);
    assert_eq!(deep[0], 1);
    assert_eq!(deep[65534], 65535);
    assert_eq!(get_ports("full"), SIMPLE_PORTS);
    assert_eq!(get_ports(""), SIMPLE_PORTS);
    assert_eq!(get_ports("Medium"), SIMPLE_PORTS);
}

#[test]
fn test_title_with_attributes() {
    let html = r#"<html><head><title lang="en">My App</title></head></html>"#;
    assert_eq!(extract_title(html), Some("My App".to_string()));
}

#[test]
fn test_title_html_entities() {
    let html = "<html><head><title>&amp; Foo</title></head></html>";
    assert_eq!(extract_title(html), Some("& Foo".to_string()));
}

#[test]
fn test_title_multiline_normalized() {
    let html = "<html><head><title>\n  Multi\n  Line\n</title></head></html>";
    assert_eq!(extract_title(html), Some("Multi Line".to_string()));
}

#[test]
fn test_title_missing() {
    let html = "<html><body>No title</body></html>";
    assert_eq!(extract_title(html), None);
}

#[test]
fn title_edge_cases() {
    assert_eq!(extract_title("<TITLE>UPPERCASE TITLE</TITLE>"), Some("UPPERCASE TITLE".to_string()));
    assert_eq!(extract_title("<title>   </title>"), None);
    assert_eq!(extract_title("<title>never closed"), None);
    assert_eq!(extract_title("<title"), None);
    assert_eq!(
        extract_title("<title>&lt;b&gt; &quot;x&quot; &#39;y&#39;&nbsp;z &amp;amp;</title>"),
        Some("<b> \"x\" 'y' z &amp;".to_string())
    );
    assert_eq!(
        extract_title("<title>Dienstüberwachung • Status</title>"),
        Some("Dienstüberwachung • Status".to_string())
    );
    assert_eq!(extract_title_checked("<title>A</title>"), Some(Some("A".to_string())));
}

#[test]
fn title_offsets_that_split_a_character_are_refused() {
    // 'İ' (2 bytes) lowercases to "i̇" (3 bytes), so the offset found in the
    // lowercased page falls inside the 'é' of the page itself.
    let html = "İ<title>é</title>";
    assert_eq!(extract_title_checked(html), None);
    // Shifted offsets that still fall on character boundaries take the text there.
    assert_eq!(extract_title_checked("İ<title>Tİtle</title>"), Some(Some("İtle</".to_string())));
}

#[test]
fn test_identify_service_known_titles() {
    assert_eq!(identify_service(&Some("Proxmox VE".into())), Some("Proxmox".to_string()));
    assert_eq!(identify_service(&Some("Pi-hole Admin".into())), Some("Pi-hole".to_string()));
    assert_eq!(identify_service(&Some("pi hole dashboard".into())), Some("Pi-hole".to_string()));
    assert_eq!(identify_service(&Some("Synology DiskStation".into())), Some("Synology".to_string()));
    assert_eq!(identify_service(&Some("Portainer".into())), Some("Portainer".to_string()));
    assert_eq!(identify_service(&Some("Home Assistant".into())), Some("Home Assistant".to_string()));
    assert_eq!(identify_service(&Some("Jellyfin".into())), Some("Jellyfin".to_string()));
    assert_eq!(identify_service(&Some("Plex Media Server".into())), Some("Plex".to_string()));
    assert_eq!(identify_service(&Some("Nextcloud".into())), Some("Nextcloud".to_string()));
}

#[test]
fn test_identify_service_unknown_and_empty() {
    assert_eq!(identify_service(&Some("Random App".into())), None);
    assert_eq!(identify_service(&None), None);
}

#[test]
fn identify_service_first_keyword_wins() {
    assert_eq!(identify_service(&Some("Plex on PROXMOX".into())), Some("Proxmox".to_string()));
    assert_eq!(identify_service(&Some("PIHOLE".into())), Some("Pi-hole".to_string()));
}

#[test]
fn test_slugify() {
    assert_eq!(slugify("Home Assistant"), "home-assistant");
    assert_eq!(slugify("Proxmox"), "proxmox");
    assert_eq!(slugify("My  App"), "my--app");
    assert_eq!(slugify(""), "");
}

#[test]
fn http_info_from_answers() {
    let ok = http_info_from_response(200, "<title>Home Assistant</title>").unwrap();
    assert_eq!(
        ok,
        HttpInfo {
            service_name: Some("Home Assistant".into()),
            icon_slug: Some("home-assistant".into()),
            title: Some("Home Assistant".into()),
        }
    );
    let plain = http_info_from_response(204, "").unwrap();
    assert_eq!(plain, HttpInfo { service_name: None, icon_slug: None, title: None });
    assert_eq!(
        http_info_from_response(404, "<title>x</title>"),
        Err(AppError::Internal("HTTP status 404".into()))
    );
    assert_eq!(http_info_from_response(199, ""), Err(AppError::Internal("HTTP status 199".into())));
    assert_eq!(
        http_info_from_response(200, "İ<title>é</title>"),
        Err(AppError::Internal("page title could not be read".into()))
    );
}

#[test]
fn scan_results_and_ordering() {
    let info = HttpInfo { service_name: Some("Plex".into()), icon_slug: Some("plex".into()), title: Some("Plex".into()) };
    let a = scan_result("h", 8080, Some(info));
    assert!(a.reachable);
    assert_eq!(a.service_name.as_deref(), Some("Plex"));
    let b = scan_result("h", 80, None);
    assert!(!b.reachable);
    assert_eq!(b.title, None);
    let c = ScanResult { host: "other".into(), ..b.clone() };
    let sorted = sort_by_port(vec![a.clone(), b.clone(), c.clone()]);
    assert_eq!(sorted, vec![b, c, a]);
}

#[test]
fn scan_request_targets() {
    assert_eq!(default_scan_depth(), "simple");
    let explicit = ScanRequest { host: "10.0.0.2".into(), ports: Some(vec![22, 80]), depth: "deep".into() };
    assert_eq!(explicit.into_target(), ("10.0.0.2".to_string(), vec![22, 80]));
    let by_depth = ScanRequest { host: "h".into(), ports: None, depth: "simple".into() };
    assert_eq!(by_depth.into_target().1, SIMPLE_PORTS);
}

#[test]
fn lowered_variants() {
    assert_eq!(identify_lowered("my plex box"), Some("Plex".to_string()));
    assert_eq!(identify_lowered("My Plex Box"), None);
    assert_eq!(hyphenate_spaces("A b  C"), "A-b--C");
    assert_eq!(title_in_lowered("<TITLE>Hi</TITLE>", "<title>hi</title>"), Some(Some("Hi".to_string())));
    assert_eq!(title_in_lowered("<TITLE>Hi</TITLE>", "<TITLE>Hi</TITLE>"), Some(None));
}

#[test]
fn scan_flag_claims() {
    assert_eq!(claim_scan(false), (true, ScanClaim::Started));
    assert_eq!(claim_scan(true), (true, ScanClaim::AlreadyRunning));
    assert!(!release_scan());
    assert_eq!(scan_conflict_message(), "scan already in progress");
}
