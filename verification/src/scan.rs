//! Port lists for scans, and what an HTTP answer tells about the service
//! behind a port: the page title, the product it names, and its icon slug.

use vstd::prelude::*;
use crate::error::{is_internal, AppError};
use crate::text::{lemma_collapsed_single_spaced, single_spaced, chars_of, concat_str, decimal, decimal_chars, contains_chars, contains_seq, find_bytes, find_first, join, join_chars,
    lemma_find_first, replace_all, replace_chars, spec_lowercase, split_whitespace, str_equals_chars,
    string_of, to_lowercase, words};
use crate::sorting::{is_stable_sort, lemma_stable_insert, lemma_stable_sort_empty};
use vstd::utf8::{decode_utf8, encode_utf8, encode_utf8_decode_utf8, valid_utf8};

verus! {

/// Result of scanning a single host:port.
#[derive(Debug, Clone, PartialEq, Eq)]
pub struct ScanResult {
    pub host: String,
    pub port: u16,
    pub service_name: Option<String>,
    pub icon_slug: Option<String>,
    pub title: Option<String>,
    pub reachable: bool,
}

// ---------------------------------------------------------------------------
// Port lists
// ---------------------------------------------------------------------------

/// The ports of a quick scan.
pub open spec fn simple_ports() -> Seq<u16> {
    seq![80u16, 443, 8080, 8443, 3000, 5000, 8006, 9090, 9443]
}

/// The ports a thorough scan adds to the quick ones.
pub open spec fn medium_extra_ports() -> Seq<u16> {
    seq![81u16, 4443, 8000, 8001, 8002, 8003, 8004, 8005, 8007, 8008, 8009, 8010, 8888, 9000, 9001,
        9002, 9003, 9004, 9005, 9006, 9007, 9008, 9009, 9010]
}

/// Every port from 1 to 65535, in increasing order.
pub open spec fn all_ports() -> Seq<u16> {
    Seq::new(65535, |i: int| (i + 1) as u16)
}

/// The ports scanned at each depth; an unknown depth scans the quick list.
pub open spec fn spec_ports(depth: Seq<char>) -> Seq<u16> {
    if depth == "medium"@ {
        simple_ports() + medium_extra_ports()
    } else if depth == "deep"@ {
        all_ports()
    } else {
        simple_ports()
    }
}

fn simple_port_list() -> (v: Vec<u16>)
    ensures
        v@ == simple_ports(),
{
    let v: Vec<u16> = vec![80, 443, 8080, 8443, 3000, 5000, 8006, 9090, 9443];
    assert(v@ =~= simple_ports());
    v
}

/// Return the port list for a given scan depth (`simple`, `medium` or `deep`).
pub fn get_ports(depth: &str) -> (ports: Vec<u16>)
    ensures
        ports@ == spec_ports(depth@),
{
    let medium = chars_of("medium");
    let deep = chars_of("deep");
    if str_equals_chars(depth, medium.as_slice()) {
        let mut ports = simple_port_list();
        let extra: Vec<u16> = vec![81, 4443, 8000, 8001, 8002, 8003, 8004, 8005, 8007, 8008, 8009,
            8010, 8888, 9000, 9001, 9002, 9003, 9004, 9005, 9006, 9007, 9008, 9009, 9010];
        assert(extra@ =~= medium_extra_ports());
        let mut i: usize = 0;
        let ghost base = ports@;
        while i < extra.len()
            invariant
                i <= extra@.len(),
                ports@ == base + extra@.take(i as int),
            decreases extra@.len() - i,
        {
            ports.push(extra[i]);
            assert(extra@.take(i + 1) =~= extra@.take(i as int).push(extra@[i as int]));
            i = i + 1;
        }
        assert(extra@.take(extra@.len() as int) =~= extra@);
        ports
    } else if str_equals_chars(depth, deep.as_slice()) {
        let mut ports: Vec<u16> = Vec::new();
        let mut p: u32 = 1;
        while p <= 65535
            invariant
                1 <= p <= 65536,
                ports@.len() == p - 1,
                forall|k: int| 0 <= k < ports@.len() ==> #[trigger] ports@[k] == (k + 1) as u16,
            decreases 65536 - p,
        {
            ports.push(p as u16);
            p = p + 1;
        }
        assert(ports@ =~= all_ports());
        ports
    } else {
        simple_port_list()
    }
}

// ---------------------------------------------------------------------------
// Service identification
// ---------------------------------------------------------------------------

/// The product a lower-case page title names, by keyword.
pub open spec fn spec_identify_lowered(l: Seq<char>) -> Option<Seq<char>> {
    if contains_seq(l, "proxmox"@) {
        Some("Proxmox"@)
    } else if contains_seq(l, "pi-hole"@) || contains_seq(l, "pihole"@) || contains_seq(l, "pi hole"@) {
        Some("Pi-hole"@)
    } else if contains_seq(l, "synology"@) {
        Some("Synology"@)
    } else if contains_seq(l, "portainer"@) {
        Some("Portainer"@)
    } else if contains_seq(l, "home assistant"@) {
        Some("Home Assistant"@)
    } else if contains_seq(l, "jellyfin"@) {
        Some("Jellyfin"@)
    } else if contains_seq(l, "plex"@) {
        Some("Plex"@)
    } else if contains_seq(l, "nextcloud"@) {
        Some("Nextcloud"@)
    } else {
        None
    }
}

/// The product a page title names, by case-insensitive keyword.
pub open spec fn spec_identify(title: Option<Seq<char>>) -> Option<Seq<char>> {
    match title {
        None => None,
        Some(t) => spec_identify_lowered(spec_lowercase(t)),
    }
}

/// The names `identify_service` can report.
pub open spec fn known_services() -> Seq<Seq<char>> {
    seq!["Proxmox"@, "Pi-hole"@, "Synology"@, "Portainer"@, "Home Assistant"@, "Jellyfin"@, "Plex"@,
        "Nextcloud"@]
}

/// The text of an optional string.
pub open spec fn opt_text(o: Option<String>) -> Option<Seq<char>> {
    match o {
        Some(s) => Some(s@),
        None => None,
    }
}

fn has(hay: &Vec<char>, needle: &str) -> (b: bool)
    ensures
        b == contains_seq(hay@, needle@),
{
    let n = chars_of(needle);
    contains_chars(hay.as_slice(), n.as_slice())
}

/// Identify a known product from a page title already in lower case.
pub fn identify_lowered(lower: &str) -> (name: Option<String>)
    ensures
        opt_text(name) == spec_identify_lowered(lower@),
        name matches Some(n) ==> known_services().contains(n@),
{
    proof {
        assert(known_services()[0] == "Proxmox"@);
        assert(known_services()[1] == "Pi-hole"@);
        assert(known_services()[2] == "Synology"@);
        assert(known_services()[3] == "Portainer"@);
        assert(known_services()[4] == "Home Assistant"@);
        assert(known_services()[5] == "Jellyfin"@);
        assert(known_services()[6] == "Plex"@);
        assert(known_services()[7] == "Nextcloud"@);
    }
    let l = chars_of(lower);
    if has(&l, "proxmox") {
        Some(String::from_str("Proxmox"))
    } else if has(&l, "pi-hole") || has(&l, "pihole") || has(&l, "pi hole") {
        Some(String::from_str("Pi-hole"))
    } else if has(&l, "synology") {
        Some(String::from_str("Synology"))
    } else if has(&l, "portainer") {
        Some(String::from_str("Portainer"))
    } else if has(&l, "home assistant") {
        Some(String::from_str("Home Assistant"))
    } else if has(&l, "jellyfin") {
        Some(String::from_str("Jellyfin"))
    } else if has(&l, "plex") {
        Some(String::from_str("Plex"))
    } else if has(&l, "nextcloud") {
        Some(String::from_str("Nextcloud"))
    } else {
        None
    }
}

/// Identify a known product from a page title, ignoring case.
pub fn identify_service(title: &Option<String>) -> (name: Option<String>)
    ensures
        opt_text(name) == spec_identify(opt_text(*title)),
        name matches Some(n) ==> known_services().contains(n@),
{
    match title {
        Some(t) => {
            let lower = to_lowercase(t.as_str());
            identify_lowered(lower.as_str())
        },
        None => None,
    }
}

/// `s` with every space turned into a hyphen.
pub open spec fn spaces_to_hyphens(s: Seq<char>) -> Seq<char> {
    s.map_values(|c: char| if c == ' ' { '-' } else { c })
}

/// The icon slug of a service name: lowercased, spaces turned into hyphens.
pub open spec fn spec_slug(name: Seq<char>) -> Seq<char> {
    spaces_to_hyphens(spec_lowercase(name))
}

/// Turn every space of a text into a hyphen.
pub fn hyphenate_spaces(text: &str) -> (out: String)
    ensures
        out@ == spaces_to_hyphens(text@),
        !out@.contains(' '),
        out@.len() == text@.len(),
        forall|i: int| 0 <= i < text@.len() ==> #[trigger] out@[i] == if text@[i] == ' ' { '-' } else { text@[i] },
{
    let l = chars_of(text);
    let mut out: Vec<char> = Vec::new();
    let mut i: usize = 0;
    while i < l.len()
        invariant
            i <= l@.len(),
            out@ == spaces_to_hyphens(l@.take(i as int)),
        decreases l@.len() - i,
    {
        let c = l[i];
        if c == ' ' {
            out.push('-');
        } else {
            out.push(c);
        }
        assert(spaces_to_hyphens(l@.take(i + 1)) =~= spaces_to_hyphens(l@.take(i as int)).push(
            if c == ' ' { '-' } else { c },
        ));
        i = i + 1;
    }
    assert(l@.take(l@.len() as int) =~= l@);
    string_of(out.as_slice())
}

/// Turn a service name into an icon slug: lowercase, spaces become hyphens.
pub fn slugify(name: &str) -> (slug: String)
    ensures
        slug@ == spec_slug(name@),
        !slug@.contains(' '),
        slug@.len() == spec_lowercase(name@).len(),
        forall|i: int| 0 <= i < slug@.len() ==> #[trigger] slug@[i] == if spec_lowercase(name@)[i] == ' ' {
            '-'
        } else {
            spec_lowercase(name@)[i]
        },
{
    let lower = to_lowercase(name);
    hyphenate_spaces(lower.as_str())
}

// ---------------------------------------------------------------------------
// Page titles
// ---------------------------------------------------------------------------

/// The bytes of `<title`.
pub open spec fn title_open_tag() -> Seq<u8> {
    seq![0x3Cu8, 0x74, 0x69, 0x74, 0x6C, 0x65]
}

/// The bytes of `</title>`.
pub open spec fn title_close_tag() -> Seq<u8> {
    seq![0x3Cu8, 0x2F, 0x74, 0x69, 0x74, 0x6C, 0x65, 0x3E]
}

/// The byte `>`.
pub open spec fn tag_end() -> Seq<u8> {
    seq![0x3Eu8]
}

/// The UTF-8 bytes of the lowercased page.
pub open spec fn lower_bytes(html: Seq<char>) -> Seq<u8> {
    encode_utf8(spec_lowercase(html))
}

/// Where a title's content lies in the bytes `lb`: after the `>` that closes
/// the first `<title` tag, up to the next `</title>`.
pub open spec fn title_span_in(lb: Seq<u8>) -> Option<(int, int)> {
    match find_first(lb, title_open_tag()) {
        None => None,
        Some(ts) => match find_first(lb.skip(ts), tag_end()) {
            None => None,
            Some(gt) => {
                let cs = ts + gt + 1;
                match find_first(lb.skip(cs), title_close_tag()) {
                    None => None,
                    Some(k) => Some((cs, cs + k)),
                }
            },
        },
    }
}

/// Where the title's content lies, as byte offsets found in the lowercased
/// page.
pub open spec fn title_span(html: Seq<char>) -> Option<(int, int)> {
    title_span_in(lower_bytes(html))
}

/// The offsets found in `lower` delimit whole characters of `html`.
pub open spec fn title_extractable_with(html: Seq<char>, lower: Seq<char>) -> bool {
    match title_span_in(encode_utf8(lower)) {
        None => true,
        Some((cs, ce)) => ce <= encode_utf8(html).len() && valid_utf8(encode_utf8(html).subrange(cs, ce)),
    }
}

/// The offsets found in the lowercased page delimit whole characters of the
/// page itself (they always do unless lowercasing changed the byte length of
/// some character before the title's end).
pub open spec fn title_extractable(html: Seq<char>) -> bool {
    title_extractable_with(html, spec_lowercase(html))
}

/// `s` with the six HTML entities the dashboard understands decoded, in this
/// order: `&amp;`, `&lt;`, `&gt;`, `&quot;`, `&#39;`, `&nbsp;`.
pub open spec fn decode_entities(s: Seq<char>) -> Seq<char> {
    replace_all(
        replace_all(
            replace_all(
                replace_all(replace_all(replace_all(s, "&amp;"@, "&"@), "&lt;"@, "<"@), "&gt;"@, ">"@),
                "&quot;"@,
                "\""@,
            ),
            "&#39;"@,
            "'"@,
        ),
        "&nbsp;"@,
        " "@,
    )
}

/// Words separated by single spaces.
pub open spec fn normalize_ws(s: Seq<char>) -> Seq<char> {
    join(words(s), " "@)
}

/// The title of `html` at the offsets found in `lower`: the entity-decoded,
/// whitespace-normalized text there, or nothing when no `<title>` element is
/// found or its content is blank.
pub open spec fn page_title_with(html: Seq<char>, lower: Seq<char>) -> Option<Seq<char>> {
    match title_span_in(encode_utf8(lower)) {
        None => None,
        Some((cs, ce)) => {
            let t = normalize_ws(decode_entities(decode_utf8(encode_utf8(html).subrange(cs, ce))));
            if t.len() == 0 { None } else { Some(t) }
        },
    }
}

/// The title of a page: the entity-decoded, whitespace-normalized content of
/// its first `<title>` element, found case-insensitively, or nothing when
/// there is no such element or its content is blank.
pub open spec fn page_title(html: Seq<char>) -> Option<Seq<char>> {
    page_title_with(html, spec_lowercase(html))
}

/// Calls `std::str::from_utf8`.  Claimed: it succeeds exactly on valid UTF-8,
/// and then the text's UTF-8 encoding is the input.
#[verifier::external_body]
fn utf8_text(bytes: &[u8]) -> (r: Option<String>)
    ensures
        r is Some <==> valid_utf8(bytes@),
        r matches Some(s) ==> encode_utf8(s@) == bytes@,
{
    std::str::from_utf8(bytes).ok().map(|s| s.to_string())
}

fn replace_lit(s: &Vec<char>, from: &str, to: &str) -> (r: Vec<char>)
    requires
        from@.len() > 0,
    ensures
        r@ == replace_all(s@, from@, to@),
{
    let f = chars_of(from);
    let t = chars_of(to);
    replace_chars(s.as_slice(), f.as_slice(), t.as_slice())
}

/// Decode entities and normalize white space in raw title content.
fn clean_title(raw: &str) -> (t: Option<String>)
    ensures
        match t {
            Some(x) => x@ == normalize_ws(decode_entities(raw@)) && x@.len() > 0,
            None => normalize_ws(decode_entities(raw@)).len() == 0,
        },
{
    proof {
        reveal_strlit("&amp;");
        reveal_strlit("&lt;");
        reveal_strlit("&gt;");
        reveal_strlit("&quot;");
        reveal_strlit("&#39;");
        reveal_strlit("&nbsp;");
    }
    let c0 = chars_of(raw);
    let c1 = replace_lit(&c0, "&amp;", "&");
    let c2 = replace_lit(&c1, "&lt;", "<");
    let c3 = replace_lit(&c2, "&gt;", ">");
    let c4 = replace_lit(&c3, "&quot;", "\"");
    let c5 = replace_lit(&c4, "&#39;", "'");
    let c6 = replace_lit(&c5, "&nbsp;", " ");
    let ws = split_whitespace(c6.as_slice());
    let space = chars_of(" ");
    let joined = join_chars(&ws, space.as_slice());
    assert(ws@.map_values(|w: Vec<char>| w@) =~= words(c6@));
    if joined.len() == 0 {
        None
    } else {
        Some(string_of(joined.as_slice()))
    }
}

/// The title of a page, located in its lowercased text `lower`, or `None`
/// when there is none; returns `None` as a whole when the offsets found in
/// `lower` do not delimit whole characters of the page.
pub fn title_in_lowered(html: &str, lower: &str) -> (r: Option<Option<String>>)
    ensures
        r is Some <==> title_extractable_with(html@, lower@),
        r matches Some(t) ==> opt_text(t) == page_title_with(html@, lower@),
{
    let lb = lower.as_bytes();
    let hb = html.as_bytes();
    let open_tag: Vec<u8> = vec![0x3C, 0x74, 0x69, 0x74, 0x6C, 0x65];
    let close_tag: Vec<u8> = vec![0x3C, 0x2F, 0x74, 0x69, 0x74, 0x6C, 0x65, 0x3E];
    let gt_tag: Vec<u8> = vec![0x3E];
    assert(open_tag@ =~= title_open_tag());
    assert(close_tag@ =~= title_close_tag());
    assert(gt_tag@ =~= tag_end());
    let ghost lbs = encode_utf8(lower@);
    assert(lb@ == lbs);
    let ts = match find_bytes(lb, open_tag.as_slice()) {
        Some(i) => i,
        None => {
            return Some(None);
        },
    };
    proof {
        lemma_find_first(lbs, title_open_tag());
    }
    let after_open = vstd::slice::slice_subrange(lb, ts, lb.len());
    assert(after_open@ =~= lbs.skip(ts as int));
    let gt = match find_bytes(after_open, gt_tag.as_slice()) {
        Some(i) => i,
        None => {
            return Some(None);
        },
    };
    proof {
        lemma_find_first(lbs.skip(ts as int), tag_end());
    }
    let cs = ts + gt + 1;
    let after_gt = vstd::slice::slice_subrange(lb, cs, lb.len());
    assert(after_gt@ =~= lbs.skip(cs as int));
    let k = match find_bytes(after_gt, close_tag.as_slice()) {
        Some(i) => i,
        None => {
            return Some(None);
        },
    };
    proof {
        lemma_find_first(lbs.skip(cs as int), title_close_tag());
    }
    let ce = cs + k;
    assert(title_span_in(lbs) == Some((cs as int, ce as int)));
    if ce > hb.len() {
        return None;
    }
    let content = vstd::slice::slice_subrange(hb, cs, ce);
    match utf8_text(content) {
        None => None,
        Some(raw) => {
            proof {
                encode_utf8_decode_utf8(raw@);
            }
            Some(clean_title(raw.as_str()))
        },
    }
}

/// The title of a page, or `None` when the page has none, checking first that
/// the title can be taken: returns `None` when the offsets found in the
/// lowercased page do not delimit whole characters of the page.
pub fn extract_title_checked(html: &str) -> (r: Option<Option<String>>)
    ensures
        r is Some <==> title_extractable(html@),
        r matches Some(t) ==> opt_text(t) == page_title(html@),
{
    let lower = to_lowercase(html);
    title_in_lowered(html, lower.as_str())
}

/// The title of a page: the content of its first `<title ...>` element with
/// HTML entities decoded and white space collapsed, or `None` when there is
/// no such element or its content is blank.
pub fn extract_title(html: &str) -> (t: Option<String>)
    requires
        title_extractable(html@),
    ensures
        opt_text(t) == page_title(html@),
{
    match extract_title_checked(html) {
        Some(t) => t,
        None => None,
    }
}

// ---------------------------------------------------------------------------
// Ordering scan results
// ---------------------------------------------------------------------------

/// The port of a scan result.
pub open spec fn by_port() -> spec_fn(ScanResult) -> u16 {
    |r: ScanResult| r.port
}

/// The usual order on port numbers.
pub open spec fn port_le() -> spec_fn(u16, u16) -> bool {
    |a: u16, b: u16| a <= b
}

/// Order scan results by port; results for the same port keep their order.
pub fn sort_by_port(results: Vec<ScanResult>) -> (sorted: Vec<ScanResult>)
    ensures
        is_stable_sort(sorted@, results@, by_port(), port_le()),
{
    let ghost input = results@;
    let mut out: Vec<ScanResult> = Vec::new();
    proof {
        lemma_stable_sort_empty::<ScanResult, u16>(by_port(), port_le());
        assert(input.take(0) =~= Seq::<ScanResult>::empty());
    }
    for x in it: results.into_iter()
        invariant
            it.seq() == input,
            is_stable_sort(out@, input.take(it.index() as int), by_port(), port_le()),
    {
        let ghost i = it.index();
        let mut j: usize = 0;
        while j < out.len() && out[j].port <= x.port
            invariant
                j <= out@.len(),
                forall|m: int| 0 <= m < j ==> out@[m].port <= x.port,
            decreases out@.len() - j,
        {
            j = j + 1;
        }
        proof {
            assert forall|m: int| j <= m < out@.len() implies !((#[trigger] out@[m]).port <= x.port) by {
                if j < out@.len() {
                    assert(out@[j as int].port > x.port);
                    if m > j {
                        assert((port_le())(by_port()(out@[j as int]), by_port()(out@[m])));
                    }
                }
            }
            lemma_stable_insert(out@, input.take(i as int), x, j as int, by_port(), port_le());
            assert(input.take(i + 1) =~= input.take(i as int).push(x));
        }
        out.insert(j, x);
    }
    assert(input.take(input.len() as int) =~= input);
    out
}

// ---------------------------------------------------------------------------
// What an HTTP answer tells
// ---------------------------------------------------------------------------

/// What the HTTP answer of a service tells: its product, icon slug and page title.
#[derive(Debug, Clone, PartialEq, Eq)]
pub struct HttpInfo {
    pub service_name: Option<String>,
    pub icon_slug: Option<String>,
    pub title: Option<String>,
}

/// The slug of an optional service name.
pub open spec fn opt_slug(name: Option<Seq<char>>) -> Option<Seq<char>> {
    match name {
        Some(n) => Some(spec_slug(n)),
        None => None,
    }
}

/// A status in the success range 200 to 299.
pub open spec fn is_success(status: u16) -> bool {
    200 <= status <= 299
}

/// Read the service information from an HTTP answer: its status and body.
/// An answer outside the success range is an error naming the status; a page
/// whose title cannot be taken (see [`title_extractable`]) is an error too.
pub fn http_info_from_response(status: u16, body: &str) -> (r: Result<HttpInfo, AppError>)
    ensures
        !is_success(status) ==> (r matches Err(e) && is_internal(e, "HTTP status "@ + decimal(status as nat))),
        is_success(status) && !title_extractable(body@) ==> (r matches Err(e)
            && is_internal(e, "page title could not be read"@)),
        is_success(status) && title_extractable(body@) ==> (r matches Ok(info)
            && opt_text(info.title) == page_title(body@)
            && opt_text(info.service_name) == spec_identify(page_title(body@))
            && opt_text(info.icon_slug) == opt_slug(spec_identify(page_title(body@)))),
{
    if status < 200 || status > 299 {
        let code = string_of(decimal_chars(status as u64).as_slice());
        return Err(AppError::Internal(concat_str("HTTP status ", code.as_str())));
    }
    let title = match extract_title_checked(body) {
        Some(t) => t,
        None => {
            return Err(AppError::Internal(String::from_str("page title could not be read")));
        },
    };
    let service_name = identify_service(&title);
    let icon_slug = match &service_name {
        Some(n) => Some(slugify(n.as_str())),
        None => None,
    };
    Ok(HttpInfo { service_name, icon_slug, title })
}

/// The result for an open port: with the service information when the port
/// answered HTTP (then it is reachable), without it otherwise.
pub fn scan_result(host: &str, port: u16, info: Option<HttpInfo>) -> (r: ScanResult)
    ensures
        r.host@ == host@,
        r.port == port,
        r.reachable == info is Some,
        match info {
            Some(i) => r.service_name == i.service_name && r.icon_slug == i.icon_slug && r.title == i.title,
            None => r.service_name is None && r.icon_slug is None && r.title is None,
        },
{
    let host = String::from_str(host);
    match info {
        Some(i) => ScanResult {
            host,
            port,
            service_name: i.service_name,
            icon_slug: i.icon_slug,
            title: i.title,
            reachable: true,
        },
        None => ScanResult { host, port, service_name: None, icon_slug: None, title: None, reachable: false },
    }
}

// ---------------------------------------------------------------------------
// Scan requests
// ---------------------------------------------------------------------------

/// A request to scan a host: explicit ports, or a depth naming a port list.
#[derive(Debug, Clone, PartialEq, Eq)]
pub struct ScanRequest {
    pub host: String,
    pub ports: Option<Vec<u16>>,
    pub depth: String,
}

/// What a request to start a scan gets, given the "scan in progress" flag.
#[derive(Debug, Clone, Copy, PartialEq, Eq)]
pub enum ScanClaim {
    /// No scan was running: this request starts one.
    Started,
    /// A scan is running: the request is answered 409 with
    /// `{"error": "scan already in progress"}`.
    AlreadyRunning,
}

/// Claim the "scan in progress" flag: the flag is set afterwards either way,
/// and the request starts a scan only when none was running.  Returns the
/// flag's new value and what the request gets.
pub fn claim_scan(running: bool) -> (r: (bool, ScanClaim))
    ensures
        r.0,
        r.1 == (if running { ScanClaim::AlreadyRunning } else { ScanClaim::Started }),
{
    if running {
        (true, ScanClaim::AlreadyRunning)
    } else {
        (true, ScanClaim::Started)
    }
}

/// The flag once the scan is over, or when starting it failed: no scan runs.
pub fn release_scan() -> (running: bool)
    ensures
        !running,
{
    false
}

/// The error text answered while a scan is running.
pub fn scan_conflict_message() -> (text: &'static str)
    ensures
        text@ == "scan already in progress"@,
{
    "scan already in progress"
}

/// The depth used when a request names none.
pub fn default_scan_depth() -> (d: String)
    ensures
        d@ == "simple"@,
{
    String::from_str("simple")
}

/// The ports a request asks for: its explicit list, or the list of its depth.
pub open spec fn spec_requested_ports(ports: Option<Seq<u16>>, depth: Seq<char>) -> Seq<u16> {
    match ports {
        Some(p) => p,
        None => spec_ports(depth),
    }
}

impl ScanRequest {
    /// The host and ports a request asks to scan.
    pub fn into_target(self) -> (target: (String, Vec<u16>))
        ensures
            target.0@ == self.host@,
            target.1@ == spec_requested_ports(match self.ports { Some(p) => Some(p@), None => None }, self.depth@),
    {
        let ports = match self.ports {
            Some(p) => p,
            None => get_ports(self.depth.as_str()),
        };
        (self.host, ports)
    }
}

// ---------------------------------------------------------------------------
// Laws
// ---------------------------------------------------------------------------

/// Every scan depth covers the ports of a quick scan.
pub proof fn lemma_every_depth_scans_simple_ports(depth: Seq<char>)
    ensures
        forall|i: int| 0 <= i < simple_ports().len() ==> spec_ports(depth).contains(#[trigger] simple_ports()[i]),
{
    assert forall|i: int| 0 <= i < simple_ports().len() implies spec_ports(depth).contains(#[trigger] simple_ports()[i]) by {
        let p = simple_ports()[i];
        if depth == "medium"@ {
            assert((simple_ports() + medium_extra_ports())[i] == p);
        } else if depth == "deep"@ {
            assert(1 <= p);
            assert(all_ports()[p - 1] == p);
        } else {
            assert(simple_ports()[i] == p);
        }
    }
}

/// An exhaustive scan covers every port, from 1 to 65535, once each and in
/// increasing order.
pub proof fn lemma_deep_scans_every_port()
    ensures
        spec_ports("deep"@).len() == 65535,
        forall|p: u16| 1 <= p ==> spec_ports("deep"@).contains(p),
        forall|i: int, j: int| 0 <= i < j < 65535 ==> spec_ports("deep"@)[i] < spec_ports("deep"@)[j],
{
    reveal_strlit("medium");
    reveal_strlit("deep");
    assert("deep"@.len() != "medium"@.len());
    assert forall|p: u16| 1 <= p implies spec_ports("deep"@).contains(p) by {
        assert(spec_ports("deep"@)[p - 1] == p);
    }
}

/// A thorough scan is the quick scan followed by its extra ports.
pub proof fn lemma_medium_extends_simple()
    ensures
        spec_ports("medium"@).take(simple_ports().len() as int) == spec_ports("simple"@),
        spec_ports("medium"@).len() == simple_ports().len() + medium_extra_ports().len(),
{
    reveal_strlit("medium");
    reveal_strlit("simple");
    reveal_strlit("deep");
    assert("simple"@[0] != "medium"@[0]);
    assert("simple"@.len() != "deep"@.len());
    assert((simple_ports() + medium_extra_ports()).take(simple_ports().len() as int) =~= simple_ports());
}

/// A page title is never blank, and its only white space is single spaces
/// between words.
pub proof fn lemma_page_title_single_spaced(html: Seq<char>)
    ensures
        page_title(html) matches Some(t) ==> t.len() > 0 && single_spaced(t),
{
    if let Some((cs, ce)) = title_span(html) {
        lemma_collapsed_single_spaced(decode_entities(decode_utf8(encode_utf8(html).subrange(cs, ce))));
    }
}

/// The products a lower-case title names, by keyword, in order of precedence:
/// a title naming "proxmox" is Proxmox; else one naming "pi-hole", "pihole" or
/// "pi hole" is Pi-hole; else "synology" gives Synology, "portainer"
/// Portainer, "home assistant" Home Assistant, "jellyfin" Jellyfin, "plex"
/// Plex and "nextcloud" Nextcloud; a title naming none of them names no product.
pub proof fn lemma_identify_keywords(l: Seq<char>)
    ensures
        contains_seq(l, "proxmox"@) ==> spec_identify_lowered(l) == Some("Proxmox"@),
        !contains_seq(l, "proxmox"@) && (contains_seq(l, "pi-hole"@) || contains_seq(l, "pihole"@) || contains_seq(
            l,
            "pi hole"@,
        )) ==> spec_identify_lowered(l) == Some("Pi-hole"@),
        !contains_seq(l, "proxmox"@) && !contains_seq(l, "pi-hole"@) && !contains_seq(l, "pihole"@) && !contains_seq(
            l,
            "pi hole"@,
        ) ==> {
            &&& contains_seq(l, "synology"@) ==> spec_identify_lowered(l) == Some("Synology"@)
            &&& !contains_seq(l, "synology"@) && contains_seq(l, "portainer"@) ==> spec_identify_lowered(l) == Some(
                "Portainer"@,
            )
            &&& !contains_seq(l, "synology"@) && !contains_seq(l, "portainer"@) && contains_seq(l, "home assistant"@)
                ==> spec_identify_lowered(l) == Some("Home Assistant"@)
            &&& !contains_seq(l, "synology"@) && !contains_seq(l, "portainer"@) && !contains_seq(l, "home assistant"@)
                ==> {
                &&& contains_seq(l, "jellyfin"@) ==> spec_identify_lowered(l) == Some("Jellyfin"@)
                &&& !contains_seq(l, "jellyfin"@) && contains_seq(l, "plex"@) ==> spec_identify_lowered(l) == Some(
                    "Plex"@,
                )
                &&& !contains_seq(l, "jellyfin"@) && !contains_seq(l, "plex"@) && contains_seq(l, "nextcloud"@)
                    ==> spec_identify_lowered(l) == Some("Nextcloud"@)
                &&& !contains_seq(l, "jellyfin"@) && !contains_seq(l, "plex"@) && !contains_seq(l, "nextcloud"@)
                    ==> spec_identify_lowered(l) is None
            }
        },
{
}

/// Identifying a page title is identifying its lower-case form: the product
/// a title names is the one its lowercased text names by keyword.
pub proof fn lemma_identify_through_lowercase(t: Seq<char>)
    ensures
        spec_identify(Some(t)) == spec_identify_lowered(spec_lowercase(t)),
        spec_identify(None) is None,
{
}

/// A slug changes only spaces: each space of the lowercased name becomes a
/// hyphen, every other character is kept as it is, and nothing is added or
/// dropped.
pub proof fn lemma_slug_changes_only_spaces(name: Seq<char>)
    ensures
        spec_slug(name).len() == spec_lowercase(name).len(),
        forall|i: int| 0 <= i < spec_slug(name).len() ==> #[trigger] spec_slug(name)[i] == if spec_lowercase(name)[i]
            == ' ' {
            '-'
        } else {
            spec_lowercase(name)[i]
        },
{
}

} // verus!
