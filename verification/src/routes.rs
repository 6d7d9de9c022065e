//! The route table and the decision of what to do with a request.
//!
//! Paths are matched by a `matchit::Router`; what the router finds, the
//! request's method and its query then decide the action, which the server
//! carries out.

use vstd::prelude::*;
use crate::error::AppError;
use crate::text::{chars_of, concat_str, find_chars, find_first, split_chars, split_on, starts_with, starts_with_chars,
    str_equals_chars, string_of};
use matchit::{InsertError, Router};

verus! {

// ---------------------------------------------------------------------------
// The router of the `matchit` crate
// ---------------------------------------------------------------------------

#[verifier::external_type_specification]
#[verifier::external_body]
#[verifier::reject_recursive_types(T)]
pub struct ExRouter<T>(matchit::Router<T>);

#[verifier::external_type_specification]
#[verifier::external_body]
pub struct ExInsertError(matchit::InsertError);

/// The routes a router holds, with their values, in the order they were added.
pub uninterp spec fn router_routes(r: Router<Route>) -> Seq<(Seq<char>, Route)>;

/// Whether `matchit` accepts a new route pattern beside the routes already
/// added (it refuses a pattern that conflicts with one of them, or that is
/// malformed).
pub uninterp spec fn spec_insert_accepted(routes: Seq<(Seq<char>, Route)>, route: Seq<char>) -> bool;

/// What `matchit` finds for a path among the given routes: the value of the
/// matching route and the parameters the path binds, or nothing.
pub uninterp spec fn spec_route_lookup(routes: Seq<(Seq<char>, Route)>, path: Seq<char>) -> Option<(Route, Seq<(Seq<char>, Seq<char>)>)>;

/// Calls `matchit::Router::new`.  Claimed: the new router holds no route.
#[verifier::external_body]
fn router_new() -> (r: Router<Route>)
    ensures
        router_routes(r) == Seq::<(Seq<char>, Route)>::empty(),
{
    Router::new()
}

/// The number of times `c` occurs in `s`.
pub open spec fn count_char(s: Seq<char>, c: char) -> nat
    decreases s.len(),
{
    if s.len() == 0 {
        0
    } else {
        count_char(s.drop_last(), c) + if s.last() == c { 1nat } else { 0nat }
    }
}

/// A route pattern `matchit` takes without panicking: ASCII text with at most
/// 25 `{` characters.  (`matchit` renames named parameters `a` to `z` and
/// panics on the 26th; the text of a conflict error is rebuilt from bytes of
/// the tree, which it unwraps as UTF-8.)
pub open spec fn route_pattern_ok(route: Seq<char>) -> bool {
    &&& forall|i: int| 0 <= i < route.len() ==> (#[trigger] route[i] as u32) < 128
    &&& count_char(route, '{') <= 25
}

/// A character never occurs more often than the text is long.
proof fn lemma_count_char_le_len(s: Seq<char>, c: char)
    ensures
        count_char(s, c) <= s.len(),
    decreases s.len(),
{
    if s.len() > 0 {
        lemma_count_char_le_len(s.drop_last(), c);
    }
}

/// Calls `matchit::Router::insert`.  Claimed: the route is accepted exactly
/// when `spec_insert_accepted` says so, and an accepted route is added after
/// the others.  When the route is refused, `matchit` may already have changed
/// its tree; nothing is said of the router's routes then.  Patterns that
/// could make `matchit` panic are left out (see [`route_pattern_ok`]).
#[verifier::external_body]
fn router_insert(router: &mut Router<Route>, route: &str, value: Route) -> (r: Result<(), InsertError>)
    requires
        route_pattern_ok(route@),
    ensures
        r is Ok <==> spec_insert_accepted(router_routes(*old(router)), route@),
        r is Ok ==> router_routes(*final(router)) == router_routes(*old(router)).push((route@, value)),
{
    router.insert(route, value)
}

/// The plain value of a match: the route and the parameters, as text.
pub open spec fn match_view(m: Option<(Route, Vec<(String, String)>)>) -> Option<(Route, Seq<(Seq<char>, Seq<char>)>)> {
    match m {
        Some((r, ps)) => Some((r, ps@.map_values(|p: (String, String)| (p.0@, p.1@)))),
        None => None,
    }
}

/// Calls `matchit::Router::at` and copies out the value found and the
/// parameters bound (in `matchit`'s order).  Claimed: the result is what
/// `spec_route_lookup` names for the router's routes and the path.
#[verifier::external_body]
fn router_at(router: &Router<Route>, path: &str) -> (m: Option<(Route, Vec<(String, String)>)>)
    ensures
        match_view(m) == spec_route_lookup(router_routes(*router), path@),
{
    match router.at(path) {
        Ok(found) => {
            let mut params: Vec<(String, String)> = Vec::new();
            for (k, v) in found.params.iter() {
                params.push((k.to_string(), v.to_string()));
            }
            Some((*found.value, params))
        },
        Err(_) => None,
    }
}

// ---------------------------------------------------------------------------
// The route table
// ---------------------------------------------------------------------------

/// What a path can lead to.
#[derive(Debug, Clone, Copy, PartialEq, Eq)]
pub enum Route {
    Health,
    Readyz,
    ConfigGet,
    ScanStart,
    Assets,
    SpaFallback,
    BackgroundStatus,
    BackgroundPhoto,
    IconSearch,
}

/// The route patterns and what each leads to, in the order they are added.
pub open spec fn route_table() -> Seq<(Seq<char>, Route)> {
    seq![
        ("/api/health"@, Route::Health),
        ("/api/readyz"@, Route::Readyz),
        ("/api/config"@, Route::ConfigGet),
        ("/api/scan"@, Route::ScanStart),
        ("/assets/{*path}"@, Route::Assets),
        ("/"@, Route::SpaFallback),
        ("/{*path}"@, Route::SpaFallback),
        ("/api/background/status"@, Route::BackgroundStatus),
        ("/api/background/photo"@, Route::BackgroundPhoto),
        ("/api/icons/search"@, Route::IconSearch),
    ]
}

/// Whether the router accepts each route of `table` after the ones before it.
pub open spec fn table_accepted(table: Seq<(Seq<char>, Route)>) -> bool {
    forall|k: int| 0 <= k < table.len() ==> #[trigger] spec_insert_accepted(table.take(k), table[k].0)
}

fn route_table_entries() -> (v: Vec<(&'static str, Route)>)
    ensures
        v@.map_values(|e: (&'static str, Route)| (e.0@, e.1)) == route_table(),
{
    let v = vec![
        ("/api/health", Route::Health),
        ("/api/readyz", Route::Readyz),
        ("/api/config", Route::ConfigGet),
        ("/api/scan", Route::ScanStart),
        ("/assets/{*path}", Route::Assets),
        ("/", Route::SpaFallback),
        ("/{*path}", Route::SpaFallback),
        ("/api/background/status", Route::BackgroundStatus),
        ("/api/background/photo", Route::BackgroundPhoto),
        ("/api/icons/search", Route::IconSearch),
    ];
    assert(v@.map_values(|e: (&'static str, Route)| (e.0@, e.1)) =~= route_table());
    v
}

/// Every pattern of the route table is one `matchit` takes without panicking.
proof fn lemma_route_table_patterns_ok()
    ensures
        forall|k: int| 0 <= k < route_table().len() ==> route_pattern_ok(#[trigger] route_table()[k].0),
{
    reveal_strlit("/api/health");
    reveal_strlit("/api/readyz");
    reveal_strlit("/api/config");
    reveal_strlit("/api/scan");
    reveal_strlit("/assets/{*path}");
    reveal_strlit("/");
    reveal_strlit("/{*path}");
    reveal_strlit("/api/background/status");
    reveal_strlit("/api/background/photo");
    reveal_strlit("/api/icons/search");
    assert forall|k: int| 0 <= k < route_table().len() implies route_pattern_ok(#[trigger] route_table()[k].0) by {
        let r = route_table()[k].0;
        lemma_count_char_le_len(r, '{');
        assert(r.len() <= 25);
        assert forall|i: int| 0 <= i < r.len() implies (#[trigger] r[i] as u32) < 128 by {
            if k == 0 { assert(r == "/api/health"@); }
            else if k == 1 { assert(r == "/api/readyz"@); }
            else if k == 2 { assert(r == "/api/config"@); }
            else if k == 3 { assert(r == "/api/scan"@); }
            else if k == 4 { assert(r == "/assets/{*path}"@); }
            else if k == 5 { assert(r == "/"@); }
            else if k == 6 { assert(r == "/{*path}"@); }
            else if k == 7 { assert(r == "/api/background/status"@); }
            else if k == 8 { assert(r == "/api/background/photo"@); }
            else { assert(r == "/api/icons/search"@); }
        }
    }
}

/// Build the router of the route table.  It fails, naming the route, if the
/// router refuses one of the routes.
pub fn build_router() -> (r: Result<Router<Route>, AppError>)
    ensures
        r is Ok <==> table_accepted(route_table()),
        r matches Ok(router) ==> router_routes(router) == route_table(),
{
    let table = route_table_entries();
    let ghost spec_table = route_table();
    let mut router = router_new();
    let mut i: usize = 0;
    assert(spec_table.take(0) =~= Seq::<(Seq<char>, Route)>::empty());
    proof {
        lemma_route_table_patterns_ok();
    }
    while i < table.len()
        invariant
            i <= table@.len(),
            forall|k: int| 0 <= k < spec_table.len() ==> route_pattern_ok(#[trigger] spec_table[k].0),
            table@.map_values(|e: (&'static str, Route)| (e.0@, e.1)) == spec_table,
            spec_table == route_table(),
            router_routes(router) == spec_table.take(i as int),
            forall|k: int| 0 <= k < i ==> #[trigger] spec_insert_accepted(spec_table.take(k), spec_table[k].0),
        decreases table@.len() - i,
    {
        let (route, value) = table[i];
        assert(spec_table[i as int] == (route@, value));
        assert(route_pattern_ok(spec_table[i as int].0));
        match router_insert(&mut router, route, value) {
            Ok(()) => {
                assert(spec_table.take(i + 1) =~= spec_table.take(i as int).push((route@, value)));
            },
            Err(_) => {
                assert(!spec_insert_accepted(spec_table.take(i as int), spec_table[i as int].0));
                let a = concat_str("route ", route);
                return Err(AppError::Internal(concat_str(a.as_str(), " already registered")));
            },
        }
        i = i + 1;
    }
    assert(spec_table.take(table@.len() as int) =~= spec_table);
    Ok(router)
}

// ---------------------------------------------------------------------------
// Deciding what a request asks for
// ---------------------------------------------------------------------------

/// The request methods the routes tell apart.
#[derive(Debug, Clone, Copy, PartialEq, Eq)]
pub enum Method {
    Get,
    Put,
    Post,
    Other,
}

/// What the server does for a request.
#[derive(Debug, Clone, PartialEq, Eq)]
pub enum RouteAction {
    /// Answer 200 with `{"status": "ok"}`.
    Healthy,
    /// Answer 405 with `{"error": "method not allowed"}`.
    MethodNotAllowed,
    /// Answer with the configuration.
    GetConfig,
    /// Store the configuration in the body and answer with it.
    PutConfig,
    /// Start a scan described by the body.
    StartScan,
    /// Serve the embedded asset at this path.
    ServeAsset(String),
    /// Answer with the background status.
    BackgroundStatus,
    /// Serve the cached background photo.
    BackgroundPhoto,
    /// Answer with an empty list of icons.
    NoIcons,
    /// Answer with the icons matching this query.
    SearchIcons(String),
    /// Answer 404 with `{"error": "not found"}`.
    ApiNotFound,
    /// Serve the single-page application.
    ServeIndex,
}

/// The value of the first parameter named `key`, if any.
pub open spec fn first_param(params: Seq<(Seq<char>, Seq<char>)>, key: Seq<char>) -> Option<Seq<char>>
    decreases params.len(),
{
    if params.len() == 0 {
        None
    } else if params[0].0 == key {
        Some(params[0].1)
    } else {
        first_param(params.drop_first(), key)
    }
}

/// The value a `key=value` pair gives for the key `q`: the text after its
/// first `=`, when the text before it is `q`.
pub open spec fn q_value(pair: Seq<char>) -> Option<Seq<char>> {
    match find_first(pair, seq!['=']) {
        Some(i) => if pair.take(i) == "q"@ {
            Some(pair.skip(i + 1))
        } else {
            None
        },
        None => None,
    }
}

/// The value of the first pair that gives one for `q`.
pub open spec fn first_q(pairs: Seq<Seq<char>>) -> Option<Seq<char>>
    decreases pairs.len(),
{
    if pairs.len() == 0 {
        None
    } else {
        match q_value(pairs[0]) {
            Some(v) => Some(v),
            None => first_q(pairs.drop_first()),
        }
    }
}

/// The search text of a query string: the value of its first `q=` pair
/// among the `&`-separated pairs, or empty.
pub open spec fn spec_query_q(query: Option<Seq<char>>) -> Seq<char> {
    match query {
        Some(qs) => match first_q(split_on(qs, '&')) {
            Some(v) => v,
            None => Seq::empty(),
        },
        None => Seq::empty(),
    }
}

/// The view of an optional string slice.
pub open spec fn opt_str(s: Option<&str>) -> Option<Seq<char>> {
    match s {
        Some(t) => Some(t@),
        None => None,
    }
}

/// What a request found at `route` asks for, given its method, the
/// parameters its path bound and its query string.
pub open spec fn is_route_action(
    a: RouteAction,
    route: Route,
    params: Seq<(Seq<char>, Seq<char>)>,
    path: Seq<char>,
    method: Method,
    query: Option<Seq<char>>,
) -> bool {
    match route {
        Route::Health | Route::Readyz => if method == Method::Get {
            a is Healthy
        } else {
            a is MethodNotAllowed
        },
        Route::ConfigGet => match method {
            Method::Get => a is GetConfig,
            Method::Put => a is PutConfig,
            _ => a is MethodNotAllowed,
        },
        Route::ScanStart => if method == Method::Post {
            a is StartScan
        } else {
            a is MethodNotAllowed
        },
        Route::Assets => if method == Method::Get {
            a matches RouteAction::ServeAsset(p) && p@ == match first_param(params, "path"@) {
                Some(v) => v,
                None => Seq::empty(),
            }
        } else {
            a is MethodNotAllowed
        },
        Route::BackgroundStatus => if method == Method::Get {
            a is BackgroundStatus
        } else {
            a is MethodNotAllowed
        },
        Route::BackgroundPhoto => if method == Method::Get {
            a is BackgroundPhoto
        } else {
            a is MethodNotAllowed
        },
        Route::IconSearch => if method != Method::Get {
            a is MethodNotAllowed
        } else if spec_query_q(query).len() == 0 {
            a is NoIcons
        } else {
            a matches RouteAction::SearchIcons(q) && q@ == spec_query_q(query)
        },
        Route::SpaFallback => if starts_with(path, "/api/"@) {
            a is ApiNotFound
        } else {
            a is ServeIndex
        },
    }
}

/// What a request asks for, given what the router found for its path: an
/// action, or a "not found" error naming the path when nothing matched.
pub open spec fn is_dispatch(
    r: Result<RouteAction, AppError>,
    found: Option<(Route, Seq<(Seq<char>, Seq<char>)>)>,
    path: Seq<char>,
    method: Method,
    query: Option<Seq<char>>,
) -> bool {
    match found {
        None => r matches Err(e) && e matches AppError::NotFound(m) && m@ == "no route for path: "@ + path,
        Some((route, params)) => r matches Ok(a) && is_route_action(a, route, params, path, method, query),
    }
}

/// The value of the first parameter named `key`.
fn param_value(params: &Vec<(String, String)>, key: &str) -> (v: Option<String>)
    ensures
        opt_view(v) == first_param(params@.map_values(|p: (String, String)| (p.0@, p.1@)), key@),
{
    let ghost ps = params@.map_values(|p: (String, String)| (p.0@, p.1@));
    let kc = chars_of(key);
    let mut i: usize = 0;
    assert(ps.skip(0) =~= ps);
    while i < params.len()
        invariant
            i <= params@.len(),
            ps == params@.map_values(|p: (String, String)| (p.0@, p.1@)),
            kc@ == key@,
            first_param(ps, key@) == first_param(ps.skip(i as int), key@),
        decreases params@.len() - i,
    {
        assert(ps.skip(i as int)[0] == ps[i as int]);
        assert(ps.skip(i as int).drop_first() =~= ps.skip(i + 1));
        if str_equals_chars(params[i].0.as_str(), kc.as_slice()) {
            return Some(params[i].1.clone());
        }
        i = i + 1;
    }
    None
}

/// The view of an optional string.
pub open spec fn opt_view(s: Option<String>) -> Option<Seq<char>> {
    match s {
        Some(t) => Some(t@),
        None => None,
    }
}

fn q_value_exec(pair: &Vec<char>) -> (v: Option<Vec<char>>)
    ensures
        match v {
            Some(t) => q_value(pair@) == Some(t@),
            None => q_value(pair@) is None,
        },
{
    let eq = vec!['='];
    assert(eq@ =~= seq!['=']);
    proof {
        crate::text::lemma_find_first(pair@, eq@);
    }
    match find_chars(pair.as_slice(), eq.as_slice()) {
        Some(i) => {
            let q = chars_of("q");
            let mut key: Vec<char> = Vec::new();
            let mut k: usize = 0;
            while k < i
                invariant
                    k <= i < pair@.len(),
                    key@ == pair@.take(k as int),
                decreases i - k,
            {
                key.push(pair[k]);
                assert(pair@.take(k + 1) =~= pair@.take(k as int).push(pair@[k as int]));
                k = k + 1;
            }
            if crate::text::chars_equal(key.as_slice(), q.as_slice()) {
                let mut rest: Vec<char> = Vec::new();
                let n = pair.len();
                assert(i < n);
                let mut m: usize = i + 1;
                while m < pair.len()
                    invariant
                        i + 1 <= m <= pair@.len(),
                        rest@ == pair@.subrange(i + 1, m as int),
                    decreases pair@.len() - m,
                {
                    rest.push(pair[m]);
                    assert(pair@.subrange(i + 1, m + 1) =~= pair@.subrange(i + 1, m as int).push(pair@[m as int]));
                    m = m + 1;
                }
                assert(rest@ =~= pair@.skip(i + 1));
                Some(rest)
            } else {
                None
            }
        },
        None => None,
    }
}

/// The search text of a query string: the value of its first `q=` pair, or
/// empty.
pub fn query_q(query: Option<&str>) -> (q: String)
    ensures
        q@ == spec_query_q(opt_str(query)),
{
    match query {
        None => String::new(),
        Some(qs) => {
            let chars = chars_of(qs);
            let pairs = split_chars(chars.as_slice(), '&');
            let ghost ps = split_on(qs@, '&');
            let mut i: usize = 0;
            assert(ps.skip(0) =~= ps);
            while i < pairs.len()
                invariant
                    i <= pairs@.len(),
                    ps == split_on(qs@, '&'),
                    opt_str(query) == Some(qs@),
                    pairs@.len() == ps.len(),
                    forall|k: int| 0 <= k < pairs@.len() ==> #[trigger] pairs@[k]@ == ps[k],
                    first_q(ps) == first_q(ps.skip(i as int)),
                decreases pairs@.len() - i,
            {
                assert(ps.skip(i as int)[0] == ps[i as int]);
                assert(ps.skip(i as int).drop_first() =~= ps.skip(i + 1));
                match q_value_exec(&pairs[i]) {
                    Some(v) => {
                        assert(first_q(ps.skip(i as int)) == Some(v@));
                        return string_of(v.as_slice());
                    },
                    None => {},
                }
                i = i + 1;
            }
            String::new()
        },
    }
}

/// Decide what a request asks for from what the router found for its path
/// (see [`is_dispatch`]).
pub fn dispatch(
    found: Option<(Route, Vec<(String, String)>)>,
    path: &str,
    method: Method,
    query: Option<&str>,
) -> (r: Result<RouteAction, AppError>)
    ensures
        is_dispatch(r, match_view(found), path@, method, opt_str(query)),
{
    match found {
        None => Err(AppError::NotFound(concat_str("no route for path: ", path))),
        Some((route, params)) => {
            let get = match method {
                Method::Get => true,
                _ => false,
            };
            let action = match route {
                Route::Health | Route::Readyz => if get {
                    RouteAction::Healthy
                } else {
                    RouteAction::MethodNotAllowed
                },
                Route::ConfigGet => match method {
                    Method::Get => RouteAction::GetConfig,
                    Method::Put => RouteAction::PutConfig,
                    _ => RouteAction::MethodNotAllowed,
                },
                Route::ScanStart => match method {
                    Method::Post => RouteAction::StartScan,
                    _ => RouteAction::MethodNotAllowed,
                },
                Route::Assets => if get {
                    let p = match param_value(&params, "path") {
                        Some(v) => v,
                        None => String::new(),
                    };
                    RouteAction::ServeAsset(p)
                } else {
                    RouteAction::MethodNotAllowed
                },
                Route::BackgroundStatus => if get {
                    RouteAction::BackgroundStatus
                } else {
                    RouteAction::MethodNotAllowed
                },
                Route::BackgroundPhoto => if get {
                    RouteAction::BackgroundPhoto
                } else {
                    RouteAction::MethodNotAllowed
                },
                Route::IconSearch => if !get {
                    RouteAction::MethodNotAllowed
                } else {
                    let q = query_q(query);
                    if q.as_str().is_empty() {
                        RouteAction::NoIcons
                    } else {
                        RouteAction::SearchIcons(q)
                    }
                },
                Route::SpaFallback => {
                    let pc = chars_of(path);
                    let api = chars_of("/api/");
                    if starts_with_chars(pc.as_slice(), api.as_slice()) {
                        RouteAction::ApiNotFound
                    } else {
                        RouteAction::ServeIndex
                    }
                },
            };
            Ok(action)
        },
    }
}

/// Decide what a request asks for: look its path up in the router, then
/// decide by what was found (see [`dispatch`]).
pub fn route_request(router: &Router<Route>, path: &str, method: Method, query: Option<&str>) -> (r: Result<
    RouteAction,
    AppError,
>)
    ensures
        is_dispatch(r, spec_route_lookup(router_routes(*router), path@), path@, method, opt_str(query)),
{
    let found = router_at(router, path);
    dispatch(found, path, method, query)
}

/// The application shell is never served for an API path: whatever the
/// router found, a path under `/api/` gets an API answer or an error.
pub proof fn lemma_api_paths_never_serve_index(
    r: Result<RouteAction, AppError>,
    found: Option<(Route, Seq<(Seq<char>, Seq<char>)>)>,
    path: Seq<char>,
    method: Method,
    query: Option<Seq<char>>,
)
    requires
        is_dispatch(r, found, path, method, query),
        starts_with(path, "/api/"@),
    ensures
        !(r matches Ok(a) && a is ServeIndex),
        found matches Some((route, _)) && route == Route::SpaFallback ==> r == Ok::<RouteAction, AppError>(RouteAction::ApiNotFound),
{
}

} // verus!
