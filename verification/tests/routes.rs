use strandgut::error::AppError;
use strandgut::routes::{build_router, dispatch, query_q, route_request, Method, Route, RouteAction};

fn route(path: &str, method: Method) -> Result<RouteAction, AppError> {
    let router = build_router().expect("the route table is accepted");
    route_request(&router, path, method, None)
}

#[test]
fn health_and_readiness() {
    assert_eq!(route("/api/health", Method::Get), Ok(RouteAction::Healthy));
    assert_eq!(route("/api/readyz", Method::Get), Ok(RouteAction::Healthy));
    assert_eq!(route("/api/health", Method::Post), Ok(RouteAction::MethodNotAllowed));
}

#[test]
fn config_methods() {
    assert_eq!(route("/api/config", Method::Get), Ok(RouteAction::GetConfig));
    assert_eq!(route("/api/config", Method::Put), Ok(RouteAction::PutConfig));
    assert_eq!(route("/api/config", Method::Post), Ok(RouteAction::MethodNotAllowed));
}

#[test]
fn scan_needs_post() {
    assert_eq!(route("/api/scan", Method::Post), Ok(RouteAction::StartScan));
    assert_eq!(route("/api/scan", Method::Get), Ok(RouteAction::MethodNotAllowed));
}

#[test]
fn assets_by_path() {
    assert_eq!(route("/assets/css/style.css", Method::Get), Ok(RouteAction::ServeAsset("css/style.css".into())));
    assert_eq!(route("/assets/js/i18n/de.js", Method::Get), Ok(RouteAction::ServeAsset("js/i18n/de.js".into())));
    assert_eq!(route("/assets/x.js", Method::Put), Ok(RouteAction::MethodNotAllowed));
}

#[test]
fn background_routes() {
    assert_eq!(route("/api/background/status", Method::Get), Ok(RouteAction::BackgroundStatus));
    assert_eq!(route("/api/background/photo", Method::Get), Ok(RouteAction::BackgroundPhoto));
    assert_eq!(route("/api/background/photo", Method::Other), Ok(RouteAction::MethodNotAllowed));
}

#[test]
fn spa_fallback_and_unknown_api() {
    assert_eq!(route("/", Method::Get), Ok(RouteAction::ServeIndex));
    assert_eq!(route("/settings/theme", Method::Get), Ok(RouteAction::ServeIndex));
    assert_eq!(route("/settings", Method::Post), Ok(RouteAction::ServeIndex));
    assert_eq!(route("/api/unknown", Method::Get), Ok(RouteAction::ApiNotFound));
    assert_eq!(route("/api/", Method::Get), Ok(RouteAction::ApiNotFound));
}

#[test]
fn path_outside_the_table_is_not_found() {
    assert_eq!(route("", Method::Get), Err(AppError::NotFound("no route for path: ".into())));
}

#[test]
fn icon_search_query() {
    let router = build_router().unwrap();
    assert_eq!(
        route_request(&router, "/api/icons/search", Method::Get, Some("limit=3&q=plex&q=emby")),
        Ok(RouteAction::SearchIcons("plex".into()))
    );
    assert_eq!(route_request(&router, "/api/icons/search", Method::Get, None), Ok(RouteAction::NoIcons));
    assert_eq!(route_request(&router, "/api/icons/search", Method::Get, Some("q=")), Ok(RouteAction::NoIcons));
    assert_eq!(
        route_request(&router, "/api/icons/search", Method::Post, Some("q=plex")),
        Ok(RouteAction::MethodNotAllowed)
    );
}

#[test]
fn query_parsing() {
    assert_eq!(query_q(Some("q=a=b")), "a=b");
    assert_eq!(query_q(Some("q&q=x")), "x");
    assert_eq!(query_q(Some("qq=1&Q=2")), "");
    assert_eq!(query_q(Some("")), "");
    assert_eq!(query_q(None), "");
    assert_eq!(query_q(Some("x=1&q=home%20assistant")), "home%20assistant");
}

#[test]
fn dispatch_from_a_given_match() {
    assert_eq!(
        dispatch(None, "/nowhere", Method::Get, None),
        Err(AppError::NotFound("no route for path: /nowhere".into()))
    );
    assert_eq!(
        dispatch(Some((Route::Assets, vec![])), "/assets/", Method::Get, None),
        Ok(RouteAction::ServeAsset("".into()))
    );
    assert_eq!(
        dispatch(
            Some((Route::Assets, vec![("path".into(), "a.js".into()), ("path".into(), "b.js".into())])),
            "/assets/a.js",
            Method::Get,
            None
        ),
        Ok(RouteAction::ServeAsset("a.js".into()))
    );
    assert_eq!(dispatch(Some((Route::SpaFallback, vec![])), "/api/x", Method::Get, None), Ok(RouteAction::ApiNotFound));
}
