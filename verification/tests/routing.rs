use alexandrie::endpoint::Endpoint;
use alexandrie::pattern::{Binding, Pattern};
use alexandrie::pipeline::Stage;
use alexandrie::response::Response;
use alexandrie::router::{Method, Resolution, Route, Router};
use alexandrie::site::{api_routes, frontend_routes, site};

fn binding(name: &str, value: &str) -> Binding {
    Binding { name: name.to_string(), value: value.to_string() }
}

fn found(endpoint: Endpoint, params: Vec<Binding>, tail: &[&str], stages: Vec<Stage>) -> Resolution {
    Resolution::Found {
        endpoint,
        params,
        tail: tail.iter().map(|s| s.to_string()).collect(),
        stages,
    }
}

#[test]
fn download_route_is_found_with_its_parameters() {
    let app = site(true);
    assert_eq!(
        app.resolve(Method::Get, "/api/v1/crates/foo/1.0.0/download"),
        found(
            Endpoint::ApiCratesDownload,
            vec![binding("name", "foo"), binding("version", "1.0.0")],
            &[],
            vec![Stage::RequestLog, Stage::ErrorShape],
        )
    );
}

#[test]
fn literal_route_wins_over_parameter_route() {
    let app = site(false);
    assert_eq!(
        app.resolve(Method::Get, "/api/v1/crates/suggest"),
        found(Endpoint::ApiCratesSuggest, vec![], &[], vec![Stage::RequestLog, Stage::ErrorShape])
    );
    assert_eq!(
        app.resolve(Method::Get, "/api/v1/crates/serde"),
        found(
            Endpoint::ApiCratesInfo,
            vec![binding("name", "serde")],
            &[],
            vec![Stage::RequestLog, Stage::ErrorShape],
        )
    );
    assert_eq!(
        app.resolve(Method::Put, "/api/v1/crates/new"),
        found(Endpoint::ApiCratesPublish, vec![], &[], vec![Stage::RequestLog, Stage::ErrorShape])
    );
}

#[test]
fn unknown_path_is_not_found() {
    let app = site(true);
    assert_eq!(app.resolve(Method::Get, "/api/v1/nothing/here"), Resolution::NotFound);
    assert_eq!(app.resolve(Method::Get, "/api/v2/crates"), Resolution::NotFound);
    assert_eq!(Router::new().resolve(Method::Get, "/"), Resolution::NotFound);
}

#[test]
fn known_path_with_another_method_is_not_allowed() {
    let app = site(true);
    assert_eq!(
        app.resolve(Method::Post, "/api/v1/crates/foo/1.0.0/download"),
        Resolution::MethodNotAllowed
    );
    assert_eq!(app.resolve(Method::Other, "/api/v1/categories"), Resolution::MethodNotAllowed);
    assert_eq!(app.resolve(Method::Delete, "/me"), Resolution::MethodNotAllowed);
}

#[test]
fn same_path_different_methods_reach_different_handlers() {
    let app = api_routes();
    let stages = vec![Stage::ErrorShape];
    assert_eq!(
        app.resolve(Method::Post, "/account/tokens"),
        found(Endpoint::ApiTokenInfo, vec![], &[], stages.clone())
    );
    assert_eq!(
        app.resolve(Method::Put, "/account/tokens"),
        found(Endpoint::ApiTokenGenerate, vec![], &[], stages.clone())
    );
    assert_eq!(
        app.resolve(Method::Delete, "/account/tokens"),
        found(Endpoint::ApiTokenRevoke, vec![], &[], stages.clone())
    );
    assert_eq!(
        app.resolve(Method::Get, "/account/tokens/ci"),
        found(Endpoint::ApiTokenInfoByName, vec![binding("name", "ci")], &[], stages)
    );
}

#[test]
fn frontend_routes_carry_cookies_and_auth() {
    let app = site(true);
    let stages = vec![Stage::RequestLog, Stage::Cookies, Stage::Auth];
    assert_eq!(
        app.resolve(Method::Get, "/"),
        found(Endpoint::FrontIndex, vec![], &[], stages.clone())
    );
    assert_eq!(
        app.resolve(Method::Get, "/crates/serde"),
        found(Endpoint::FrontCrate, vec![binding("crate", "serde")], &[], stages.clone())
    );
    assert_eq!(
        app.resolve(Method::Get, "/account/manage/tokens/17/revoke"),
        found(
            Endpoint::FrontManageTokenRevoke,
            vec![binding("token-id", "17")],
            &[],
            stages.clone(),
        )
    );
    assert_eq!(
        app.resolve(Method::Get, "/assets/css/main.css"),
        found(Endpoint::FrontAssets, vec![], &["css", "main.css"], stages)
    );
}

#[test]
fn frontend_is_absent_when_disabled() {
    let app = site(false);
    assert_eq!(app.resolve(Method::Get, "/"), Resolution::NotFound);
    assert_eq!(app.resolve(Method::Get, "/me"), Resolution::NotFound);
    assert_eq!(app.routes.len(), 17);
    assert_eq!(site(true).routes.len(), 33);
    assert_eq!(app.stages, vec![Stage::RequestLog]);
}

#[test]
fn the_tables_hold_what_was_registered() {
    let api = api_routes();
    assert_eq!(api.stages, vec![Stage::ErrorShape]);
    assert_eq!(api.routes.len(), 17);
    assert_eq!(
        api.routes[16],
        Route {
            method: Method::Get,
            pattern: Pattern::parse("/crates/:name/:version/download"),
            endpoint: Endpoint::ApiCratesDownload,
            stages: vec![],
        }
    );
    let pages = frontend_routes();
    assert_eq!(pages.stages, vec![Stage::Cookies, Stage::Auth]);
    assert_eq!(pages.routes.len(), 16);
    assert_eq!(pages.routes[0].pattern, Pattern::parse("/"));
    assert_eq!(pages.routes[15].endpoint, Endpoint::FrontAssets);
}

#[test]
fn nest_prefixes_patterns_and_stacks_stages() {
    let mut inner = Router::new();
    inner.with(Stage::Auth);
    inner.at(Method::Get, "/:id", Endpoint::FrontMe);
    let mut outer = Router::new();
    outer.with(Stage::RequestLog);
    outer.at(Method::Get, "/plain", Endpoint::FrontIndex);
    outer.nest("/users", &inner);
    assert_eq!(outer.stages, vec![Stage::RequestLog]);
    assert_eq!(outer.routes.len(), 2);
    assert_eq!(
        outer.routes[1],
        Route {
            method: Method::Get,
            pattern: Pattern::parse("/users/:id"),
            endpoint: Endpoint::FrontMe,
            stages: vec![Stage::Auth],
        }
    );
    assert_eq!(
        outer.resolve(Method::Get, "/users/7"),
        found(
            Endpoint::FrontMe,
            vec![binding("id", "7")],
            &[],
            vec![Stage::RequestLog, Stage::Auth],
        )
    );
    assert_eq!(
        outer.resolve(Method::Get, "/plain"),
        found(Endpoint::FrontIndex, vec![], &[], vec![Stage::RequestLog])
    );
}

#[test]
fn registration_order_does_not_change_the_match() {
    let mut first = Router::new();
    first.at(Method::Get, "/crates/:name", Endpoint::ApiCratesInfo);
    first.at(Method::Get, "/crates/new", Endpoint::ApiCratesPublish);
    first.at(Method::Get, "/crates/*rest", Endpoint::FrontAssets);
    let mut second = Router::new();
    second.at(Method::Get, "/crates/*rest", Endpoint::FrontAssets);
    second.at(Method::Get, "/crates/new", Endpoint::ApiCratesPublish);
    second.at(Method::Get, "/crates/:name", Endpoint::ApiCratesInfo);
    assert!(first.is_unambiguous());
    assert!(second.is_unambiguous());
    for path in ["/crates/new", "/crates/serde", "/crates/a/b", "/crates", "/other"] {
        for method in [Method::Get, Method::Post] {
            assert_eq!(first.resolve(method, path), second.resolve(method, path));
        }
    }
    assert_eq!(
        first.resolve(Method::Get, "/crates/new"),
        found(Endpoint::ApiCratesPublish, vec![], &[], vec![])
    );
    assert_eq!(
        first.resolve(Method::Get, "/crates/a/b"),
        found(Endpoint::FrontAssets, vec![], &["a", "b"], vec![])
    );
}

#[test]
fn between_overlapping_routes_the_earlier_wins() {
    let mut app = Router::new();
    app.at(Method::Get, "/crates/:name", Endpoint::ApiCratesInfo);
    app.at(Method::Get, "/crates/:crate", Endpoint::FrontCrate);
    assert!(!app.is_unambiguous());
    assert_eq!(
        app.resolve(Method::Get, "/crates/x"),
        found(Endpoint::ApiCratesInfo, vec![binding("name", "x")], &[], vec![])
    );
}

#[test]
fn the_site_tables_are_unambiguous() {
    assert!(api_routes().is_unambiguous());
    assert!(frontend_routes().is_unambiguous());
    assert!(site(true).is_unambiguous());
    assert!(site(false).is_unambiguous());
    assert!(Router::new().is_unambiguous());
}

#[test]
fn refusal_is_404_or_405_and_blank() {
    assert_eq!(Resolution::NotFound.refusal(), Some(Response::new(404)));
    assert_eq!(Resolution::MethodNotAllowed.refusal(), Some(Response::new(405)));
    assert_eq!(found(Endpoint::FrontIndex, vec![], &[], vec![]).refusal(), None);
    let blank = Response::new(404);
    assert_eq!(blank.status, 404);
    assert_eq!(blank.content_type, None);
    assert_eq!(blank.body, Vec::<u8>::new());
    assert_eq!(blank.error, None);
}

#[test]
fn param_gives_the_value_bound_to_a_name() {
    let app = site(true);
    let resolution = app.resolve(Method::Get, "/api/v1/crates/foo/1.0.0/download");
    assert_eq!(resolution.param("name"), Some("foo".to_string()));
    assert_eq!(resolution.param("version"), Some("1.0.0".to_string()));
    assert_eq!(resolution.param("other"), None);
    assert_eq!(Resolution::NotFound.param("name"), None);
    assert_eq!(Resolution::MethodNotAllowed.param("name"), None);
}

#[test]
fn lookup_takes_the_last_binding_of_a_name() {
    let bindings = vec![binding("id", "1"), binding("name", "x"), binding("id", "2")];
    assert_eq!(alexandrie::pattern::lookup(&bindings, "id"), Some("2".to_string()));
    assert_eq!(alexandrie::pattern::lookup(&bindings, "name"), Some("x".to_string()));
    assert_eq!(alexandrie::pattern::lookup(&bindings, "none"), None);
    assert_eq!(alexandrie::pattern::lookup(&vec![], "id"), None);
}

#[test]
fn mounting_is_prefixing_on_examples() {
    for (prefix, pattern) in [("/api/v1", "/crates/:name"), ("", "/me"), ("/a/", "b/*rest"), ("/", "")] {
        let mut inner = Router::new();
        inner.at(Method::Get, pattern, Endpoint::FrontMe);
        let mut mounted = Router::new();
        mounted.nest(prefix, &inner);
        let mut direct = Router::new();
        direct.at(Method::Get, format!("{}/{}", prefix, pattern).as_str(), Endpoint::FrontMe);
        assert_eq!(mounted, direct);
    }
}
