use alexandrie::pattern::{Pattern, Segment};
use alexandrie::router::{Method, Resolution, Router};
use alexandrie::site::site;

fn text_of(pattern: &Pattern) -> String {
    let mut text = String::new();
    for segment in &pattern.segments {
        text.push('/');
        match segment {
            Segment::Literal(literal) => text.push_str(literal),
            Segment::Param(name) => {
                text.push(':');
                text.push_str(name);
            }
            Segment::Rest(name) => {
                text.push('*');
                text.push_str(name);
            }
        }
    }
    if text.is_empty() {
        text.push('/');
    }
    text
}

fn recognizer_for(app: &Router, method: Method) -> route_recognizer::Router<usize> {
    let mut recognizer = route_recognizer::Router::new();
    for (index, route) in app.routes.iter().enumerate() {
        if route.method == method {
            recognizer.add(text_of(&route.pattern).as_str(), index);
        }
    }
    recognizer
}

fn agree(app: &Router, method: Method, path: &str) {
    let recognizer = recognizer_for(app, method);
    match (app.resolve(method, path), recognizer.recognize(path)) {
        (Resolution::Found { endpoint, params, tail, .. }, Ok(theirs)) => {
            let route = &app.routes[*theirs.handler];
            assert_eq!(endpoint, route.endpoint, "{:?} {}", method, path);
            let mut captured = 0;
            for binding in &params {
                assert_eq!(theirs.params.find(binding.name.as_str()), Some(binding.value.as_str()));
                captured += 1;
            }
            if let Some(Segment::Rest(name)) = route.pattern.segments.last() {
                assert_eq!(theirs.params.find(name.as_str()), Some(tail.join("/").as_str()));
                captured += 1;
            } else {
                assert!(tail.is_empty());
            }
            assert_eq!(theirs.params.iter().count(), captured);
        }
        (Resolution::MethodNotAllowed, Err(_)) | (Resolution::NotFound, Err(_)) => {}
        (ours, theirs) => panic!(
            "{:?} {}: {:?} here, {:?} there",
            method,
            path,
            ours,
            theirs.map(|found| *found.handler)
        ),
    }
}

#[test]
fn text_of_writes_a_pattern_as_it_was_read() {
    for text in ["/", "/me", "/crates/:name/:version/download", "/assets/*path"] {
        assert_eq!(text_of(&Pattern::parse(text)), text);
    }
}

#[test]
fn the_site_resolves_as_route_recognizer_does() {
    let app = site(true);
    let paths = [
        "/",
        "/me",
        "/search",
        "/most-downloaded",
        "/last-updated",
        "/crates/serde",
        "/crates/new",
        "/account/login",
        "/account/logout",
        "/account/register",
        "/account/manage",
        "/account/manage/password",
        "/account/manage/tokens",
        "/account/manage/tokens/12/revoke",
        "/account/manage/tokens/12",
        "/assets/main.css",
        "/assets/css/deep/main.css",
        "/api/v1/account/register",
        "/api/v1/account/login",
        "/api/v1/account/tokens",
        "/api/v1/account/tokens/ci",
        "/api/v1/categories",
        "/api/v1/crates",
        "/api/v1/crates/new",
        "/api/v1/crates/suggest",
        "/api/v1/crates/serde",
        "/api/v1/crates/serde/owners",
        "/api/v1/crates/serde/1.0.0/yank",
        "/api/v1/crates/serde/1.0.0/unyank",
        "/api/v1/crates/serde/1.0.0/download",
        "/api/v1/crates/new/owners",
        "/api/v1/crates/suggest/1.0.0/download",
        "/api/v1/crates/serde/1.0.0",
        "/api/v1/crates/serde/1.0.0/download/extra",
        "/api/v1",
        "/api/v2/crates",
        "/nothing",
        "/crates",
    ];
    for method in [Method::Get, Method::Post, Method::Put, Method::Delete] {
        for path in paths {
            agree(&app, method, path);
        }
    }
}

#[test]
fn specificity_is_judged_as_route_recognizer_judges_it() {
    let mut app = Router::new();
    app.at(Method::Get, "/files/*rest", alexandrie::endpoint::Endpoint::FrontAssets);
    app.at(Method::Get, "/files/:name", alexandrie::endpoint::Endpoint::FrontCrate);
    app.at(Method::Get, "/files/index", alexandrie::endpoint::Endpoint::FrontIndex);
    app.at(Method::Get, "/:kind/index", alexandrie::endpoint::Endpoint::FrontMe);
    for path in ["/files/index", "/files/other", "/files/a/b", "/docs/index", "/docs/other"] {
        agree(&app, Method::Get, path);
    }
}
