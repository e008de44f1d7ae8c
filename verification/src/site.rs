//! The registry's own routes: the API that Cargo speaks, the pages of the
//! optional frontend, and the two mounted into one table.

use crate::endpoint::Endpoint;
use crate::path::reading;
use crate::pattern::{
    admits, bindings, bindings_upto, fits, is_open_ended, overlaps, pattern_of, pattern_upto,
    rank, tail, SegmentView,
};
use crate::pipeline::Stage;
use crate::router::{
    answered_iff_won, answers, is_answered, is_known, is_unambiguous, nested,
    resolution_ignores_order, resolved, wins, Method, ResolutionView, RouteView, Router,
    RouterView,
};
use vstd::prelude::*;

verus! {

/// A route as `Router::at` registers it.
pub open spec fn route(method: Method, pattern: Seq<char>, endpoint: Endpoint) -> RouteView {
    RouteView { method, pattern: pattern_of(pattern), endpoint, stages: Seq::empty() }
}

/// The routes of a router as they stand once it is mounted below a prefix.
pub open spec fn mounted(prefix: Seq<char>, inner: RouterView) -> Seq<RouteView> {
    inner.routes.map_values(|r: RouteView| nested(pattern_of(prefix), inner.stages, r))
}

/// The API: every failure is given the shape that Cargo reads, and these
/// are the routes.
pub open spec fn api_table() -> RouterView {
    RouterView {
        stages: seq![Stage::ErrorShape],
        routes: seq![
            route(Method::Post, "/account/register"@, Endpoint::ApiAccountRegister),
            route(Method::Post, "/account/login"@, Endpoint::ApiAccountLogin),
            route(Method::Post, "/account/tokens"@, Endpoint::ApiTokenInfo),
            route(Method::Put, "/account/tokens"@, Endpoint::ApiTokenGenerate),
            route(Method::Delete, "/account/tokens"@, Endpoint::ApiTokenRevoke),
            route(Method::Get, "/account/tokens/:name"@, Endpoint::ApiTokenInfoByName),
            route(Method::Get, "/categories"@, Endpoint::ApiCategories),
            route(Method::Get, "/crates"@, Endpoint::ApiCratesSearch),
            route(Method::Put, "/crates/new"@, Endpoint::ApiCratesPublish),
            route(Method::Get, "/crates/suggest"@, Endpoint::ApiCratesSuggest),
            route(Method::Get, "/crates/:name"@, Endpoint::ApiCratesInfo),
            route(Method::Get, "/crates/:name/owners"@, Endpoint::ApiOwnersList),
            route(Method::Put, "/crates/:name/owners"@, Endpoint::ApiOwnersAdd),
            route(Method::Delete, "/crates/:name/owners"@, Endpoint::ApiOwnersRemove),
            route(Method::Delete, "/crates/:name/:version/yank"@, Endpoint::ApiCratesYank),
            route(Method::Put, "/crates/:name/:version/unyank"@, Endpoint::ApiCratesUnyank),
            route(Method::Get, "/crates/:name/:version/download"@, Endpoint::ApiCratesDownload),
        ],
    }
}

/// The frontend: cookies are read and the author is found before any page
/// is served, and these are the routes.
pub open spec fn frontend_table() -> RouterView {
    RouterView {
        stages: seq![Stage::Cookies, Stage::Auth],
        routes: seq![
            route(Method::Get, "/"@, Endpoint::FrontIndex),
            route(Method::Get, "/me"@, Endpoint::FrontMe),
            route(Method::Get, "/search"@, Endpoint::FrontSearch),
            route(Method::Get, "/most-downloaded"@, Endpoint::FrontMostDownloaded),
            route(Method::Get, "/last-updated"@, Endpoint::FrontLastUpdated),
            route(Method::Get, "/crates/:crate"@, Endpoint::FrontCrate),
            route(Method::Get, "/account/login"@, Endpoint::FrontLoginForm),
            route(Method::Post, "/account/login"@, Endpoint::FrontLoginSubmit),
            route(Method::Get, "/account/logout"@, Endpoint::FrontLogout),
            route(Method::Get, "/account/register"@, Endpoint::FrontRegisterForm),
            route(Method::Post, "/account/register"@, Endpoint::FrontRegisterSubmit),
            route(Method::Get, "/account/manage"@, Endpoint::FrontManage),
            route(Method::Post, "/account/manage/password"@, Endpoint::FrontManagePassword),
            route(Method::Post, "/account/manage/tokens"@, Endpoint::FrontManageTokens),
            route(
                Method::Get,
                "/account/manage/tokens/:token-id/revoke"@,
                Endpoint::FrontManageTokenRevoke,
            ),
            route(Method::Get, "/assets/*path"@, Endpoint::FrontAssets),
        ],
    }
}

/// The whole site: every request is logged; the frontend, where it is
/// enabled, stands at the root and the API below `/api/v1`.
pub open spec fn site_table(frontend: bool) -> RouterView {
    RouterView {
        stages: seq![Stage::RequestLog],
        routes: if frontend {
            mounted("/"@, frontend_table()) + mounted("/api/v1"@, api_table())
        } else {
            mounted("/api/v1"@, api_table())
        },
    }
}

/// No two routes of the API can tie.
pub proof fn the_api_is_unambiguous()
    ensures
        is_unambiguous(api_table().routes),
{
    reveal_strlit("/account/register");
    reveal_strlit("/account/login");
    reveal_strlit("/account/tokens");
    reveal_strlit("/account/tokens/:name");
    reveal_strlit("/categories");
    reveal_strlit("/crates");
    reveal_strlit("/crates/new");
    reveal_strlit("/crates/suggest");
    reveal_strlit("/crates/:name");
    reveal_strlit("/crates/:name/owners");
    reveal_strlit("/crates/:name/:version/yank");
    reveal_strlit("/crates/:name/:version/unyank");
    reveal_strlit("/crates/:name/:version/download");
    reveal_with_fuel(reading, 41);
    reveal_with_fuel(pattern_upto, 6);
    let routes = api_table().routes;
    assert forall|i: int, j: int|
        0 <= i < routes.len() && 0 <= j < routes.len() && i != j && (#[trigger] routes[i]).method
            == (#[trigger] routes[j]).method implies !overlaps(
        routes[i].pattern,
        routes[j].pattern,
    ) by {
        let a = routes[i].pattern;
        let b = routes[j].pattern;
        if a.len() == b.len() && a.len() > 0 {
            // Two routes of one method and one length differ in their first
            // or in their last segment.
            let last = a.len() - 1;
            assert(rank(a[last]) == rank(b[last]) ==> a[last] != b[last] || a[0] != b[0]);
        }
    }
}

/// No two routes of the frontend can tie.
pub proof fn the_frontend_is_unambiguous()
    ensures
        is_unambiguous(frontend_table().routes),
{
    reveal_strlit("/");
    reveal_strlit("/me");
    reveal_strlit("/search");
    reveal_strlit("/most-downloaded");
    reveal_strlit("/last-updated");
    reveal_strlit("/crates/:crate");
    reveal_strlit("/account/login");
    reveal_strlit("/account/logout");
    reveal_strlit("/account/register");
    reveal_strlit("/account/manage");
    reveal_strlit("/account/manage/password");
    reveal_strlit("/account/manage/tokens");
    reveal_strlit("/account/manage/tokens/:token-id/revoke");
    reveal_strlit("/assets/*path");
    reveal_with_fuel(reading, 41);
    reveal_with_fuel(pattern_upto, 6);
    let routes = frontend_table().routes;
    assert forall|i: int, j: int|
        0 <= i < routes.len() && 0 <= j < routes.len() && i != j && (#[trigger] routes[i]).method
            == (#[trigger] routes[j]).method implies !overlaps(
        routes[i].pattern,
        routes[j].pattern,
    ) by {
        let a = routes[i].pattern;
        let b = routes[j].pattern;
        if a.len() == b.len() && a.len() > 0 {
            // Two routes of one method and one length differ in their first
            // or in their last segment.
            let last = a.len() - 1;
            assert(rank(a[last]) == rank(b[last]) ==> a[last] != b[last] || a[0] != b[0]);
        }
    }
}

/// No two routes of the site can tie, with the frontend or without.
pub proof fn the_site_is_unambiguous(frontend: bool)
    ensures
        is_unambiguous(site_table(frontend).routes),
{
    reveal_strlit("/account/register");
    reveal_strlit("/account/login");
    reveal_strlit("/account/tokens");
    reveal_strlit("/account/tokens/:name");
    reveal_strlit("/categories");
    reveal_strlit("/crates");
    reveal_strlit("/crates/new");
    reveal_strlit("/crates/suggest");
    reveal_strlit("/crates/:name");
    reveal_strlit("/crates/:name/owners");
    reveal_strlit("/crates/:name/:version/yank");
    reveal_strlit("/crates/:name/:version/unyank");
    reveal_strlit("/crates/:name/:version/download");
    reveal_strlit("/");
    reveal_strlit("/me");
    reveal_strlit("/search");
    reveal_strlit("/most-downloaded");
    reveal_strlit("/last-updated");
    reveal_strlit("/crates/:crate");
    reveal_strlit("/account/logout");
    reveal_strlit("/account/manage");
    reveal_strlit("/account/manage/password");
    reveal_strlit("/account/manage/tokens");
    reveal_strlit("/account/manage/tokens/:token-id/revoke");
    reveal_strlit("/assets/*path");
    reveal_strlit("/api/v1");
    reveal_with_fuel(reading, 41);
    reveal_with_fuel(pattern_upto, 6);
    let routes = site_table(frontend).routes;
    assert forall|i: int, j: int|
        0 <= i < routes.len() && 0 <= j < routes.len() && i != j && (#[trigger] routes[i]).method
            == (#[trigger] routes[j]).method implies !overlaps(
        routes[i].pattern,
        routes[j].pattern,
    ) by {
        let a = routes[i].pattern;
        let b = routes[j].pattern;
        if a.len() == b.len() && a.len() > 0 {
            // Two routes of one method and one length differ in their first
            // or in their last segment.
            let last = a.len() - 1;
            assert(rank(a[last]) == rank(b[last]) ==> a[last] != b[last] || a[0] != b[0]);
        }
    }
}

/// The site resolves every request alike in whatever order its routes are
/// registered: a router that holds the routes of the site, in any order,
/// and the stages of the site, makes of every request what the site makes
/// of it.
pub proof fn the_site_ignores_order(
    frontend: bool,
    other: RouterView,
    method: Method,
    parts: Seq<Seq<char>>,
)
    requires
        other.stages == site_table(frontend).stages,
        forall|r: RouteView| site_table(frontend).routes.contains(r) <==> other.routes.contains(r),
    ensures
        resolved(other, method, parts) == resolved(site_table(frontend), method, parts),
{
    the_site_is_unambiguous(frontend);
    resolution_ignores_order(site_table(frontend), other, method, parts);
}

/// The pieces of the path under which a version of a crate is downloaded.
pub open spec fn download_path(name: Seq<char>, version: Seq<char>) -> Seq<Seq<char>> {
    seq!["api"@, "v1"@, "crates"@, name, version, "download"@]
}

/// A `GET` of `/api/v1/crates/{name}/{version}/download` reaches the
/// download handler, whatever the name and the version are, with the two
/// bound to `name` and `version`, behind the request log and the shaping of
/// failures; and with any other method the path is known but not allowed.
pub proof fn downloads_reach_the_download_handler(
    frontend: bool,
    method: Method,
    name: Seq<char>,
    version: Seq<char>,
)
    ensures
        resolved(site_table(frontend), method, download_path(name, version)) == if method
            == Method::Get {
            ResolutionView::Found {
                endpoint: Endpoint::ApiCratesDownload,
                params: seq![("name"@, name), ("version"@, version)],
                tail: Seq::empty(),
                stages: seq![Stage::RequestLog, Stage::ErrorShape],
            }
        } else {
            ResolutionView::MethodNotAllowed
        },
{
    reveal_strlit("/account/register");
    reveal_strlit("/account/login");
    reveal_strlit("/account/tokens");
    reveal_strlit("/account/tokens/:name");
    reveal_strlit("/categories");
    reveal_strlit("/crates");
    reveal_strlit("/crates/new");
    reveal_strlit("/crates/suggest");
    reveal_strlit("/crates/:name");
    reveal_strlit("/crates/:name/owners");
    reveal_strlit("/crates/:name/:version/yank");
    reveal_strlit("/crates/:name/:version/unyank");
    reveal_strlit("/crates/:name/:version/download");
    reveal_strlit("/");
    reveal_strlit("/me");
    reveal_strlit("/search");
    reveal_strlit("/most-downloaded");
    reveal_strlit("/last-updated");
    reveal_strlit("/crates/:crate");
    reveal_strlit("/account/logout");
    reveal_strlit("/account/manage");
    reveal_strlit("/account/manage/password");
    reveal_strlit("/account/manage/tokens");
    reveal_strlit("/account/manage/tokens/:token-id/revoke");
    reveal_strlit("/assets/*path");
    reveal_strlit("/api/v1");
    reveal_strlit("api");
    reveal_strlit("v1");
    reveal_strlit("crates");
    reveal_strlit("download");
    reveal_strlit("name");
    reveal_strlit("version");
    reveal_with_fuel(reading, 41);
    reveal_with_fuel(pattern_upto, 6);
    reveal_with_fuel(bindings_upto, 7);
    let table = site_table(frontend);
    let routes = table.routes;
    let parts = download_path(name, version);
    let at: int = if frontend {
        32
    } else {
        16
    };
    let pattern = routes[at].pattern;
    assert(pattern.len() == 6);
    assert(pattern[0] is Literal && pattern[0]->Literal_0 =~= "api"@);
    assert(pattern[1] is Literal && pattern[1]->Literal_0 =~= "v1"@);
    assert(pattern[2] is Literal && pattern[2]->Literal_0 =~= "crates"@);
    assert(pattern[3] is Param && pattern[3]->Param_0 =~= "name"@);
    assert(pattern[4] is Param && pattern[4]->Param_0 =~= "version"@);
    assert(pattern[5] is Literal && pattern[5]->Literal_0 =~= "download"@);
    assert(fits(pattern, parts));
    assert forall|j: int| 0 <= j < routes.len() && j != at implies !fits(
        (#[trigger] routes[j]).pattern,
        parts,
    ) by {
        let other = routes[j].pattern;
        if other.len() > 0 {
            let last = other.len() - 1;
            assert(other.len() == 6 ==> !admits(other[last], parts[last]) || !admits(
                other[0],
                parts[0],
            ));
            assert(is_open_ended(other) ==> !admits(other[0], parts[0]));
        }
    }
    if method == Method::Get {
        assert(answers(routes[at], method, parts));
        assert(wins(routes, method, parts, at));
        answered_iff_won(routes, method, parts, at);
        assert(bindings(pattern, parts) =~= seq![("name"@, name), ("version"@, version)]);
        assert(tail(pattern, parts) =~= Seq::<Seq<char>>::empty());
        assert(table.stages + routes[at].stages =~= seq![Stage::RequestLog, Stage::ErrorShape]);
    } else {
        assert(!is_answered(routes, method, parts));
        assert(is_known(routes, parts));
    }
}

/// The router of the API.
pub fn api_routes() -> (router: Router)
    ensures
        router@ == api_table(),
        is_unambiguous(router@.routes),
{
    proof {
        the_api_is_unambiguous();
    }
    let mut app = Router::new();
    app.with(Stage::ErrorShape);
    app.at(Method::Post, "/account/register", Endpoint::ApiAccountRegister);
    app.at(Method::Post, "/account/login", Endpoint::ApiAccountLogin);
    app.at(Method::Post, "/account/tokens", Endpoint::ApiTokenInfo);
    app.at(Method::Put, "/account/tokens", Endpoint::ApiTokenGenerate);
    app.at(Method::Delete, "/account/tokens", Endpoint::ApiTokenRevoke);
    app.at(Method::Get, "/account/tokens/:name", Endpoint::ApiTokenInfoByName);
    app.at(Method::Get, "/categories", Endpoint::ApiCategories);
    app.at(Method::Get, "/crates", Endpoint::ApiCratesSearch);
    app.at(Method::Put, "/crates/new", Endpoint::ApiCratesPublish);
    app.at(Method::Get, "/crates/suggest", Endpoint::ApiCratesSuggest);
    app.at(Method::Get, "/crates/:name", Endpoint::ApiCratesInfo);
    app.at(Method::Get, "/crates/:name/owners", Endpoint::ApiOwnersList);
    app.at(Method::Put, "/crates/:name/owners", Endpoint::ApiOwnersAdd);
    app.at(Method::Delete, "/crates/:name/owners", Endpoint::ApiOwnersRemove);
    app.at(Method::Delete, "/crates/:name/:version/yank", Endpoint::ApiCratesYank);
    app.at(Method::Put, "/crates/:name/:version/unyank", Endpoint::ApiCratesUnyank);
    app.at(Method::Get, "/crates/:name/:version/download", Endpoint::ApiCratesDownload);
    assert(app@.stages =~= api_table().stages);
    assert(app@.routes =~= api_table().routes);
    app
}

/// The router of the frontend.
pub fn frontend_routes() -> (router: Router)
    ensures
        router@ == frontend_table(),
        is_unambiguous(router@.routes),
{
    proof {
        the_frontend_is_unambiguous();
    }
    let mut app = Router::new();
    app.with(Stage::Cookies);
    app.with(Stage::Auth);
    app.at(Method::Get, "/", Endpoint::FrontIndex);
    app.at(Method::Get, "/me", Endpoint::FrontMe);
    app.at(Method::Get, "/search", Endpoint::FrontSearch);
    app.at(Method::Get, "/most-downloaded", Endpoint::FrontMostDownloaded);
    app.at(Method::Get, "/last-updated", Endpoint::FrontLastUpdated);
    app.at(Method::Get, "/crates/:crate", Endpoint::FrontCrate);
    app.at(Method::Get, "/account/login", Endpoint::FrontLoginForm);
    app.at(Method::Post, "/account/login", Endpoint::FrontLoginSubmit);
    app.at(Method::Get, "/account/logout", Endpoint::FrontLogout);
    app.at(Method::Get, "/account/register", Endpoint::FrontRegisterForm);
    app.at(Method::Post, "/account/register", Endpoint::FrontRegisterSubmit);
    app.at(Method::Get, "/account/manage", Endpoint::FrontManage);
    app.at(Method::Post, "/account/manage/password", Endpoint::FrontManagePassword);
    app.at(Method::Post, "/account/manage/tokens", Endpoint::FrontManageTokens);
    app.at(
        Method::Get,
        "/account/manage/tokens/:token-id/revoke",
        Endpoint::FrontManageTokenRevoke,
    );
    app.at(Method::Get, "/assets/*path", Endpoint::FrontAssets);
    assert(app@.stages =~= frontend_table().stages);
    assert(app@.routes =~= frontend_table().routes);
    app
}

/// The router of the whole site.
pub fn site(frontend: bool) -> (router: Router)
    ensures
        router@ == site_table(frontend),
        is_unambiguous(router@.routes),
{
    proof {
        the_site_is_unambiguous(frontend);
    }
    let mut app = Router::new();
    app.with(Stage::RequestLog);
    if frontend {
        let pages = frontend_routes();
        app.nest("/", &pages);
    }
    let api = api_routes();
    app.nest("/api/v1", &api);
    assert(app@.stages =~= site_table(frontend).stages);
    assert(app@.routes =~= site_table(frontend).routes);
    app
}

} // verus!
