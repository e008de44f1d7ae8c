//! The whole way of a request through a registry in memory: the router
//! picks the route, the request passes the pipeline of that route, the
//! handler runs, and the response passes the pipeline on its way out.
//!
//! In memory no stage has work of its own to do: each lets the request
//! proceed and leaves the response as it was handed to it. What remains of
//! the pipeline is what it does itself, the shaping of failures.

use crate::download::{outcome_of, OutcomeView};
use crate::endpoint::Endpoint;
use crate::path::pieces;
use crate::pattern::value_of;
use crate::pipeline::{
    inbound, outbound, passed_out, place_of, returned, stages_enter_in_order,
    what_is_left_leads_out, Move, MoveView, Passage, PassageView, Signal, Stage,
};
use crate::registry::{downloaded, Registry, RegistryView};
use crate::response::{bare, Response, ResponseView};
use crate::router::{resolved, Method, Resolution, ResolutionView, Router, RouterView};
use crate::version::semver_parse;
use vstd::prelude::*;

verus! {

/// The value of a parameter, or the empty text where the route has no such
/// parameter.
pub open spec fn wanted(params: Seq<(Seq<char>, Seq<char>)>, name: Seq<char>) -> Seq<char> {
    match value_of(params, name) {
        Some(value) => value,
        None => Seq::empty(),
    }
}

/// What the handler of a request returns, and the registry as it leaves
/// it. Where no route answers, the router's own refusal stands for the
/// handler. The download route is served; the handlers of the other routes
/// are not part of a registry in memory, which answers them with 501.
pub open spec fn handled(before: RegistryView, resolution: ResolutionView) -> (
    Result<ResponseView, crate::error::ErrorView>,
    RegistryView,
) {
    match resolution {
        ResolutionView::Found { endpoint, params, .. } => if endpoint
            == Endpoint::ApiCratesDownload {
            downloaded(
                before,
                wanted(params, "name"@),
                wanted(params, "version"@),
                semver_parse(wanted(params, "version"@)),
            )
        } else {
            (Ok(bare(501)), before)
        },
        ResolutionView::MethodNotAllowed => (Ok(bare(405)), before),
        ResolutionView::NotFound => (Ok(bare(404)), before),
    }
}

/// The stages that a request passes: those of its route, or, where no
/// route answers, those of the router alone.
pub open spec fn stages_of(router: RouterView, resolution: ResolutionView) -> Seq<Stage> {
    match resolution {
        ResolutionView::Found { stages, .. } => stages,
        _ => router.stages,
    }
}

/// The response to a request, and the registry as the request leaves it.
pub open spec fn served(
    router: RouterView,
    before: RegistryView,
    method: Method,
    path: Seq<char>,
) -> (ResponseView, RegistryView) {
    let resolution = resolved(router, method, pieces(path));
    let stages = stages_of(router, resolution);
    let (outcome, after) = handled(before, resolution);
    (passed_out(stages, stages.len() as int, returned(outcome)), after)
}

/// Whatever fails behind a stage that shapes failures leaves in the one
/// shape: where the route of a request has an `ErrorShape` stage and its
/// handler fails, the response is the failure, shaped.
pub proof fn failures_of_shaped_routes_leave_shaped(
    router: RouterView,
    before: RegistryView,
    method: Method,
    path: Seq<char>,
)
    requires
        stages_of(router, resolved(router, method, pieces(path))).contains(Stage::ErrorShape),
        handled(before, resolved(router, method, pieces(path))).0 is Err,
    ensures
        served(router, before, method, path).0 == crate::response::shaped(
            crate::response::failed(handled(before, resolved(router, method, pieces(path))).0->Err_0),
        ),
        served(router, before, method, path).0.status == 200,
        served(router, before, method, path).1 == before,
{
    let resolution = resolved(router, method, pieces(path));
    let stages = stages_of(router, resolution);
    let (outcome, after) = handled(before, resolution);
    let k = choose|k: int| 0 <= k < stages.len() && stages[k] == Stage::ErrorShape;
    crate::pipeline::failures_leave_shaped(stages, stages.len() as int, returned(outcome));
    match resolution {
        ResolutionView::Found { endpoint, params, .. } => {
            crate::registry::a_served_download_counts_once(
                before,
                wanted(params, "name"@),
                wanted(params, "version"@),
                semver_parse(wanted(params, "version"@)),
            );
        },
        _ => {},
    }
}

/// A `GET` of `/api/v1/crates/{name}/{version}/download` is a download of
/// that version of that crate: the registry is left as the download leaves
/// it, a tarball that is served is sent as it is, and a failure is sent in
/// the one shape of the API.
pub proof fn a_download_request_is_a_download(
    frontend: bool,
    before: RegistryView,
    path: Seq<char>,
    name: Seq<char>,
    version: Seq<char>,
)
    requires
        pieces(path) == crate::site::download_path(name, version),
    ensures
        served(crate::site::site_table(frontend), before, Method::Get, path) == (
            match downloaded(before, name, version, semver_parse(version)).0 {
                Ok(response) => response,
                Err(error) => crate::response::shaped(crate::response::failed(error)),
            },
            downloaded(before, name, version, semver_parse(version)).1,
        ),
{
    crate::site::downloads_reach_the_download_handler(frontend, Method::Get, name, version);
    reveal_strlit("name");
    reveal_strlit("version");
    let params = seq![("name"@, name), ("version"@, version)];
    assert(params.last() == ("version"@, version));
    assert(params.drop_last() =~= seq![("name"@, name)]);
    assert(params.drop_last().last() == ("name"@, name));
    assert("name"@.len() != "version"@.len());
    assert(value_of(params, "version"@) == Some(version));
    assert(value_of(params.drop_last(), "name"@) == Some(name));
    assert(value_of(params, "name"@) == value_of(params.drop_last(), "name"@));
    let stages = seq![Stage::RequestLog, Stage::ErrorShape];
    let (outcome, after) = downloaded(before, name, version, semver_parse(version));
    reveal_with_fuel(passed_out, 3);
    crate::registry::a_served_download_counts_once(before, name, version, semver_parse(version));
}

/// Runs the handler that a request was routed to.
pub fn handle(registry: &mut Registry, resolution: &Resolution) -> (outcome: Result<
    Response,
    crate::error::Error,
>)
    ensures
        (outcome_of(outcome), final(registry)@) == handled(old(registry)@, resolution@),
{
    match resolution {
        Resolution::Found { endpoint, .. } => {
            if *endpoint == Endpoint::ApiCratesDownload {
                let name = match resolution.param("name") {
                    Some(value) => value,
                    None => String::new(),
                };
                let requested = match resolution.param("version") {
                    Some(value) => value,
                    None => String::new(),
                };
                registry.download(name.as_str(), requested.as_str())
            } else {
                Ok(Response::new(501))
            }
        },
        Resolution::MethodNotAllowed => Ok(Response::new(405)),
        Resolution::NotFound => Ok(Response::new(404)),
    }
}

/// Answers a request: routes it, lets it pass the pipeline, runs the
/// handler and lets the response pass the pipeline on its way out.
pub fn serve(registry: &mut Registry, router: &Router, method: Method, path: &str) -> (response: Response)
    ensures
        (response@, final(registry)@) == served(router@, old(registry)@, method, path@),
{
    let resolution = router.resolve(method, path);
    let stages = match &resolution {
        Resolution::Found { stages, .. } => crate::pipeline::copy_stages(stages),
        _ => crate::pipeline::copy_stages(&router.stages),
    };
    let ghost all = stages@;
    assert(stages.len() <= usize::MAX);
    let (mut passage, mut asked) = Passage::start(stages);
    proof {
        stages_enter_in_order(all, 0);
    }
    loop
        invariant_except_break
            all.len() <= usize::MAX,
            passage@ == (PassageView { stages: all, place: place_of(asked@) }),
            asked@ is Enter || asked@ is Invoke,
            asked@ matches MoveView::Enter { index, .. } ==> index < all.len(),
            *registry == *old(registry),
        ensures
            passage@ == (PassageView { stages: all, place: place_of(asked@) }),
            asked@ is Invoke,
            *registry == *old(registry),
        decreases
            all.len() - (match asked@ {
                MoveView::Enter { index, .. } => index as int,
                _ => all.len() as int,
            }),
            (if asked@ is Enter { 1nat } else { 0nat }),
    {
        match asked {
            Move::Enter { index, .. } => {
                proof {
                    stages_enter_in_order(all, index + 1);
                }
                let (onward, asks) = passage.advance(Signal::Proceed);
                passage = onward;
                asked = asks;
            },
            _ => {
                break ;
            },
        }
    }
    let outcome = handle(registry, &resolution);
    let ghost from_handler = returned(outcome_of(outcome));
    proof {
        what_is_left_leads_out(all, all.len() as int, from_handler);
    }
    let (onward, asks) = passage.advance(Signal::Handled(outcome));
    passage = onward;
    asked = asks;
    loop
        invariant
            all.len() <= usize::MAX,
            passage@ == (PassageView { stages: all, place: place_of(asked@) }),
            match asked@ {
                MoveView::Leave { index, response, .. } => index < all.len() && passed_out(
                    all,
                    index as int,
                    response,
                ) == passed_out(all, all.len() as int, from_handler),
                MoveView::Emit(sent) => sent == passed_out(all, all.len() as int, from_handler),
                _ => false,
            },
            from_handler == returned(handled(old(registry)@, resolution@).0),
            registry@ == handled(old(registry)@, resolution@).1,
            all == stages_of(router@, resolution@),
            resolution@ == resolved(router@, method, pieces(path@)),
        decreases
            (match asked@ {
                MoveView::Leave { index, .. } => index as int + 1,
                _ => 0,
            }),
    {
        match asked {
            Move::Leave { index, response, .. } => {
                proof {
                    what_is_left_leads_out(all, index as int, response@);
                }
                let (onward, asks) = passage.advance(Signal::Left(response));
                passage = onward;
                asked = asks;
            },
            Move::Emit(response) => {
                return response;
            },
            _ => {
                // Never taken: the way out leads to a stage or to the end.
                return Response::new(500);
            },
        }
    }
}

} // verus!
