//! The verified core of a Cargo-compatible alternative registry.
//!
//! - `names`, `version`: canonical crate names and semantic versions.
//! - `path`, `pattern`, `router`, `site`: request paths, route patterns, the
//!   router that picks the one route for a request, and the registry's own
//!   route tables.
//! - `pipeline`: the middleware pipeline around a handler.
//! - `error`, `response`: failures, responses, and the one shape in which
//!   failures leave the API.
//! - `store`, `repo`: the artifact store and the transactional repository.
//! - `download`: the download handler, as a machine that asks for its work.
//! - `registry`: a registry in memory, and the download handler driven
//!   against it.
//! - `crowd`: downloads under way at once, and the proof that none is lost.
//! - `service`: the whole way of a request, from the router through the
//!   pipeline to the handler and back.

pub mod text;
pub mod names;
pub mod path;
pub mod pattern;
pub mod endpoint;
pub mod pipeline;
pub mod router;
pub mod site;
pub mod version;
pub mod error;
pub mod response;
pub mod store;
pub mod repo;
pub mod download;
pub mod registry;
pub mod crowd;
pub mod service;
