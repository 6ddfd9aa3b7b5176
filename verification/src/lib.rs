//! Synthesis of container-orchestrator manifests for deployable services.
//!
//! The crate turns an internal model of a deployable service (image,
//! environment, secret files, routing rules, redeploy strategy, resource
//! limits) into the plain-value payload objects an orchestrator and an
//! edge-routing proxy need, together with the naming scheme that keeps those
//! objects correlated, two small size parsers, and a log-interval merge
//! utility.
use vstd::prelude::*;

pub mod config;
pub mod json;
pub mod logs;
pub mod model;
pub mod names;
pub mod payloads;
pub mod runtime;
pub mod text;

verus! {

/// The failures this crate can report: a malformed size string handed to one
/// of the value parsers, and a fetched ingress route that lacks the data a
/// routing model needs.
#[derive(Clone, Copy, Debug, PartialEq, Eq, Structural)]
pub enum SynthesisError {
    InvalidSizeFormat,
    MissingRouteData,
}

} // verus!
