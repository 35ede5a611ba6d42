//! A small read-only catalog service: a route table that answers
//! `GET /api` with a greeting and `GET /api/packs` with the catalog as JSON,
//! and the start, serve, drain and stop sequence of the process that serves it.
use vstd::prelude::*;

pub mod catalog;
pub mod json;
pub mod lifecycle;
pub mod routes;

verus! {

} // verus!
