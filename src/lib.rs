//! A caching reverse proxy core for GraphQL endpoints: body classification,
//! per-request configuration, header sanitisation, cache-key derivation and
//! the decisions of the lookup / forward / populate flow.
use vstd::prelude::*;

pub mod text;
pub mod headers;
pub mod json;
pub mod gql;
pub mod body;
pub mod config;
pub mod context;
pub mod flow;
pub mod cache;

verus! {

} // verus!
