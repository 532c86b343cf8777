//! Client-side library for a hierarchically organised JSON-document store:
//! a root namespace holds buckets, buckets hold collections, collections hold
//! records. Every resource kind supports the same create/load/update/set/delete
//! lifecycle with optimistic concurrency control through revision tokens.
//!
//! The verified core covers the request construction pipeline, the dispatch
//! classification, the response hydration and the path <-> identity
//! derivation. The network transport and the JSON text codec are external
//! collaborators kept outside this crate; an in-memory [`server::ServerState`]
//! implements the server side of the wire protocol so that the whole
//! request/response cycle can be exercised and reasoned about in one place.

pub mod bucket;
pub mod client;
pub mod collection;
pub mod error;
pub mod json;
pub mod laws;
pub mod paths;
pub mod record;
pub mod request;
pub mod resource;
pub mod response;
pub mod server;
