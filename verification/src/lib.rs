//! A small lexical-lookup library: dictionary records filtered by a
//! partially-specified query (regex patterns, exact counts, frequency
//! bounds), with the request framing and bulk-reload rules of the
//! accompanying service.

pub mod engine;
pub mod http;
pub mod pattern;
pub mod query;
pub mod record;
pub mod store;
pub mod text;
