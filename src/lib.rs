//! Client library for a cloud vector-storage service.
//!
//! - `auth`: Signature Version 4 signing of requests.
//! - `retry`: the decisions of request execution (classification, backoff,
//!   retries); `client`: per-attempt signing and caller-side checks.
//! - `validation`, `config`, `types`, `error`: names, settings, data, errors.
//! - `query`, `setup`: bucket queries, and bucket-and-index setup.
//! - `document`: chunking and cleaning of documents for retrieval.
//! - `cli`: the command-line grammar of the tool; `text`: string helpers.
use vstd::prelude::*;

pub mod auth;
pub mod cli;
pub mod client;
pub mod config;
pub mod dates;
pub mod document;
pub mod error;
pub mod query;
pub mod retry;
pub mod setup;
pub mod text;
pub mod types;
pub mod validation;

verus! {

/// Dimension of the embeddings that the document pipeline produces.
pub fn embedding_dimensions() -> (r: u32)
    ensures
        r == 384,
{
    384
}

} // verus!
