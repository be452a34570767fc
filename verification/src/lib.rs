//! A client library for a multi-service HTTP backend: one base URL is
//! resolved into five namespaced service endpoints, an immutable credential
//! header set is attached to every request, and a fluent query builder
//! renders filter/selection/ordering state into concrete HTTP requests.
//!
//! The library renders requests and interprets responses as plain values;
//! issuing the network call is left to the embedding application.

pub mod client;
pub mod error;
pub mod headers;
pub mod options;
pub mod query;
pub mod response;
pub mod text;
pub mod urls;

pub use client::{RealtimeChannelHandle, RpcBuilder, SupabaseClient};
pub use error::ClientError;
pub use headers::HeaderSet;
pub use options::{
    DefaultDbOptions, RealtimeClientOptions, SupabaseAuthClientOptions,
    SupabaseStorageClientOptions,
};
pub use query::{
    CountKind, FilterClause, FilterOp, Method, PostgrestQueryBuilder, Request, Value,
};
pub use urls::ServiceUrls;
