//! Verified core of a configuration templating tool: rendering helpers,
//! configuration sources, merged environments and the bookkeeping of the
//! service that answers template requests.

pub mod assoc;
pub mod config;
pub mod couchbase;
pub mod datadogstatsd;
pub mod error;
pub mod files;
pub mod git;
pub mod head;
pub mod json;
pub mod server;
pub mod storage;
pub mod template;
pub mod text;
pub mod transform;
pub mod urls;
