//! Build-state core of a build orchestration server: typed identifiers, the
//! build lifecycle, append-only children and log streams with seekable
//! tailing readers, and local-first resolution across peers.

pub mod children;
pub mod cursor;
pub mod dependency;
pub mod error;
pub mod fault;
pub mod http;
pub mod id;
pub mod laws;
pub mod lifecycle;
pub mod log;
pub mod notify;
pub mod outside;
pub mod query;
pub mod row;
pub mod server;
pub mod sse;
pub mod statement;
pub mod status;
pub mod store;
pub mod text;
pub mod trace;
