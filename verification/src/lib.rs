//! A small HTTP/1.1 origin server library: the protocol model, the reader
//! that takes one request off a byte source, the router, the resource cache
//! and the handling of one connection, each with machine-checked contracts.

pub mod cli;
pub mod config;
pub mod connection;
pub mod dbuffer;
pub mod error;
pub mod http;
pub mod log;
pub mod number;
pub mod resource;
pub mod route;
pub mod text;

use vstd::prelude::*;

verus! {

/// The version of the library.
pub const RSWEB_VERSION: &'static str = "0.8.9";

/// The name that responses carry in their `Server` header.
pub const RSWEB_SERVER_STR: &'static str = "rsweb/0.8.9";

} // verus!
