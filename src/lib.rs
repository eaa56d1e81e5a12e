//! A client library for the Presto / Trino statement protocol: header and
//! session state, the response envelope, and the state machine that follows a
//! statement's continuation links. Network transfer is left to the caller.
use vstd::prelude::*;

pub mod client;
pub mod error;
pub mod executor;
pub mod headers;
pub mod request;
pub mod results;
pub mod session;
pub mod stream;
pub mod text;

pub use client::PrestinoClient;
pub use error::PrestinoError;
pub use executor::{NextResponse, StatementExecutor};
pub use headers::{HeaderKey, Headers};
pub use request::{Method, Request};
pub use results::{Column, ErrorLocation, QueryError, QueryResults, QueryStats};

verus! {

/// Which engine's header naming convention is in effect.
#[derive(Copy, Clone, Debug, PartialEq, Eq, Structural)]
pub enum Fork {
    Presto,
    Trino,
}

/// The wire name of header `name` under `fork`: `x-presto-<name>` or `x-trino-<name>`.
pub open spec fn header_name(fork: Fork, name: Seq<char>) -> Seq<char> {
    fork.spec_prefix() + "-"@ + name
}

impl Fork {
    pub open spec fn spec_prefix(self) -> Seq<char> {
        match self {
            Fork::Presto => "x-presto"@,
            Fork::Trino => "x-trino"@,
        }
    }

    pub fn prefix(&self) -> (r: &'static str)
        ensures
            r@ == self.spec_prefix(),
    {
        match self {
            Fork::Presto => "x-presto",
            Fork::Trino => "x-trino",
        }
    }

    pub fn name_for(&self, name: &str) -> (r: String)
        ensures
            r@ == header_name(*self, name@),
    {
        let mut r = String::from_str(self.prefix());
        r.append("-");
        r.append(name);
        r
    }
}

} // verus!
