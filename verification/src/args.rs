//! Startup configuration: the daemon's API key and base URL.
//!
//! The API key may be a literal secret or a path to a file holding the
//! secret; resolving a path to its contents touches the file system and is
//! left to the surrounding program, which hands the resolved values in.

use vstd::prelude::*;

verus! {

/// Configuration values the aggregator is started with.
#[derive(Debug)]
pub struct Args {
    /// Bearer token (or, before resolution, a path to a file holding it).
    pub api_key: String,
    /// Base URL of the daemon's REST interface.
    pub base_url: String,
}

impl Args {
    pub fn new(api_key: String, base_url: String) -> (r: Self)
        ensures
            r.api_key@ == api_key@,
            r.base_url@ == base_url@,
    {
        Args { api_key, base_url }
    }
}

} // verus!
