//! What the registry is configured with.

use vstd::prelude::*;
use vstd::string::*;

verus! {

/// The registry's configuration. It is handed to each operation that needs
/// it; nothing is read from ambient state.
#[derive(Debug, PartialEq, Eq)]
pub struct Config {
    /// The domain under which every public name is created.
    pub domain: String,
    /// The socket on which the DNS bridge is served. Without one the
    /// bridge is served over HTTP, beside the registry's own routes.
    pub socket_path: Option<String>,
}

impl Config {
    /// A configuration for `domain`, with the DNS bridge served over HTTP.
    pub fn new(domain: &str) -> (config: Config)
        ensures
            config.domain@ == domain@,
            config.socket_path is None,
    {
        Config { domain: String::from_str(domain), socket_path: None }
    }
}

} // verus!
