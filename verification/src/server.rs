//! Server configuration: the ordered root list and the listening port.
//!
//! The root list is constructed once at startup and never changes size or
//! order afterwards; earlier roots take priority during resolution.

use vstd::prelude::*;

verus! {

/// The server's configuration: an ordered list of root directory paths
/// (earlier roots take priority) and the listening port.
#[derive(Clone)]
pub struct Server {
    pub paths: Vec<String>,
    pub port: i32,
}

impl Server {
    /// Build a server configuration from its parts, unchanged.
    pub fn new(paths: Vec<String>, port: i32) -> (s: Server)
        ensures
            s.paths == paths,
            s.port == port,
    {
        Server { paths, port }
    }
}

} // verus!
