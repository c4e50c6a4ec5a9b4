//! Fallback static-file resolution: an ordered list of root directories is
//! searched in priority order for a requested relative path, and the first
//! root that holds a regular file at that path wins.
//!
//! The resolver works on plain path strings together with the filesystem
//! facts it needs (whether each candidate names a regular file); the caller
//! gathers those facts and performs all I/O.

pub mod files;
pub mod server;
