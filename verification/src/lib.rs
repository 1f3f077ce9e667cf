//! A small HTTP file-server core: request-path resolution, directory-listing
//! rendering, and the server lifecycle, with their behaviour stated in
//! contracts. The HTTP transport, the filesystem and the command line are
//! outside collaborators; they hand these functions plain values and take
//! plain values back.

pub mod config;
pub mod lifecycle;
pub mod listing;
pub mod paths;
pub mod resolve;
