//! The static-file resolution decision: a request is served from disk exactly
//! when its resolved path is a regular file; everything else falls through to
//! the directory-listing renderer.

use vstd::prelude::*;

verus! {

/// What a probe of the resolved filesystem path found.
#[derive(Clone, Copy, PartialEq, Eq, Structural, Debug)]
pub enum PathKind {
    /// The path exists and is a regular file.
    RegularFile,
    /// The path exists and is a directory.
    Directory,
    /// The path does not exist.
    Missing,
    /// The path exists but cannot be accessed (permissions, not-a-file).
    Unreadable,
}

/// How a request is answered.
#[derive(Clone, Copy, PartialEq, Eq, Structural, Debug)]
pub enum Resolution {
    /// Stream the file's bytes with status 200.
    ServeFile,
    /// Yield to the fallback: render a (possibly empty) listing page.
    FallbackListing,
}

/// A static-file miss is never an error: only a regular file is served, and
/// every other probe result degrades to the listing fallback.
pub fn resolve_static(kind: PathKind) -> (r: Resolution)
    ensures
        r == Resolution::ServeFile <==> kind == PathKind::RegularFile,
{
    match kind {
        PathKind::RegularFile => Resolution::ServeFile,
        PathKind::Directory => Resolution::FallbackListing,
        PathKind::Missing => Resolution::FallbackListing,
        PathKind::Unreadable => Resolution::FallbackListing,
    }
}

} // verus!
