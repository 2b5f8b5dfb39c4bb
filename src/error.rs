use vstd::prelude::*;

verus! {

/// What can stop a mirror run before any byte is written.
#[derive(Debug, Clone, Copy, PartialEq, Eq, Structural)]
pub enum MirrorError {
    /// No artifact URL was given, so there is no common prefix.
    InvalidInput,
    /// The listing request URL could not be built.
    Listing,
    /// The download request URL of the artifact at this index could not be built.
    Download(usize),
    /// The relative path of the artifact at this index is empty, absolute or
    /// climbs out of the destination with a `..` segment.
    Filesystem(usize),
}

} // verus!
