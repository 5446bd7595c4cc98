//! The build constants that the canonical document is rendered from.
use vstd::prelude::*;

verus! {

/// The software version written into the canonical document.
pub const VERSION: &'static str = "v0.0.5";

/// The content hash that ships beside the version.
pub const CHECKSUM: &'static str = "sha256:01ccffbd0d6c8a2a1935b9cc9256567b8c66abeef6171c3f813920b831ec1e47";

/// A read-only set of build constants, passed to the renderer so that other
/// sets can be tried.
pub struct BuildConstants {
    pub version: String,
    pub checksum: String,
}

impl BuildConstants {
    /// The constants this build carries.
    pub fn current() -> (r: BuildConstants)
        ensures
            r.version@ == VERSION@,
            r.checksum@ == CHECKSUM@,
    {
        BuildConstants { version: VERSION.to_owned(), checksum: CHECKSUM.to_owned() }
    }
}

} // verus!
