//! Failure taxonomy of the bundling pipeline.  Every stage reports the
//! offending path, and the orchestrator stops at the first fatal error.

use vstd::prelude::*;

verus! {

/// A fatal bundling failure.  The payload names the path the stage was
/// working on when it failed.
#[derive(Debug, PartialEq, Eq)]
pub enum BundleError {
    /// An HTML entry point references a logical path with no staged content.
    StagingRead(String),
    /// A referenced logical path has no file extension, so no hashed
    /// filename can be derived for it.
    MissingExtension(String),
    /// Two different logical paths derived the same published path.
    HashCollision(String),
    /// The output directory skeleton could not be destroyed and recreated.
    OutputReset(String),
    /// The SSR descriptor was requested but the manifest lacks the
    /// application or vendor bundle entry.
    ManifestIncomplete(String),
}

} // verus!
