//! Why a run stops.

use vstd::prelude::*;

verus! {

/// The stage of a run in which an external build step failed.
#[derive(Clone, Copy, Debug, PartialEq, Eq, Structural)]
pub enum BuildStage {
    CrossBuild,
    Link,
}

/// Every failure stops the whole run.
#[derive(Clone, Debug)]
pub enum BuildError {
    /// No candidate executable identified itself as the toolchain driver.
    ToolchainNotFound,
    /// A configured or derived path could not be resolved.
    PathResolutionFailure { path: String },
    /// An external build step for `test` exited unsuccessfully.
    SubprocessFailure { stage: BuildStage, test: String },
    /// A build step succeeded but the file expected from it is absent.
    MissingExpectedArtifact { path: String },
}

} // verus!
