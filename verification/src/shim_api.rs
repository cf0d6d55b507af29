//! The shim's extension vocabulary: what the shim reads out of the request's
//! extension bags before it strips them.
use vstd::prelude::*;

use crate::api::InputSource;

verus! {

/// The symbolic shared-directory source name under which extra files are
/// reachable.
pub const EXTRA_FILES_DIR_NAME: &'static str = "EXTRA_FILES";

/// One extra file the shim materializes before the engine runs.
#[derive(Clone, Debug)]
pub struct ExtraFile {
    /// File contents.
    pub contents: InputSource,
    /// Make the file executable.
    pub executable: bool,
}

/// What a request's top-level extension bag may carry for the shim.
#[derive(Clone, Debug)]
pub struct RequestExtensions {
    /// Files to write into the request's extra-files directory, by relative
    /// path.
    pub extra_files: Vec<(String, ExtraFile)>,
    /// Values substituted into commands; keys are used under a `Request.`
    /// prefix.
    pub substitutions: Vec<(String, String)>,
}

/// What a sandbox's extension bag may carry for the shim.
#[derive(Clone, Debug)]
pub struct SandboxSettingsExtensions {
    /// The image holding the toolchain files.
    pub image: String,
}

/// What a shared directory's symbolic source names.
#[derive(Clone, Debug)]
pub struct SharedDirExtensionSource {
    /// Name of the special source.
    pub name: String,
}

} // verus!
