//! Errors surfaced by the engine.
use vstd::prelude::*;

verus! {

/// Why a request, an action or a syscall-facing operation failed.
///
/// Per-command spawn failures are not errors of this type: they are recorded
/// in the command's own result and execution continues.
#[derive(Clone, Copy, Debug, PartialEq, Eq, Structural)]
pub enum Error {
    /// An action or an output referenced an id that no action bound.
    UnknownFileId,
    /// Two actions or inputs tried to bind the same id.
    DuplicateFileId,
    /// A command named a sandbox that no action created.
    UnknownSandbox,
    /// Two sandboxes were created under one name.
    DuplicateSandbox,
    /// Two volumes were created under one name.
    DuplicateVolume,
    /// A command's argv was empty.
    EmptyArgv,
    /// A file bound to stdin was not open for reading.
    NotReadable,
    /// A file bound to stdout or stderr was not open for writing.
    NotWritable,
    /// `CreateFile` with both `readable` and `writeable` false.
    NoAccessFlags,
    /// An extension bag somewhere in the request was not empty.
    NonEmptyExtensions,
    /// The relative part of a prefixed path was absolute.
    AbsolutePath,
    /// Inline base64 data did not decode.
    InvalidBase64,
    /// A path prefix named a volume that no action created.
    UnknownVolume,
    /// A path prefix was still symbolic; the shim must rewrite it.
    ExtensionUnresolved,
    /// A symbolic path named a source the shim does not know.
    UnknownExtensionSource,
    /// A request set a base image itself; the shim owns the base image.
    BaseImageAlreadySet,
    /// An environment entry without a key-value separator.
    MalformedEnvEntry,
    /// A syscall failed with this error number.
    Sys { errno: i32 },
    /// A write made no progress before all bytes were taken.
    ShortWrite,
    /// A CPU time limit too large for the threefold wall-clock limit.
    TimeLimitOverflow,
    /// A listen address in neither the `tcp://HOST:PORT` nor the
    /// `unix:/abs/path` form.
    BadListenAddress,
    /// The shim's reply status did not match its body.
    ShimStatusMismatch,
    /// The sandbox backend failed to create a sandbox.
    BackendFailed,
    /// Waiting for a spawned child failed.
    WaitFailed,
    /// The interpreter requested no new steps before all were done.
    InterpreterStuck,
}

} // verus!
