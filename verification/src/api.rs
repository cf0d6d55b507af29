//! Data model of an invocation request and its response.
//!
//! A request is a graph of file, pipe, sandbox and command actions, ordered
//! by stage; the engine drives it to completion and returns per-action
//! outcomes plus the requested byte outputs.
use vstd::prelude::*;

verus! {

/// A 128-bit identifier, held as two words. Request ids and spawn-error
/// markers are values of this type.
#[derive(Clone, Copy, Debug, PartialEq, Eq, Structural)]
pub struct Uid {
    pub hi: u64,
    pub lo: u64,
}

/// Opaque string identifier of a file-like object (regular file, pipe end,
/// buffer or null source), unique within a request.
#[derive(Debug)]
pub struct FileId(pub String);

impl Clone for FileId {
    fn clone(&self) -> (r: FileId)
        ensures
            r@ == self@,
    {
        FileId(self.0.clone())
    }
}

impl View for FileId {
    type V = Seq<char>;

    open spec fn view(&self) -> Seq<char> {
        self.0@
    }
}

impl FileId {
    /// Two ids are the same exactly when their characters are.
    pub fn eq_id(&self, other: &FileId) -> (r: bool)
        ensures
            r == (self@ == other@),
    {
        self.0 == other.0
    }
}

/// One entry of an extension bag: a key and the raw text of its value.
#[derive(Clone, Debug)]
pub struct ExtEntry {
    pub key: String,
    pub value: String,
}

/// Arbitrary key-value data, consumed and stripped by the shim before the
/// engine sees the request. The engine only ever asks whether a bag is empty.
#[derive(Clone, Debug)]
pub struct Extensions(pub Vec<ExtEntry>);

impl Extensions {
    pub open spec fn is_empty_spec(&self) -> bool {
        self.0@.len() == 0
    }

    pub fn is_empty(&self) -> (r: bool)
        ensures
            r == self.is_empty_spec(),
    {
        self.0.len() == 0
    }

    /// An empty bag.
    pub fn new() -> (r: Extensions)
        ensures
            r.is_empty_spec(),
    {
        Extensions(Vec::new())
    }
}

/// Symbolic root of a [`PrefixedPath`].
#[derive(Clone, Debug)]
pub enum PathPrefix {
    /// The host filesystem root.
    Host,
    /// The root of the named volume.
    Volume(String),
    /// A symbolic source that the shim must rewrite; the engine rejects it.
    Extension(Extensions),
}

/// A relative path under a symbolic root.
#[derive(Clone, Debug)]
pub struct PrefixedPath {
    pub prefix: PathPrefix,
    pub path: String,
}

/// Where the data of one input comes from.
#[derive(Clone, Debug)]
pub enum InputSource {
    /// Data available as a file on the local filesystem.
    LocalFile { path: String },
    /// Data provided inline as a string.
    InlineString { data: String },
    /// Data provided inline as a base64-encoded string.
    InlineBase64 { data: String },
}

/// Binds a [`FileId`] to preloaded file contents.
#[derive(Clone, Debug)]
pub struct Input {
    pub file_id: FileId,
    pub source: InputSource,
    pub ext: Extensions,
}

/// What one output request exports.
#[derive(Clone, Debug)]
pub enum OutputRequestTarget {
    /// Export the file bound to this id.
    File(FileId),
    /// Export the local file at this path.
    Path(String),
}

/// Asks the engine to return selected bytes under a name.
#[derive(Clone, Debug)]
pub struct OutputRequest {
    pub name: String,
    pub target: OutputRequestTarget,
    pub ext: Extensions,
}

/// Returned output data.
#[derive(Clone, Debug)]
pub enum OutputData {
    /// Base64-encoded bytes.
    InlineBase64(String),
}

/// One returned output, named as in the request.
#[derive(Clone, Debug)]
pub struct Output {
    pub name: String,
    pub data: OutputData,
}

/// Value of an environment variable handed to a command.
#[derive(Clone, Debug)]
pub enum EnvVarValue {
    /// Use this string as the value.
    Plain(String),
    /// Pass the stringified inherited handle of this file as the value.
    File(FileId),
}

/// A name and a value for a child process environment.
#[derive(Clone, Debug)]
pub struct EnvironmentVariable {
    pub name: String,
    pub value: EnvVarValue,
    pub ext: Extensions,
}

/// Standard stream bindings of a command.
#[derive(Clone, Debug)]
pub struct Stdio {
    pub stdin: FileId,
    pub stdout: FileId,
    pub stderr: FileId,
    pub ext: Extensions,
}

/// A child process to run inside a named sandbox.
#[derive(Clone, Debug)]
pub struct Command {
    pub sandbox_name: String,
    pub argv: Vec<String>,
    pub env: Vec<EnvironmentVariable>,
    pub cwd: String,
    pub stdio: Stdio,
    pub ext: Extensions,
}

/// Allowed access to a shared directory.
#[derive(Clone, Copy, Debug, PartialEq, Eq, Structural)]
pub enum SharedDirectoryMode {
    /// Read and execute.
    ReadOnly,
    /// Read, write and execute.
    ReadWrite,
}

/// A piece of the host filesystem exposed to a sandbox.
#[derive(Clone, Debug)]
pub struct SharedDir {
    /// Path under the selected root, after prefix resolution.
    pub host_path: PrefixedPath,
    /// Absolute path inside the sandbox.
    pub sandbox_path: String,
    pub mode: SharedDirectoryMode,
    /// Create the host path first if it does not exist.
    pub create: bool,
    pub ext: Extensions,
}

/// Limits enforced for the processes of one sandbox.
#[derive(Clone, Debug)]
pub struct Limits {
    /// Memory limit in bytes.
    pub memory: u64,
    /// CPU time limit in milliseconds.
    pub time: u64,
    /// Process count limit; a backend default applies when absent.
    pub process_count: Option<u64>,
    /// Working directory size limit in bytes; a quota mount is made when set.
    pub work_dir_size: Option<u64>,
    pub ext: Extensions,
}

/// Settings of one sandbox.
#[derive(Clone, Debug)]
pub struct SandboxSettings {
    pub limits: Limits,
    /// Sandbox name, unique within a request.
    pub name: String,
    /// Root filesystem base; the sentinel path `/` selects a configured set
    /// of host top-level directories instead.
    pub base_image: String,
    /// Additional paths to expose inside the sandbox.
    pub expose: Vec<SharedDir>,
    /// Path inside the sandbox bound to the scratch directory.
    pub work_dir: String,
    pub ext: Extensions,
}

/// Settings of one named scratch volume.
#[derive(Clone, Debug)]
pub struct VolumeSettings {
    /// Volume name, unique within a request.
    pub name: String,
    /// Size limit in bytes; a quota mount is made when set.
    pub limit: Option<u64>,
    pub ext: Extensions,
}

/// Single action of the execution plan.
#[derive(Clone, Debug)]
pub enum Action {
    /// Allocate an anonymous pipe and bind its two ends.
    CreatePipe { read: FileId, write: FileId },
    /// Create a file under the request work directory; at least one of the
    /// two flags must be set.
    CreateFile { id: FileId, readable: bool, writeable: bool },
    /// Bind an existing local file, read-only.
    OpenFile { path: PrefixedPath, id: FileId },
    /// Bind a read-only empty source.
    OpenNullFile { id: FileId },
    /// Run a child process inside a sandbox created earlier.
    ExecuteCommand(Command),
    /// Create a sandbox.
    CreateSandbox(SandboxSettings),
    /// Create a named scratch volume.
    CreateVolume(VolumeSettings),
}

/// One step: an action together with its stage ordering key.
#[derive(Clone, Debug)]
pub struct Step {
    pub stage: u32,
    pub action: Action,
    pub ext: Extensions,
}

/// The input of the engine: steps, preloaded inputs and output requests.
#[derive(Clone, Debug)]
pub struct InvokeRequest {
    pub steps: Vec<Step>,
    pub inputs: Vec<Input>,
    pub outputs: Vec<OutputRequest>,
    /// Returned as-is in the response.
    pub id: Uid,
    pub ext: Extensions,
}

/// Outcome of one command: either a spawn failure marker or the exit code
/// with captured resource usage.
#[derive(Clone, Copy, Debug)]
pub struct CommandResult {
    /// Set exactly when the command failed to start; the other fields then
    /// hold sentinel values.
    pub spawn_error: Option<Uid>,
    /// Process exit code; `i64::MAX` on spawn failure.
    pub exit_code: i64,
    /// CPU time usage in nanoseconds.
    pub cpu_time: Option<u64>,
    /// Memory usage in bytes.
    pub memory: Option<u64>,
}

/// What became of one spawned command, as the backend reports it back.
#[derive(Clone, Copy, Debug, PartialEq, Eq, Structural)]
pub enum SpawnOutcome {
    /// The child failed to start; the request continues.
    SpawnFailed,
    /// The child ran to its exit; resource usage as captured, when captured.
    Exited { exit_code: i64, cpu_time: Option<u64>, memory: Option<u64> },
}

/// Recorded outcome of one action, in start order.
#[derive(Clone, Copy, Debug)]
pub enum ActionResult {
    CreatePipe,
    CreateFile,
    OpenFile,
    OpenNullFile,
    ExecuteCommand(CommandResult),
    CreateSandbox,
    CreateVolume,
}

/// The response: outputs in request order and action results in start order.
#[derive(Clone, Debug)]
pub struct InvokeResponse {
    pub id: Uid,
    pub outputs: Vec<Output>,
    pub actions: Vec<ActionResult>,
}

} // verus!
