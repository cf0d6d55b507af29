//! Executes the actions of one request: binds files, pipes and buffers into
//! the registry, creates volumes and sandboxes, and prepares command spawns.
//! The two calls only the backend can make — sandbox creation and process
//! spawning — are handed out as plans, and their outcomes handed back in.
use vstd::prelude::*;

use crate::api::{
    Action, ActionResult, Command, CommandResult, EnvVarValue, EnvironmentVariable, FileId, Input,
    InputSource, SandboxSettings, SpawnOutcome, Stdio, VolumeSettings,
};
use crate::error::Error;
use crate::file::File;
use crate::path_resolver::{path_join, spec_path_join, PathResolver};
use crate::registry::FileRegistry;
use crate::sandbox::{
    create_sandbox_dirs, BackendSandboxOptions, Sandbox, SandboxGlobalSettings,
};
use crate::sys;
use crate::text::{spec_dec, u64_to_dec};
use crate::volume::Volume;

verus! {

/// Everything the backend needs to spawn one child process inside a sandbox:
/// program path, arguments, environment lines, working directory, the
/// inheritable stdio handles (already rewound) and the extra handles named
/// by environment variables.
#[derive(Debug)]
pub struct SpawnSpec {
    pub sandbox_name: String,
    pub path: String,
    pub args: Vec<String>,
    pub env: Vec<String>,
    pub pwd: String,
    pub stdin_fd: u64,
    pub stdout_fd: u64,
    pub stderr_fd: u64,
    pub extra_inherit: Vec<u64>,
}

/// One environment line carries its variable: `name=value` for a plain
/// value, and `name=<handle>` in decimal for an inherited file.
pub open spec fn env_entry_matches(line: Seq<char>, v: EnvironmentVariable) -> bool {
    match v.value {
        EnvVarValue::Plain(s) => line == v.name@ + seq!['='] + s@,
        EnvVarValue::File(_) => exists|fd: u64| line == v.name@ + seq!['='] + spec_dec(fd as nat),
    }
}

/// How many of the first `upto` environment variables carry a file value —
/// the position their handles take among the extra inherited ones.
pub open spec fn spec_file_count(env: Seq<EnvironmentVariable>, upto: int) -> nat
    decreases upto,
{
    if upto <= 0 {
        0
    } else {
        spec_file_count(env, upto - 1) + (if env[upto - 1].value is File {
            1nat
        } else {
            0nat
        })
    }
}

/// The first stdio binding that is unknown or has the wrong mode, checked in
/// the order stdin, stdout, stderr.
pub open spec fn spec_stdio_error(files: FileRegistry, stdio: Stdio) -> Option<Error> {
    if !files.contains_id(stdio.stdin@) {
        Some(Error::UnknownFileId)
    } else if !files.file_of(stdio.stdin@).is_readable() {
        Some(Error::NotReadable)
    } else if !files.contains_id(stdio.stdout@) {
        Some(Error::UnknownFileId)
    } else if !files.file_of(stdio.stdout@).is_writable() {
        Some(Error::NotWritable)
    } else if !files.contains_id(stdio.stderr@) {
        Some(Error::UnknownFileId)
    } else if !files.file_of(stdio.stderr@).is_writable() {
        Some(Error::NotWritable)
    } else {
        None
    }
}

/// The first environment variable naming an unknown file, if any.
pub open spec fn spec_env_error(files: FileRegistry, env: Seq<EnvironmentVariable>) -> Option<
    Error,
>
    decreases env.len(),
{
    if env.len() == 0 {
        None
    } else {
        match env[0].value {
            EnvVarValue::Plain(_) => spec_env_error(files, env.skip(1)),
            EnvVarValue::File(id) => if files.contains_id(id@) {
                spec_env_error(files, env.skip(1))
            } else {
                Some(Error::UnknownFileId)
            },
        }
    }
}

/// The known contents of an input source: the bytes of an inline string, the
/// decoded bytes of inline base64; a local file's contents live on disk.
pub open spec fn spec_input_content(source: InputSource) -> Option<Seq<u8>> {
    match source {
        InputSource::InlineString { data } => Some(vstd::utf8::encode_utf8(data@)),
        InputSource::InlineBase64 { data } => crate::sys::b64_decode_of(data@),
        InputSource::LocalFile { .. } => None,
    }
}

/// Executes the steps of one request against its resource table, volumes and
/// sandboxes.
pub struct Executor {
    files: FileRegistry,
    sandboxes: Vec<Sandbox>,
    volumes: Vec<Volume>,
    resolver: PathResolver,
    work_dir: String,
    global: SandboxGlobalSettings,
}

impl Executor {
    /// The resource table.
    pub closed spec fn files_spec(self) -> FileRegistry {
        self.files
    }

    /// The path resolver, as fed by the created volumes.
    pub closed spec fn resolver_spec(self) -> PathResolver {
        self.resolver
    }

    /// The number of created sandboxes.
    pub closed spec fn sandbox_count(self) -> nat {
        self.sandboxes@.len()
    }

    /// The name of the sandbox created at position `i`.
    pub closed spec fn sandbox_name_at(self, i: int) -> Seq<char> {
        self.sandboxes@[i].name@
    }

    /// Whether a sandbox of this name was created.
    pub open spec fn has_sandbox(self, name: Seq<char>) -> bool {
        exists|i: int| 0 <= i < self.sandbox_count() && self.sandbox_name_at(i) == name
    }

    pub closed spec fn work_dir_spec(self) -> Seq<char> {
        self.work_dir@
    }

    pub open spec fn wf(self) -> bool {
        &&& self.files_spec().wf()
        &&& self.resolver_spec().wf()
    }

    pub fn new(work_dir: &str, global: SandboxGlobalSettings) -> (r: Executor)
        ensures
            r.wf(),
            r.work_dir_spec() == work_dir@,
            r.files_spec().len_spec() == 0,
            forall|id: Seq<char>| !r.files_spec().contains_id(id),
            forall|name: Seq<char>| !r.has_sandbox(name),
            forall|name: Seq<char>| !r.resolver_spec().has_volume(name),
    {
        Executor {
            files: FileRegistry::new(),
            sandboxes: Vec::new(),
            volumes: Vec::new(),
            resolver: PathResolver::new(),
            work_dir: work_dir.to_owned(),
            global,
        }
    }

    /// The resolver, for callers that resolve paths themselves.
    pub fn get_path_resolver(&self) -> (r: &PathResolver)
        ensures
            *r == self.resolver_spec(),
    {
        &self.resolver
    }

    /// Materializes one input and binds it to its id: inline data becomes a
    /// sealed buffer holding exactly those bytes (base64 decoded first), a
    /// local file is opened for reading.
    pub fn add_input(&mut self, input: &Input) -> (r: Result<(), Error>)
        requires
            old(self).wf(),
        ensures
            final(self).wf(),
            final(self).work_dir_spec() == old(self).work_dir_spec(),
            final(self).resolver_spec() == old(self).resolver_spec(),
            r == Err::<(), Error>(Error::DuplicateFileId) <==> old(self).files_spec().contains_id(
                input.file_id@,
            ),
            r == Err::<(), Error>(Error::InvalidBase64) <==> (!old(self).files_spec().contains_id(
                input.file_id@,
            ) && (input.source matches InputSource::InlineBase64 { data }
                && crate::sys::b64_decode_of(data@) is None)),
            r matches Err(e) ==> e == Error::DuplicateFileId || e == Error::InvalidBase64 || e
                is Sys || e is ShortWrite,
            r is Err ==> *final(self) == *old(self),
            r is Ok ==> {
                &&& final(self).files_spec().contains_id(input.file_id@)
                &&& forall|x: Seq<char>|
                    #[trigger] final(self).files_spec().contains_id(x) <==> old(
                        self,
                    ).files_spec().contains_id(x) || x == input.file_id@
                &&& forall|x: Seq<char>|
                    old(self).files_spec().contains_id(x) && x != input.file_id@ ==> final(self).files_spec().file_of(x) == old(self).files_spec().file_of(x)
                &&& (spec_input_content(input.source) is Some ==> final(self).files_spec().file_of(input.file_id@).content_spec() == spec_input_content(
                    input.source,
                ))
                &&& final(self).files_spec().file_of(input.file_id@).is_readable()
            },
    {
        if self.files.contains(&input.file_id) {
            return Err(Error::DuplicateFileId);
        }
        let file = match &input.source {
            InputSource::InlineString { data } => {
                let bytes = data.as_str().as_bytes_vec();
                File::from_buffer(bytes)?
            },
            InputSource::InlineBase64 { data } => {
                let bytes = match sys::b64_decode(data.as_str()) {
                    Some(b) => b,
                    None => {
                        return Err(Error::InvalidBase64);
                    },
                };
                File::from_buffer(bytes)?
            },
            InputSource::LocalFile { path } => File::open_read(path.as_str())?,
        };
        let res = self.files.insert(input.file_id.clone(), file);
        proof {
            assert(res is Ok);
        }
        Ok(())
    }

    /// Reads back all bytes of the file bound to an id: a buffer yields
    /// exactly the bytes it was sealed over, the null source yields nothing.
    pub fn export(&self, id: &FileId) -> (r: Result<Vec<u8>, Error>)
        requires
            self.wf(),
        ensures
            r == Err::<Vec<u8>, Error>(Error::UnknownFileId) <==> !self.files_spec().contains_id(
                id@,
            ),
            self.files_spec().contains_id(id@) && !self.files_spec().file_of(id@).is_readable()
                ==> r == Err::<Vec<u8>, Error>(Error::NotReadable),
            r is Ok && self.files_spec().file_of(id@).content_spec() is Some ==> r.unwrap()@
                == self.files_spec().file_of(id@).content_spec()->0,
            self.files_spec().contains_id(id@) && self.files_spec().file_of(id@).is_readable()
                && self.files_spec().file_of(id@).content_spec() is Some ==> r is Ok,
            r matches Err(e) ==> e == Error::UnknownFileId || e == Error::NotReadable || e is Sys,
    {
        let file = self.files.get(id)?;
        file.read_all()
    }

    /// Creates a regular file under the request work directory and binds it,
    /// open with the requested access; at least one flag must be set.
    pub fn create_file(&mut self, id: &FileId, readable: bool, writeable: bool) -> (r: Result<
        ActionResult,
        Error,
    >)
        requires
            old(self).wf(),
        ensures
            final(self).wf(),
            final(self).work_dir_spec() == old(self).work_dir_spec(),
            final(self).resolver_spec() == old(self).resolver_spec(),
            r == Err::<ActionResult, Error>(Error::DuplicateFileId) <==> old(
                self,
            ).files_spec().contains_id(id@),
            !old(self).files_spec().contains_id(id@) && !readable && !writeable ==> r == Err::<
                ActionResult,
                Error,
            >(Error::NoAccessFlags),
            r matches Err(e) ==> e == Error::DuplicateFileId || e == Error::NoAccessFlags || e
                is Sys,
            r is Err ==> *final(self) == *old(self),
            r is Ok ==> {
                &&& r == Ok::<ActionResult, Error>(ActionResult::CreateFile)
                &&& final(self).files_spec().contains_id(id@)
                &&& forall|x: Seq<char>|
                    #[trigger] final(self).files_spec().contains_id(x) <==> old(
                        self,
                    ).files_spec().contains_id(x) || x == id@
                &&& forall|x: Seq<char>|
                    old(self).files_spec().contains_id(x) && x != id@ ==> final(self).files_spec().file_of(x) == old(self).files_spec().file_of(x)
                &&& final(self).files_spec().file_of(id@).is_readable() == readable
                &&& final(self).files_spec().file_of(id@).is_writable() == writeable
                &&& final(self).files_spec().file_of(id@).kind_spec() is File
            },
    {
        if self.files.contains(id) {
            return Err(Error::DuplicateFileId);
        }
        let dir = path_join(self.work_dir.as_str(), "files");
        let file_path = path_join(dir.as_str(), id.0.as_str());
        let file = if readable && !writeable {
            File::open_read(file_path.as_str())?
        } else if !readable && writeable {
            File::open_write(file_path.as_str())?
        } else if readable && writeable {
            File::open_read_write(file_path.as_str())?
        } else {
            return Err(Error::NoAccessFlags);
        };
        let res = self.files.insert(id.clone(), file);
        proof {
            assert(res is Ok);
        }
        Ok(ActionResult::CreateFile)
    }

    /// Resolves a prefixed path and binds the file there, read-only.
    pub fn open_file(&mut self, path: &crate::api::PrefixedPath, id: &FileId) -> (r: Result<
        ActionResult,
        Error,
    >)
        requires
            old(self).wf(),
        ensures
            final(self).wf(),
            final(self).work_dir_spec() == old(self).work_dir_spec(),
            final(self).resolver_spec() == old(self).resolver_spec(),
            old(self).resolver_spec().spec_resolve(*path) matches Err(e) ==> r == Err::<
                ActionResult,
                Error,
            >(e),
            old(self).resolver_spec().spec_resolve(*path) is Ok && old(
                self,
            ).files_spec().contains_id(id@) ==> r == Err::<ActionResult, Error>(
                Error::DuplicateFileId,
            ),
            r matches Err(e) ==> e == Error::DuplicateFileId || e == Error::AbsolutePath || e
                == Error::UnknownVolume || e == Error::ExtensionUnresolved || e is Sys,
            r is Err ==> *final(self) == *old(self),
            r is Ok ==> {
                &&& r == Ok::<ActionResult, Error>(ActionResult::OpenFile)
                &&& final(self).files_spec().contains_id(id@)
                &&& forall|x: Seq<char>|
                    #[trigger] final(self).files_spec().contains_id(x) <==> old(
                        self,
                    ).files_spec().contains_id(x) || x == id@
                &&& forall|x: Seq<char>|
                    old(self).files_spec().contains_id(x) && x != id@ ==> final(self).files_spec().file_of(x) == old(self).files_spec().file_of(x)
                &&& final(self).files_spec().file_of(id@).is_readable()
                &&& !final(self).files_spec().file_of(id@).is_writable()
                &&& final(self).files_spec().file_of(id@).kind_spec() is File
            },
    {
        let resolved = self.resolver.resolve(path)?;
        if self.files.contains(id) {
            return Err(Error::DuplicateFileId);
        }
        let file = File::open_read(resolved.as_str())?;
        let res = self.files.insert(id.clone(), file);
        proof {
            assert(res is Ok);
        }
        Ok(ActionResult::OpenFile)
    }

    /// Binds the read-only empty source to an id.
    pub fn open_null_file(&mut self, id: &FileId) -> (r: Result<ActionResult, Error>)
        requires
            old(self).wf(),
        ensures
            final(self).wf(),
            final(self).work_dir_spec() == old(self).work_dir_spec(),
            final(self).resolver_spec() == old(self).resolver_spec(),
            r == Err::<ActionResult, Error>(Error::DuplicateFileId) <==> old(
                self,
            ).files_spec().contains_id(id@),
            r matches Err(e) ==> e == Error::DuplicateFileId || e is Sys,
            r is Err ==> *final(self) == *old(self),
            r is Ok ==> {
                &&& r == Ok::<ActionResult, Error>(ActionResult::OpenNullFile)
                &&& final(self).files_spec().contains_id(id@)
                &&& forall|x: Seq<char>|
                    #[trigger] final(self).files_spec().contains_id(x) <==> old(
                        self,
                    ).files_spec().contains_id(x) || x == id@
                &&& forall|x: Seq<char>|
                    old(self).files_spec().contains_id(x) && x != id@ ==> final(self).files_spec().file_of(x) == old(self).files_spec().file_of(x)
                &&& final(self).files_spec().file_of(id@).content_spec() == Some(
                    Seq::<u8>::empty(),
                )
                &&& final(self).files_spec().file_of(id@).is_readable()
            },
    {
        if self.files.contains(id) {
            return Err(Error::DuplicateFileId);
        }
        let file = File::open_null()?;
        let res = self.files.insert(id.clone(), file);
        proof {
            assert(res is Ok);
        }
        Ok(ActionResult::OpenNullFile)
    }

    /// Allocates an anonymous pipe and binds its two ends. The two bindings
    /// are transactional: on a collision of either id, nothing stays bound.
    pub fn create_pipe(&mut self, read: &FileId, write: &FileId) -> (r: Result<
        ActionResult,
        Error,
    >)
        requires
            old(self).wf(),
        ensures
            final(self).wf(),
            final(self).work_dir_spec() == old(self).work_dir_spec(),
            final(self).resolver_spec() == old(self).resolver_spec(),
            old(self).files_spec().contains_id(read@) || old(self).files_spec().contains_id(
                write@,
            ) || read@ == write@ ==> r is Err,
            r == Err::<ActionResult, Error>(Error::DuplicateFileId) ==> old(
                self,
            ).files_spec().contains_id(read@) || old(self).files_spec().contains_id(write@)
                || read@ == write@,
            r matches Err(e) ==> e == Error::DuplicateFileId || e is Sys,
            r is Err ==> forall|x: Seq<char>|
                #[trigger] final(self).files_spec().contains_id(x) == old(
                    self,
                ).files_spec().contains_id(x),
            r is Err ==> forall|x: Seq<char>|
                old(self).files_spec().contains_id(x) ==> final(self).files_spec().file_of(x)
                    == old(self).files_spec().file_of(x),
            r is Ok ==> {
                &&& r == Ok::<ActionResult, Error>(ActionResult::CreatePipe)
                &&& final(self).files_spec().contains_id(read@)
                &&& final(self).files_spec().contains_id(write@)
                &&& forall|x: Seq<char>|
                    #[trigger] final(self).files_spec().contains_id(x) <==> old(
                        self,
                    ).files_spec().contains_id(x) || x == read@ || x == write@
                &&& final(self).files_spec().file_of(read@).is_readable()
                &&& !final(self).files_spec().file_of(read@).is_writable()
                &&& final(self).files_spec().file_of(write@).is_writable()
                &&& !final(self).files_spec().file_of(write@).is_readable()
                &&& forall|x: Seq<char>|
                    old(self).files_spec().contains_id(x) ==> final(self).files_spec().file_of(x)
                        == old(self).files_spec().file_of(x)
            },
    {
        let (reader, writer) = File::pipe()?;
        let res = self.files.insert(read.clone(), reader);
        if res.is_err() {
            return Err(Error::DuplicateFileId);
        }
        let ghost mid = *self;
        let res2 = self.files.insert(write.clone(), writer);
        if res2.is_err() {
            let undone = self.files.remove(read);
            proof {
                assert(undone is Ok);
                assert forall|x: Seq<char>|
                    old(self).files_spec().contains_id(x) implies self.files_spec().file_of(x)
                    == old(self).files_spec().file_of(x) by {
                    assert(x != read@);
                }
            }
            return Err(Error::DuplicateFileId);
        }
        proof {
            assert forall|x: Seq<char>|
                old(self).files_spec().contains_id(x) implies self.files_spec().file_of(x) == old(
                self,
            ).files_spec().file_of(x) by {
                assert(x != read@ && x != write@);
                assert(mid.files_spec().file_of(x) == old(self).files_spec().file_of(x));
            }
        }
        Ok(ActionResult::CreatePipe)
    }

    /// Creates a named scratch volume under the work directory and registers
    /// it with the resolver.
    pub fn create_volume(&mut self, settings: &VolumeSettings) -> (r: Result<ActionResult, Error>)
        requires
            old(self).wf(),
        ensures
            final(self).wf(),
            final(self).work_dir_spec() == old(self).work_dir_spec(),
            final(self).files_spec() == old(self).files_spec(),
            r == Err::<ActionResult, Error>(Error::DuplicateVolume) <==> old(
                self,
            ).resolver_spec().has_volume(settings.name@),
            r matches Err(e) ==> e == Error::DuplicateVolume || e is Sys,
            r is Ok ==> {
                &&& r == Ok::<ActionResult, Error>(ActionResult::CreateVolume)
                &&& final(self).resolver_spec().has_volume(settings.name@)
                &&& final(self).resolver_spec().root_of(settings.name@) == spec_path_join(
                    spec_path_join(old(self).work_dir_spec(), "volumes"@),
                    settings.name@,
                )
                &&& forall|x: Seq<char>|
                    #[trigger] final(self).resolver_spec().has_volume(x) <==> old(
                        self,
                    ).resolver_spec().has_volume(x) || x == settings.name@
            },
            r is Err ==> final(self).resolver_spec() == old(self).resolver_spec(),
    {
        if self.resolver.knows_volume(&settings.name) {
            return Err(Error::DuplicateVolume);
        }
        let dir = path_join(self.work_dir.as_str(), "volumes");
        let volume_dir = path_join(dir.as_str(), settings.name.as_str());
        let v = Volume::create(settings, volume_dir.as_str())?;
        self.volumes.push(v);
        self.resolver.add_volume(settings.name.as_str(), volume_dir.as_str());
        Ok(ActionResult::CreateVolume)
    }

    /// Creates a sandbox: lists the base image (unless the sentinel `/`
    /// selects the configured host directories), prepares its directories
    /// and permissions, and hands out the assembled backend options; the
    /// sandbox is registered under its name.
    pub fn create_sandbox(&mut self, settings: &SandboxSettings) -> (r: Result<
        (BackendSandboxOptions, Vec<String>),
        Error,
    >)
        requires
            old(self).wf(),
        ensures
            final(self).wf(),
            final(self).work_dir_spec() == old(self).work_dir_spec(),
            final(self).files_spec() == old(self).files_spec(),
            final(self).resolver_spec() == old(self).resolver_spec(),
            r == Err::<(BackendSandboxOptions, Vec<String>), Error>(Error::DuplicateSandbox)
                <==> old(self).has_sandbox(settings.name@),
            !old(self).has_sandbox(settings.name@) && settings.limits.time > u64::MAX / 3 ==> r
                == Err::<(BackendSandboxOptions, Vec<String>), Error>(Error::TimeLimitOverflow),
            r matches Err(e) ==> e == Error::DuplicateSandbox || e == Error::TimeLimitOverflow
                || e == Error::AbsolutePath || e == Error::UnknownVolume || e
                == Error::ExtensionUnresolved || e is Sys || e is ShortWrite,
            r is Err ==> forall|x: Seq<char>|
                #[trigger] final(self).has_sandbox(x) == old(self).has_sandbox(x),
            r is Ok ==> {
                let o = r.unwrap().0;
                &&& final(self).has_sandbox(settings.name@)
                &&& forall|x: Seq<char>|
                    #[trigger] final(self).has_sandbox(x) <==> old(self).has_sandbox(x) || x
                        == settings.name@
                &&& o.cpu_time_ms == settings.limits.time
                &&& o.real_time_ms == 3 * settings.limits.time
                &&& o.memory_limit == settings.limits.memory
                &&& o.max_alive_process_count == match settings.limits.process_count {
                    Some(p) => p,
                    None => crate::sandbox::spec_default_process_limit(
                        old(self).global_spec().allow_fallback_pid_limit,
                    ),
                }
            },
    {
        if self.has_sandbox_named(&settings.name) {
            return Err(Error::DuplicateSandbox);
        }
        if settings.limits.time > u64::MAX / 3 {
            return Err(Error::TimeLimitOverflow);
        }
        let base_len: usize = settings.base_image.as_str().unicode_len();
        let root_sentinel = base_len == 1 && settings.base_image.as_str().get_char(0) == '/';
        let base_entries: Vec<String> = if root_sentinel {
            Vec::new()
        } else {
            match sys::sys_list_dir(settings.base_image.as_str()) {
                Ok(v) => v,
                Err(e) => {
                    return Err(Error::Sys { errno: e });
                },
            }
        };
        let dir = path_join(self.work_dir.as_str(), "sandboxes");
        let sandbox_dir = path_join(dir.as_str(), settings.name.as_str());
        let (options, warnings) = create_sandbox_dirs(
            settings,
            &self.global,
            &base_entries,
            &self.resolver,
            sandbox_dir.as_str(),
        )?;
        let ghost pre = *self;
        self.sandboxes.push(
            Sandbox { name: settings.name.clone(), options: clone_options(&options) },
        );
        proof {
            let n = pre.sandboxes@.len() as int;
            assert(self.sandbox_name_at(n) == settings.name@);
            assert(forall|j: int| 0 <= j < n ==> self.sandbox_name_at(j) == pre.sandbox_name_at(j));
            assert forall|x: Seq<char>|
                #[trigger] self.has_sandbox(x) <==> pre.has_sandbox(x) || x == settings.name@ by {
                if self.has_sandbox(x) {
                    let i = choose|i: int|
                        0 <= i < self.sandbox_count() && self.sandbox_name_at(i) == x;
                    if i < n {
                        assert(pre.sandbox_name_at(i) == x);
                        assert(pre.has_sandbox(x));
                    }
                } else {
                    if pre.has_sandbox(x) {
                        let i = choose|i: int|
                            0 <= i < pre.sandbox_count() && pre.sandbox_name_at(i) == x;
                        assert(self.sandbox_name_at(i) == x);
                        assert(false);
                    }
                    assert(x != settings.name@);
                }
            }
        }
        Ok((options, warnings))
    }

    /// The engine's global settings.
    pub closed spec fn global_spec(self) -> SandboxGlobalSettings {
        self.global
    }

    fn has_sandbox_named(&self, name: &String) -> (r: bool)
        ensures
            r == self.has_sandbox(name@),
    {
        let n: usize = self.sandboxes.len();
        let mut k: usize = 0;
        while k < n
            invariant
                0 <= k <= n,
                n == self.sandbox_count(),
                forall|t: int| 0 <= t < k ==> self.sandbox_name_at(t) != name@,
            decreases n - k,
        {
            if self.sandboxes[k].name == *name {
                proof {
                    assert(self.sandbox_name_at(k as int) == name@);
                }
                return true;
            }
            k = k + 1;
        }
        proof {
            if self.has_sandbox(name@) {
                let i = choose|i: int|
                    0 <= i < self.sandbox_count() && self.sandbox_name_at(i) == name@;
                assert(false);
            }
        }
        false
    }

    /// Prepares the spawn of one command: resolves its sandbox and stdio
    /// bindings, checks their modes, duplicates and rewinds the inherited
    /// handles, and writes the environment lines.
    pub fn prepare_command(&self, cmd: &Command) -> (r: Result<SpawnSpec, Error>)
        requires
            self.wf(),
        ensures
            !self.has_sandbox(cmd.sandbox_name@) <==> r == Err::<SpawnSpec, Error>(
                Error::UnknownSandbox,
            ),
            self.has_sandbox(cmd.sandbox_name@) && cmd.argv@.len() == 0 <==> r == Err::<
                SpawnSpec,
                Error,
            >(Error::EmptyArgv),
            (self.has_sandbox(cmd.sandbox_name@) && cmd.argv@.len() > 0 && (spec_stdio_error(
                self.files_spec(),
                cmd.stdio,
            ) matches Some(e))) ==> r == Err::<SpawnSpec, Error>(
                spec_stdio_error(self.files_spec(), cmd.stdio)->0,
            ),
            r matches Err(e) ==> e == Error::UnknownSandbox || e == Error::EmptyArgv || e
                == Error::UnknownFileId || e == Error::NotReadable || e == Error::NotWritable || e
                is Sys,
            r is Ok ==> {
                let s = r.unwrap();
                &&& spec_stdio_error(self.files_spec(), cmd.stdio) is None
                &&& spec_env_error(self.files_spec(), cmd.env@) is None
                &&& s.sandbox_name@ == cmd.sandbox_name@
                &&& s.path@ == cmd.argv@[0]@
                &&& s.args@.len() == cmd.argv@.len() - 1
                &&& forall|k: int| 0 <= k < s.args@.len() ==> s.args@[k]@ == cmd.argv@[k + 1]@
                &&& s.pwd@ == cmd.cwd@
                &&& s.env@.len() == cmd.env@.len()
                &&& forall|k: int|
                    0 <= k < s.env@.len() ==> env_entry_matches(s.env@[k]@, cmd.env@[k])
                &&& s.extra_inherit@.len() == spec_file_count(cmd.env@, cmd.env@.len() as int)
                &&& forall|k: int|
                    0 <= k < cmd.env@.len() && (#[trigger] cmd.env@[k]).value is File ==> s.env@[
                        k
                    ]@ == cmd.env@[k].name@ + seq!['='] + spec_dec(
                        s.extra_inherit@[spec_file_count(cmd.env@, k) as int] as nat,
                    )
            },
    {
        if !self.has_sandbox_named(&cmd.sandbox_name) {
            return Err(Error::UnknownSandbox);
        }
        if cmd.argv.len() == 0 {
            return Err(Error::EmptyArgv);
        }
        let stdin = self.files.get(&cmd.stdio.stdin)?;
        stdin.check_readable()?;
        let stdout = self.files.get(&cmd.stdio.stdout)?;
        stdout.check_writable()?;
        let stderr = self.files.get(&cmd.stdio.stderr)?;
        stderr.check_writable()?;
        let stdin_clone = stdin.try_clone_inherit()?;
        let stdout_clone = stdout.try_clone_inherit()?;
        let stderr_clone = stderr.try_clone_inherit()?;
        stdin_clone.rewind()?;
        stdout_clone.rewind()?;
        stderr_clone.rewind()?;
        let n_args: usize = cmd.argv.len();
        let mut args: Vec<String> = Vec::new();
        let mut k: usize = 1;
        while k < n_args
            invariant
                1 <= k <= n_args,
                n_args == cmd.argv@.len(),
                args@.len() == k - 1,
                forall|t: int| 0 <= t < k - 1 ==> args@[t]@ == cmd.argv@[t + 1]@,
            decreases n_args - k,
        {
            args.push(cmd.argv[k].clone());
            k = k + 1;
        }
        let mut env: Vec<String> = Vec::new();
        let mut extra_inherit: Vec<u64> = Vec::new();
        let n_env: usize = cmd.env.len();
        let mut k: usize = 0;
        proof {
            assert(cmd.env@.skip(0) =~= cmd.env@);
        }
        while k < n_env
            invariant
                0 <= k <= n_env,
                n_env == cmd.env@.len(),
                self.wf(),
                self.has_sandbox(cmd.sandbox_name@),
                cmd.argv@.len() > 0,
                spec_stdio_error(self.files_spec(), cmd.stdio) is None,
                env@.len() == k,
                forall|t: int| 0 <= t < k ==> env_entry_matches(#[trigger] env@[t]@, cmd.env@[t]),
                extra_inherit@.len() == spec_file_count(cmd.env@, k as int),
                forall|t: int|
                    0 <= t < k && (#[trigger] cmd.env@[t]).value is File ==> env@[t]@
                        == cmd.env@[t].name@ + seq!['='] + spec_dec(
                        extra_inherit@[spec_file_count(cmd.env@, t) as int] as nat,
                    ),
                spec_env_error(self.files_spec(), cmd.env@.skip(k as int)) == spec_env_error(
                    self.files_spec(),
                    cmd.env@,
                ),
            decreases n_env - k,
        {
            let e = &cmd.env[k];
            proof {
                assert(cmd.env@.skip(k as int)[0] == cmd.env@[k as int]);
            }
            let mut line = e.name.clone();
            line.append("=");
            proof {
                reveal_strlit("=");
                assert(line@ =~= e.name@ + seq!['=']);
            }
            match &e.value {
                EnvVarValue::Plain(s) => {
                    line.append(s.as_str());
                    proof {
                        assert(env_entry_matches(line@, cmd.env@[k as int]));
                    }
                },
                EnvVarValue::File(id) => {
                    let f = self.files.get(id)?;
                    let clone = f.try_clone_inherit()?;
                    clone.rewind()?;
                    let ghost pre_extra = extra_inherit@;
                    let fd = clone.as_raw();
                    let handed = clone.into_raw();
                    proof {
                        assert(fd as int == handed as int);
                        assert(fd == handed) by {
                            assert(fd as int == handed as int);
                        }
                    }
                    extra_inherit.push(handed);
                    let dec = u64_to_dec(fd);
                    line.append(dec.as_str());
                    proof {
                        assert(extra_inherit@ == pre_extra.push(fd));
                        assert(extra_inherit@[pre_extra.len() as int] == fd);
                        assert(line@ == cmd.env@[k as int].name@ + seq!['='] + spec_dec(
                            fd as nat,
                        ));
                        assert(env_entry_matches(line@, cmd.env@[k as int]));
                    }
                },
            }
            env.push(line);
            proof {
                assert(cmd.env@.skip(k as int).skip(1) =~= cmd.env@.skip(k + 1));
                assert(spec_file_count(cmd.env@, k + 1) == spec_file_count(cmd.env@, k as int)
                    + (if cmd.env@[k as int].value is File {
                    1nat
                } else {
                    0nat
                }));
                assert forall|t: int|
                    0 <= t < k + 1 && (#[trigger] cmd.env@[t]).value is File implies env@[t]@
                    == cmd.env@[t].name@ + seq!['='] + spec_dec(
                    extra_inherit@[spec_file_count(cmd.env@, t) as int] as nat,
                ) by {
                    if t < k {
                        assert(spec_file_count(cmd.env@, t) < spec_file_count(cmd.env@, k as int))
                            by {
                            lemma_file_count_monotone(cmd.env@, t, k as int);
                        }
                    }
                }
            }
            k = k + 1;
        }
        proof {
            assert(cmd.env@.skip(n_env as int) =~= Seq::<EnvironmentVariable>::empty());
        }
        Ok(
            SpawnSpec {
                sandbox_name: cmd.sandbox_name.clone(),
                path: cmd.argv[0].clone(),
                args,
                env,
                pwd: cmd.cwd.clone(),
                stdin_fd: stdin_clone.into_raw(),
                stdout_fd: stdout_clone.into_raw(),
                stderr_fd: stderr_clone.into_raw(),
                extra_inherit,
            },
        )
    }

    /// Releases the request's volumes and sandbox scratch mounts, unless the
    /// engine was asked to leak sandboxes for inspection. Failures are
    /// swallowed: the request is completing and teardown is best effort. The
    /// resource table and the recorded names stay as they were.
    pub fn teardown(&mut self)
        requires
            old(self).wf(),
        ensures
            final(self).wf(),
            final(self).files_spec() == old(self).files_spec(),
            final(self).resolver_spec() == old(self).resolver_spec(),
            final(self).work_dir_spec() == old(self).work_dir_spec(),
            final(self).sandbox_count() == old(self).sandbox_count(),
            forall|i: int|
                0 <= i < old(self).sandbox_count() ==> final(self).sandbox_name_at(i) == old(
                    self,
                ).sandbox_name_at(i),
    {
        if self.global.leak {
            return ;
        }
        loop
            invariant
                self.wf(),
                self.files == old(self).files,
                self.resolver == old(self).resolver,
                self.work_dir == old(self).work_dir,
                self.sandboxes == old(self).sandboxes,
            decreases self.volumes@.len(),
        {
            match self.volumes.pop() {
                Some(v) => {
                    let _ = v.teardown();
                },
                None => {
                    break ;
                },
            }
        }
        let n: usize = self.sandboxes.len();
        let mut k: usize = 0;
        while k < n
            invariant
                0 <= k <= n,
                self.wf(),
                n == self.sandbox_count(),
                self.files == old(self).files,
                self.resolver == old(self).resolver,
                self.work_dir == old(self).work_dir,
                self.sandboxes == old(self).sandboxes,
            decreases n - k,
        {
            let sb = &self.sandboxes[k];
            let dir1 = path_join(self.work_dir.as_str(), "sandboxes");
            let dir2 = path_join(dir1.as_str(), sb.name.as_str());
            let data_dir = path_join(dir2.as_str(), "data");
            let _ = sys::sys_umount_detach(data_dir.as_str());
            k = k + 1;
        }
    }
}

/// A later prefix counts at least one more file-valued variable than an
/// earlier one that ends on a file-valued variable.
proof fn lemma_file_count_monotone(env: Seq<EnvironmentVariable>, t: int, k: int)
    requires
        0 <= t < k <= env.len(),
        env[t].value is File,
    ensures
        spec_file_count(env, t) < spec_file_count(env, k),
    decreases k - t,
{
    if k == t + 1 {
    } else {
        lemma_file_count_monotone(env, t, k - 1);
    }
}

/// Turns the backend's report on one spawned command into the recorded
/// result: a spawn failure is marked with a fresh error identifier and the
/// sentinel exit code, with no resource usage; an exit carries its code and
/// the captured usage.
pub fn command_result(outcome: &SpawnOutcome) -> (r: ActionResult)
    ensures
        match *outcome {
            SpawnOutcome::SpawnFailed => r matches ActionResult::ExecuteCommand(cr) && cr.spawn_error
                is Some && cr.exit_code == i64::MAX && cr.cpu_time is None && cr.memory is None,
            SpawnOutcome::Exited { exit_code, cpu_time, memory } => r
                == ActionResult::ExecuteCommand(
                CommandResult { spawn_error: None, exit_code, cpu_time, memory },
            ),
        },
{
    match outcome {
        SpawnOutcome::SpawnFailed => {
            let marker = sys::fresh_uid();
            ActionResult::ExecuteCommand(
                CommandResult {
                    spawn_error: Some(marker),
                    exit_code: i64::MAX,
                    cpu_time: None,
                    memory: None,
                },
            )
        },
        SpawnOutcome::Exited { exit_code, cpu_time, memory } => {
            ActionResult::ExecuteCommand(
                CommandResult {
                    spawn_error: None,
                    exit_code: *exit_code,
                    cpu_time: *cpu_time,
                    memory: *memory,
                },
            )
        },
    }
}

/// A field-for-field copy of backend options.
fn clone_options(o: &BackendSandboxOptions) -> (r: BackendSandboxOptions) {
    o.clone()
}

} // verus!
