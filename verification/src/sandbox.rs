//! Sandbox planning: assembling the mount set, the scratch directory and the
//! limits that the sandbox backend is invoked with.
use vstd::prelude::*;

use crate::api::{SandboxSettings, SharedDir, SharedDirectoryMode};
use crate::error::Error;
use crate::path_resolver::{spec_path_join, path_join, PathResolver};

verus! {

/// Process-wide sandbox configuration of the engine.
pub struct SandboxGlobalSettings {
    /// Host top-level directories exposed when a sandbox asks for the
    /// sentinel base image `/`; a built-in default applies when absent.
    pub exposed_host_items: Option<Vec<String>>,
    /// Skip the optional system checks at startup.
    pub skip_system_checks: bool,
    /// The user and group id range handed to the backend.
    pub override_id_range: Option<(u32, u32)>,
    /// Do not release sandboxes at request completion, for post-mortem
    /// inspection.
    pub leak: bool,
    /// The fallback backend supports one process per sandbox only.
    pub allow_fallback_pid_limit: bool,
}

/// The process count applied when a request sets none: the fallback backend
/// supports a single process, otherwise a sufficient default applies.
pub open spec fn spec_default_process_limit(allow_fallback: bool) -> u64 {
    if allow_fallback {
        1
    } else {
        16
    }
}

pub fn default_process_limit(s: &SandboxGlobalSettings) -> (r: u64)
    ensures
        r == spec_default_process_limit(s.allow_fallback_pid_limit),
{
    if s.allow_fallback_pid_limit {
        1
    } else {
        16
    }
}

/// Access granted on one shared item, as the backend understands it.
#[derive(Clone, Copy, Debug, PartialEq, Eq, Structural)]
pub enum SharedItemKind {
    /// Read and execute.
    Readonly,
    /// Read, write and execute.
    Full,
}

/// One piece of the host filesystem bound into the sandbox.
#[derive(Clone, Debug)]
pub struct SharedItemSpec {
    /// Absolute host path.
    pub src: String,
    /// Path inside the sandbox.
    pub dest: String,
    pub kind: SharedItemKind,
    /// Create the host path first if it is missing.
    pub create: bool,
}

/// What the backend is invoked with for one sandbox.
#[derive(Clone, Debug)]
pub struct BackendSandboxOptions {
    pub max_alive_process_count: u64,
    pub memory_limit: u64,
    pub cpu_time_ms: u64,
    /// Wall-clock limit: three times the CPU time limit.
    pub real_time_ms: u64,
    /// The chroot directory.
    pub isolation_root: String,
    pub shared_items: Vec<SharedItemSpec>,
}

/// The permission bits with owner access copied to group and others, so a
/// nobody-like sandbox uid reaches a read-write shared path.
pub open spec fn spec_widen_mode(m: u32) -> u32 {
    (m >> 9 << 9) | (((m >> 6) & 7) << 6) | (((m >> 6) & 7) << 3) | ((m >> 6) & 7)
}

/// Copies the owner permission bits to the group and other slots, keeping
/// the higher bits.
pub fn widen_mode(m: u32) -> (r: u32)
    ensures
        r == spec_widen_mode(m),
        r & 7 == (m >> 6) & 7,
        (r >> 3) & 7 == (m >> 6) & 7,
        (r >> 6) & 7 == (m >> 6) & 7,
        r >> 9 == m >> 9,
{
    let our_access: u32 = (m >> 6) & 0b111;
    let r: u32 = (m >> 9 << 9) | (our_access << 6) | (our_access << 3) | our_access;
    proof {
        let o: u32 = our_access;
        let w: u32 = r;
        assert(w & 7 == o) by (bit_vector)
            requires
                o == (m >> 6) & 7u32,
                w == (m >> 9 << 9) | (o << 6) | (o << 3) | o,
        ;
        assert((w >> 3) & 7 == o) by (bit_vector)
            requires
                o == (m >> 6) & 7u32,
                w == (m >> 9 << 9) | (o << 6) | (o << 3) | o,
        ;
        assert((w >> 6) & 7 == o) by (bit_vector)
            requires
                o == (m >> 6) & 7u32,
                w == (m >> 9 << 9) | (o << 6) | (o << 3) | o,
        ;
        assert(w >> 9 == m >> 9) by (bit_vector)
            requires
                o == (m >> 6) & 7u32,
                w == (m >> 9 << 9) | (o << 6) | (o << 3) | o,
        ;
    }
    r
}

/// The "others" permission bits a shared item needs: read and execute for a
/// read-only item, and write as well for a full-access one.
pub open spec fn spec_desired_access(kind: SharedItemKind) -> u32 {
    match kind {
        SharedItemKind::Full => 0b111,
        SharedItemKind::Readonly => 0b101,
    }
}

/// Whether the "others" bits of a path's mode grant what the requested
/// access needs. A mismatch is advisory: the sandboxed uid would likely be
/// unable to use the path.
pub open spec fn spec_access_ok(mode: u32, kind: SharedItemKind) -> bool {
    (mode & 7) & spec_desired_access(kind) == spec_desired_access(kind)
}

pub fn access_ok(mode: u32, kind: SharedItemKind) -> (r: bool)
    ensures
        r == spec_access_ok(mode, kind),
{
    let desired: u32 = match kind {
        SharedItemKind::Full => 0b111,
        SharedItemKind::Readonly => 0b101,
    };
    (mode & 7) & desired == desired
}

/// The backend kind of a shared directory mode.
pub open spec fn spec_kind_of_mode(m: SharedDirectoryMode) -> SharedItemKind {
    match m {
        SharedDirectoryMode::ReadOnly => SharedItemKind::Readonly,
        SharedDirectoryMode::ReadWrite => SharedItemKind::Full,
    }
}

/// The sentinel base image `/`, which selects the configured host top-level
/// directories instead of an image directory.
pub open spec fn is_root_sentinel(s: Seq<char>) -> bool {
    s.len() == 1 && s[0] == '/'
}

/// A shared item exposing the host top-level directory `name` read-only at
/// the same path.
pub open spec fn root_item_matches(item: SharedItemSpec, name: Seq<char>) -> bool {
    &&& item.src@ == seq!['/'] + name
    &&& item.dest@ == seq!['/'] + name
    &&& item.kind is Readonly
    &&& !item.create
}

/// A shared item binding the image child `name` read-only at `/<name>`.
pub open spec fn image_item_matches(item: SharedItemSpec, base: Seq<char>, name: Seq<char>) -> bool {
    &&& item.src@ == spec_path_join(base, name)
    &&& item.dest@ == seq!['/'] + name
    &&& item.kind is Readonly
    &&& !item.create
}

/// A shared item carrying one `expose` entry: its host path resolved, bound
/// at its sandbox path with the requested access.
pub open spec fn expose_item_matches(
    item: SharedItemSpec,
    resolver: PathResolver,
    d: SharedDir,
) -> bool {
    &&& resolver.spec_resolve(d.host_path) == Ok::<Seq<char>, Error>(item.src@)
    &&& item.dest@ == d.sandbox_path@
    &&& item.kind == spec_kind_of_mode(d.mode)
    &&& item.create == d.create
}

/// The shared item binding the tmpfs scratch directory read-write at the
/// sandbox's working directory.
pub open spec fn work_item_matches(
    item: SharedItemSpec,
    data_dir: Seq<char>,
    work_dir: Seq<char>,
) -> bool {
    &&& item.src@ == data_dir
    &&& item.dest@ == work_dir
    &&& item.kind is Full
    &&& !item.create
}

/// The error of the first `expose` entry whose host path does not resolve,
/// if any.
pub open spec fn first_expose_error(resolver: PathResolver, expose: Seq<SharedDir>) -> Option<
    Error,
>
    decreases expose.len(),
{
    if expose.len() == 0 {
        None
    } else {
        match resolver.spec_resolve(expose[0].host_path) {
            Ok(_) => first_expose_error(resolver, expose.skip(1)),
            Err(e) => Some(e),
        }
    }
}

/// The base names of a listing with the self and parent entries removed.
pub open spec fn spec_without_dots(s: Seq<Seq<char>>) -> Seq<Seq<char>>
    decreases s.len(),
{
    if s.len() == 0 {
        Seq::empty()
    } else if s.last() =~= seq!['.'] || s.last() =~= seq!['.', '.'] {
        spec_without_dots(s.drop_last())
    } else {
        spec_without_dots(s.drop_last()) + seq![s.last()]
    }
}

/// A copy of a list of strings, character for character.
fn clone_string_vec(v: &Vec<String>) -> (r: Vec<String>)
    ensures
        r@.map_values(|s: String| s@) == v@.map_values(|s: String| s@),
{
    let n: usize = v.len();
    let mut out: Vec<String> = Vec::new();
    let mut i: usize = 0;
    while i < n
        invariant
            0 <= i <= n,
            n == v@.len(),
            out@.len() == i,
            forall|t: int| 0 <= t < i ==> out@[t]@ == v@[t]@,
        decreases n - i,
    {
        out.push(v[i].clone());
        i = i + 1;
    }
    proof {
        assert(out@.map_values(|s: String| s@) =~= v@.map_values(|s: String| s@));
    }
    out
}

/// Drops the self and parent entries from a directory listing.
pub fn without_dots(entries: &Vec<String>) -> (r: Vec<String>)
    ensures
        r@.map_values(|s: String| s@) == spec_without_dots(
            entries@.map_values(|s: String| s@),
        ),
{
    let n: usize = entries.len();
    let mut out: Vec<String> = Vec::new();
    let mut i: usize = 0;
    proof {
        assert(entries@.map_values(|s: String| s@).take(0) =~= Seq::<Seq<char>>::empty());
        assert(out@.map_values(|s: String| s@) =~= Seq::<Seq<char>>::empty());
    }
    while i < n
        invariant
            0 <= i <= n,
            n == entries@.len(),
            out@.map_values(|s: String| s@) == spec_without_dots(
                entries@.map_values(|s: String| s@).take(i as int),
            ),
        decreases n - i,
    {
        let ghost before = out@.map_values(|s: String| s@);
        let e = &entries[i];
        let len: usize = e.as_str().unicode_len();
        let is_dot = len == 1 && e.as_str().get_char(0) == '.';
        let is_dot_dot = len == 2 && e.as_str().get_char(0) == '.' && e.as_str().get_char(1)
            == '.';
        if !is_dot && !is_dot_dot {
            out.push(e.clone());
        }
        proof {
            let all = entries@.map_values(|s: String| s@);
            assert(all.take(i + 1).drop_last() =~= all.take(i as int));
            assert(all.take(i + 1).last() == entries@[i as int]@);
            if is_dot {
                assert(entries@[i as int]@ =~= seq!['.']);
            } else if is_dot_dot {
                assert(entries@[i as int]@ =~= seq!['.', '.']);
            } else {
                assert(!(entries@[i as int]@ =~= seq!['.']) && !(entries@[i as int]@ =~= seq![
                    '.',
                    '.',
                ]));
                assert(out@.map_values(|s: String| s@) =~= before + seq![entries@[i as int]@]);
            }
        }
        i = i + 1;
    }
    proof {
        assert(entries@.map_values(|s: String| s@).take(n as int) =~= entries@.map_values(
            |s: String| s@,
        ));
    }
    out
}

/// The built-in host top-level directories exposed for the sentinel base
/// image when none are configured.
pub fn default_host_mounts() -> (r: Vec<String>)
    ensures
        r@.len() == 4,
        r@[0]@ == "usr"@,
        r@[1]@ == "bin"@,
        r@[2]@ == "lib"@,
        r@[3]@ == "lib64"@,
{
    let mut v: Vec<String> = Vec::new();
    v.push("usr".to_owned());
    v.push("bin".to_owned());
    v.push("lib".to_owned());
    v.push("lib64".to_owned());
    v
}

/// Prefixes a base name with the path separator.
fn slash_prefixed(name: &str) -> (r: String)
    ensures
        r@ == seq!['/'] + name@,
{
    let mut s = "/".to_owned();
    proof {
        reveal_strlit("/");
        assert(s@ =~= seq!['/']);
    }
    s.append(name);
    s
}

/// The base names of one sandbox's plan: the configured or built-in host
/// top-level directories for the sentinel base image, else the children of
/// the base image directory without the dot entries.
pub open spec fn plan_base_names(
    settings: SandboxSettings,
    global: SandboxGlobalSettings,
    base_entries: Seq<Seq<char>>,
) -> Seq<Seq<char>> {
    if is_root_sentinel(settings.base_image@) {
        match global.exposed_host_items {
            Some(v) => v@.map_values(|s: String| s@),
            None => seq!["usr"@, "bin"@, "lib"@, "lib64"@],
        }
    } else {
        spec_without_dots(base_entries)
    }
}

/// The assembled mount set of one sandbox: its base mounts, its `expose`
/// entries resolved and in order, and the scratch directory bound read-write
/// at the working directory, last.
pub open spec fn plan_items_ok(
    items: Seq<SharedItemSpec>,
    settings: SandboxSettings,
    global: SandboxGlobalSettings,
    base_entries: Seq<Seq<char>>,
    resolver: PathResolver,
    data_dir: Seq<char>,
) -> bool {
    let names = plan_base_names(settings, global, base_entries);
    let nb = names.len() as int;
    let ne = settings.expose.len() as int;
    &&& items.len() == nb + ne + 1
    &&& forall|k: int|
        0 <= k < nb ==> if is_root_sentinel(settings.base_image@) {
            root_item_matches(#[trigger] items[k], names[k])
        } else {
            image_item_matches(items[k], settings.base_image@, names[k])
        }
    &&& forall|k: int|
        0 <= k < ne ==> expose_item_matches(#[trigger] items[nb + k], resolver, settings.expose[k])
    &&& work_item_matches(items[nb + ne], data_dir, settings.work_dir@)
}

/// Assembles the shared items of one sandbox: the base mounts (host
/// top-level directories for the sentinel `/`, else the children of the base
/// image), every `expose` entry with its host path resolved, and the scratch
/// directory bound read-write at the working directory.
pub fn plan_shared_items(
    settings: &SandboxSettings,
    global: &SandboxGlobalSettings,
    base_entries: &Vec<String>,
    resolver: &PathResolver,
    data_dir: &str,
) -> (r: Result<Vec<SharedItemSpec>, Error>)
    requires
        resolver.wf(),
    ensures
        match r {
            Ok(items) => {
                &&& first_expose_error(*resolver, settings.expose@) is None
                &&& plan_items_ok(
                    items@,
                    *settings,
                    *global,
                    base_entries@.map_values(|s: String| s@),
                    *resolver,
                    data_dir@,
                )
            },
            Err(e) => first_expose_error(*resolver, settings.expose@) == Some(e),
        },
{
    let mut items: Vec<SharedItemSpec> = Vec::new();
    let base_len: usize = settings.base_image.as_str().unicode_len();
    let root_sentinel = base_len == 1 && settings.base_image.as_str().get_char(0) == '/';
    let ghost names_view: Seq<Seq<char>> = plan_base_names(
        *settings,
        *global,
        base_entries@.map_values(|s: String| s@),
    );
    if root_sentinel {
        let names: Vec<String> = match &global.exposed_host_items {
            Some(v) => clone_string_vec(v),
            None => default_host_mounts(),
        };
        proof {
            assert(names@.map_values(|s: String| s@) =~= names_view);
        }
        let n: usize = names.len();
        let mut k: usize = 0;
        while k < n
            invariant
                0 <= k <= n,
                n == names@.len(),
                names@.map_values(|s: String| s@) == names_view,
                items@.len() == k,
                forall|t: int| 0 <= t < k ==> root_item_matches(#[trigger] items@[t], names_view[t]),
            decreases n - k,
        {
            let p = slash_prefixed(names[k].as_str());
            let q = slash_prefixed(names[k].as_str());
            items.push(
                SharedItemSpec { src: p, dest: q, kind: SharedItemKind::Readonly, create: false },
            );
            k = k + 1;
        }
    } else {
        let names = without_dots(base_entries);
        proof {
            assert(names@.map_values(|s: String| s@) =~= names_view);
        }
        let n: usize = names.len();
        let mut k: usize = 0;
        while k < n
            invariant
                0 <= k <= n,
                n == names@.len(),
                names@.map_values(|s: String| s@) == names_view,
                items@.len() == k,
                forall|t: int|
                    0 <= t < k ==> image_item_matches(
                        #[trigger] items@[t],
                        settings.base_image@,
                        names_view[t],
                    ),
            decreases n - k,
        {
            let src = path_join(settings.base_image.as_str(), names[k].as_str());
            let dest = slash_prefixed(names[k].as_str());
            items.push(
                SharedItemSpec { src, dest, kind: SharedItemKind::Readonly, create: false },
            );
            k = k + 1;
        }
    }
    let ghost base_items = items@;
    let ghost nb = items@.len() as int;
    let ne: usize = settings.expose.len();
    let mut k: usize = 0;
    proof {
        assert(settings.expose@.skip(0) =~= settings.expose@);
    }
    while k < ne
        invariant
            0 <= k <= ne,
            ne == settings.expose@.len(),
            resolver.wf(),
            nb == base_items.len(),
            items@.len() == nb + k,
            forall|t: int| 0 <= t < nb ==> items@[t] == base_items[t],
            forall|t: int|
                0 <= t < k ==> expose_item_matches(
                    #[trigger] items@[nb + t],
                    *resolver,
                    settings.expose@[t],
                ),
            first_expose_error(*resolver, settings.expose@.skip(k as int)) == first_expose_error(
                *resolver,
                settings.expose@,
            ),
        decreases ne - k,
    {
        let d = &settings.expose[k];
        proof {
            assert(settings.expose@.skip(k as int)[0] == settings.expose@[k as int]);
        }
        let src = match resolver.resolve(&d.host_path) {
            Ok(s) => s,
            Err(e) => {
                return Err(e);
            },
        };
        let kind = match d.mode {
            SharedDirectoryMode::ReadOnly => SharedItemKind::Readonly,
            SharedDirectoryMode::ReadWrite => SharedItemKind::Full,
        };
        items.push(SharedItemSpec { src, dest: d.sandbox_path.clone(), kind, create: d.create });
        proof {
            assert(settings.expose@.skip(k as int).skip(1) =~= settings.expose@.skip(k + 1));
        }
        k = k + 1;
    }
    let ghost with_expose = items@;
    items.push(
        SharedItemSpec {
            src: data_dir.to_owned(),
            dest: settings.work_dir.clone(),
            kind: SharedItemKind::Full,
            create: false,
        },
    );
    proof {
        assert(settings.expose@.skip(ne as int) =~= Seq::<SharedDir>::empty());
        assert(forall|t: int| 0 <= t < nb + ne ==> items@[t] == with_expose[t]);
        assert(work_item_matches(items@[nb + ne as int], data_dir@, settings.work_dir@));
        if is_root_sentinel(settings.base_image@) {
            assert forall|k: int| 0 <= k < nb implies root_item_matches(
                #[trigger] items@[k],
                names_view[k],
            ) by {
                assert(items@[k] == with_expose[k]);
                assert(with_expose[k] == base_items[k]);
                assert(root_item_matches(base_items[k], names_view[k]));
            }
        } else {
            assert forall|k: int| 0 <= k < nb implies image_item_matches(
                #[trigger] items@[k],
                settings.base_image@,
                names_view[k],
            ) by {
                assert(items@[k] == with_expose[k]);
                assert(with_expose[k] == base_items[k]);
                assert(image_item_matches(base_items[k], settings.base_image@, names_view[k]));
            }
        }
        assert forall|k: int| 0 <= k < ne implies expose_item_matches(
            #[trigger] items@[nb + k],
            *resolver,
            settings.expose@[k],
        ) by {
            assert(items@[nb + k] == with_expose[nb + k]);
        }
    }
    Ok(items)
}

/// One created sandbox, as the engine models it: its name and the options
/// the backend was invoked with.
#[derive(Debug)]
pub struct Sandbox {
    pub name: String,
    pub options: BackendSandboxOptions,
}

/// Prepares one sandbox on the filesystem and assembles its backend options:
/// creates each `expose` path that asks for creation, widens permissions on
/// the read-write ones, creates the scratch directory (with its quota tmpfs
/// when one is set) and the chroot directory, and checks every shared item's
/// "others" permission bits against the requested access — a mismatch is an
/// advisory warning, returned, never fatal.
pub fn create_sandbox_dirs(
    settings: &SandboxSettings,
    global: &SandboxGlobalSettings,
    base_entries: &Vec<String>,
    resolver: &PathResolver,
    sandbox_dir: &str,
) -> (r: Result<(BackendSandboxOptions, Vec<String>), Error>)
    requires
        resolver.wf(),
        settings.limits.time <= u64::MAX / 3,
    ensures
        first_expose_error(*resolver, settings.expose@) is Some ==> r is Err,
        r matches Err(e) ==> e is Sys || e is ShortWrite || e == Error::AbsolutePath || e
            == Error::UnknownVolume || e == Error::ExtensionUnresolved,
        r is Ok ==> {
            let o = r.unwrap().0;
            &&& o.cpu_time_ms == settings.limits.time
            &&& o.real_time_ms == 3 * settings.limits.time
            &&& o.memory_limit == settings.limits.memory
            &&& o.max_alive_process_count == match settings.limits.process_count {
                Some(p) => p,
                None => spec_default_process_limit(global.allow_fallback_pid_limit),
            }
            &&& o.isolation_root@ == spec_path_join(sandbox_dir@, "root"@)
            &&& plan_items_ok(
                o.shared_items@,
                *settings,
                *global,
                base_entries@.map_values(|s: String| s@),
                *resolver,
                spec_path_join(sandbox_dir@, "data"@),
            )
        },
{
    let ne: usize = settings.expose.len();
    let mut k: usize = 0;
    proof {
        assert(settings.expose@.skip(0) =~= settings.expose@);
    }
    while k < ne
        invariant
            0 <= k <= ne,
            ne == settings.expose@.len(),
            resolver.wf(),
            first_expose_error(*resolver, settings.expose@.skip(k as int)) == first_expose_error(
                *resolver,
                settings.expose@,
            ),
        decreases ne - k,
    {
        let d = &settings.expose[k];
        proof {
            assert(settings.expose@.skip(k as int)[0] == settings.expose@[k as int]);
        }
        let host = match resolver.resolve(&d.host_path) {
            Ok(s) => s,
            Err(e) => {
                return Err(e);
            },
        };
        if d.create {
            crate::file::create_dir_all(host.as_str())?;
        }
        if let SharedDirectoryMode::ReadWrite = d.mode {
            let mode = match crate::sys::sys_stat_mode(host.as_str()) {
                Ok(m) => m,
                Err(e) => {
                    return Err(Error::Sys { errno: e });
                },
            };
            if let Err(e) = crate::sys::sys_chmod(host.as_str(), widen_mode(mode)) {
                return Err(Error::Sys { errno: e });
            }
        }
        proof {
            assert(settings.expose@.skip(k as int).skip(1) =~= settings.expose@.skip(k + 1));
        }
        k = k + 1;
    }
    proof {
        assert(settings.expose@.skip(ne as int) =~= Seq::<SharedDir>::empty());
    }
    let data_dir = path_join(sandbox_dir, "data");
    crate::file::create_dir_all(data_dir.as_str())?;
    if let Some(quota) = settings.limits.work_dir_size {
        if let Err(e) = crate::sys::sys_mount_tmpfs(data_dir.as_str(), quota) {
            return Err(Error::Sys { errno: e });
        }
    }
    let items = plan_shared_items(settings, global, base_entries, resolver, data_dir.as_str())?;
    let mut warnings: Vec<String> = Vec::new();
    let n_items: usize = items.len();
    let mut t: usize = 0;
    while t < n_items
        invariant
            0 <= t <= n_items,
            n_items == items@.len(),
        decreases n_items - t,
    {
        let item = &items[t];
        match crate::sys::sys_stat_mode(item.src.as_str()) {
            Ok(m) => {
                if !access_ok(m, item.kind) {
                    warnings.push(item.src.clone());
                }
            },
            Err(_) => {
                warnings.push(item.src.clone());
            },
        }
        t = t + 1;
    }
    let root_dir = path_join(sandbox_dir, "root");
    crate::file::create_dir_all(root_dir.as_str())?;
    let max_procs = match settings.limits.process_count {
        Some(p) => p,
        None => default_process_limit(global),
    };
    let options = BackendSandboxOptions {
        max_alive_process_count: max_procs,
        memory_limit: settings.limits.memory,
        cpu_time_ms: settings.limits.time,
        real_time_ms: settings.limits.time * 3,
        isolation_root: root_dir,
        shared_items: items,
    };
    Ok((options, warnings))
}

} // verus!
