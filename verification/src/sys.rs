//! Trusted boundary to the operating system and to the encoders: each
//! function here wraps one call of an outside crate, and its contract states
//! only what that call's documentation promises.
use vstd::prelude::*;

use base64::Engine;
use nix::fcntl::{fcntl, open, FcntlArg, OFlag, SealFlag};
use nix::sys::stat::{fchmodat, FchmodatFlags};

use crate::api::Uid;

verus! {

/// The base64 encoding of a byte sequence, as the `base64` crate computes it
/// with its standard alphabet. The result depends on the bytes alone.
pub uninterp spec fn b64_of(bytes: Seq<u8>) -> Seq<char>;

/// What the `base64` crate's standard-alphabet decoder yields on a text:
/// the decoded bytes, or nothing when the text is not valid base64. The
/// result depends on the text alone.
pub uninterp spec fn b64_decode_of(text: Seq<char>) -> Option<Seq<u8>>;

/// Relies on `base64::engine::general_purpose::STANDARD.encode`: the result
/// is the standard base64 encoding of the bytes, and the crate documents
/// that its own decoder inverts it.
#[verifier::external_body]
pub(crate) fn b64_encode(data: &Vec<u8>) -> (r: String)
    ensures
        r@ == b64_of(data@),
        b64_decode_of(r@) == Some(data@),
{
    base64::engine::general_purpose::STANDARD.encode(data)
}

/// Relies on `base64::engine::general_purpose::STANDARD.decode`: yields the
/// decoded bytes exactly on valid standard base64 input.
#[verifier::external_body]
pub(crate) fn b64_decode(text: &str) -> (r: Option<Vec<u8>>)
    ensures
        match r {
            Some(v) => b64_decode_of(text@) == Some(v@),
            None => b64_decode_of(text@) is None,
        },
{
    match base64::engine::general_purpose::STANDARD.decode(text) {
        Ok(v) => Some(v),
        Err(_) => None,
    }
}

/// Relies on `uuid::Uuid::new_v4`: a freshly generated random identifier.
/// Nothing can be promised of a random value.
#[verifier::external_body]
pub(crate) fn fresh_uid() -> Uid {
    let u = uuid::Uuid::new_v4();
    let (hi, lo) = u.as_u64_pair();
    Uid { hi, lo }
}

/// Relies on `nix::sys::memfd::memfd_create`: a new anonymous in-memory
/// file, sealable, with offset zero.
#[verifier::external_body]
pub(crate) fn sys_memfd_create() -> (r: Result<i32, i32>)
    ensures
        r is Ok ==> r.unwrap() >= 0,
{
    let name = core::ffi::CStr::from_bytes_with_nul(b"invoker-buffer\0").unwrap();
    match nix::sys::memfd::memfd_create(name, nix::sys::memfd::MemFdCreateFlag::MFD_ALLOW_SEALING)
    {
        Ok(fd) => Ok(fd),
        Err(e) => Err(e as i32),
    }
}

/// Relies on `nix::unistd::write`: writes bytes from `buf[offset..]` to the
/// handle and reports how many were taken, never more than were offered.
#[verifier::external_body]
pub(crate) fn sys_write(fd: i32, buf: &Vec<u8>, offset: usize) -> (r: Result<usize, i32>)
    requires
        offset <= buf@.len(),
    ensures
        r is Ok ==> offset + r.unwrap() <= buf@.len(),
{
    match nix::unistd::write(fd, &buf[offset..]) {
        Ok(n) => Ok(n),
        Err(e) => Err(e as i32),
    }
}

/// Relies on `nix::unistd::read`: reads the next chunk from the handle, at
/// most 4096 bytes; an empty chunk means end of data.
#[verifier::external_body]
pub(crate) fn sys_read_chunk(fd: i32) -> (r: Result<Vec<u8>, i32>)
    ensures
        r is Ok ==> r.unwrap()@.len() <= 4096,
{
    let mut buf = vec![0u8; 4096];
    match nix::unistd::read(fd, &mut buf) {
        Ok(n) => {
            buf.truncate(n);
            Ok(buf)
        },
        Err(e) => Err(e as i32),
    }
}

/// Relies on `nix::fcntl::fcntl` with `F_ADD_SEALS`: seals the in-memory
/// file against growing, shrinking, writing and further sealing.
#[verifier::external_body]
pub(crate) fn sys_seal(fd: i32) -> (r: Result<(), i32>)
{
    let seals = SealFlag::F_SEAL_GROW | SealFlag::F_SEAL_SHRINK | SealFlag::F_SEAL_WRITE
        | SealFlag::F_SEAL_SEAL;
    match fcntl(fd, FcntlArg::F_ADD_SEALS(seals)) {
        Ok(_) => Ok(()),
        Err(e) => Err(e as i32),
    }
}

/// Relies on `nix::unistd::lseek`: moves the handle's offset back to the
/// beginning.
#[verifier::external_body]
pub(crate) fn sys_rewind(fd: i32) -> (r: Result<(), i32>)
{
    match nix::unistd::lseek(fd, 0, nix::unistd::Whence::SeekSet) {
        Ok(_) => Ok(()),
        Err(e) => Err(e as i32),
    }
}

/// Relies on `nix::unistd::pipe`: a fresh anonymous pipe, returned as
/// (read end, write end).
#[verifier::external_body]
pub(crate) fn sys_pipe() -> (r: Result<(i32, i32), i32>)
    ensures
        r is Ok ==> r.unwrap().0 >= 0 && r.unwrap().1 >= 0,
{
    match nix::unistd::pipe() {
        Ok((a, b)) => Ok((a, b)),
        Err(e) => Err(e as i32),
    }
}

/// Relies on `nix::unistd::dup`: duplicates the handle; the duplicate does
/// not carry the close-on-exec disposition, so a child inherits it.
#[verifier::external_body]
pub(crate) fn sys_dup(fd: i32) -> (r: Result<i32, i32>)
    ensures
        r is Ok ==> r.unwrap() >= 0,
{
    match nix::unistd::dup(fd) {
        Ok(n) => Ok(n),
        Err(e) => Err(e as i32),
    }
}

/// Relies on `nix::unistd::close`: releases the handle.
#[verifier::external_body]
pub(crate) fn sys_close(fd: i32) -> (r: Result<(), i32>)
{
    match nix::unistd::close(fd) {
        Ok(()) => Ok(()),
        Err(e) => Err(e as i32),
    }
}

/// Relies on `nix::fcntl::open` with `O_RDONLY`: opens an existing file for
/// reading.
#[verifier::external_body]
pub(crate) fn sys_open_read(path: &str) -> (r: Result<i32, i32>)
    ensures
        r is Ok ==> r.unwrap() >= 0,
{
    match open(path, OFlag::O_RDONLY, nix::sys::stat::Mode::empty()) {
        Ok(fd) => Ok(fd),
        Err(e) => Err(e as i32),
    }
}

/// Relies on `nix::fcntl::open` with `O_WRONLY | O_CREAT`: opens the file
/// for writing, creating it when missing.
#[verifier::external_body]
pub(crate) fn sys_open_write(path: &str) -> (r: Result<i32, i32>)
    ensures
        r is Ok ==> r.unwrap() >= 0,
{
    let mode = nix::sys::stat::Mode::from_bits_truncate(0o644);
    match open(path, OFlag::O_WRONLY | OFlag::O_CREAT, mode) {
        Ok(fd) => Ok(fd),
        Err(e) => Err(e as i32),
    }
}

/// Relies on `nix::fcntl::open` with `O_RDWR | O_CREAT`: opens the file for
/// reading and writing, creating it when missing.
#[verifier::external_body]
pub(crate) fn sys_open_read_write(path: &str) -> (r: Result<i32, i32>)
    ensures
        r is Ok ==> r.unwrap() >= 0,
{
    let mode = nix::sys::stat::Mode::from_bits_truncate(0o644);
    match open(path, OFlag::O_RDWR | OFlag::O_CREAT, mode) {
        Ok(fd) => Ok(fd),
        Err(e) => Err(e as i32),
    }
}

/// Relies on `nix::fcntl::open`: a read-only handle to the empty null
/// device.
#[verifier::external_body]
pub(crate) fn sys_open_null() -> (r: Result<i32, i32>)
    ensures
        r is Ok ==> r.unwrap() >= 0,
{
    match open("/dev/null", OFlag::O_RDONLY, nix::sys::stat::Mode::empty()) {
        Ok(fd) => Ok(fd),
        Err(e) => Err(e as i32),
    }
}

/// Relies on `nix::unistd::mkdir`: creates one directory; answers whether it
/// was created now (`true`) or already existed (`false`).
#[verifier::external_body]
pub(crate) fn sys_mkdir(path: &str) -> (r: Result<bool, i32>)
{
    let mode = nix::sys::stat::Mode::from_bits_truncate(0o755);
    match nix::unistd::mkdir(path, mode) {
        Ok(()) => Ok(true),
        Err(nix::errno::Errno::EEXIST) => Ok(false),
        Err(e) => Err(e as i32),
    }
}

/// Relies on `nix::sys::stat::stat`: the permission and type bits of the
/// path, as the filesystem reports them at this moment.
#[verifier::external_body]
pub(crate) fn sys_stat_mode(path: &str) -> (r: Result<u32, i32>)
{
    match nix::sys::stat::stat(path) {
        Ok(st) => Ok(st.st_mode as u32),
        Err(e) => Err(e as i32),
    }
}

/// Relies on `nix::sys::stat::fchmodat`: sets the permission bits of the
/// path.
#[verifier::external_body]
pub(crate) fn sys_chmod(path: &str, mode: u32) -> (r: Result<(), i32>)
{
    match fchmodat(None, path, nix::sys::stat::Mode::from_bits_truncate(mode), FchmodatFlags::FollowSymlink) {
        Ok(()) => Ok(()),
        Err(e) => Err(e as i32),
    }
}

/// Relies on `nix::mount::mount`: mounts a size-limited tmpfs over the
/// directory.
#[verifier::external_body]
pub(crate) fn sys_mount_tmpfs(path: &str, size_bytes: u64) -> (r: Result<(), i32>)
{
    let data = format!("size={}", size_bytes);
    match nix::mount::mount(
        Some("tmpfs"),
        path,
        Some("tmpfs"),
        nix::mount::MsFlags::empty(),
        Some(data.as_str()),
    ) {
        Ok(()) => Ok(()),
        Err(e) => Err(e as i32),
    }
}

/// Relies on `nix::dir::Dir`: the names of the entries of a directory, the
/// self and parent entries included, in no promised order — directory order
/// depends on the filesystem.
#[verifier::external_body]
pub(crate) fn sys_list_dir(path: &str) -> (r: Result<Vec<String>, i32>)
{
    let flags = OFlag::O_RDONLY | OFlag::O_DIRECTORY;
    let mut dir = match nix::dir::Dir::open(path, flags, nix::sys::stat::Mode::empty()) {
        Ok(d) => d,
        Err(e) => return Err(e as i32),
    };
    let mut out = Vec::new();
    for entry in dir.iter() {
        match entry {
            Ok(e) => out.push(e.file_name().to_string_lossy().into_owned()),
            Err(e) => return Err(e as i32),
        }
    }
    Ok(out)
}

/// Relies on `nix::mount::umount2` with `MNT_DETACH`: lazily unmounts the
/// directory.
#[verifier::external_body]
pub(crate) fn sys_umount_detach(path: &str) -> (r: Result<(), i32>)
{
    match nix::mount::umount2(path, nix::mount::MntFlags::MNT_DETACH) {
        Ok(()) => Ok(()),
        Err(e) => Err(e as i32),
    }
}

} // verus!
