//! File handles of the resource table: regular files, pipe ends,
//! memory-backed buffers and the null source, each with an access mode that
//! is checked at use sites.
use vstd::prelude::*;

use crate::error::Error;
use crate::sys;

verus! {

/// What kind of object a [`File`] refers to.
#[derive(Clone, Copy, Debug, PartialEq, Eq, Structural)]
pub enum FileKind {
    /// One end of an anonymous pipe.
    Pipe,
    /// A regular file on a filesystem.
    File,
    /// A read-only handle to an immutable in-memory buffer.
    Buf,
    /// A read-only empty source.
    Null,
}

/// Access mode of a handle.
#[derive(Clone, Copy, Debug, PartialEq, Eq, Structural)]
pub enum Mode {
    /// Read-only.
    Read,
    /// Write-only.
    Write,
    /// Readable and writable.
    ReadWrite,
}

/// A raw operating-system handle. Cloning for inheritance and closing are
/// explicit; the registry owns every handle.
#[derive(Debug)]
pub struct RawFile {
    handle: i32,
}

impl RawFile {
    pub closed spec fn wf(self) -> bool {
        self.handle >= 0
    }

    /// The operating-system handle this value wraps. No destructor closes
    /// it: a handle is released only by an explicit `close`, so one handed
    /// out for inheritance stays open.
    pub closed spec fn handle_spec(self) -> int {
        self.handle as int
    }

    /// The numeric handle, for inheritance by a child process; the handle
    /// itself stays owned and open.
    pub fn raw(&self) -> (r: u64)
        requires
            self.wf(),
        ensures
            r as int == self.handle_spec(),
    {
        self.handle as u64
    }

    pub(crate) fn from_fd(fd: i32) -> (r: RawFile)
        requires
            fd >= 0,
        ensures
            r.wf(),
    {
        RawFile { handle: fd }
    }

    /// Materializes an immutable in-memory file holding exactly `buf`: the
    /// bytes are written, the handle is sealed against any change, and its
    /// offset is moved back to the start.
    pub fn from_buffer(buf: &Vec<u8>) -> (r: Result<RawFile, Error>)
        ensures
            r is Ok ==> r.unwrap().wf(),
            r is Err ==> r.unwrap_err() is Sys || r.unwrap_err() is ShortWrite,
    {
        let fd = match sys::sys_memfd_create() {
            Ok(fd) => fd,
            Err(e) => {
                return Err(Error::Sys { errno: e });
            },
        };
        let len: usize = buf.len();
        let mut offset: usize = 0;
        while offset < len
            invariant
                0 <= offset <= len,
                len == buf@.len(),
                fd >= 0,
            decreases len - offset,
        {
            match sys::sys_write(fd, buf, offset) {
                Ok(n) => {
                    if n == 0 {
                        return Err(Error::ShortWrite);
                    }
                    offset = offset + n;
                },
                Err(e) => {
                    return Err(Error::Sys { errno: e });
                },
            }
        }
        if let Err(e) = sys::sys_seal(fd) {
            return Err(Error::Sys { errno: e });
        }
        if let Err(e) = sys::sys_rewind(fd) {
            return Err(Error::Sys { errno: e });
        }
        Ok(RawFile { handle: fd })
    }

    /// Moves the handle's offset back to the beginning, as required before
    /// each use of a buffer or a re-read regular file.
    pub fn rewind(&self) -> (r: Result<(), Error>)
        requires
            self.wf(),
        ensures
            r is Err ==> r.unwrap_err() is Sys,
    {
        match sys::sys_rewind(self.handle) {
            Ok(()) => Ok(()),
            Err(e) => Err(Error::Sys { errno: e }),
        }
    }

    /// Seeks to the start and reads the handle to its end. What comes back
    /// depends on what the file holds at this moment.
    pub fn read_all(&self) -> (r: Result<Vec<u8>, Error>)
        requires
            self.wf(),
        ensures
            r is Err ==> r.unwrap_err() is Sys,
    {
        if let Err(e) = sys::sys_rewind(self.handle) {
            return Err(Error::Sys { errno: e });
        }
        let mut out: Vec<u8> = Vec::new();
        let mut chunks_left: usize = usize::MAX;
        while chunks_left > 0
            invariant
                self.wf(),
            decreases chunks_left,
        {
            match sys::sys_read_chunk(self.handle) {
                Ok(chunk) => {
                    if chunk.len() == 0 {
                        return Ok(out);
                    }
                    let mut chunk = chunk;
                    out.append(&mut chunk);
                },
                Err(e) => {
                    return Err(Error::Sys { errno: e });
                },
            }
            chunks_left = chunks_left - 1;
        }
        Ok(out)
    }

    /// A fresh anonymous pipe: (read end, write end).
    pub fn pipe() -> (r: Result<(RawFile, RawFile), Error>)
        ensures
            r is Ok ==> r.unwrap().0.wf() && r.unwrap().1.wf(),
            r is Err ==> r.unwrap_err() is Sys,
    {
        match sys::sys_pipe() {
            Ok((a, b)) => Ok((RawFile { handle: a }, RawFile { handle: b })),
            Err(e) => Err(Error::Sys { errno: e }),
        }
    }

    /// A read-only handle to the empty null device.
    pub fn open_null() -> (r: Result<RawFile, Error>)
        ensures
            r is Ok ==> r.unwrap().wf(),
            r is Err ==> r.unwrap_err() is Sys,
    {
        match sys::sys_open_null() {
            Ok(fd) => Ok(RawFile { handle: fd }),
            Err(e) => Err(Error::Sys { errno: e }),
        }
    }

    /// Duplicates the handle such that a child process inherits it across
    /// exec: the duplicate carries no close-on-exec disposition.
    pub fn try_clone_inherit(&self) -> (r: Result<RawFile, Error>)
        requires
            self.wf(),
        ensures
            r is Ok ==> r.unwrap().wf(),
            r is Err ==> r.unwrap_err() is Sys,
    {
        match sys::sys_dup(self.handle) {
            Ok(fd) => Ok(RawFile { handle: fd }),
            Err(e) => Err(Error::Sys { errno: e }),
        }
    }

    /// Releases the handle.
    pub fn close(self) -> (r: Result<(), Error>)
        requires
            self.wf(),
    {
        match sys::sys_close(self.handle) {
            Ok(()) => Ok(()),
            Err(e) => Err(Error::Sys { errno: e }),
        }
    }
}

/// Creates the directory and every missing ancestor of it. Separators split
/// the path into the prefixes that are created in order.
pub fn create_dir_all(path: &str) -> (r: Result<(), Error>)
    ensures
        r is Err ==> r.unwrap_err() is Sys,
{
    let n: usize = path.unicode_len();
    let mut i: usize = 1;
    while i < n
        invariant
            1 <= i,
            n == path@.len(),
        decreases n - i,
    {
        if path.get_char(i) == '/' {
            let prefix = path.substring_char(0, i);
            if let Err(e) = sys::sys_mkdir(prefix) {
                return Err(Error::Sys { errno: e });
            }
        }
        i = i + 1;
    }
    if n > 0 {
        if let Err(e) = sys::sys_mkdir(path) {
            return Err(Error::Sys { errno: e });
        }
    }
    Ok(())
}

/// Creates the parent directory of a file path, with its ancestors.
pub fn create_parent_dir(path: &str) -> (r: Result<(), Error>)
    ensures
        r is Err ==> r.unwrap_err() is Sys,
{
    let n: usize = path.unicode_len();
    let mut last_sep: usize = 0;
    let mut i: usize = 0;
    let mut seen: bool = false;
    while i < n
        invariant
            0 <= i <= n,
            n == path@.len(),
            seen ==> last_sep < n,
        decreases n - i,
    {
        if path.get_char(i) == '/' {
            last_sep = i;
            seen = true;
        }
        i = i + 1;
    }
    if seen && last_sep > 0 {
        let parent = path.substring_char(0, last_sep);
        create_dir_all(parent)
    } else {
        Ok(())
    }
}

/// Writes all of the given bytes to the file at the path, creating it when
/// missing, and releases the handle.
pub fn write_file(path: &str, bytes: &Vec<u8>) -> (r: Result<(), Error>)
    ensures
        r is Err ==> r.unwrap_err() is Sys || r.unwrap_err() is ShortWrite,
{
    let fd = match sys::sys_open_write(path) {
        Ok(fd) => fd,
        Err(e) => {
            return Err(Error::Sys { errno: e });
        },
    };
    let len: usize = bytes.len();
    let mut offset: usize = 0;
    while offset < len
        invariant
            0 <= offset <= len,
            len == bytes@.len(),
            fd >= 0,
        decreases len - offset,
    {
        match sys::sys_write(fd, bytes, offset) {
            Ok(n) => {
                if n == 0 {
                    let _ = sys::sys_close(fd);
                    return Err(Error::ShortWrite);
                }
                offset = offset + n;
            },
            Err(e) => {
                let _ = sys::sys_close(fd);
                return Err(Error::Sys { errno: e });
            },
        }
    }
    match sys::sys_close(fd) {
        Ok(()) => Ok(()),
        Err(e) => Err(Error::Sys { errno: e }),
    }
}

/// A typed handle of the resource table: the raw handle, its kind and mode,
/// and — for an immutable buffer — the bytes it was sealed over.
#[derive(Debug)]
pub struct File {
    raw: RawFile,
    kind: FileKind,
    mode: Mode,
    content: Option<Vec<u8>>,
}

impl File {
    pub closed spec fn wf(self) -> bool {
        &&& self.raw.wf()
        &&& (self.kind is Buf <==> self.content is Some)
        &&& (self.kind is Buf ==> self.mode is Read)
        &&& (self.kind is Null ==> self.mode is Read)
    }

    pub closed spec fn kind_spec(self) -> FileKind {
        self.kind
    }

    pub closed spec fn mode_spec(self) -> Mode {
        self.mode
    }

    /// The bytes this handle is known to hold: the sealed bytes of a buffer,
    /// the empty sequence of the null source, and unknown for regular files
    /// and pipes, whose contents live outside the model.
    pub closed spec fn content_spec(self) -> Option<Seq<u8>> {
        if self.kind is Buf {
            Some(self.content->0@)
        } else if self.kind is Null {
            Some(Seq::<u8>::empty())
        } else {
            None
        }
    }

    /// Readable means mode read or read-write.
    pub open spec fn is_readable(self) -> bool {
        self.mode_spec() is Read || self.mode_spec() is ReadWrite
    }

    /// Writable means mode write or read-write.
    pub open spec fn is_writable(self) -> bool {
        self.mode_spec() is Write || self.mode_spec() is ReadWrite
    }

    /// An immutable buffer holding exactly `buf`, readable and rewound.
    pub fn from_buffer(buf: Vec<u8>) -> (r: Result<File, Error>)
        ensures
            r is Ok ==> r.unwrap().wf() && r.unwrap().kind_spec() is Buf && r.unwrap().mode_spec()
                is Read && r.unwrap().content_spec() == Some(buf@),
            r is Err ==> r.unwrap_err() is Sys || r.unwrap_err() is ShortWrite,
    {
        let raw = RawFile::from_buffer(&buf)?;
        Ok(File { raw, kind: FileKind::Buf, mode: Mode::Read, content: Some(buf) })
    }

    /// The operating-system handle this entry wraps.
    pub closed spec fn handle_spec(self) -> int {
        self.raw.handle_spec()
    }

    /// Surrenders ownership of the numeric handle for inheritance: no
    /// destructor exists, so neither this call nor anything after it closes
    /// the handle, and it stays open for the child.
    pub fn into_raw(self) -> (r: u64)
        requires
            self.wf(),
        ensures
            r as int == self.handle_spec(),
    {
        self.raw.raw()
    }

    /// The numeric handle, without surrendering ownership.
    pub fn as_raw(&self) -> (r: u64)
        requires
            self.wf(),
        ensures
            r as int == self.handle_spec(),
    {
        self.raw.raw()
    }

    /// Accepts exactly the readable modes; a write-only handle cannot serve
    /// reads.
    pub fn check_readable(&self) -> (r: Result<(), Error>)
        ensures
            r is Ok <==> self.is_readable(),
            r is Err ==> r == Err::<(), Error>(Error::NotReadable),
    {
        match self.mode {
            Mode::Read => Ok(()),
            Mode::ReadWrite => Ok(()),
            Mode::Write => Err(Error::NotReadable),
        }
    }

    /// Accepts exactly the writable modes; a read-only handle cannot serve
    /// writes.
    pub fn check_writable(&self) -> (r: Result<(), Error>)
        ensures
            r is Ok <==> self.is_writable(),
            r is Err ==> r == Err::<(), Error>(Error::NotWritable),
    {
        match self.mode {
            Mode::Write => Ok(()),
            Mode::ReadWrite => Ok(()),
            Mode::Read => Err(Error::NotWritable),
        }
    }

    /// Reads the handle from the start to its end. A buffer yields exactly
    /// its sealed bytes and the null source yields nothing; what a regular
    /// file or pipe yields depends on what was written to it. A write-only
    /// handle is refused.
    pub fn read_all(&self) -> (r: Result<Vec<u8>, Error>)
        requires
            self.wf(),
        ensures
            !self.is_readable() ==> r == Err::<Vec<u8>, Error>(Error::NotReadable),
            r is Ok && self.content_spec() is Some ==> r.unwrap()@ == self.content_spec()->0,
            self.is_readable() && self.kind_spec() is Buf ==> r is Ok,
            self.is_readable() && self.kind_spec() is Null ==> r is Ok,
            self.is_readable() && self.content_spec() is Some ==> r is Ok,
            r is Err ==> r.unwrap_err() is Sys || r.unwrap_err() == Error::NotReadable,
            self.is_readable() && r is Err ==> r.unwrap_err() is Sys,
    {
        if let Err(e) = self.check_readable() {
            return Err(e);
        }
        match self.kind {
            FileKind::Buf => {
                match &self.content {
                    Some(c) => Ok(c.clone()),
                    None => {
                        proof {
                            assert(false);
                        }
                        Err(Error::UnknownFileId)
                    },
                }
            },
            FileKind::Null => Ok(Vec::new()),
            FileKind::File => self.raw.read_all(),
            FileKind::Pipe => self.raw.read_all(),
        }
    }

    /// A fresh anonymous pipe: the readable end and the writable end.
    pub fn pipe() -> (r: Result<(File, File), Error>)
        ensures
            r is Err ==> r.unwrap_err() is Sys,
            r is Ok ==> {
                &&& r.unwrap().0.wf() && r.unwrap().1.wf()
                &&& r.unwrap().0.kind_spec() is Pipe && r.unwrap().1.kind_spec() is Pipe
                &&& r.unwrap().0.mode_spec() is Read && r.unwrap().1.mode_spec() is Write
            },
    {
        let (a, b) = RawFile::pipe()?;
        Ok(
            (
                File { raw: a, kind: FileKind::Pipe, mode: Mode::Read, content: None },
                File { raw: b, kind: FileKind::Pipe, mode: Mode::Write, content: None },
            ),
        )
    }

    /// The read-only empty source.
    pub fn open_null() -> (r: Result<File, Error>)
        ensures
            r is Ok ==> r.unwrap().wf() && r.unwrap().kind_spec() is Null && r.unwrap().mode_spec()
                is Read && r.unwrap().content_spec() == Some(Seq::<u8>::empty()),
            r is Err ==> r.unwrap_err() is Sys,
    {
        let raw = RawFile::open_null()?;
        Ok(File { raw, kind: FileKind::Null, mode: Mode::Read, content: None })
    }

    /// Opens a regular file for reading and writing, creating it and its
    /// parent directories as needed.
    pub fn open_read_write(path: &str) -> (r: Result<File, Error>)
        ensures
            r is Ok ==> r.unwrap().wf() && r.unwrap().kind_spec() is File && r.unwrap().mode_spec()
                is ReadWrite,
            r is Err ==> r.unwrap_err() is Sys,
    {
        create_parent_dir(path)?;
        match sys::sys_open_read_write(path) {
            Ok(fd) => Ok(
                File {
                    raw: RawFile::from_fd(fd),
                    kind: FileKind::File,
                    mode: Mode::ReadWrite,
                    content: None,
                },
            ),
            Err(e) => Err(Error::Sys { errno: e }),
        }
    }

    /// Opens an existing regular file for reading.
    pub fn open_read(path: &str) -> (r: Result<File, Error>)
        ensures
            r is Ok ==> r.unwrap().wf() && r.unwrap().kind_spec() is File && r.unwrap().mode_spec()
                is Read,
            r is Err ==> r.unwrap_err() is Sys,
    {
        create_parent_dir(path)?;
        match sys::sys_open_read(path) {
            Ok(fd) => Ok(
                File {
                    raw: RawFile::from_fd(fd),
                    kind: FileKind::File,
                    mode: Mode::Read,
                    content: None,
                },
            ),
            Err(e) => Err(Error::Sys { errno: e }),
        }
    }

    /// Opens a regular file for writing, creating it and its parent
    /// directories as needed.
    pub fn open_write(path: &str) -> (r: Result<File, Error>)
        ensures
            r is Ok ==> r.unwrap().wf() && r.unwrap().kind_spec() is File && r.unwrap().mode_spec()
                is Write,
            r is Err ==> r.unwrap_err() is Sys,
    {
        create_parent_dir(path)?;
        match sys::sys_open_write(path) {
            Ok(fd) => Ok(
                File {
                    raw: RawFile::from_fd(fd),
                    kind: FileKind::File,
                    mode: Mode::Write,
                    content: None,
                },
            ),
            Err(e) => Err(Error::Sys { errno: e }),
        }
    }

    /// Duplicates the handle for inheritance by a child process; kind, mode
    /// and known contents carry over to the clone.
    pub fn try_clone_inherit(&self) -> (r: Result<File, Error>)
        requires
            self.wf(),
        ensures
            r is Ok ==> r.unwrap().wf() && r.unwrap().kind_spec() == self.kind_spec()
                && r.unwrap().mode_spec() == self.mode_spec() && r.unwrap().content_spec()
                == self.content_spec(),
            r is Err ==> r.unwrap_err() is Sys,
    {
        let raw = self.raw.try_clone_inherit()?;
        let content = match &self.content {
            Some(c) => Some(c.clone()),
            None => None,
        };
        Ok(File { raw, kind: self.kind, mode: self.mode, content })
    }

    /// Moves the handle's offset back to the beginning, as required before
    /// each use of a buffer or a re-read regular file; a pipe end has no
    /// offset and is left alone.
    pub fn rewind(&self) -> (r: Result<(), Error>)
        requires
            self.wf(),
        ensures
            r is Err ==> r.unwrap_err() is Sys,
            self.kind_spec() is Pipe ==> r is Ok,
    {
        match self.kind {
            FileKind::Pipe => Ok(()),
            FileKind::File => self.raw.rewind(),
            FileKind::Buf => self.raw.rewind(),
            FileKind::Null => self.raw.rewind(),
        }
    }
}

} // verus!
