//! Named scratch volumes: a directory under the request work directory,
//! optionally covered by a size-limited tmpfs that teardown unmounts.
use vstd::prelude::*;

use crate::api::VolumeSettings;
use crate::error::Error;
use crate::file::create_dir_all;
use crate::sys;

verus! {

/// Owns one volume: its directory and, when a quota was set, the tmpfs
/// mounted over it.
#[derive(Debug)]
pub struct Volume {
    path: String,
    has_tmpfs: bool,
}

impl Volume {
    /// The directory this volume owns.
    pub closed spec fn path_spec(self) -> Seq<char> {
        self.path@
    }

    /// Whether a quota tmpfs is mounted over the directory, which teardown
    /// must unmount before the request work directory is removed.
    pub closed spec fn has_tmpfs_spec(self) -> bool {
        self.has_tmpfs
    }

    /// Creates the volume directory and, when the settings carry a byte
    /// quota, mounts a size-limited tmpfs over it.
    pub fn create(settings: &VolumeSettings, path: &str) -> (r: Result<Volume, Error>)
        ensures
            r is Ok ==> r.unwrap().path_spec() == path@ && (r.unwrap().has_tmpfs_spec()
                <==> settings.limit is Some),
            r is Err ==> r.unwrap_err() is Sys,
    {
        create_dir_all(path)?;
        let has_tmpfs = match settings.limit {
            Some(quota) => {
                if let Err(e) = sys::sys_mount_tmpfs(path, quota) {
                    return Err(Error::Sys { errno: e });
                }
                true
            },
            None => false,
        };
        Ok(Volume { path: path.to_owned(), has_tmpfs })
    }

    /// Releases the volume: unmounts its tmpfs when one was mounted. A
    /// failure to unmount is reported, not fatal — the process may be
    /// exiting.
    pub fn teardown(self) -> (r: Result<(), Error>) {
        if self.has_tmpfs {
            match sys::sys_umount_detach(self.path.as_str()) {
                Ok(()) => Ok(()),
                Err(e) => Err(Error::Sys { errno: e }),
            }
        } else {
            Ok(())
        }
    }

    /// The directory of this volume.
    pub fn path(&self) -> (r: &String)
        ensures
            r@ == self.path_spec(),
    {
        &self.path
    }
}

} // verus!
