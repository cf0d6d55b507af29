//! The per-request resource table: a mapping from file ids to typed handles
//! with insert-once semantics — binding an id twice is a request error.
use vstd::prelude::*;

use crate::api::FileId;
use crate::error::Error;
use crate::file::File;

verus! {

/// Registry of every file-like resource of one request.
pub struct FileRegistry {
    names: Vec<FileId>,
    files: Vec<File>,
}

impl FileRegistry {
    /// Number of bound ids.
    pub closed spec fn len_spec(self) -> nat {
        self.names@.len()
    }

    /// The id bound at position `i`, by characters.
    pub closed spec fn id_at(self, i: int) -> Seq<char> {
        self.names@[i]@
    }

    /// The handle bound at position `i`.
    pub closed spec fn file_at(self, i: int) -> File {
        self.files@[i]
    }

    /// The ids and the handles pair up.
    pub closed spec fn paired(self) -> bool {
        self.names@.len() == self.files@.len()
    }

    /// Well-formed: ids and handles pair up, every id is bound at most once,
    /// and every handle is well-formed.
    pub open spec fn wf(self) -> bool {
        &&& self.paired()
        &&& forall|a: int, b: int|
            0 <= a < b < self.len_spec() ==> self.id_at(a) != self.id_at(b)
        &&& forall|i: int| 0 <= i < self.len_spec() ==> (#[trigger] self.file_at(i)).wf()
    }

    /// Whether some position binds this id.
    pub open spec fn contains_id(self, id: Seq<char>) -> bool {
        exists|i: int| 0 <= i < self.len_spec() && self.id_at(i) == id
    }

    /// The position binding this id.
    pub open spec fn index_of(self, id: Seq<char>) -> int {
        choose|i: int| 0 <= i < self.len_spec() && self.id_at(i) == id
    }

    /// The handle bound to this id.
    pub open spec fn file_of(self, id: Seq<char>) -> File {
        self.file_at(self.index_of(id))
    }

    pub fn new() -> (r: FileRegistry)
        ensures
            r.wf(),
            r.len_spec() == 0,
            forall|id: Seq<char>| !r.contains_id(id),
    {
        FileRegistry { names: Vec::new(), files: Vec::new() }
    }

    /// The number of bound ids.
    pub fn len(&self) -> (r: usize)
        ensures
            r == self.len_spec(),
    {
        self.names.len()
    }

    fn find(&self, id: &FileId) -> (r: Option<usize>)
        requires
            self.wf(),
        ensures
            match r {
                Some(k) => 0 <= k < self.len_spec() && self.id_at(k as int) == id@,
                None => !self.contains_id(id@),
            },
    {
        let n: usize = self.names.len();
        let mut k: usize = 0;
        while k < n
            invariant
                0 <= k <= n,
                n == self.len_spec(),
                self.wf(),
                forall|t: int| 0 <= t < k ==> self.id_at(t) != id@,
            decreases n - k,
        {
            if self.names[k].eq_id(id) {
                return Some(k);
            }
            k = k + 1;
        }
        None
    }

    /// Whether this id is bound.
    pub fn contains(&self, id: &FileId) -> (r: bool)
        requires
            self.wf(),
        ensures
            r == self.contains_id(id@),
    {
        self.find(id).is_some()
    }

    /// Binds an id to a handle; refuses an id that is already bound, leaving
    /// the registry unchanged.
    pub fn insert(&mut self, id: FileId, f: File) -> (r: Result<(), Error>)
        requires
            old(self).wf(),
            f.wf(),
        ensures
            final(self).wf(),
            r is Err <==> old(self).contains_id(id@),
            r is Err ==> r == Err::<(), Error>(Error::DuplicateFileId) && *final(self) == *old(self),
            r is Ok ==> {
                &&& final(self).len_spec() == old(self).len_spec() + 1
                &&& final(self).contains_id(id@)
                &&& final(self).file_of(id@) == f
                &&& forall|x: Seq<char>|
                    #[trigger] final(self).contains_id(x) <==> old(self).contains_id(x) || x
                        == id@
                &&& forall|x: Seq<char>|
                    old(self).contains_id(x) && x != id@ ==> final(self).file_of(x) == old(
                        self,
                    ).file_of(x)
            },
    {
        if self.find(&id).is_some() {
            return Err(Error::DuplicateFileId);
        }
        let ghost pre = *self;
        let ghost gid = id@;
        let ghost gf = f;
        self.names.push(id);
        self.files.push(f);
        proof {
            let n = pre.len_spec() as int;
            assert(self.id_at(n) == gid);
            assert(self.file_at(n) == gf);
            assert(forall|j: int| 0 <= j < n ==> self.id_at(j) == pre.id_at(j));
            assert(forall|j: int| 0 <= j < n ==> self.file_at(j) == pre.file_at(j));
            assert(!pre.contains_id(gid));
            assert forall|i: int|
                0 <= i < self.len_spec() implies (#[trigger] self.file_at(i)).wf() by {
                if i < n {
                    assert(self.file_at(i) == pre.file_at(i));
                    assert(pre.file_at(i).wf());
                } else {
                    assert(self.file_at(i) == gf);
                }
            }
            assert forall|a: int, b: int|
                0 <= a < b < self.len_spec() implies self.id_at(a) != self.id_at(b) by {
                if b < n {
                    assert(self.id_at(a) == pre.id_at(a) && self.id_at(b) == pre.id_at(b));
                    assert(pre.id_at(a) != pre.id_at(b));
                } else {
                    assert(self.id_at(b) == gid);
                    if self.id_at(a) == gid {
                        assert(pre.id_at(a) == gid);
                        assert(pre.contains_id(gid));
                        assert(false);
                    }
                }
            }
            assert forall|x: Seq<char>|
                #[trigger] self.contains_id(x) <==> pre.contains_id(x) || x == gid by {
                if self.contains_id(x) {
                    let i = choose|i: int| 0 <= i < self.len_spec() && self.id_at(i) == x;
                    if i < n {
                        assert(pre.id_at(i) == x);
                        assert(pre.contains_id(x));
                    }
                } else {
                    if pre.contains_id(x) {
                        let i = choose|i: int| 0 <= i < pre.len_spec() && pre.id_at(i) == x;
                        assert(self.id_at(i) == x);
                        assert(false);
                    }
                    assert(x != gid);
                }
            }
            assert(self.contains_id(gid));
            let i0 = self.index_of(gid);
            assert(0 <= i0 < self.len_spec() && self.id_at(i0) == gid);
            if i0 < n {
                assert(pre.id_at(i0) == gid);
                assert(pre.contains_id(gid));
                assert(false);
            }
            assert(self.file_of(gid) == gf);
            assert forall|x: Seq<char>|
                pre.contains_id(x) && x != gid implies self.file_of(x) == pre.file_of(x) by {
                let j = choose|j: int| 0 <= j < pre.len_spec() && pre.id_at(j) == x;
                assert(self.id_at(j) == x);
                assert(self.contains_id(x));
                let i = self.index_of(x);
                assert(0 <= i < self.len_spec() && self.id_at(i) == x);
                if i == n {
                    assert(false);
                }
                let jp = pre.index_of(x);
                assert(0 <= jp < pre.len_spec() && pre.id_at(jp) == x);
                assert(self.id_at(jp) == x);
                if i != jp {
                    assert(false);
                }
                assert(self.file_at(i) == pre.file_at(jp));
            }
        }
        Ok(())
    }

    /// The handle bound to an id, or `UnknownFileId`.
    pub fn get(&self, id: &FileId) -> (r: Result<&File, Error>)
        requires
            self.wf(),
        ensures
            r is Ok <==> self.contains_id(id@),
            r is Ok ==> *r.unwrap() == self.file_of(id@) && r.unwrap().wf(),
            r is Err ==> r == Err::<&File, Error>(Error::UnknownFileId),
    {
        match self.find(id) {
            Some(k) => {
                proof {
                    let i = self.index_of(id@);
                    if i != k as int {
                        assert(self.id_at(i) == self.id_at(k as int));
                        assert(false);
                    }
                }
                Ok(&self.files[k])
            },
            None => Err(Error::UnknownFileId),
        }
    }

    /// Unbinds an id, handing its handle back; refuses an unknown id.
    pub fn remove(&mut self, id: &FileId) -> (r: Result<File, Error>)
        requires
            old(self).wf(),
        ensures
            final(self).wf(),
            r is Ok <==> old(self).contains_id(id@),
            r is Err ==> r == Err::<File, Error>(Error::UnknownFileId) && *final(self) == *old(self),
            r is Ok ==> {
                &&& final(self).len_spec() == old(self).len_spec() - 1
                &&& !final(self).contains_id(id@)
                &&& forall|x: Seq<char>|
                    #[trigger] final(self).contains_id(x) <==> old(self).contains_id(x) && x
                        != id@
                &&& forall|x: Seq<char>|
                    old(self).contains_id(x) && x != id@ ==> final(self).file_of(x) == old(
                        self,
                    ).file_of(x)
            },
    {
        match self.find(id) {
            Some(k) => {
                let ghost pre = *self;
                self.names.remove(k);
                let f = self.files.remove(k);
                proof {
                    let n = self.len_spec() as int;
                    assert forall|a: int, b: int|
                        0 <= a < b < self.len_spec() implies self.id_at(a) != self.id_at(b) by {
                        let pa: int = if a < k { a } else { a + 1 };
                        let pb: int = if b < k { b } else { b + 1 };
                        assert(self.id_at(a) == pre.id_at(pa));
                        assert(self.id_at(b) == pre.id_at(pb));
                    }
                    assert forall|i: int|
                        0 <= i < self.len_spec() implies (#[trigger] self.file_at(i)).wf() by {
                        let p: int = if i < k { i } else { i + 1 };
                        assert(self.file_at(i) == pre.file_at(p));
                    }
                    if self.contains_id(id@) {
                        let i = choose|i: int| 0 <= i < self.len_spec() && self.id_at(i) == id@;
                        let p: int = if i < k { i } else { i + 1 };
                        assert(pre.id_at(p) == id@ && pre.id_at(k as int) == id@);
                        assert(p != k);
                        assert(false);
                    }
                    assert forall|x: Seq<char>|
                        #[trigger] self.contains_id(x) <==> pre.contains_id(x) && x != id@ by {
                        if self.contains_id(x) {
                            let i = choose|i: int|
                                0 <= i < self.len_spec() && self.id_at(i) == x;
                            let p: int = if i < k { i } else { i + 1 };
                            assert(pre.id_at(p) == x);
                        }
                        if pre.contains_id(x) && x != id@ {
                            let p = choose|p: int|
                                0 <= p < pre.len_spec() && pre.id_at(p) == x;
                            assert(p != k);
                            let i: int = if p < k { p } else { p - 1 };
                            assert(self.id_at(i) == x);
                        }
                    }
                    assert forall|x: Seq<char>|
                        pre.contains_id(x) && x != id@ implies self.file_of(x) == pre.file_of(
                        x,
                    ) by {
                        let p = choose|p: int| 0 <= p < pre.len_spec() && pre.id_at(p) == x;
                        assert(p != k);
                        let i0: int = if p < k { p } else { p - 1 };
                        assert(self.id_at(i0) == x && self.file_at(i0) == pre.file_at(p));
                        let i = self.index_of(x);
                        assert(0 <= i < self.len_spec() && self.id_at(i) == x);
                        if i != i0 {
                            assert(false);
                        }
                        let pj = pre.index_of(x);
                        assert(0 <= pj < pre.len_spec() && pre.id_at(pj) == x);
                        if pj != p {
                            assert(false);
                        }
                    }
                }
                Ok(f)
            },
            None => Err(Error::UnknownFileId),
        }
    }
}

/// File id uniqueness: a well-formed registry binds every id at most once,
/// so the ids introduced by all creation and open actions of a request have
/// no duplicates once they all stand in the registry.
pub proof fn lemma_file_id_unique(r: FileRegistry, a: int, b: int)
    requires
        r.wf(),
        0 <= a < r.len_spec(),
        0 <= b < r.len_spec(),
        a != b,
    ensures
        r.id_at(a) != r.id_at(b),
{
}

} // verus!
