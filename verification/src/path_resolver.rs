//! Resolves prefixed paths: `host:` means the filesystem root, `volume:<n>`
//! the root of a named volume, and a still-symbolic extension prefix is
//! refused — the shim must have rewritten it.
use vstd::prelude::*;

use crate::api::{PathPrefix, PrefixedPath};
use crate::error::Error;

verus! {

/// The root joined with a relative path, with exactly one separator between
/// them.
pub open spec fn spec_path_join(root: Seq<char>, rel: Seq<char>) -> Seq<char> {
    if root.len() > 0 && root[root.len() - 1] == '/' {
        root + rel
    } else {
        root + seq!['/'] + rel
    }
}

/// Joins a root and a relative path with exactly one separator.
pub fn path_join(root: &str, rel: &str) -> (r: String)
    ensures
        r@ == spec_path_join(root@, rel@),
{
    let n: usize = root.unicode_len();
    let mut s = root.to_owned();
    if n == 0 || root.get_char(n - 1) != '/' {
        s.append("/");
        proof {
            reveal_strlit("/");
            assert(s@ =~= root@ + seq!['/']);
        }
    }
    s.append(rel);
    proof {
        if n > 0 && root@[n - 1] == '/' {
            assert(s@ =~= root@ + rel@);
        } else {
            assert(s@ =~= root@ + seq!['/'] + rel@);
        }
    }
    s
}

/// Maps volume names to the absolute roots the engine created for them.
pub struct PathResolver {
    vol_names: Vec<String>,
    vol_roots: Vec<String>,
}

impl PathResolver {
    /// Number of registered volumes.
    pub closed spec fn len_spec(self) -> nat {
        self.vol_names@.len()
    }

    /// The name registered at position `i`.
    pub closed spec fn name_at(self, i: int) -> Seq<char> {
        self.vol_names@[i]@
    }

    /// The root registered at position `i`.
    pub closed spec fn root_at(self, i: int) -> Seq<char> {
        self.vol_roots@[i]@
    }

    /// Names and roots pair up and every name is registered at most once.
    pub open spec fn wf(self) -> bool {
        &&& self.paired()
        &&& forall|a: int, b: int|
            0 <= a < b < self.len_spec() ==> self.name_at(a) != self.name_at(b)
    }

    pub closed spec fn paired(self) -> bool {
        self.vol_names@.len() == self.vol_roots@.len()
    }

    /// Whether this volume name is registered.
    pub open spec fn has_volume(self, name: Seq<char>) -> bool {
        exists|i: int| 0 <= i < self.len_spec() && self.name_at(i) == name
    }

    /// The root registered for this volume name.
    pub open spec fn root_of(self, name: Seq<char>) -> Seq<char> {
        self.root_at(choose|i: int| 0 <= i < self.len_spec() && self.name_at(i) == name)
    }

    /// What resolving a prefix yields: the host root, a volume's root, an
    /// unknown-volume error, or a refusal of a symbolic prefix.
    pub open spec fn spec_resolve_prefix(self, p: PathPrefix) -> Result<Seq<char>, Error> {
        match p {
            PathPrefix::Host => Ok(seq!['/']),
            PathPrefix::Volume(n) => if self.has_volume(n@) {
                Ok(self.root_of(n@))
            } else {
                Err(Error::UnknownVolume)
            },
            PathPrefix::Extension(_) => Err(Error::ExtensionUnresolved),
        }
    }

    /// What resolving a prefixed path yields: its root joined with the
    /// relative part, which must be relative.
    pub open spec fn spec_resolve(self, src: PrefixedPath) -> Result<Seq<char>, Error> {
        if src.path@.len() > 0 && src.path@[0] == '/' {
            Err(Error::AbsolutePath)
        } else {
            match self.spec_resolve_prefix(src.prefix) {
                Ok(root) => Ok(spec_path_join(root, src.path@)),
                Err(e) => Err(e),
            }
        }
    }

    pub fn new() -> (r: PathResolver)
        ensures
            r.wf(),
            r.len_spec() == 0,
            forall|name: Seq<char>| !r.has_volume(name),
    {
        PathResolver { vol_names: Vec::new(), vol_roots: Vec::new() }
    }

    /// Registers the root of a freshly created volume; a name may only be
    /// registered once.
    pub fn add_volume(&mut self, name: &str, root: &str)
        requires
            old(self).wf(),
            !old(self).has_volume(name@),
        ensures
            final(self).wf(),
            final(self).has_volume(name@),
            final(self).root_of(name@) == root@,
            forall|x: Seq<char>|
                #[trigger] final(self).has_volume(x) <==> old(self).has_volume(x) || x == name@,
            forall|x: Seq<char>|
                old(self).has_volume(x) && x != name@ ==> final(self).root_of(x) == old(
                    self,
                ).root_of(x),
    {
        let ghost pre = *self;
        let n: usize = self.vol_names.len();
        self.vol_names.push(name.to_owned());
        self.vol_roots.push(root.to_owned());
        proof {
            let ni = n as int;
            assert(self.name_at(ni) == name@);
            assert(self.root_at(ni) == root@);
            assert(forall|j: int| 0 <= j < ni ==> self.name_at(j) == pre.name_at(j));
            assert(forall|j: int| 0 <= j < ni ==> self.root_at(j) == pre.root_at(j));
            assert forall|a: int, b: int|
                0 <= a < b < self.len_spec() implies self.name_at(a) != self.name_at(b) by {
                if b < ni {
                    assert(pre.name_at(a) != pre.name_at(b));
                } else {
                    if self.name_at(a) == name@ {
                        assert(pre.name_at(a) == name@);
                        assert(pre.has_volume(name@));
                        assert(false);
                    }
                }
            }
            assert forall|x: Seq<char>|
                #[trigger] self.has_volume(x) <==> pre.has_volume(x) || x == name@ by {
                if self.has_volume(x) {
                    let i = choose|i: int| 0 <= i < self.len_spec() && self.name_at(i) == x;
                    if i < ni {
                        assert(pre.name_at(i) == x);
                        assert(pre.has_volume(x));
                    }
                } else {
                    if pre.has_volume(x) {
                        let i = choose|i: int| 0 <= i < pre.len_spec() && pre.name_at(i) == x;
                        assert(self.name_at(i) == x);
                        assert(false);
                    }
                    assert(x != name@);
                }
            }
            let i0 = choose|i: int| 0 <= i < self.len_spec() && self.name_at(i) == name@;
            if i0 < ni {
                assert(pre.name_at(i0) == name@);
                assert(pre.has_volume(name@));
                assert(false);
            }
            assert(self.root_of(name@) == root@);
            assert forall|x: Seq<char>|
                pre.has_volume(x) && x != name@ implies self.root_of(x) == pre.root_of(x) by {
                let j = choose|j: int| 0 <= j < pre.len_spec() && pre.name_at(j) == x;
                assert(self.name_at(j) == x);
                let i = choose|i: int| 0 <= i < self.len_spec() && self.name_at(i) == x;
                if i == ni {
                    assert(false);
                }
                assert(pre.name_at(i) == x);
                let jp = choose|jp: int| 0 <= jp < pre.len_spec() && pre.name_at(jp) == x;
                if i != jp {
                    assert(false);
                }
            }
        }
    }

    fn find_volume(&self, name: &String) -> (r: Option<usize>)
        requires
            self.wf(),
        ensures
            match r {
                Some(k) => 0 <= k < self.len_spec() && self.name_at(k as int) == name@,
                None => !self.has_volume(name@),
            },
    {
        let n: usize = self.vol_names.len();
        let mut k: usize = 0;
        while k < n
            invariant
                0 <= k <= n,
                n == self.len_spec(),
                self.wf(),
                forall|t: int| 0 <= t < k ==> self.name_at(t) != name@,
            decreases n - k,
        {
            if self.vol_names[k] == *name {
                return Some(k);
            }
            k = k + 1;
        }
        None
    }

    /// Whether this volume name is registered.
    pub fn knows_volume(&self, name: &String) -> (r: bool)
        requires
            self.wf(),
        ensures
            r == self.has_volume(name@),
    {
        self.find_volume(name).is_some()
    }

    /// Resolves the symbolic root of a prefixed path to an absolute root.
    pub fn resolve_prefix(&self, prefix: &PathPrefix) -> (r: Result<String, Error>)
        requires
            self.wf(),
        ensures
            match r {
                Ok(s) => self.spec_resolve_prefix(*prefix) == Ok::<Seq<char>, Error>(s@),
                Err(e) => self.spec_resolve_prefix(*prefix) == Err::<Seq<char>, Error>(e),
            },
    {
        match prefix {
            PathPrefix::Host => {
                let s = "/".to_owned();
                proof {
                    reveal_strlit("/");
                    assert(s@ =~= seq!['/']);
                }
                Ok(s)
            },
            PathPrefix::Volume(name) => {
                match self.find_volume(name) {
                    Some(k) => {
                        proof {
                            let i = choose|i: int|
                                0 <= i < self.len_spec() && self.name_at(i) == name@;
                            if i != k as int {
                                assert(false);
                            }
                        }
                        Ok(self.vol_roots[k].clone())
                    },
                    None => Err(Error::UnknownVolume),
                }
            },
            PathPrefix::Extension(_) => Err(Error::ExtensionUnresolved),
        }
    }

    /// Resolves a prefixed path: its relative part must be relative, and its
    /// prefix must name a known root.
    pub fn resolve(&self, src: &PrefixedPath) -> (r: Result<String, Error>)
        requires
            self.wf(),
        ensures
            match r {
                Ok(s) => self.spec_resolve(*src) == Ok::<Seq<char>, Error>(s@),
                Err(e) => self.spec_resolve(*src) == Err::<Seq<char>, Error>(e),
            },
    {
        let n: usize = src.path.unicode_len();
        if n > 0 && src.path.get_char(0) == '/' {
            return Err(Error::AbsolutePath);
        }
        let root = self.resolve_prefix(&src.prefix)?;
        Ok(path_join(root.as_str(), src.path.as_str()))
    }
}

} // verus!
