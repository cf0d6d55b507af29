//! Toolchain image bookkeeping: the environment an image defines, and the
//! cache of already pulled images. The pulling itself is outside work.
use vstd::prelude::*;

use crate::error::Error;
use crate::sys;

verus! {

/// The value of the last pair with this key, if any.
pub open spec fn spec_env_of(pairs: Seq<(String, String)>, key: Seq<char>) -> Option<Seq<char>>
    decreases pairs.len(),
{
    if pairs.len() == 0 {
        None
    } else if pairs.last().0@ == key {
        Some(pairs.last().1@)
    } else {
        spec_env_of(pairs.drop_last(), key)
    }
}

/// Data extracted from an image manifest: the environment its runtime
/// configuration defines, as name and value pairs.
#[derive(Clone, Debug)]
pub struct ImageConfig {
    pub environment: Vec<(String, String)>,
}

impl ImageConfig {
    /// Splits one `key=value` environment string at its first separator;
    /// a string without one yields nothing.
    pub fn parse_env_item(item: &str) -> (r: Option<(String, String)>)
        ensures
            match r {
                Some(kv) => {
                    let i = spec_first_eq(item@);
                    &&& 0 <= i < item@.len()
                    &&& kv.0@ == item@.take(i)
                    &&& kv.1@ == item@.skip(i + 1)
                },
                None => forall|t: int| 0 <= t < item@.len() ==> item@[t] != '=',
            },
    {
        let n: usize = item.unicode_len();
        let mut i: usize = 0;
        while i < n
            invariant
                0 <= i <= n,
                n == item@.len(),
                forall|t: int| 0 <= t < i ==> item@[t] != '=',
            decreases n - i,
        {
            if item.get_char(i) == '=' {
                proof {
                    lemma_first_eq(item@, i as int);
                }
                let key = item.substring_char(0, i).to_owned();
                let value = item.substring_char(i + 1, n).to_owned();
                proof {
                    assert(key@ =~= item@.take(i as int));
                    assert(value@ =~= item@.skip(i + 1));
                }
                return Some((key, value));
            }
            i = i + 1;
        }
        None
    }

    /// Builds the image configuration from the environment strings of a
    /// manifest's runtime configuration; a string without a separator is
    /// refused.
    pub fn from_run_config(env: &Vec<String>) -> (r: Result<ImageConfig, Error>)
        ensures
            r matches Ok(cfg) ==> {
                &&& cfg.environment@.len() == env@.len()
                &&& forall|k: int|
                    0 <= k < env@.len() ==> env_item_parsed(
                        #[trigger] cfg.environment@[k],
                        env@[k]@,
                    )
            },
            r is Err ==> r == Err::<ImageConfig, Error>(Error::MalformedEnvEntry),
    {
        let n: usize = env.len();
        let mut environment: Vec<(String, String)> = Vec::new();
        let mut k: usize = 0;
        while k < n
            invariant
                0 <= k <= n,
                n == env@.len(),
                environment@.len() == k,
                forall|t: int|
                    0 <= t < k ==> env_item_parsed(#[trigger] environment@[t], env@[t]@),
            decreases n - k,
        {
            match ImageConfig::parse_env_item(env[k].as_str()) {
                Some(kv) => {
                    let ghost pre = environment@;
                    let ghost gkv = kv;
                    environment.push(kv);
                    proof {
                        assert forall|t: int|
                            0 <= t < k + 1 implies env_item_parsed(
                            #[trigger] environment@[t],
                            env@[t]@,
                        ) by {
                            if t < k {
                                assert(environment@[t] == pre[t]);
                            } else {
                                assert(environment@[t] == gkv);
                                assert(env_item_parsed(gkv, env@[k as int]@));
                            }
                        }
                    }
                },
                None => {
                    return Err(Error::MalformedEnvEntry);
                },
            }
            k = k + 1;
        }
        Ok(ImageConfig { environment })
    }
}

/// One parsed pair against its source text: split at the first separator.
pub open spec fn env_item_parsed(kv: (String, String), item: Seq<char>) -> bool {
    let i = spec_first_eq(item);
    &&& 0 <= i < item.len()
    &&& kv.0@ == item.take(i)
    &&& kv.1@ == item.skip(i + 1)
}

/// The index of the first separator.
pub open spec fn spec_first_eq(s: Seq<char>) -> int {
    choose|i: int| 0 <= i < s.len() && s[i] == '=' && forall|t: int| 0 <= t < i ==> s[t] != '='
}

/// A first separator is uniquely determined.
proof fn lemma_first_eq(s: Seq<char>, i: int)
    requires
        0 <= i < s.len(),
        s[i] == '=',
        forall|t: int| 0 <= t < i ==> s[t] != '=',
    ensures
        spec_first_eq(s) == i,
{
    assert(0 <= i < s.len() && s[i] == '=' && (forall|t: int| 0 <= t < i ==> s[t] != '='));
    let j = spec_first_eq(s);
    assert(0 <= j < s.len() && s[j] == '=' && (forall|t: int| 0 <= t < j ==> s[t] != '='));
    if j < i {
        assert(s[j] != '=');
    }
    if i < j {
        assert(s[i] != '=');
    }
}

/// Whether some pair of the list carries this key.
pub open spec fn has_key(pairs: Seq<(String, String)>, key: Seq<char>) -> bool {
    exists|t: int| 0 <= t < pairs.len() && (#[trigger] pairs[t]).0@ == key
}

/// One pulled toolchain: the directory name it was unpacked under and the
/// configuration read from its manifest.
#[derive(Clone, Debug)]
pub struct PulledToolchain {
    /// The last portion of the unpack path.
    pub path: String,
    pub image_config: ImageConfig,
}

impl PulledToolchain {
    /// The environment variables the image defines, one pair per name: a
    /// later pair of the same name overrides an earlier one, and first
    /// appearance sets the order.
    pub fn get_env(&self) -> (r: Vec<(String, String)>)
        ensures
            forall|a: int, b: int| 0 <= a < b < r@.len() ==> r@[a].0@ != r@[b].0@,
            forall|k: int|
                0 <= k < r@.len() ==> spec_env_of(self.image_config.environment@, #[trigger] r@[k].0@)
                    == Some(r@[k].1@),
            forall|j: int|
                0 <= j < self.image_config.environment@.len() ==> has_key(
                    r@,
                    (#[trigger] self.image_config.environment@[j]).0@,
                ),
    {
        let n: usize = self.image_config.environment.len();
        let mut out: Vec<(String, String)> = Vec::new();
        let mut k: usize = 0;
        while k < n
            invariant
                0 <= k <= n,
                n == self.image_config.environment@.len(),
                forall|a: int, b: int| 0 <= a < b < out@.len() ==> out@[a].0@ != out@[b].0@,
                forall|t: int|
                    0 <= t < out@.len() ==> spec_env_of(
                        self.image_config.environment@.take(k as int),
                        #[trigger] out@[t].0@,
                    ) == Some(out@[t].1@),
                forall|j: int|
                    0 <= j < k ==> has_key(
                        out@,
                        (#[trigger] self.image_config.environment@[j]).0@,
                    ),
            decreases n - k,
        {
            let ghost pre = out@;
            let ghost env = self.image_config.environment@;
            let pair = &self.image_config.environment[k];
            let m: usize = out.len();
            let mut t: usize = 0;
            let mut idx: usize = m;
            while t < m
                invariant
                    0 <= t <= m,
                    m == out@.len(),
                    idx <= m,
                    idx == m ==> forall|x: int| 0 <= x < t ==> out@[x].0@ != pair.0@,
                    idx < m ==> out@[idx as int].0@ == pair.0@,
                decreases m - t,
            {
                if crate::text::str_eq(out[t].0.as_str(), pair.0.as_str()) {
                    idx = t;
                }
                t = t + 1;
            }
            let ghost updated = idx < m;
            proof {
                assert(out@ == pre);
            }
            if idx < m {
                out[idx] = (pair.0.clone(), pair.1.clone());
            } else {
                out.push((pair.0.clone(), pair.1.clone()));
            }
            proof {
                let key_k = env[k as int].0@;
                let val_k = env[k as int].1@;
                assert(env.take(k + 1).drop_last() =~= env.take(k as int));
                assert(env.take(k + 1).last() == env[k as int]);
                if updated {
                    assert(out@.len() == pre.len());
                    assert(out@[idx as int].0@ == key_k && out@[idx as int].1@ == val_k);
                    assert(forall|x: int| 0 <= x < out@.len() && x != idx ==> out@[x] == pre[x]);
                } else {
                    assert(out@.len() == pre.len() + 1);
                    assert(out@[out@.len() - 1].0@ == key_k && out@[out@.len() - 1].1@ == val_k);
                    assert(forall|x: int| 0 <= x < pre.len() ==> out@[x] == pre[x]);
                    assert(forall|x: int| 0 <= x < pre.len() ==> pre[x].0@ != key_k);
                }
                assert forall|a: int, b: int|
                    0 <= a < b < out@.len() implies out@[a].0@ != out@[b].0@ by {
                    if updated {
                        if a != idx && b != idx {
                            assert(out@[a] == pre[a] && out@[b] == pre[b]);
                        } else if a == idx {
                            assert(out@[b] == pre[b]);
                            if pre[b].0@ == key_k {
                                assert(pre[idx as int].0@ == key_k);
                                assert(false);
                            }
                        } else {
                            assert(out@[a] == pre[a]);
                            if pre[a].0@ == key_k {
                                assert(pre[idx as int].0@ == key_k);
                                assert(false);
                            }
                        }
                    } else {
                        if b == out@.len() - 1 {
                            assert(out@[a] == pre[a]);
                            assert(pre[a].0@ != key_k);
                        } else {
                            assert(out@[a] == pre[a] && out@[b] == pre[b]);
                        }
                    }
                }
                assert forall|j: int|
                    0 <= j < k + 1 implies has_key(out@, (#[trigger] env[j]).0@) by {
                    if j < k {
                        assert(has_key(pre, env[j].0@));
                        let t0 = choose|t: int|
                            0 <= t < pre.len() && (#[trigger] pre[t]).0@ == env[j].0@;
                        if updated {
                            if t0 == idx {
                                assert(out@[idx as int].0@ == pre[idx as int].0@);
                            } else {
                                assert(out@[t0] == pre[t0]);
                            }
                        } else {
                            assert(out@[t0] == pre[t0]);
                        }
                        assert(out@[t0].0@ == env[j].0@);
                    } else {
                        if updated {
                            assert(out@[idx as int].0@ == key_k);
                        } else {
                            assert(out@[out@.len() - 1].0@ == key_k);
                        }
                    }
                }
                assert forall|t2: int| 0 <= t2 < out@.len() implies spec_env_of(
                    env.take(k + 1),
                    #[trigger] out@[t2].0@,
                ) == Some(out@[t2].1@) by {
                    if out@[t2].0@ == key_k {
                        if updated {
                            if t2 != idx {
                                assert(out@[t2] == pre[t2]);
                                assert(pre[t2].0@ == key_k && pre[idx as int].0@ == key_k);
                                assert(false);
                            }
                        } else {
                            if t2 < pre.len() {
                                assert(out@[t2] == pre[t2]);
                                assert(pre[t2].0@ != key_k);
                                assert(false);
                            }
                        }
                        assert(out@[t2].1@ == val_k);
                        assert(spec_env_of(env.take(k + 1), key_k) == Some(val_k));
                    } else {
                        assert(spec_env_of(env.take(k + 1), out@[t2].0@) == spec_env_of(
                            env.take(k as int),
                            out@[t2].0@,
                        ));
                        if updated {
                            if t2 == idx {
                                assert(false);
                            }
                            assert(out@[t2] == pre[t2]);
                        } else {
                            if t2 == out@.len() - 1 {
                                assert(false);
                            }
                            assert(out@[t2] == pre[t2]);
                        }
                        assert(spec_env_of(env.take(k as int), pre[t2].0@) == Some(pre[t2].1@));
                    }
                }
            }
            k = k + 1;
        }
        proof {
            assert(self.image_config.environment@.take(n as int)
                =~= self.image_config.environment@);
            assert forall|j: int|
                0 <= j < self.image_config.environment@.len() implies has_key(
                out@,
                (#[trigger] self.image_config.environment@[j]).0@,
            ) by {
                assert(0 <= j < n);
            }
        }
        out
    }
}

/// The directory name a toolchain image unpacks under: the base64 of the
/// image reference.
pub fn toolchain_dir_name(image: &str) -> (r: String)
    ensures
        r@ == sys::b64_of(vstd::utf8::encode_utf8(image@)),
{
    let bytes = image.as_bytes_vec();
    sys::b64_encode(&bytes)
}

/// The cache of pulled toolchains, by image reference.
pub struct ToolchainCache {
    names: Vec<String>,
    toolchains: Vec<PulledToolchain>,
}

impl ToolchainCache {
    pub closed spec fn len_spec(self) -> nat {
        self.names@.len()
    }

    pub closed spec fn name_at(self, i: int) -> Seq<char> {
        self.names@[i]@
    }

    pub closed spec fn toolchain_at(self, i: int) -> PulledToolchain {
        self.toolchains@[i]
    }

    pub open spec fn wf(self) -> bool {
        &&& self.paired()
        &&& forall|a: int, b: int|
            0 <= a < b < self.len_spec() ==> self.name_at(a) != self.name_at(b)
    }

    pub closed spec fn paired(self) -> bool {
        self.names@.len() == self.toolchains@.len()
    }

    /// Whether an image is cached.
    pub open spec fn has_image(self, name: Seq<char>) -> bool {
        exists|i: int| 0 <= i < self.len_spec() && self.name_at(i) == name
    }

    pub fn new() -> (r: ToolchainCache)
        ensures
            r.wf(),
            forall|name: Seq<char>| !r.has_image(name),
    {
        ToolchainCache { names: Vec::new(), toolchains: Vec::new() }
    }

    /// The cached toolchain of an image, if it was pulled before.
    pub fn lookup(&self, image: &String) -> (r: Option<&PulledToolchain>)
        requires
            self.wf(),
        ensures
            r is Some <==> self.has_image(image@),
    {
        let n: usize = self.names.len();
        let mut k: usize = 0;
        while k < n
            invariant
                0 <= k <= n,
                n == self.len_spec(),
                self.paired(),
                forall|t: int| 0 <= t < k ==> self.name_at(t) != image@,
            decreases n - k,
        {
            if self.names[k] == *image {
                proof {
                    assert(self.name_at(k as int) == image@);
                }
                return Some(&self.toolchains[k]);
            }
            k = k + 1;
        }
        proof {
            if self.has_image(image@) {
                let i = choose|i: int| 0 <= i < self.len_spec() && self.name_at(i) == image@;
                assert(false);
            }
        }
        None
    }

    /// Caches a freshly pulled toolchain; an image is cached once.
    pub fn insert(&mut self, image: &String, toolchain: PulledToolchain)
        requires
            old(self).wf(),
            !old(self).has_image(image@),
        ensures
            final(self).wf(),
            final(self).has_image(image@),
            forall|x: Seq<char>|
                #[trigger] final(self).has_image(x) <==> old(self).has_image(x) || x == image@,
    {
        let ghost pre = *self;
        let n: usize = self.names.len();
        self.names.push(image.clone());
        self.toolchains.push(toolchain);
        proof {
            let ni = n as int;
            assert(self.name_at(ni) == image@);
            assert(forall|j: int| 0 <= j < ni ==> self.name_at(j) == pre.name_at(j));
            assert forall|a: int, b: int|
                0 <= a < b < self.len_spec() implies self.name_at(a) != self.name_at(b) by {
                if b < ni {
                    assert(pre.name_at(a) != pre.name_at(b));
                } else {
                    if self.name_at(a) == image@ {
                        assert(pre.name_at(a) == image@);
                        assert(pre.has_image(image@));
                        assert(false);
                    }
                }
            }
            assert forall|x: Seq<char>|
                #[trigger] self.has_image(x) <==> pre.has_image(x) || x == image@ by {
                if self.has_image(x) {
                    let i = choose|i: int| 0 <= i < self.len_spec() && self.name_at(i) == x;
                    if i < ni {
                        assert(pre.name_at(i) == x);
                        assert(pre.has_image(x));
                    }
                } else {
                    if pre.has_image(x) {
                        let i = choose|i: int| 0 <= i < pre.len_spec() && pre.name_at(i) == x;
                        assert(self.name_at(i) == x);
                        assert(false);
                    }
                    assert(x != image@);
                }
            }
        }
    }
}

} // verus!
