//! The shim's request transformation pieces: command interpolation, the
//! substitution dictionary, extra-file materialization and symbolic path
//! rewriting.
use vstd::prelude::*;

use crate::api::{Command, EnvVarValue, EnvironmentVariable, Extensions, InputSource, PathPrefix, PrefixedPath};
use crate::error::Error;
use crate::file::{create_parent_dir, write_file, File};
use crate::path_resolver::{path_join, spec_path_join};
use crate::shim_api::{ExtraFile, RequestExtensions, EXTRA_FILES_DIR_NAME};
use crate::sys;

verus! {

/// Strips every leading path separator, turning an absolute path into a
/// relative one; a relative path is returned unchanged.
pub fn make_relative(path: &str) -> (r: String)
    ensures
        r@ == strip_leading_slashes(path@),
{
    let mut i: usize = 0;
    let n: usize = path.unicode_len();
    proof {
        assert(path@.skip(0) =~= path@);
    }
    while i < n && path.get_char(i) == '/'
        invariant
            0 <= i <= n,
            n == path@.len(),
            strip_leading_slashes(path@.skip(i as int)) == strip_leading_slashes(path@),
        decreases n - i,
    {
        proof {
            assert(path@.skip(i as int)[0] == path@[i as int]);
            assert(path@.skip(i as int).skip(1) =~= path@.skip(i + 1));
        }
        i = i + 1;
    }
    let r = path.substring_char(i, n).to_owned();
    proof {
        assert(r@ =~= path@.skip(i as int));
        if i < n {
            assert(path@.skip(i as int)[0] == path@[i as int]);
        }
    }
    r
}

/// A path with all leading separators removed.
pub open spec fn strip_leading_slashes(s: Seq<char>) -> Seq<char>
    decreases s.len(),
{
    if s.len() == 0 {
        s
    } else if s[0] == '/' {
        strip_leading_slashes(s.skip(1))
    } else {
        s
    }
}


/// Why a template did not interpolate.
#[derive(Debug)]
pub enum InterpolateError {
    /// A substitution opener inside a variable name, or a closer outside a
    /// substitution.
    BadSyntax,
    /// The template named a key the dictionary does not hold.
    MissingKey { key: String },
}

/// The spec-level shape of an interpolation failure.
pub enum SpecInterpError {
    BadSyntax,
    MissingKey(Seq<char>),
}

/// The value of the first dictionary entry with this key.
pub open spec fn spec_dict_lookup(d: Seq<(String, String)>, key: Seq<char>) -> Option<Seq<char>>
    decreases d.len(),
{
    if d.len() == 0 {
        None
    } else if d[0].0@ == key {
        Some(d[0].1@)
    } else {
        spec_dict_lookup(d.skip(1), key)
    }
}

/// The first dictionary entry with this key, if any.
pub fn dict_lookup(d: &Vec<(String, String)>, key: &str) -> (r: Option<String>)
    ensures
        match r {
            Some(v) => spec_dict_lookup(d@, key@) == Some(v@),
            None => spec_dict_lookup(d@, key@) is None,
        },
{
    let n: usize = d.len();
    let mut k: usize = 0;
    proof {
        assert(d@.skip(0) =~= d@);
    }
    while k < n
        invariant
            0 <= k <= n,
            n == d@.len(),
            spec_dict_lookup(d@.skip(k as int), key@) == spec_dict_lookup(d@, key@),
        decreases n - k,
    {
        proof {
            assert(d@.skip(k as int)[0] == d@[k as int]);
            assert(d@.skip(k as int).skip(1) =~= d@.skip(k + 1));
        }
        if crate::text::str_eq(d[k].0.as_str(), key) {
            return Some(d[k].1.clone());
        }
        k = k + 1;
    }
    proof {
        assert(d@.skip(n as int) =~= Seq::<(String, String)>::empty());
    }
    None
}

/// The position of the closer ending a variable name that starts at `i`:
/// the first closer, provided no opener comes before it.
pub open spec fn spec_key_end(s: Seq<char>, i: int) -> Option<int>
    decreases s.len() - i,
{
    if i < 0 || i >= s.len() {
        None
    } else if s[i] == ')' {
        Some(i)
    } else if i + 1 < s.len() && s[i] == '$' && s[i + 1] == '(' {
        None
    } else {
        spec_key_end(s, i + 1)
    }
}

/// What interpolating a template yields: literal text copied, each
/// `$(Key)` replaced by the dictionary's value for `Key`; a closer outside a
/// substitution or an opener inside one is refused, as is a missing key.
pub open spec fn spec_interp(s: Seq<char>, d: Seq<(String, String)>) -> Result<
    Seq<char>,
    SpecInterpError,
>
    decreases s.len(),
{
    if s.len() == 0 {
        Ok(Seq::empty())
    } else if s[0] == ')' {
        Err(SpecInterpError::BadSyntax)
    } else if s.len() >= 2 && s[0] == '$' && s[1] == '(' {
        match spec_key_end(s, 2) {
            None => Err(SpecInterpError::BadSyntax),
            Some(j) => if j < 2 || j >= s.len() {
                Err(SpecInterpError::BadSyntax)
            } else {
                let key = s.subrange(2, j);
                match spec_dict_lookup(d, key) {
                    None => Err(SpecInterpError::MissingKey(key)),
                    Some(v) => match spec_interp(s.skip(j + 1), d) {
                        Ok(rest) => Ok(v + rest),
                        Err(e) => Err(e),
                    },
                }
            },
        }
    } else {
        match spec_interp(s.skip(1), d) {
            Ok(rest) => Ok(seq![s[0]] + rest),
            Err(e) => Err(e),
        }
    }
}

/// Whether an exec result carries exactly the spec-level result.
pub open spec fn interp_result_matches(
    r: Result<String, InterpolateError>,
    s: Seq<char>,
    d: Seq<(String, String)>,
) -> bool {
    match r {
        Ok(out) => spec_interp(s, d) == Ok::<Seq<char>, SpecInterpError>(out@),
        Err(InterpolateError::BadSyntax) => spec_interp(s, d) == Err::<Seq<char>, SpecInterpError>(
            SpecInterpError::BadSyntax,
        ),
        Err(InterpolateError::MissingKey { key }) => spec_interp(s, d) == Err::<
            Seq<char>,
            SpecInterpError,
        >(SpecInterpError::MissingKey(key@)),
    }
}

/// Interpolates one template string against the dictionary.
pub fn interpolate_string(s: &str, dict: &Vec<(String, String)>) -> (r: Result<
    String,
    InterpolateError,
>)
    ensures
        interp_result_matches(r, s@, dict@),
    decreases s@.len(),
{
    let n: usize = s.unicode_len();
    if n == 0 {
        proof {
            reveal_strlit("");
            assert(""@ =~= Seq::<char>::empty());
        }
        return Ok("".to_owned());
    }
    let c0 = s.get_char(0);
    if c0 == ')' {
        return Err(InterpolateError::BadSyntax);
    }
    if n >= 2 && c0 == '$' && s.get_char(1) == '(' {
        let mut j: usize = 2;
        loop
            invariant
                2 <= j <= n,
                n == s@.len(),
                n >= 2,
                s@[0] == '$',
                s@[1] == '(',
                spec_key_end(s@, j as int) == spec_key_end(s@, 2),
                forall|t: int| 2 <= t < j ==> s@[t] != ')',
            ensures
                2 <= j < n,
                n == s@.len(),
                s@[j as int] == ')',
                spec_key_end(s@, j as int) == spec_key_end(s@, 2),
            decreases n - j,
        {
            if j >= n {
                return Err(InterpolateError::BadSyntax);
            }
            let c = s.get_char(j);
            if c == ')' {
                break ;
            }
            if j + 1 < n && c == '$' && s.get_char(j + 1) == '(' {
                return Err(InterpolateError::BadSyntax);
            }
            if j + 1 == n && c == '$' {
                proof {
                    assert(spec_key_end(s@, j + 1) is None);
                }
                return Err(InterpolateError::BadSyntax);
            }
            j = j + 1;
        }
        proof {
            assert(spec_key_end(s@, 2) == Some(j as int));
        }
        let key = s.substring_char(2, j);
        proof {
            assert(key@ =~= s@.subrange(2, j as int));
        }
        let value = match dict_lookup(dict, key) {
            Some(v) => v,
            None => {
                return Err(InterpolateError::MissingKey { key: key.to_owned() });
            },
        };
        let rest_str = s.substring_char(j + 1, n);
        proof {
            assert(rest_str@ =~= s@.skip(j + 1));
        }
        let rest = match interpolate_string(rest_str, dict) {
            Ok(t) => t,
            Err(e) => {
                return Err(e);
            },
        };
        let mut out = value;
        out.append(rest.as_str());
        Ok(out)
    } else {
        let head = s.substring_char(0, 1);
        let tail = s.substring_char(1, n);
        proof {
            assert(head@ =~= seq![s@[0]]);
            assert(tail@ =~= s@.skip(1));
        }
        let rest = match interpolate_string(tail, dict) {
            Ok(t) => t,
            Err(e) => {
                return Err(e);
            },
        };
        let mut out = head.to_owned();
        out.append(rest.as_str());
        Ok(out)
    }
}

/// What interpolating a list of templates yields: each in order, stopping at
/// the first failure.
pub open spec fn spec_interp_all(items: Seq<String>, d: Seq<(String, String)>) -> Result<
    Seq<Seq<char>>,
    SpecInterpError,
>
    decreases items.len(),
{
    if items.len() == 0 {
        Ok(Seq::empty())
    } else {
        match spec_interp(items[0]@, d) {
            Err(e) => Err(e),
            Ok(first) => match spec_interp_all(items.skip(1), d) {
                Err(e) => Err(e),
                Ok(rest) => Ok(seq![first] + rest),
            },
        }
    }
}

/// Interpolates every string of a list, stopping at the first failure.
pub fn interpolate_all(items: &Vec<String>, dict: &Vec<(String, String)>) -> (r: Result<
    Vec<String>,
    InterpolateError,
>)
    ensures
        match r {
            Ok(out) => spec_interp_all(items@, dict@) == Ok::<Seq<Seq<char>>, SpecInterpError>(
                out@.map_values(|x: String| x@),
            ),
            Err(InterpolateError::BadSyntax) => spec_interp_all(items@, dict@) == Err::<
                Seq<Seq<char>>,
                SpecInterpError,
            >(SpecInterpError::BadSyntax),
            Err(InterpolateError::MissingKey { key }) => spec_interp_all(items@, dict@) == Err::<
                Seq<Seq<char>>,
                SpecInterpError,
            >(SpecInterpError::MissingKey(key@)),
        },
{
    let n: usize = items.len();
    let mut out: Vec<String> = Vec::new();
    let mut k: usize = 0;
    proof {
        assert(items@.skip(0) =~= items@);
    }
    while k < n
        invariant
            0 <= k <= n,
            n == items@.len(),
            out@.len() == k,
            match spec_interp_all(items@.skip(k as int), dict@) {
                Ok(rest) => spec_interp_all(items@, dict@) == Ok::<Seq<Seq<char>>, SpecInterpError>(
                    out@.map_values(|x: String| x@) + rest,
                ),
                Err(e) => spec_interp_all(items@, dict@) == Err::<Seq<Seq<char>>, SpecInterpError>(
                    e,
                ),
            },
        decreases n - k,
    {
        proof {
            assert(items@.skip(k as int)[0] == items@[k as int]);
            assert(items@.skip(k as int).skip(1) =~= items@.skip(k + 1));
        }
        let ghost before = out@.map_values(|x: String| x@);
        let piece = match interpolate_string(items[k].as_str(), dict) {
            Ok(p) => p,
            Err(e) => {
                return Err(e);
            },
        };
        out.push(piece);
        proof {
            assert(out@.map_values(|x: String| x@) =~= before + seq![items@[k as int]@].map_values(
                |x: Seq<char>| x,
            ).map_values(|x: Seq<char>| spec_interp(x, dict@)->Ok_0));
            match spec_interp_all(items@.skip(k + 1), dict@) {
                Ok(rest) => {
                    assert(out@.map_values(|x: String| x@) + rest =~= before + (seq![
                        spec_interp(items@[k as int]@, dict@)->Ok_0,
                    ] + rest));
                },
                Err(e) => {},
            }
        }
        k = k + 1;
    }
    proof {
        assert(items@.skip(n as int) =~= Seq::<String>::empty());
        assert(out@.map_values(|x: String| x@) + Seq::<Seq<char>>::empty() =~= out@.map_values(
            |x: String| x@,
        ));
    }
    Ok(out)
}

/// The substitution dictionary of one request: the host platform name, then
/// each request substitution under the `Request.` prefix.
pub fn get_interpolation_dict(exts: &RequestExtensions) -> (r: Vec<(String, String)>)
    ensures
        r@.len() == 1 + exts.substitutions@.len(),
        r@[0].0@ == "Os.Name"@ && r@[0].1@ == "Linux"@,
        forall|k: int|
            0 <= k < exts.substitutions@.len() ==> (#[trigger] r@[1 + k]).0@ == "Request."@
                + exts.substitutions@[k].0@ && r@[1 + k].1@ == exts.substitutions@[k].1@,
{
    let mut dict: Vec<(String, String)> = Vec::new();
    dict.push(("Os.Name".to_owned(), "Linux".to_owned()));
    let n: usize = exts.substitutions.len();
    let mut k: usize = 0;
    while k < n
        invariant
            0 <= k <= n,
            n == exts.substitutions@.len(),
            dict@.len() == 1 + k,
            dict@[0].0@ == "Os.Name"@ && dict@[0].1@ == "Linux"@,
            forall|t: int|
                0 <= t < k ==> (#[trigger] dict@[1 + t]).0@ == "Request."@
                    + exts.substitutions@[t].0@ && dict@[1 + t].1@ == exts.substitutions@[t].1@,
        decreases n - k,
    {
        let mut key = "Request.".to_owned();
        key.append(exts.substitutions[k].0.as_str());
        dict.push((key, exts.substitutions[k].1.clone()));
        k = k + 1;
    }
    dict
}

/// Interpolates a command's argv, environment names, plain environment
/// values and working directory; stdio bindings, the sandbox name and
/// file-valued variables stay as they are.
pub fn interpolate_command(command: &Command, dict: &Vec<(String, String)>) -> (r: Result<
    Command,
    InterpolateError,
>)
    ensures
        r matches Ok(out) ==> {
            &&& spec_interp_all(command.argv@, dict@) == Ok::<Seq<Seq<char>>, SpecInterpError>(
                out.argv@.map_values(|x: String| x@),
            )
            &&& spec_interp(command.cwd@, dict@) == Ok::<Seq<char>, SpecInterpError>(out.cwd@)
            &&& out.env@.len() == command.env@.len()
            &&& forall|k: int|
                0 <= k < command.env@.len() ==> {
                    &&& spec_interp(command.env@[k].name@, dict@) == Ok::<
                        Seq<char>,
                        SpecInterpError,
                    >((#[trigger] out.env@[k]).name@)
                    &&& match command.env@[k].value {
                        EnvVarValue::Plain(p) => out.env@[k].value matches EnvVarValue::Plain(q)
                            && spec_interp(p@, dict@) == Ok::<Seq<char>, SpecInterpError>(q@),
                        EnvVarValue::File(id) => out.env@[k].value matches EnvVarValue::File(oid)
                            && oid@ == id@,
                    }
                }
            &&& out.sandbox_name@ == command.sandbox_name@
            &&& out.stdio.stdin@ == command.stdio.stdin@
            &&& out.stdio.stdout@ == command.stdio.stdout@
            &&& out.stdio.stderr@ == command.stdio.stderr@
        },
{
    let cwd = match interpolate_string(command.cwd.as_str(), dict) {
        Ok(c) => c,
        Err(e) => {
            return Err(e);
        },
    };
    let argv = match interpolate_all(&command.argv, dict) {
        Ok(a) => a,
        Err(e) => {
            return Err(e);
        },
    };
    let mut env: Vec<EnvironmentVariable> = Vec::new();
    let n: usize = command.env.len();
    let mut k: usize = 0;
    while k < n
        invariant
            0 <= k <= n,
            n == command.env@.len(),
            env@.len() == k,
            forall|t: int|
                0 <= t < k ==> {
                    &&& spec_interp(command.env@[t].name@, dict@) == Ok::<
                        Seq<char>,
                        SpecInterpError,
                    >((#[trigger] env@[t]).name@)
                    &&& match command.env@[t].value {
                        EnvVarValue::Plain(p) => env@[t].value matches EnvVarValue::Plain(q)
                            && spec_interp(p@, dict@) == Ok::<Seq<char>, SpecInterpError>(q@),
                        EnvVarValue::File(id) => env@[t].value matches EnvVarValue::File(oid)
                            && oid@ == id@,
                    }
                },
        decreases n - k,
    {
        let e = &command.env[k];
        let name = match interpolate_string(e.name.as_str(), dict) {
            Ok(s) => s,
            Err(err) => {
                return Err(err);
            },
        };
        let value = match &e.value {
            EnvVarValue::Plain(p) => {
                match interpolate_string(p.as_str(), dict) {
                    Ok(q) => EnvVarValue::Plain(q),
                    Err(err) => {
                        return Err(err);
                    },
                }
            },
            EnvVarValue::File(id) => EnvVarValue::File(id.clone()),
        };
        env.push(EnvironmentVariable { name, value, ext: Extensions::new() });
        k = k + 1;
    }
    Ok(
        Command {
            sandbox_name: command.sandbox_name.clone(),
            argv,
            env,
            cwd,
            stdio: crate::api::Stdio {
                stdin: command.stdio.stdin.clone(),
                stdout: command.stdio.stdout.clone(),
                stderr: command.stdio.stderr.clone(),
                ext: Extensions::new(),
            },
            ext: Extensions::new(),
        },
    )
}

/// Appends, after a command's own variables, every default variable whose
/// name the command does not already use, in the defaults' order.
pub fn update_command(cmd: &mut Command, defaults: &Vec<(String, String)>)
    ensures
        final(cmd).sandbox_name@ == old(cmd).sandbox_name@,
        final(cmd).argv@ == old(cmd).argv@,
        final(cmd).cwd@ == old(cmd).cwd@,
        final(cmd).env@.len() >= old(cmd).env@.len(),
        forall|k: int| 0 <= k < old(cmd).env@.len() ==> final(cmd).env@[k] == old(cmd).env@[k],
        forall|k: int|
            old(cmd).env@.len() <= k < final(cmd).env@.len() ==> (#[trigger] final(cmd).env@[k]).value is Plain,
{
    let n: usize = defaults.len();
    let mut k: usize = 0;
    let ghost base = cmd.env@;
    while k < n
        invariant
            0 <= k <= n,
            n == defaults@.len(),
            cmd.sandbox_name@ == old(cmd).sandbox_name@,
            cmd.argv@ == old(cmd).argv@,
            cmd.cwd@ == old(cmd).cwd@,
            cmd.env@.len() >= base.len(),
            base == old(cmd).env@,
            forall|t: int| 0 <= t < base.len() ==> cmd.env@[t] == base[t],
            forall|t: int|
                base.len() <= t < cmd.env@.len() ==> (#[trigger] cmd.env@[t]).value is Plain,
        decreases n - k,
    {
        let name = &defaults[k].0;
        let mut used = false;
        let m: usize = cmd.env.len();
        let mut t: usize = 0;
        while t < m
            invariant
                0 <= t <= m,
                m == cmd.env@.len(),
            decreases m - t,
        {
            if cmd.env[t].name == *name {
                used = true;
            }
            t = t + 1;
        }
        if !used {
            cmd.env.push(
                EnvironmentVariable {
                    name: name.clone(),
                    value: EnvVarValue::Plain(defaults[k].1.clone()),
                    ext: Extensions::new(),
                },
            );
        }
        k = k + 1;
    }
}

/// Rewrites one symbolic path: a path under the extra-files source becomes a
/// host path under the extra-files directory, made relative; any other
/// source name is refused; a host or volume path stays as it is.
pub fn rewrite_extension_path(path: &PrefixedPath, source_name: &str, extra_files_dir: &str) -> (r:
    Result<PrefixedPath, Error>)
    ensures
        !(path.prefix is Extension) ==> (r matches Ok(p) && p.path@ == path.path@),
        path.prefix is Extension && source_name@ == EXTRA_FILES_DIR_NAME@ ==> (r matches Ok(p)
            && p.prefix is Host && p.path@ == strip_leading_slashes(
            spec_path_join(extra_files_dir@, path.path@),
        )),
        path.prefix is Extension && source_name@ != EXTRA_FILES_DIR_NAME@ ==> r == Err::<
            PrefixedPath,
            Error,
        >(Error::UnknownExtensionSource),
{
    match &path.prefix {
        PathPrefix::Extension(_) => {
            if crate::text::str_eq(source_name, EXTRA_FILES_DIR_NAME) {
                let joined = path_join(extra_files_dir, path.path.as_str());
                let rel = make_relative(joined.as_str());
                Ok(PrefixedPath { prefix: PathPrefix::Host, path: rel })
            } else {
                Err(Error::UnknownExtensionSource)
            }
        },
        PathPrefix::Host => Ok(
            PrefixedPath { prefix: PathPrefix::Host, path: path.path.clone() },
        ),
        PathPrefix::Volume(name) => Ok(
            PrefixedPath { prefix: PathPrefix::Volume(name.clone()), path: path.path.clone() },
        ),
    }
}

/// Materializes the extra files of a request under its extra-files
/// directory: each relative path is written with its contents, and made
/// executable when asked; an absolute path is refused.
pub fn materialize_extra_files(extra: &Vec<(String, ExtraFile)>, dir: &str) -> (r: Result<
    (),
    Error,
>)
    ensures
        r is Err ==> r.unwrap_err() == Error::AbsolutePath || r.unwrap_err() is Sys
            || r.unwrap_err() is ShortWrite || r.unwrap_err() == Error::InvalidBase64,
{
    let n: usize = extra.len();
    let mut k: usize = 0;
    while k < n
        invariant
            0 <= k <= n,
            n == extra@.len(),
        decreases n - k,
    {
        let name = &extra[k].0;
        let name_len: usize = name.as_str().unicode_len();
        if name_len > 0 && (name.as_str().get_char(0) == '/' || name.as_str().get_char(0)
            == '\\') {
            return Err(Error::AbsolutePath);
        }
        let path = path_join(dir, name.as_str());
        let contents = load_input(&extra[k].1.contents)?;
        create_parent_dir(path.as_str())?;
        write_file(path.as_str(), &contents)?;
        if extra[k].1.executable {
            let mode = match sys::sys_stat_mode(path.as_str()) {
                Ok(m) => m,
                Err(e) => {
                    return Err(Error::Sys { errno: e });
                },
            };
            if let Err(e) = sys::sys_chmod(path.as_str(), mode | 0o111) {
                return Err(Error::Sys { errno: e });
            }
        }
        k = k + 1;
    }
    Ok(())
}

/// Loads the bytes of one input source: a local file read whole, an inline
/// string's bytes, or decoded inline base64.
pub fn load_input(input: &InputSource) -> (r: Result<Vec<u8>, Error>)
    ensures
        crate::executor::spec_input_content(*input) is Some ==> (r matches Ok(v) ==> Some(v@)
            == crate::executor::spec_input_content(*input)),
        input matches InputSource::InlineString { .. } ==> r is Ok,
        (input matches InputSource::InlineBase64 { data } && crate::sys::b64_decode_of(data@)
            is None) ==> r == Err::<Vec<u8>, Error>(Error::InvalidBase64),
        r is Err ==> r.unwrap_err() is Sys || r.unwrap_err() == Error::InvalidBase64,
{
    match input {
        InputSource::LocalFile { path } => {
            let f = File::open_read(path.as_str())?;
            f.read_all()
        },
        InputSource::InlineString { data } => Ok(data.as_str().as_bytes_vec()),
        InputSource::InlineBase64 { data } => {
            match sys::b64_decode(data.as_str()) {
                Some(v) => Ok(v),
                None => Err(Error::InvalidBase64),
            }
        },
    }
}

/// Rewrites one sandbox for execution: its base image, which must still be
/// unset, becomes the pulled toolchain path, and every exposed host path
/// under a symbolic source is rewritten against the extra-files directory.
/// The caller parses each symbolic source's name out of its bag and hands
/// the names in, one per exposed entry.
pub fn transform_sandbox(
    sandbox: &mut crate::api::SandboxSettings,
    image_path: &str,
    source_names: &Vec<Option<String>>,
    extra_files_dir: &str,
) -> (r: Result<(), Error>)
    requires
        old(sandbox).expose@.len() == source_names@.len(),
    ensures
        old(sandbox).base_image@.len() > 0 <==> r == Err::<(), Error>(Error::BaseImageAlreadySet),
        r is Ok ==> {
            &&& final(sandbox).base_image@ == image_path@
            &&& final(sandbox).name@ == old(sandbox).name@
            &&& final(sandbox).work_dir@ == old(sandbox).work_dir@
            &&& final(sandbox).expose@.len() == old(sandbox).expose@.len()
            &&& forall|k: int|
                0 <= k < old(sandbox).expose@.len() && !(old(sandbox).expose@[k].host_path.prefix
                    is Extension) ==> (#[trigger] final(sandbox).expose@[k]).host_path.path@ == old(sandbox).expose@[k].host_path.path@
            &&& forall|k: int|
                0 <= k < old(sandbox).expose@.len() && old(sandbox).expose@[k].host_path.prefix
                    is Extension && (source_names@[k] matches Some(nm) && nm@
                    == EXTRA_FILES_DIR_NAME@) ==> ((#[trigger] final(sandbox).expose@[k]).host_path.prefix is Host && final(sandbox).expose@[k].host_path.path@
                    == strip_leading_slashes(
                    spec_path_join(extra_files_dir@, old(sandbox).expose@[k].host_path.path@),
                ))
        },
{
    if sandbox.base_image.as_str().unicode_len() != 0 {
        return Err(Error::BaseImageAlreadySet);
    }
    sandbox.base_image = image_path.to_owned();
    let n: usize = sandbox.expose.len();
    let mut k: usize = 0;
    while k < n
        invariant
            0 <= k <= n,
            n == sandbox.expose@.len(),
            n == source_names@.len(),
            n == old(sandbox).expose@.len(),
            old(sandbox).base_image@.len() == 0,
            sandbox.base_image@ == image_path@,
            sandbox.name@ == old(sandbox).name@,
            sandbox.work_dir@ == old(sandbox).work_dir@,
            forall|t: int| k <= t < n ==> sandbox.expose@[t] == old(sandbox).expose@[t],
            forall|t: int|
                0 <= t < k && !(old(sandbox).expose@[t].host_path.prefix is Extension) ==> (
                #[trigger] sandbox.expose@[t]).host_path.path@
                    == old(sandbox).expose@[t].host_path.path@,
            forall|t: int|
                0 <= t < k && old(sandbox).expose@[t].host_path.prefix is Extension && (
                source_names@[t] matches Some(nm) && nm@ == EXTRA_FILES_DIR_NAME@) ==> ((
                #[trigger] sandbox.expose@[t]).host_path.prefix is Host
                    && sandbox.expose@[t].host_path.path@ == strip_leading_slashes(
                    spec_path_join(extra_files_dir@, old(sandbox).expose@[t].host_path.path@),
                )),
        decreases n - k,
    {
        let name: &str = match &source_names[k] {
            Some(s) => s.as_str(),
            None => "",
        };
        let rewritten = rewrite_extension_path(
            &sandbox.expose[k].host_path,
            name,
            extra_files_dir,
        )?;
        sandbox.expose[k].host_path = rewritten;
        k = k + 1;
    }
    Ok(())
}

/// Rewrites one command for execution: interpolates it against the request's
/// dictionary and appends the toolchain's environment defaults after its own
/// variables.
pub fn transform_command(
    command: &Command,
    dict: &Vec<(String, String)>,
    defaults: &Vec<(String, String)>,
) -> (r: Result<Command, InterpolateError>)
    ensures
        r matches Ok(out) ==> {
            &&& spec_interp_all(command.argv@, dict@) == Ok::<Seq<Seq<char>>, SpecInterpError>(
                out.argv@.map_values(|x: String| x@),
            )
            &&& spec_interp(command.cwd@, dict@) == Ok::<Seq<char>, SpecInterpError>(out.cwd@)
            &&& out.env@.len() >= command.env@.len()
            &&& out.sandbox_name@ == command.sandbox_name@
        },
{
    let mut out = interpolate_command(command, dict)?;
    update_command(&mut out, defaults);
    Ok(out)
}

/// Hands an extension bag out, leaving the empty bag in its place.
pub fn take_ext(ext: &mut Extensions) -> (r: Extensions)
    ensures
        final(ext).is_empty_spec(),
        r == *old(ext),
{
    let mut tmp: Vec<crate::api::ExtEntry> = Vec::new();
    core::mem::swap(&mut tmp, &mut ext.0);
    Extensions(tmp)
}

} // verus!
