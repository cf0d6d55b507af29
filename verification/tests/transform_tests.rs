use invoker::api::{Command, EnvVarValue, EnvironmentVariable, Extensions, PathPrefix, PrefixedPath, Stdio};
use invoker::api::FileId;
use invoker::api::InputSource;
use invoker::error::Error;
use invoker::make_relative;
use invoker::shim_api::{RequestExtensions, EXTRA_FILES_DIR_NAME};
use invoker::api::{Limits, SandboxSettings, SharedDir, SharedDirectoryMode};
use invoker::transform::{
    dict_lookup, get_interpolation_dict, interpolate_command, interpolate_string,
    rewrite_extension_path, take_ext, transform_command, transform_sandbox, update_command,
    InterpolateError,
};

#[test]
fn test_make_relative() {
    assert_eq!(make_relative("/foo/bar"), "foo/bar");
    assert_eq!(make_relative("hi/there.txt"), "hi/there.txt");
}

fn dict() -> Vec<(String, String)> {
    vec![
        ("KeyName".to_string(), "VALUE".to_string()),
        ("SomeKey".to_string(), "sk".to_string()),
    ]
}

#[test]
fn interpolate_plain_text() {
    assert_eq!(interpolate_string("foo", &dict()).unwrap(), "foo");
}

#[test]
fn interpolate_single_key() {
    assert_eq!(interpolate_string("fo$(KeyName)", &dict()).unwrap(), "foVALUE");
}

#[test]
fn interpolate_dollar_literals() {
    assert_eq!(interpolate_string("fo$$$$(SomeKey)", &dict()).unwrap(), "fo$$$sk");
}

#[test]
fn interpolate_unclosed_open_is_syntax_error() {
    assert!(matches!(interpolate_string("$(", &dict()), Err(InterpolateError::BadSyntax)));
}

#[test]
fn interpolate_stray_close_is_syntax_error() {
    assert!(matches!(
        interpolate_string("$(SomeKey))", &dict()),
        Err(InterpolateError::BadSyntax)
    ));
}

#[test]
fn interpolate_missing_key() {
    match interpolate_string("$(Nope)", &dict()) {
        Err(InterpolateError::MissingKey { key }) => assert_eq!(key, "Nope"),
        other => panic!("expected a missing key, got {:?}", other),
    }
}

#[test]
fn dictionary_prefixes_request_keys() {
    let exts = RequestExtensions {
        extra_files: vec![],
        substitutions: vec![("Lang".to_string(), "rs".to_string())],
    };
    let d = get_interpolation_dict(&exts);
    assert_eq!(d.len(), 2);
    assert_eq!(d[0].0, "Os.Name");
    assert_eq!(d[0].1, "Linux");
    assert_eq!(d[1].0, "Request.Lang");
    assert_eq!(d[1].1, "rs");
    assert_eq!(dict_lookup(&d, "Os.Name").unwrap(), "Linux");
    assert!(dict_lookup(&d, "Lang").is_none());
}

fn command(argv: Vec<&str>) -> Command {
    Command {
        sandbox_name: "sb".to_string(),
        argv: argv.into_iter().map(|s| s.to_string()).collect(),
        env: vec![EnvironmentVariable {
            name: "MODE".to_string(),
            value: EnvVarValue::Plain("$(KeyName)".to_string()),
            ext: Extensions::new(),
        }],
        cwd: "/work/$(SomeKey)".to_string(),
        stdio: Stdio {
            stdin: FileId("i".to_string()),
            stdout: FileId("o".to_string()),
            stderr: FileId("e".to_string()),
            ext: Extensions::new(),
        },
        ext: Extensions::new(),
    }
}

#[test]
fn interpolate_command_fields() {
    let cmd = command(vec!["run", "--flag=$(KeyName)"]);
    let out = interpolate_command(&cmd, &dict()).unwrap();
    assert_eq!(out.argv, vec!["run".to_string(), "--flag=VALUE".to_string()]);
    assert_eq!(out.cwd, "/work/sk");
    assert_eq!(out.env.len(), 1);
    assert_eq!(out.env[0].name, "MODE");
    match &out.env[0].value {
        EnvVarValue::Plain(v) => assert_eq!(v, "VALUE"),
        other => panic!("expected a plain value, got {:?}", other),
    }
    assert_eq!(out.sandbox_name, "sb");
}

#[test]
fn update_command_merges_missing_defaults() {
    let mut cmd = command(vec!["run"]);
    let defaults = vec![
        ("MODE".to_string(), "ignored".to_string()),
        ("PATH".to_string(), "/usr/bin".to_string()),
    ];
    update_command(&mut cmd, &defaults);
    assert_eq!(cmd.env.len(), 2);
    assert_eq!(cmd.env[1].name, "PATH");
    match &cmd.env[1].value {
        EnvVarValue::Plain(v) => assert_eq!(v, "/usr/bin"),
        other => panic!("expected a plain value, got {:?}", other),
    }
}

#[test]
fn rewrite_extra_files_prefix() {
    let p = PrefixedPath {
        prefix: PathPrefix::Extension(Extensions::new()),
        path: "data/input.txt".to_string(),
    };
    let out = rewrite_extension_path(&p, EXTRA_FILES_DIR_NAME, "/var/extra").unwrap();
    assert!(matches!(out.prefix, PathPrefix::Host));
    assert_eq!(out.path, "var/extra/data/input.txt");
}

#[test]
fn rewrite_unknown_source_is_refused() {
    let p = PrefixedPath {
        prefix: PathPrefix::Extension(Extensions::new()),
        path: "x".to_string(),
    };
    let r = rewrite_extension_path(&p, "OTHER", "/var/extra");
    assert!(matches!(r, Err(Error::UnknownExtensionSource)));
}

#[test]
fn rewrite_keeps_host_paths() {
    let p = PrefixedPath { prefix: PathPrefix::Host, path: "etc/passwd".to_string() };
    let out = rewrite_extension_path(&p, EXTRA_FILES_DIR_NAME, "/var/extra").unwrap();
    assert!(matches!(out.prefix, PathPrefix::Host));
    assert_eq!(out.path, "etc/passwd");
}

#[test]
fn take_ext_empties_the_bag() {
    let mut ext = Extensions(vec![invoker::api::ExtEntry {
        key: "k".to_string(),
        value: "1".to_string(),
    }]);
    let out = take_ext(&mut ext);
    assert_eq!(out.0.len(), 1);
    assert!(ext.is_empty());
}

#[test]
fn load_input_inline_string() {
    let src = InputSource::InlineString { data: "abc".to_string() };
    assert_eq!(invoker::transform::load_input(&src).unwrap(), b"abc".to_vec());
}

#[test]
fn load_input_inline_base64() {
    let src = InputSource::InlineBase64 { data: "aGVsbG8=".to_string() };
    assert_eq!(invoker::transform::load_input(&src).unwrap(), b"hello".to_vec());
    let bad = InputSource::InlineBase64 { data: "!!!".to_string() };
    assert!(matches!(invoker::transform::load_input(&bad), Err(Error::InvalidBase64)));
}

#[test]
fn transform_sandbox_sets_image_and_rewrites_paths() {
    let mut sb = SandboxSettings {
        limits: Limits {
            memory: 1,
            time: 1,
            process_count: None,
            work_dir_size: None,
            ext: Extensions::new(),
        },
        name: "sb".to_string(),
        base_image: "".to_string(),
        expose: vec![SharedDir {
            host_path: PrefixedPath {
                prefix: PathPrefix::Extension(Extensions::new()),
                path: "judge/data".to_string(),
            },
            sandbox_path: "/data".to_string(),
            mode: SharedDirectoryMode::ReadOnly,
            create: false,
            ext: Extensions::new(),
        }],
        work_dir: "/work".to_string(),
        ext: Extensions::new(),
    };
    let sources = vec![Some(EXTRA_FILES_DIR_NAME.to_string())];
    transform_sandbox(&mut sb, "/toolchains/Z2Nj", &sources, "/var/extra").unwrap();
    assert_eq!(sb.base_image, "/toolchains/Z2Nj");
    assert!(matches!(sb.expose[0].host_path.prefix, PathPrefix::Host));
    assert_eq!(sb.expose[0].host_path.path, "var/extra/judge/data");
}

#[test]
fn transform_sandbox_requires_unset_base_image() {
    let mut sb = SandboxSettings {
        limits: Limits {
            memory: 1,
            time: 1,
            process_count: None,
            work_dir_size: None,
            ext: Extensions::new(),
        },
        name: "sb".to_string(),
        base_image: "/already".to_string(),
        expose: vec![],
        work_dir: "/work".to_string(),
        ext: Extensions::new(),
    };
    let r = transform_sandbox(&mut sb, "/x", &vec![], "/var/extra");
    assert!(matches!(r, Err(Error::BaseImageAlreadySet)));
}

#[test]
fn transform_command_interpolates_and_merges() {
    let cmd = command(vec!["$(KeyName)"]);
    let defaults = vec![("HOME".to_string(), "/h".to_string())];
    let out = transform_command(&cmd, &dict(), &defaults).unwrap();
    assert_eq!(out.argv, vec!["VALUE".to_string()]);
    assert_eq!(out.env.len(), 2);
    assert_eq!(out.env[1].name, "HOME");
}
