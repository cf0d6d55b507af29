use invoker::api::{
    Action, Command, EnvVarValue, EnvironmentVariable, ExtEntry, Extensions, FileId, Input,
    InputSource, InvokeRequest, Limits, SandboxSettings, Step, Stdio, Uid, VolumeSettings,
};
use invoker::error::Error;
use invoker::validate::{
    command_has_extensions, request_has_extensions, sandbox_has_extensions, step_has_extensions,
    validate_request, volume_has_extensions,
};

fn bag() -> Extensions {
    Extensions(vec![ExtEntry { key: "k".to_string(), value: "v".to_string() }])
}

fn plain_request() -> InvokeRequest {
    InvokeRequest {
        steps: vec![],
        inputs: vec![],
        outputs: vec![],
        id: Uid { hi: 0, lo: 0 },
        ext: Extensions::new(),
    }
}

fn plain_command() -> Command {
    Command {
        sandbox_name: "s".to_string(),
        argv: vec!["/bin/true".to_string()],
        env: vec![],
        cwd: "/".to_string(),
        stdio: Stdio {
            stdin: FileId("i".to_string()),
            stdout: FileId("o".to_string()),
            stderr: FileId("e".to_string()),
            ext: Extensions::new(),
        },
        ext: Extensions::new(),
    }
}

#[test]
fn clean_request_passes_validation() {
    assert!(validate_request(&plain_request()).is_ok());
    assert!(!request_has_extensions(&plain_request()));
}

#[test]
fn top_level_extensions_reject() {
    let mut req = plain_request();
    req.ext = bag();
    assert!(matches!(validate_request(&req), Err(Error::NonEmptyExtensions)));
}

#[test]
fn input_extensions_reject() {
    let mut req = plain_request();
    req.inputs.push(Input {
        file_id: FileId("x".to_string()),
        source: InputSource::InlineString { data: "d".to_string() },
        ext: bag(),
    });
    assert!(request_has_extensions(&req));
}

#[test]
fn step_extensions_are_found() {
    let step = Step {
        stage: 0,
        action: Action::OpenNullFile { id: FileId("n".to_string()) },
        ext: bag(),
    };
    assert!(step_has_extensions(&step));
    let clean = Step {
        stage: 0,
        action: Action::OpenNullFile { id: FileId("n".to_string()) },
        ext: Extensions::new(),
    };
    assert!(!step_has_extensions(&clean));
}

#[test]
fn command_extensions_are_found() {
    let mut cmd = plain_command();
    assert!(!command_has_extensions(&cmd));
    cmd.env.push(EnvironmentVariable {
        name: "N".to_string(),
        value: EnvVarValue::Plain("v".to_string()),
        ext: bag(),
    });
    assert!(command_has_extensions(&cmd));
}

#[test]
fn sandbox_extensions_are_found() {
    let mut sb = SandboxSettings {
        limits: Limits {
            memory: 1,
            time: 1,
            process_count: None,
            work_dir_size: None,
            ext: Extensions::new(),
        },
        name: "s".to_string(),
        base_image: "/".to_string(),
        expose: vec![],
        work_dir: "/w".to_string(),
        ext: Extensions::new(),
    };
    assert!(!sandbox_has_extensions(&sb));
    sb.limits.ext = bag();
    assert!(sandbox_has_extensions(&sb));
}

#[test]
fn volume_extensions_are_found() {
    let vol = VolumeSettings { name: "v".to_string(), limit: None, ext: bag() };
    assert!(volume_has_extensions(&vol));
    let clean = VolumeSettings { name: "v".to_string(), limit: None, ext: Extensions::new() };
    assert!(!volume_has_extensions(&clean));
}
