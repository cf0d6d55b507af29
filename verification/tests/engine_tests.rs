use invoker::api::{
    Action, ActionResult, Command, Extensions, FileId, Input, InputSource, InvokeRequest, Limits,
    Output, OutputData, OutputRequest, OutputRequestTarget, SandboxSettings, SpawnOutcome, Step,
    Stdio, Uid,
};
use invoker::error::Error;
use invoker::handler::{Progress, RequestRun};
use invoker::sandbox::SandboxGlobalSettings;

fn fid(s: &str) -> FileId {
    FileId(s.to_string())
}

fn global() -> SandboxGlobalSettings {
    SandboxGlobalSettings {
        exposed_host_items: None,
        skip_system_checks: true,
        override_id_range: None,
        leak: false,
        allow_fallback_pid_limit: false,
    }
}

fn limits() -> Limits {
    Limits {
        memory: 64 * 1024 * 1024,
        time: 1000,
        process_count: Some(8),
        work_dir_size: None,
        ext: Extensions::new(),
    }
}

fn sandbox_step(stage: u32, name: &str) -> Step {
    Step {
        stage,
        action: Action::CreateSandbox(SandboxSettings {
            limits: limits(),
            name: name.to_string(),
            base_image: "/".to_string(),
            expose: vec![],
            work_dir: "/work".to_string(),
            ext: Extensions::new(),
        }),
        ext: Extensions::new(),
    }
}

fn command_step(stage: u32, sandbox: &str, argv: Vec<&str>, i: &str, o: &str, e: &str) -> Step {
    Step {
        stage,
        action: Action::ExecuteCommand(Command {
            sandbox_name: sandbox.to_string(),
            argv: argv.into_iter().map(|s| s.to_string()).collect(),
            env: vec![],
            cwd: "/".to_string(),
            stdio: Stdio {
                stdin: fid(i),
                stdout: fid(o),
                stderr: fid(e),
                ext: Extensions::new(),
            },
            ext: Extensions::new(),
        }),
        ext: Extensions::new(),
    }
}

fn read_fd(fd: u64, limit: usize) -> Vec<u8> {
    let mut out = Vec::new();
    let mut buf = vec![0u8; 256];
    while out.len() < limit {
        let n = nix::unistd::read(fd as i32, &mut buf).unwrap();
        if n == 0 {
            break;
        }
        out.extend_from_slice(&buf[..n]);
    }
    out
}

fn write_fd(fd: u64, mut data: &[u8]) {
    while !data.is_empty() {
        let n = nix::unistd::write(fd as i32, data).unwrap();
        data = &data[n..];
    }
}

fn close_fd(fd: u64) {
    nix::unistd::close(fd as i32).unwrap();
}

#[test]
fn identity_echo_round_trip() {
    // one stage-0 input bound to `in`, a writable file `out`, a null stderr,
    // a sandbox, and a stage-1 copy command; the test plays the backend.
    let req = InvokeRequest {
        steps: vec![
            Step {
                stage: 0,
                action: Action::CreateFile { id: fid("err"), readable: false, writeable: true },
                ext: Extensions::new(),
            },
            Step {
                stage: 0,
                action: Action::CreateFile { id: fid("out"), readable: true, writeable: true },
                ext: Extensions::new(),
            },
            sandbox_step(0, "main"),
            command_step(1, "main", vec!["/bin/cat"], "in", "out", "err"),
        ],
        inputs: vec![Input {
            file_id: fid("in"),
            source: InputSource::InlineString { data: "hello".to_string() },
            ext: Extensions::new(),
        }],
        outputs: vec![OutputRequest {
            name: "result".to_string(),
            target: OutputRequestTarget::File(fid("out")),
            ext: Extensions::new(),
        }],
        id: Uid { hi: 1, lo: 2 },
        ext: Extensions::new(),
    };
    let mut run = RequestRun::new(req, "/tmp/invoker-test-echo", global()).unwrap();
    let progress = run.advance().unwrap();
    let step_id = match progress {
        Progress::NeedSandbox { step_id, options, .. } => {
            assert_eq!(options.cpu_time_ms, 1000);
            assert_eq!(options.real_time_ms, 3000);
            assert_eq!(options.max_alive_process_count, 8);
            step_id
        }
        other => panic!("expected a sandbox request, got {:?}", kind_of(&other)),
    };
    assert_eq!(step_id, 2);
    run.provide_sandbox(true).unwrap();
    let progress = run.advance().unwrap();
    let spec = match progress {
        Progress::NeedSpawn { step_id, spec } => {
            assert_eq!(step_id, 3);
            spec
        }
        other => panic!("expected a spawn request, got {:?}", kind_of(&other)),
    };
    assert_eq!(spec.path, "/bin/cat");
    assert_eq!(spec.sandbox_name, "main");
    // play the child: copy stdin to stdout
    let data = read_fd(spec.stdin_fd, 5);
    assert_eq!(data, b"hello");
    write_fd(spec.stdout_fd, &data);
    close_fd(spec.stdin_fd);
    close_fd(spec.stdout_fd);
    close_fd(spec.stderr_fd);
    run.provide_spawn(&SpawnOutcome::Exited { exit_code: 0, cpu_time: Some(7), memory: Some(9) });
    let progress = run.advance().unwrap();
    let resp = match progress {
        Progress::Finished(resp) => resp,
        other => panic!("expected completion, got {:?}", kind_of(&other)),
    };
    assert_eq!(resp.id.hi, 1);
    assert_eq!(resp.id.lo, 2);
    assert_eq!(resp.actions.len(), 4);
    assert_eq!(resp.outputs.len(), 1);
    assert_eq!(resp.outputs[0].name, "result");
    assert_eq!(output_text(&resp.outputs[0]), "aGVsbG8=");
    match &resp.actions[3] {
        ActionResult::ExecuteCommand(cr) => {
            assert!(cr.spawn_error.is_none());
            assert_eq!(cr.exit_code, 0);
            assert_eq!(cr.cpu_time, Some(7));
            assert_eq!(cr.memory, Some(9));
        }
        _ => panic!("the last action must be the command"),
    }
}

fn kind_of(p: &Progress) -> &'static str {
    match p {
        Progress::NeedSandbox { .. } => "sandbox",
        Progress::NeedSpawn { .. } => "spawn",
        Progress::Finished(..) => "finished",
    }
}

fn output_text(o: &Output) -> String {
    match &o.data {
        OutputData::InlineBase64(s) => s.clone(),
    }
}

#[test]
fn pipe_carries_bytes_between_commands() {
    let req = InvokeRequest {
        steps: vec![
            Step {
                stage: 0,
                action: Action::CreatePipe { read: fid("r"), write: fid("w") },
                ext: Extensions::new(),
            },
            Step {
                stage: 0,
                action: Action::CreateFile { id: fid("tee"), readable: true, writeable: true },
                ext: Extensions::new(),
            },
            Step { stage: 0, action: Action::OpenNullFile { id: fid("nul") }, ext: Extensions::new() },
            Step {
                stage: 0,
                action: Action::CreateFile { id: fid("elog"), readable: false, writeable: true },
                ext: Extensions::new(),
            },
            sandbox_step(0, "box"),
            command_step(1, "box", vec!["/bin/producer"], "nul", "w", "elog"),
            command_step(2, "box", vec!["/bin/consumer"], "r", "tee", "elog"),
        ],
        inputs: vec![],
        outputs: vec![OutputRequest {
            name: "teed".to_string(),
            target: OutputRequestTarget::File(fid("tee")),
            ext: Extensions::new(),
        }],
        id: Uid { hi: 3, lo: 4 },
        ext: Extensions::new(),
    };
    let payload = b"PIPE PAYLOAD";
    let mut run = RequestRun::new(req, "/tmp/invoker-test-pipe", global()).unwrap();
    match run.advance().unwrap() {
        Progress::NeedSandbox { .. } => {}
        other => panic!("expected a sandbox request, got {:?}", kind_of(&other)),
    }
    run.provide_sandbox(true).unwrap();
    // producer writes the payload into the pipe's write end
    match run.advance().unwrap() {
        Progress::NeedSpawn { step_id, spec } => {
            assert_eq!(step_id, 5);
            write_fd(spec.stdout_fd, payload);
            close_fd(spec.stdin_fd);
            close_fd(spec.stdout_fd);
            close_fd(spec.stderr_fd);
        }
        other => panic!("expected the producer spawn, got {:?}", kind_of(&other)),
    }
    run.provide_spawn(&SpawnOutcome::Exited { exit_code: 0, cpu_time: None, memory: None });
    // consumer reads the payload from the read end and tees it to the file
    match run.advance().unwrap() {
        Progress::NeedSpawn { step_id, spec } => {
            assert_eq!(step_id, 6);
            let got = read_fd(spec.stdin_fd, payload.len());
            assert_eq!(got, payload);
            write_fd(spec.stdout_fd, &got);
            close_fd(spec.stdin_fd);
            close_fd(spec.stdout_fd);
            close_fd(spec.stderr_fd);
        }
        other => panic!("expected the consumer spawn, got {:?}", kind_of(&other)),
    }
    run.provide_spawn(&SpawnOutcome::Exited { exit_code: 0, cpu_time: None, memory: None });
    let resp = match run.advance().unwrap() {
        Progress::Finished(resp) => resp,
        other => panic!("expected completion, got {:?}", kind_of(&other)),
    };
    assert_eq!(resp.outputs.len(), 1);
    assert_eq!(resp.outputs[0].name, "teed");
    assert_eq!(output_text(&resp.outputs[0]), "UElQRSBQQVlMT0FE");
}

#[test]
fn spawn_failure_is_reported_per_command() {
    let req = InvokeRequest {
        steps: vec![
            Step { stage: 0, action: Action::OpenNullFile { id: fid("n") }, ext: Extensions::new() },
            Step {
                stage: 0,
                action: Action::CreateFile { id: fid("o"), readable: false, writeable: true },
                ext: Extensions::new(),
            },
            sandbox_step(0, "sb"),
            command_step(1, "sb", vec!["/does/not/exist"], "n", "o", "o"),
        ],
        inputs: vec![],
        outputs: vec![],
        id: Uid { hi: 5, lo: 6 },
        ext: Extensions::new(),
    };
    let mut run = RequestRun::new(req, "/tmp/invoker-test-spawnfail", global()).unwrap();
    match run.advance().unwrap() {
        Progress::NeedSandbox { .. } => {}
        other => panic!("expected a sandbox request, got {:?}", kind_of(&other)),
    }
    run.provide_sandbox(true).unwrap();
    match run.advance().unwrap() {
        Progress::NeedSpawn { spec, .. } => {
            assert_eq!(spec.path, "/does/not/exist");
            close_fd(spec.stdin_fd);
            close_fd(spec.stdout_fd);
            close_fd(spec.stderr_fd);
        }
        other => panic!("expected a spawn request, got {:?}", kind_of(&other)),
    }
    run.provide_spawn(&SpawnOutcome::SpawnFailed);
    let resp = match run.advance().unwrap() {
        Progress::Finished(resp) => resp,
        other => panic!("expected completion, got {:?}", kind_of(&other)),
    };
    // the request as a whole succeeds; the command carries the failure
    assert_eq!(resp.actions.len(), 4);
    match &resp.actions[3] {
        ActionResult::ExecuteCommand(cr) => {
            assert!(cr.spawn_error.is_some());
            assert_eq!(cr.exit_code, i64::MAX);
            assert_eq!(cr.cpu_time, None);
            assert_eq!(cr.memory, None);
        }
        _ => panic!("the last action must be the command"),
    }
}

#[test]
fn null_file_reads_empty() {
    let req = InvokeRequest {
        steps: vec![Step {
            stage: 0,
            action: Action::OpenNullFile { id: fid("nul") },
            ext: Extensions::new(),
        }],
        inputs: vec![],
        outputs: vec![OutputRequest {
            name: "empty".to_string(),
            target: OutputRequestTarget::File(fid("nul")),
            ext: Extensions::new(),
        }],
        id: Uid { hi: 8, lo: 8 },
        ext: Extensions::new(),
    };
    let mut run = RequestRun::new(req, "/tmp/invoker-test-null", global()).unwrap();
    let resp = match run.advance().unwrap() {
        Progress::Finished(resp) => resp,
        other => panic!("expected completion, got {:?}", kind_of(&other)),
    };
    assert_eq!(resp.outputs.len(), 1);
    assert_eq!(output_text(&resp.outputs[0]), "");
}

#[test]
fn base64_input_round_trips() {
    let req = InvokeRequest {
        steps: vec![],
        inputs: vec![Input {
            file_id: fid("buf"),
            source: InputSource::InlineBase64 { data: "aGVsbG8=".to_string() },
            ext: Extensions::new(),
        }],
        outputs: vec![OutputRequest {
            name: "back".to_string(),
            target: OutputRequestTarget::File(fid("buf")),
            ext: Extensions::new(),
        }],
        id: Uid { hi: 10, lo: 11 },
        ext: Extensions::new(),
    };
    let mut run = RequestRun::new(req, "/tmp/invoker-test-b64", global()).unwrap();
    let resp = match run.advance().unwrap() {
        Progress::Finished(resp) => resp,
        other => panic!("expected completion, got {:?}", kind_of(&other)),
    };
    assert_eq!(output_text(&resp.outputs[0]), "aGVsbG8=");
}

#[test]
fn non_empty_extensions_are_rejected() {
    let req = InvokeRequest {
        steps: vec![],
        inputs: vec![],
        outputs: vec![],
        id: Uid { hi: 0, lo: 0 },
        ext: Extensions(vec![invoker::api::ExtEntry {
            key: "trace".to_string(),
            value: "1".to_string(),
        }]),
    };
    match RequestRun::new(req, "/tmp/invoker-test-ext", global()) {
        Err(Error::NonEmptyExtensions) => {}
        _ => panic!("a request with extensions must be rejected before any action"),
    }
}

#[test]
fn duplicate_file_ids_are_refused() {
    let req = InvokeRequest {
        steps: vec![
            Step { stage: 0, action: Action::OpenNullFile { id: fid("x") }, ext: Extensions::new() },
            Step { stage: 0, action: Action::OpenNullFile { id: fid("x") }, ext: Extensions::new() },
        ],
        inputs: vec![],
        outputs: vec![],
        id: Uid { hi: 1, lo: 1 },
        ext: Extensions::new(),
    };
    let mut run = RequestRun::new(req, "/tmp/invoker-test-dup", global()).unwrap();
    match run.advance() {
        Err(Error::DuplicateFileId) => {}
        other => panic!("a duplicate binding must be refused, got {:?}", other.is_ok()),
    }
}

#[test]
fn outputs_keep_request_order_and_names() {
    let req = InvokeRequest {
        steps: vec![
            Step { stage: 0, action: Action::OpenNullFile { id: fid("a") }, ext: Extensions::new() },
            Step { stage: 0, action: Action::OpenNullFile { id: fid("b") }, ext: Extensions::new() },
        ],
        inputs: vec![],
        outputs: vec![
            OutputRequest {
                name: "second".to_string(),
                target: OutputRequestTarget::File(fid("b")),
                ext: Extensions::new(),
            },
            OutputRequest {
                name: "first".to_string(),
                target: OutputRequestTarget::File(fid("a")),
                ext: Extensions::new(),
            },
        ],
        id: Uid { hi: 2, lo: 2 },
        ext: Extensions::new(),
    };
    let mut run = RequestRun::new(req, "/tmp/invoker-test-order", global()).unwrap();
    let resp = match run.advance().unwrap() {
        Progress::Finished(resp) => resp,
        other => panic!("expected completion, got {:?}", kind_of(&other)),
    };
    assert_eq!(resp.outputs.len(), 2);
    assert_eq!(resp.outputs[0].name, "second");
    assert_eq!(resp.outputs[1].name, "first");
}

#[test]
fn duplicate_input_ids_are_refused_at_construction() {
    let req = InvokeRequest {
        steps: vec![],
        inputs: vec![
            Input {
                file_id: fid("same"),
                source: InputSource::InlineString { data: "a".to_string() },
                ext: Extensions::new(),
            },
            Input {
                file_id: fid("same"),
                source: InputSource::InlineString { data: "b".to_string() },
                ext: Extensions::new(),
            },
        ],
        outputs: vec![],
        id: Uid { hi: 12, lo: 12 },
        ext: Extensions::new(),
    };
    match RequestRun::new(req, "/tmp/invoker-test-dupinput", global()) {
        Err(Error::DuplicateFileId) => {}
        _ => panic!("two inputs binding one id must be refused"),
    }
}

#[test]
fn undecodable_base64_input_is_refused_at_construction() {
    let req = InvokeRequest {
        steps: vec![],
        inputs: vec![Input {
            file_id: fid("bad"),
            source: InputSource::InlineBase64 { data: "!!!".to_string() },
            ext: Extensions::new(),
        }],
        outputs: vec![],
        id: Uid { hi: 13, lo: 13 },
        ext: Extensions::new(),
    };
    match RequestRun::new(req, "/tmp/invoker-test-badb64", global()) {
        Err(Error::InvalidBase64) => {}
        _ => panic!("inline base64 that does not decode must be refused"),
    }
}
