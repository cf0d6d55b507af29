use invoker::api::{
    Action, Command, EnvVarValue, EnvironmentVariable, Extensions, FileId, InvokeRequest, Limits,
    SandboxSettings, Step, Stdio, Uid, VolumeSettings,
};
use invoker::interp::{order_in_phase, Interpreter};

fn fid(s: &str) -> FileId {
    FileId(s.to_string())
}

fn null_action(id: &str) -> Action {
    Action::OpenNullFile { id: fid(id) }
}

fn sandbox_action(name: &str) -> Action {
    Action::CreateSandbox(SandboxSettings {
        limits: Limits {
            memory: 1024,
            time: 1000,
            process_count: None,
            work_dir_size: None,
            ext: Extensions::new(),
        },
        name: name.to_string(),
        base_image: "/".to_string(),
        expose: vec![],
        work_dir: "/work".to_string(),
        ext: Extensions::new(),
    })
}

fn command_action(sandbox: &str) -> Action {
    Action::ExecuteCommand(Command {
        sandbox_name: sandbox.to_string(),
        argv: vec!["/bin/true".to_string()],
        env: vec![],
        cwd: "/".to_string(),
        stdio: Stdio {
            stdin: fid("a"),
            stdout: fid("b"),
            stderr: fid("c"),
            ext: Extensions::new(),
        },
        ext: Extensions::new(),
    })
}

fn step(stage: u32, action: Action) -> Step {
    Step { stage, action, ext: Extensions::new() }
}

fn request(steps: Vec<Step>) -> InvokeRequest {
    InvokeRequest {
        steps,
        inputs: vec![],
        outputs: vec![],
        id: Uid { hi: 7, lo: 9 },
        ext: Extensions::new(),
    }
}

#[test]
fn classes_order_resources_before_sandboxes_before_commands() {
    assert_eq!(order_in_phase(&null_action("x")), 0);
    assert_eq!(
        order_in_phase(&Action::CreateVolume(VolumeSettings {
            name: "v".to_string(),
            limit: None,
            ext: Extensions::new(),
        })),
        0
    );
    assert_eq!(
        order_in_phase(&Action::CreatePipe { read: fid("r"), write: fid("w") }),
        0
    );
    assert_eq!(order_in_phase(&sandbox_action("s")), 1);
    assert_eq!(order_in_phase(&command_action("s")), 2);
}

#[test]
fn poll_emits_classes_in_order_within_a_stage() {
    // one stage holding a command, a sandbox and a resource, in request order
    let req = request(vec![
        step(0, command_action("s")),
        step(0, sandbox_action("s")),
        step(0, null_action("n")),
    ]);
    let mut interp = Interpreter::new(&req);
    let ready = interp.poll(&vec![]);
    assert_eq!(ready, vec![2]);
    let ready = interp.poll(&vec![2]);
    assert_eq!(ready, vec![1]);
    let ready = interp.poll(&vec![1]);
    assert_eq!(ready, vec![0]);
    assert!(!interp.is_completed());
    let ready = interp.poll(&vec![0]);
    assert_eq!(ready, Vec::<usize>::new());
    assert!(interp.is_completed());
}

#[test]
fn poll_holds_later_stages_back() {
    let req = request(vec![
        step(1, null_action("x")),
        step(0, null_action("y")),
        step(0, null_action("z")),
    ]);
    let mut interp = Interpreter::new(&req);
    let ready = interp.poll(&vec![]);
    assert_eq!(ready, vec![1, 2]);
    // finishing only one stage-0 step does not release stage 1
    let ready = interp.poll(&vec![1]);
    assert_eq!(ready, vec![2]);
    let ready = interp.poll(&vec![2]);
    assert_eq!(ready, vec![0]);
}

#[test]
fn poll_is_idempotent_for_reported_steps() {
    let req = request(vec![
        step(0, null_action("x")),
        step(0, null_action("y")),
        step(1, null_action("z")),
    ]);
    let mut interp = Interpreter::new(&req);
    let first = interp.poll(&vec![]);
    assert_eq!(first, vec![0, 1]);
    // reporting nothing new returns the same ready set, nothing re-emitted
    let again = interp.poll(&vec![]);
    assert_eq!(again, first);
    let after = interp.poll(&vec![0]);
    assert_eq!(after, vec![1]);
    // a duplicate report of a superset changes nothing
    let after_again = interp.poll(&vec![0]);
    assert_eq!(after_again, vec![1]);
}

#[test]
fn empty_request_is_complete_at_once() {
    let req = request(vec![]);
    let mut interp = Interpreter::new(&req);
    assert!(interp.is_completed());
    assert_eq!(interp.poll(&vec![]), Vec::<usize>::new());
}
