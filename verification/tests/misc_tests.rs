use invoker::api::{Extensions, InvokeRequest, Uid};
use invoker::config::SleepConfig;
use invoker::error::Error;
use invoker::shim::{check_shim_reply, ShimResponse};
use invoker::toolchain::{ImageConfig, PulledToolchain, ToolchainCache};
use invoker::valuer::{JudgeLogKind, ProblemInfo, SubtaskId, SubtaskVisibleComponents};
use invoker::writer::Writer;

#[test]
fn sleep_config_defaults() {
    let c: SleepConfig = Default::default();
    assert_eq!(c.max_ms, 2000);
    assert_eq!(c.step_ms, 500);
    assert_eq!(SleepConfig::default_max(), 2000);
    assert_eq!(SleepConfig::default_step(), 500);
}

#[test]
fn writer_renders_sections() {
    let mut w = Writer::new();
    let g = w.begin("globals");
    w.write_key_value("request-id", "abc");
    w.finish(g);
    assert_eq!(w.into_inner(), "globals {\n    request-id: abc\n}\n");
}

#[test]
fn shim_status_follows_body() {
    let ok = ShimResponse::Result(InvokeRequest {
        steps: vec![],
        inputs: vec![],
        outputs: vec![],
        id: Uid { hi: 0, lo: 0 },
        ext: Extensions::new(),
    });
    assert_eq!(ok.http_status(), 200);
    let rej = ShimResponse::Error("no".to_string());
    assert_eq!(rej.http_status(), 400);
}

#[test]
fn shim_reply_status_must_match() {
    let rej = ShimResponse::Error("no".to_string());
    assert!(check_shim_reply(400, rej).is_ok());
    let rej = ShimResponse::Error("no".to_string());
    assert!(matches!(check_shim_reply(200, rej), Err(Error::ShimStatusMismatch)));
}

#[test]
fn env_items_split_at_first_separator() {
    let kv = ImageConfig::parse_env_item("PATH=/usr/bin:/bin").unwrap();
    assert_eq!(kv.0, "PATH");
    assert_eq!(kv.1, "/usr/bin:/bin");
    let kv = ImageConfig::parse_env_item("A=b=c").unwrap();
    assert_eq!(kv.0, "A");
    assert_eq!(kv.1, "b=c");
    assert!(ImageConfig::parse_env_item("NOEQ").is_none());
}

#[test]
fn run_config_requires_separators() {
    let good = vec!["A=1".to_string(), "B=2".to_string()];
    let cfg = ImageConfig::from_run_config(&good).unwrap();
    assert_eq!(cfg.environment.len(), 2);
    let bad = vec!["A=1".to_string(), "oops".to_string()];
    assert!(matches!(ImageConfig::from_run_config(&bad), Err(Error::MalformedEnvEntry)));
}

#[test]
fn image_env_later_pairs_override() {
    let tc = PulledToolchain {
        path: "dGM=".to_string(),
        image_config: ImageConfig {
            environment: vec![
                ("A".to_string(), "1".to_string()),
                ("B".to_string(), "2".to_string()),
                ("A".to_string(), "3".to_string()),
            ],
        },
    };
    let env = tc.get_env();
    assert_eq!(env.len(), 2);
    assert_eq!(env[0], ("A".to_string(), "3".to_string()));
    assert_eq!(env[1], ("B".to_string(), "2".to_string()));
}

#[test]
fn toolchain_dir_name_is_base64() {
    assert_eq!(invoker::toolchain::toolchain_dir_name("gcc:12"), "Z2NjOjEy");
}

#[test]
fn toolchain_cache_remembers_images() {
    let mut cache = ToolchainCache::new();
    let image = "gcc:12".to_string();
    assert!(cache.lookup(&image).is_none());
    cache.insert(
        &image,
        PulledToolchain {
            path: "Z2NjOjEy".to_string(),
            image_config: ImageConfig { environment: vec![] },
        },
    );
    let hit = cache.lookup(&image).unwrap();
    assert_eq!(hit.path, "Z2NjOjEy");
}

#[test]
fn valuer_components() {
    let score = SubtaskVisibleComponents::score();
    assert_eq!(score.bits, 1);
    assert!(score.contains(SubtaskVisibleComponents::score()));
    let none = SubtaskVisibleComponents { bits: 0 };
    assert!(!none.contains(score));
    assert_eq!(SubtaskId(3), SubtaskId(3));
    assert_ne!(JudgeLogKind::Full, JudgeLogKind::Contestant);
    assert_eq!(ProblemInfo { test_count: 5 }.test_count, 5);
}
