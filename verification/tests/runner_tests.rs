use bestbind::bench::Target;
use bestbind::config::ConfigError;
use bestbind::program::Program;
use bestbind::runner::{
    confirm_image, container_name, docker_image_inspect_args, docker_kill_args, docker_pull_args,
    DockerFormatRunner, IPFormatRunner, FORCED_KILL_EXIT_CODE,
};

fn target(network: &str) -> Target {
    Target { network: network.to_string(), comment: "test".to_string() }
}

#[test]
fn container_names_are_fresh_and_well_formed() {
    let a = container_name();
    let b = container_name();
    assert_eq!(a.len(), "bestbind-".len() + 16);
    assert!(a.starts_with("bestbind-"));
    assert!(a["bestbind-".len()..].chars().all(|c| c.is_ascii_alphanumeric()));
    assert_ne!(a, b);
}

#[test]
fn create_validates_addresses_before_any_run() {
    // A malformed address is rejected at construction time.
    let r = IPFormatRunner::create(
        vec![target("1.2.3.4"), target("not-an-address")],
        vec![],
        Program::Curl,
        "https://example.com/f".to_string(),
        None,
    );
    assert!(matches!(r, Err(ConfigError::InvalidBindingAddress)));
}

#[test]
fn create_accepts_valid_addresses() {
    let r = IPFormatRunner::create(
        vec![target("1.2.3.4"), target("::1")],
        vec![],
        Program::Curl,
        "https://example.com/f".to_string(),
        None,
    );
    let runner = r.unwrap();
    assert_eq!(runner.uses().len(), 2);
}

#[test]
fn clone_tool_needs_the_interposition_library() {
    let missing = IPFormatRunner::create(
        vec![target("1.2.3.4")],
        vec![],
        Program::Git,
        "https://example.com/r.git".to_string(),
        None,
    );
    assert!(matches!(missing, Err(ConfigError::BinderLibraryMissing)));
    let found = IPFormatRunner::create(
        vec![target("1.2.3.4")],
        vec![],
        Program::Git,
        "https://example.com/r.git".to_string(),
        Some("/usr/lib/bestbind/libbinder.so".to_string()),
    );
    assert!(found.is_ok());
}

#[test]
fn local_bind_plan_uses_the_native_flag() {
    let runner = IPFormatRunner::create(
        vec![target("192.168.1.7")],
        vec![],
        Program::Curl,
        "https://example.com/f".to_string(),
        None,
    )
    .unwrap();
    let plan = runner.run_plan("192.168.1.7", "/tmp/s");
    assert_eq!(plan.program, "curl");
    assert_eq!(plan.args, vec!["-o", "/tmp/s", "--interface", "192.168.1.7", "https://example.com/f"]);
    assert!(plan.env.is_empty());
    assert!(plan.own_process_group);
}

#[test]
fn local_bind_plan_for_clone_goes_through_the_environment() {
    let runner = IPFormatRunner::create(
        vec![target("192.168.1.7")],
        vec![],
        Program::Git,
        "https://example.com/r.git".to_string(),
        Some("/opt/libbinder.so".to_string()),
    )
    .unwrap();
    let plan = runner.run_plan("192.168.1.7", "/tmp/clone");
    assert_eq!(plan.program, "git");
    assert_eq!(plan.args, vec!["clone", "--bare", "https://example.com/r.git", "/tmp/clone"]);
    assert_eq!(
        plan.env,
        vec![
            ("LD_PRELOAD".to_string(), "/opt/libbinder.so".to_string()),
            ("BIND_ADDRESS".to_string(), "192.168.1.7".to_string()),
        ]
    );
}

#[test]
fn docker_plan_runs_the_tool_inside_the_target_network() {
    let runner = DockerFormatRunner::create(
        vec![target("net-a")],
        vec![],
        Program::Curl,
        "https://example.com/f".to_string(),
        "podman".to_string(),
        "alpine".to_string(),
    );
    let (plan, name) = runner.run_plan("net-a", "/tmp/s");
    assert_eq!(plan.program, "podman");
    assert!(name.starts_with("bestbind-"));
    let expected_head = vec![
        "run".to_string(),
        "--name".to_string(),
        name.clone(),
        "--rm".to_string(),
        "--network".to_string(),
        "net-a".to_string(),
        "-v".to_string(),
        "/tmp/s:/tmp/s".to_string(),
        "alpine".to_string(),
        "curl".to_string(),
    ];
    assert_eq!(&plan.args[..10], &expected_head[..]);
    assert_eq!(&plan.args[10..], &["-o", "/tmp/s", "https://example.com/f"]);
    assert!(plan.env.is_empty());
    assert!(!plan.own_process_group);
}

#[test]
fn runtime_subcommand_vectors() {
    assert_eq!(docker_image_inspect_args("alpine"), vec!["image", "inspect", "alpine"]);
    assert_eq!(docker_pull_args("alpine"), vec!["pull", "alpine"]);
    assert_eq!(docker_kill_args("bestbind-abc"), vec!["kill", "bestbind-abc"]);
}

#[test]
fn image_availability_protocol() {
    assert!(confirm_image(true, false).is_ok());
    assert!(confirm_image(false, true).is_ok());
    assert!(confirm_image(true, true).is_ok());
    assert_eq!(confirm_image(false, false), Err(ConfigError::ImageUnavailable));
}

#[test]
fn forced_kill_reports_the_signal_in_the_exit_code() {
    assert_eq!(FORCED_KILL_EXIT_CODE, 137);
}
