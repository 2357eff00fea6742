use bestbind::program::{
    dest_is_directory, detect_program, get_program_args, get_program_name, git_bind_env,
    supports_native_bind, Program,
};

#[test]
fn program_names() {
    assert_eq!(get_program_name(Program::Rsync), "rsync");
    assert_eq!(get_program_name(Program::Wget), "wget");
    assert_eq!(get_program_name(Program::Curl), "curl");
    assert_eq!(get_program_name(Program::Git), "git");
}

#[test]
fn per_program_capabilities() {
    assert!(supports_native_bind(Program::Rsync));
    assert!(supports_native_bind(Program::Curl));
    assert!(supports_native_bind(Program::Wget));
    assert!(!supports_native_bind(Program::Git));
    assert!(dest_is_directory(Program::Git));
    assert!(!dest_is_directory(Program::Rsync));
    assert!(!dest_is_directory(Program::Curl));
    assert!(!dest_is_directory(Program::Wget));
}

#[test]
fn detects_rsync_schemes() {
    assert_eq!(detect_program("rsync://mirror/path"), Some(Program::Rsync));
    assert_eq!(detect_program("mirror.example::module/file"), Some(Program::Rsync));
    assert_eq!(detect_program("RSYNC://UPPER/CASE"), Some(Program::Rsync));
}

#[test]
fn detects_http_fetch_and_clone() {
    assert_eq!(detect_program("http://example.com/file.iso"), Some(Program::Curl));
    assert_eq!(detect_program("https://example.com/file.iso"), Some(Program::Curl));
    assert_eq!(detect_program("https://example.com/repo.git"), Some(Program::Git));
    assert_eq!(detect_program("HTTPS://EXAMPLE.COM/REPO.GIT"), Some(Program::Git));
    assert_eq!(detect_program("git://example.com/repo"), Some(Program::Git));
}

#[test]
fn detection_fails_on_unknown_scheme() {
    assert_eq!(detect_program("ftp://example.com/file"), None);
    assert_eq!(detect_program("just-a-name"), None);
}

#[test]
fn rsync_args_with_binding() {
    let extra = vec!["--no-motd".to_string()];
    let args = get_program_args(
        Program::Rsync,
        &extra,
        "rsync://mirror/mod/file",
        "/tmp/scratch",
        Some("192.168.1.7"),
    );
    assert_eq!(
        args,
        vec![
            "-vP",
            "-rLptgoD",
            "--inplace",
            "--address",
            "192.168.1.7",
            "rsync://mirror/mod/file",
            "/tmp/scratch",
            "--no-motd",
        ]
    );
}

#[test]
fn rsync_args_without_binding() {
    let args = get_program_args(Program::Rsync, &[], "rsync://m/f", "/tmp/s", None);
    assert_eq!(args, vec!["-vP", "-rLptgoD", "--inplace", "rsync://m/f", "/tmp/s"]);
}

#[test]
fn curl_args() {
    let args = get_program_args(
        Program::Curl,
        &[],
        "https://example.com/f",
        "/tmp/s",
        Some("10.0.0.2"),
    );
    assert_eq!(
        args,
        vec!["-o", "/tmp/s", "--interface", "10.0.0.2", "https://example.com/f"]
    );
    let unbound = get_program_args(Program::Curl, &[], "https://example.com/f", "/tmp/s", None);
    assert_eq!(unbound, vec!["-o", "/tmp/s", "https://example.com/f"]);
}

#[test]
fn wget_args() {
    let extra = vec!["-q".to_string()];
    let args = get_program_args(
        Program::Wget,
        &extra,
        "http://example.com/f",
        "/tmp/s",
        Some("10.0.0.3"),
    );
    assert_eq!(
        args,
        vec!["-O", "/tmp/s", "--bind-address", "10.0.0.3", "http://example.com/f", "-q"]
    );
}

#[test]
fn git_args_ignore_binding_and_extra() {
    let extra = vec!["--depth=1".to_string()];
    let args = get_program_args(
        Program::Git,
        &extra,
        "https://example.com/repo.git",
        "/tmp/clone",
        Some("10.0.0.4"),
    );
    assert_eq!(args, vec!["clone", "--bare", "https://example.com/repo.git", "/tmp/clone"]);
}

#[test]
fn git_binding_environment() {
    let env = git_bind_env("/usr/lib/bestbind/libbinder.so", "192.168.1.9");
    assert_eq!(
        env,
        vec![
            ("LD_PRELOAD".to_string(), "/usr/lib/bestbind/libbinder.so".to_string()),
            ("BIND_ADDRESS".to_string(), "192.168.1.9".to_string()),
        ]
    );
}
