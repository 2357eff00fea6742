use bestbind::bench::Target;
use bestbind::config::{
    binder_search_paths, config_search_paths, default_docker, parse_extra, parse_format,
    select_profile, ConfigError, Format, Profile,
};

fn profile(format: Format, image: &str) -> Profile {
    Profile {
        format,
        image: image.to_string(),
        docker: "docker".to_string(),
        uses: vec![Target { network: "1.2.3.4".to_string(), comment: "main".to_string() }],
    }
}

#[test]
fn format_names_are_case_insensitive() {
    assert_eq!(parse_format("ip"), Ok(Format::IP));
    assert_eq!(parse_format("IP"), Ok(Format::IP));
    assert_eq!(parse_format("docker"), Ok(Format::Docker));
    assert_eq!(parse_format("dOcKeR"), Ok(Format::Docker));
}

#[test]
fn unknown_format_is_refused() {
    assert_eq!(parse_format("tcp"), Err(ConfigError::UnknownFormat));
    assert_eq!(parse_format(""), Err(ConfigError::UnknownFormat));
}

#[test]
fn default_runtime_command() {
    assert_eq!(default_docker(), "docker");
}

#[test]
fn selects_the_named_profile() {
    let mut profiles = vec![
        ("default".to_string(), profile(Format::IP, "")),
        ("isolated".to_string(), profile(Format::Docker, "alpine")),
    ];
    let p = select_profile(&mut profiles, "isolated").unwrap();
    assert_eq!(p.format, Format::Docker);
    assert_eq!(p.image, "alpine");
}

#[test]
fn missing_profile_is_an_error() {
    let mut profiles = vec![("default".to_string(), profile(Format::IP, ""))];
    assert!(matches!(
        select_profile(&mut profiles, "other"),
        Err(ConfigError::ProfileNotFound)
    ));
}

#[test]
fn docker_profile_needs_an_image() {
    let mut profiles = vec![("default".to_string(), profile(Format::Docker, ""))];
    assert!(matches!(
        select_profile(&mut profiles, "default"),
        Err(ConfigError::MissingDockerImage)
    ));
}

#[test]
fn first_profile_under_a_name_wins() {
    let mut profiles = vec![
        ("default".to_string(), profile(Format::IP, "")),
        ("default".to_string(), profile(Format::Docker, "alpine")),
    ];
    let p = select_profile(&mut profiles, "default").unwrap();
    assert_eq!(p.format, Format::IP);
}

#[test]
fn explicit_config_path_stands_alone() {
    let paths = config_search_paths(Some("/etc/custom.conf"), Some("/xdg/bestbind.conf"), Some("/home/u"));
    assert_eq!(paths, vec!["/etc/custom.conf"]);
}

#[test]
fn config_search_order() {
    let paths = config_search_paths(None, Some("/xdg/bestbind.conf"), Some("/home/u"));
    assert_eq!(
        paths,
        vec!["/xdg/bestbind.conf", "/home/u/.bestbind.conf", "/etc/bestbind.conf"]
    );
    let no_xdg = config_search_paths(None, None, Some("/home/u"));
    assert_eq!(no_xdg, vec!["/home/u/.bestbind.conf", "/etc/bestbind.conf"]);
    let bare = config_search_paths(None, None, None);
    assert_eq!(bare, vec!["/etc/bestbind.conf"]);
}

#[test]
fn binder_search_order() {
    assert_eq!(binder_search_paths(None), vec!["/usr/lib/bestbind/libbinder.so"]);
    assert_eq!(
        binder_search_paths(Some("/opt/lib/libbinder.so")),
        vec!["/usr/lib/bestbind/libbinder.so", "/opt/lib/libbinder.so"]
    );
}

#[test]
fn extra_arguments_split_as_shell_words() {
    assert_eq!(parse_extra("-q --depth 1").unwrap(), vec!["-q", "--depth", "1"]);
    assert_eq!(parse_extra("a 'b c'").unwrap(), vec!["a", "b c"]);
    assert_eq!(parse_extra("").unwrap(), Vec::<String>::new());
}

#[test]
fn unparseable_quoting_is_an_error() {
    assert_eq!(parse_extra("\"unclosed"), Err(ConfigError::BadExtraArgs));
}

#[test]
fn every_error_has_a_message() {
    let errors = [
        ConfigError::InvalidBindingAddress,
        ConfigError::BinderLibraryMissing,
        ConfigError::ProfileNotFound,
        ConfigError::MissingDockerImage,
        ConfigError::ImageUnavailable,
        ConfigError::BadExtraArgs,
        ConfigError::UnknownFormat,
    ];
    for e in errors {
        assert!(!e.message().is_empty());
    }
}
