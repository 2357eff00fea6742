//! Configuration: run formats, profiles, the configuration-file search
//! order, the interposition-library search order, and the splitting of
//! extra tool arguments.
//!
//! Reading files, environment variables and home directories is the outer
//! layer's work; everything here is the decision logic those reads feed.

use crate::bench::Target;
use crate::program::strings_view;
use crate::text::{ascii_lower, bytes_eq, spec_ascii_lower};
use vstd::prelude::*;
use vstd::string::StringSliceAdditionalSpecFns;

verus! {

/// How transfers are bound to a candidate network: directly to a local IP
/// address, or inside an isolated container network.
#[derive(Clone, Copy, Debug, PartialEq, Eq, Structural)]
pub enum Format {
    IP,
    Docker,
}

/// A configuration error. Every one of these is fatal and is raised before
/// any transfer starts.
#[derive(Clone, Copy, Debug, PartialEq, Eq, Structural)]
pub enum ConfigError {
    /// A binding identifier is not a syntactically valid IP address.
    InvalidBindingAddress,
    /// The clone tool needs the interposition library and none was found.
    BinderLibraryMissing,
    /// The named profile does not exist in the configuration.
    ProfileNotFound,
    /// The isolated-network format needs an image name and none was given.
    MissingDockerImage,
    /// The container image is absent locally and could not be pulled.
    ImageUnavailable,
    /// The extra tool arguments are not parseable shell words.
    BadExtraArgs,
    /// The format name is neither of the two known formats.
    UnknownFormat,
}

/// The account `ConfigError::message` gives of each error.
pub open spec fn spec_message(e: ConfigError) -> Seq<char> {
    match e {
        ConfigError::InvalidBindingAddress => "Invalid IP address"@,
        ConfigError::BinderLibraryMissing => "libbinder.so not found. Please put it in /usr/lib/bestbind/ or set LIBBINDER_PATH environment variable."@,
        ConfigError::ProfileNotFound => "Profile not found in config file"@,
        ConfigError::MissingDockerImage => "Docker format requires 'image' field in profile"@,
        ConfigError::ImageUnavailable => "Failed to inspect or pull docker image"@,
        ConfigError::BadExtraArgs => "Failed to parse extra arguments"@,
        ConfigError::UnknownFormat => "Unknown format. Supported formats: ip, docker"@,
    }
}

impl ConfigError {
    /// A human-readable account of the error.
    pub fn message(&self) -> (m: String)
        ensures
            m@ == spec_message(*self),
    {
        let m = match self {
            ConfigError::InvalidBindingAddress => "Invalid IP address",
            ConfigError::BinderLibraryMissing => "libbinder.so not found. Please put it in /usr/lib/bestbind/ or set LIBBINDER_PATH environment variable.",
            ConfigError::ProfileNotFound => "Profile not found in config file",
            ConfigError::MissingDockerImage => "Docker format requires 'image' field in profile",
            ConfigError::ImageUnavailable => "Failed to inspect or pull docker image",
            ConfigError::BadExtraArgs => "Failed to parse extra arguments",
            ConfigError::UnknownFormat => "Unknown format. Supported formats: ip, docker",
        };
        m.to_owned()
    }
}

/// One profile of the configuration: the binding format, the container
/// image and runtime command for the isolated-network format, and the
/// candidate bindings to measure.
#[derive(Debug)]
pub struct Profile {
    pub format: Format,
    pub image: String,
    pub docker: String,
    pub uses: Vec<Target>,
}

/// The format a configuration names, judged on its ASCII-lowercased bytes:
/// `ip` or `docker`, anything else refused.
pub open spec fn spec_parse_format(s: Seq<u8>) -> Result<Format, ConfigError> {
    let l = spec_ascii_lower(s);
    if l == "ip".spec_bytes() {
        Ok(Format::IP)
    } else if l == "docker".spec_bytes() {
        Ok(Format::Docker)
    } else {
        Err(ConfigError::UnknownFormat)
    }
}

/// Parses a format name, case-insensitively.
pub fn parse_format(s: &str) -> (r: Result<Format, ConfigError>)
    ensures
        r == spec_parse_format(s.spec_bytes()),
{
    let l = ascii_lower(s.as_bytes());
    if bytes_eq(l.as_slice(), "ip".as_bytes()) {
        Ok(Format::IP)
    } else if bytes_eq(l.as_slice(), "docker".as_bytes()) {
        Ok(Format::Docker)
    } else {
        Err(ConfigError::UnknownFormat)
    }
}

/// The default container runtime command.
pub fn default_docker() -> (d: String)
    ensures
        d@ == "docker"@,
{
    "docker".to_owned()
}

/// What selecting a profile yields once it is found: the profile itself,
/// unless it asks for the isolated-network format without naming an image.
pub open spec fn spec_check_profile(p: Profile) -> Result<Profile, ConfigError> {
    if p.format is Docker && p.image@.len() == 0 {
        Err(ConfigError::MissingDockerImage)
    } else {
        Ok(p)
    }
}

/// Selects the named profile: the first entry under that name, refused if
/// it asks for the isolated-network format without an image; an error when
/// no entry carries the name.
pub fn select_profile(profiles: &mut Vec<(String, Profile)>, name: &str) -> (r: Result<
    Profile,
    ConfigError,
>)
    ensures
        (forall|j: int|
            0 <= j < old(profiles)@.len() ==> (#[trigger] old(profiles)@[j]).0@ != name@) ==> r
            == Err::<Profile, ConfigError>(ConfigError::ProfileNotFound),
        forall|i: int|
            (0 <= i < old(profiles)@.len() && (#[trigger] old(profiles)@[i]).0@ == name@ && (
            forall|j: int| 0 <= j < i ==> (#[trigger] old(profiles)@[j]).0@ != name@)) ==> r
                == spec_check_profile(old(profiles)@[i].1),
{
    let n = profiles.len();
    let mut i: usize = 0;
    while i < n
        invariant
            profiles@ == old(profiles)@,
            n == profiles@.len(),
            0 <= i <= n,
            forall|j: int| 0 <= j < i ==> (#[trigger] profiles@[j]).0@ != name@,
        decreases n - i,
    {
        if bytes_eq(profiles[i].0.as_str().as_bytes(), name.as_bytes()) {
            proof {
                // Equal UTF-8 bytes mean equal character sequences.
                vstd::utf8::encode_utf8_decode_utf8(profiles@[i as int].0@);
                vstd::utf8::encode_utf8_decode_utf8(name@);
                assert(profiles@[i as int].0@ == name@);
                // This is the first entry under the name, and the only one
                // the contract can speak of.
                assert forall|i2: int|
                    0 <= i2 < profiles@.len() && (#[trigger] profiles@[i2]).0@ == name@ && (
                    forall|j: int| 0 <= j < i2 ==> (#[trigger] profiles@[j]).0@ != name@) implies i2
                    == i by {
                    if i2 > i {
                        assert(profiles@[i as int].0@ != name@);
                    }
                }
            }
            let ghost entry = profiles@;
            let (_, p) = profiles.remove(i);
            proof {
                assert(p == entry[i as int].1);
            }
            if matches!(p.format, Format::Docker) && p.image.as_str().is_empty() {
                return Err(ConfigError::MissingDockerImage);
            }
            return Ok(p);
        }
        i = i + 1;
    }
    Err(ConfigError::ProfileNotFound)
}

/// The configuration files tried, in order: an explicitly given path alone;
/// otherwise the XDG configuration file (when the base directories yield
/// one), then a dotfile under the home directory (when there is one), then
/// the system-wide file.
pub open spec fn spec_config_search_paths(
    explicit: Option<Seq<char>>,
    xdg_config: Option<Seq<char>>,
    home_dir: Option<Seq<char>>,
) -> Seq<Seq<char>> {
    match explicit {
        Some(c) => seq![c],
        None => (match xdg_config {
            Some(x) => seq![x],
            None => Seq::empty(),
        }) + (match home_dir {
            Some(h) => seq![h + "/.bestbind.conf"@],
            None => Seq::empty(),
        }) + seq!["/etc/bestbind.conf"@],
    }
}

/// Builds the ordered list of configuration files to try.
pub fn config_search_paths(
    explicit: Option<&str>,
    xdg_config: Option<&str>,
    home_dir: Option<&str>,
) -> (paths: Vec<String>)
    ensures
        strings_view(paths@) == spec_config_search_paths(
            match explicit {
                Some(c) => Some(c@),
                None => None,
            },
            match xdg_config {
                Some(x) => Some(x@),
                None => None,
            },
            match home_dir {
                Some(h) => Some(h@),
                None => None,
            },
        ),
{
    let mut paths: Vec<String> = Vec::new();
    if let Some(c) = explicit {
        paths.push(c.to_owned());
    } else {
        if let Some(x) = xdg_config {
            paths.push(x.to_owned());
        }
        if let Some(h) = home_dir {
            paths.push(h.to_owned().concat("/.bestbind.conf"));
        }
        paths.push("/etc/bestbind.conf".to_owned());
    }
    proof {
        assert(strings_view(paths@) =~~= spec_config_search_paths(
            match explicit {
                Some(c) => Some(c@),
                None => None,
            },
            match xdg_config {
                Some(x) => Some(x@),
                None => None,
            },
            match home_dir {
                Some(h) => Some(h@),
                None => None,
            },
        ));
    }
    paths
}

/// Where the interposition library is looked for, in order: the well-known
/// system path, then the environment override when one is set. The first
/// existing file wins.
pub open spec fn spec_binder_search_paths(env_override: Option<Seq<char>>) -> Seq<Seq<char>> {
    seq!["/usr/lib/bestbind/libbinder.so"@] + (match env_override {
        Some(p) => seq![p],
        None => Seq::empty(),
    })
}

/// Builds the ordered list of interposition-library paths to try.
pub fn binder_search_paths(env_override: Option<&str>) -> (paths: Vec<String>)
    ensures
        strings_view(paths@) == spec_binder_search_paths(
            match env_override {
                Some(p) => Some(p@),
                None => None,
            },
        ),
{
    let mut paths: Vec<String> = Vec::new();
    paths.push("/usr/lib/bestbind/libbinder.so".to_owned());
    if let Some(p) = env_override {
        paths.push(p.to_owned());
    }
    proof {
        assert(strings_view(paths@) =~~= spec_binder_search_paths(
            match env_override {
                Some(p) => Some(p@),
                None => None,
            },
        ));
    }
    paths
}

/// The POSIX-shell word split of a text: what the extra-arguments option
/// means, or nothing when its quoting cannot be parsed. A pure function of
/// the text.
pub uninterp spec fn shell_split(s: Seq<char>) -> Option<Seq<Seq<char>>>;

/// Relies on shlex::split for the shell word split named `shell_split`:
/// it yields words exactly when the input's quoting parses.
#[verifier::external_body]
fn shlex_split(s: &str) -> (r: Option<Vec<String>>)
    ensures
        r is Some <==> shell_split(s@) is Some,
        r matches Some(v) ==> strings_view(v@) == shell_split(s@)->0,
{
    shlex::split(s)
}

/// Splits the extra tool arguments into shell words; unparseable quoting is
/// a configuration error, raised before any process starts.
pub fn parse_extra(extra: &str) -> (r: Result<Vec<String>, ConfigError>)
    ensures
        r is Ok <==> shell_split(extra@) is Some,
        r matches Ok(v) ==> strings_view(v@) == shell_split(extra@)->0,
        r matches Err(e) ==> e == ConfigError::BadExtraArgs,
{
    match shlex_split(extra) {
        Some(v) => Ok(v),
        None => Err(ConfigError::BadExtraArgs),
    }
}

} // verus!
