//! The transfer programs the benchmark can drive, and what is known of each:
//! its executable name, how it is detected from the upstream locator,
//! whether it binds to a source address natively, whether its destination is
//! a file or a directory, and the exact argument vector and environment each
//! run hands it.

use crate::text::{
    ascii_lower, contains_seq, ends_with, spec_ascii_lower, spec_contains_seq, spec_ends_with,
    spec_starts_with, starts_with,
};
use vstd::prelude::*;
use vstd::string::StringSliceAdditionalSpecFns;

verus! {

/// One of the concrete data-transfer tools a run can launch.
#[derive(Clone, Copy, Debug, PartialEq, Eq, Structural)]
pub enum Program {
    Rsync,
    Wget,
    Curl,
    Git,
}

/// The executable name of a transfer program, as a character sequence.
pub open spec fn spec_program_name(p: Program) -> Seq<char> {
    match p {
        Program::Rsync => "rsync"@,
        Program::Wget => "wget"@,
        Program::Curl => "curl"@,
        Program::Git => "git"@,
    }
}

/// The executable name of a transfer program.
pub fn get_program_name(program: Program) -> (name: String)
    ensures
        name@ == spec_program_name(program),
{
    match program {
        Program::Rsync => "rsync".to_owned(),
        Program::Wget => "wget".to_owned(),
        Program::Curl => "curl".to_owned(),
        Program::Git => "git".to_owned(),
    }
}

/// Whether the tool accepts a source-address flag of its own. The clone
/// tool does not: a requested binding is injected through its environment
/// instead, never through an argument.
pub open spec fn spec_supports_native_bind(p: Program) -> bool {
    !(p is Git)
}

/// Whether the tool accepts a source-address flag of its own.
pub fn supports_native_bind(program: Program) -> (b: bool)
    ensures
        b == spec_supports_native_bind(program),
{
    !matches!(program, Program::Git)
}

/// Whether the tool's destination is a directory tree rather than a single
/// file. Only the clone tool fills a directory.
pub open spec fn spec_dest_is_directory(p: Program) -> bool {
    p is Git
}

/// Whether the tool's destination is a directory tree rather than a single
/// file.
pub fn dest_is_directory(program: Program) -> (b: bool)
    ensures
        b == spec_dest_is_directory(program),
{
    matches!(program, Program::Git)
}

/// The transfer program an upstream locator calls for, judged on its
/// ASCII-lowercased form: an `rsync://` scheme or a `::` module path means
/// the sync tool; an `http(s)://` locator means the fetch tool, unless it
/// names a `.git` repository, which — like a `git://` locator — means the
/// clone tool. `None` when no program can be told, and the caller must ask
/// for one explicitly.
pub open spec fn spec_detect_program(upstream: Seq<u8>) -> Option<Program> {
    let u = spec_ascii_lower(upstream);
    if spec_starts_with(u, "rsync://".spec_bytes()) || spec_contains_seq(u, "::".spec_bytes()) {
        Some(Program::Rsync)
    } else if spec_starts_with(u, "http://".spec_bytes()) || spec_starts_with(
        u,
        "https://".spec_bytes(),
    ) {
        if spec_ends_with(u, ".git".spec_bytes()) {
            Some(Program::Git)
        } else {
            Some(Program::Curl)
        }
    } else if spec_starts_with(u, "git://".spec_bytes()) {
        Some(Program::Git)
    } else {
        None
    }
}

/// Detects the transfer program from the upstream locator.
pub fn detect_program(upstream: &str) -> (r: Option<Program>)
    ensures
        r == spec_detect_program(upstream.spec_bytes()),
{
    let u = ascii_lower(upstream.as_bytes());
    let u = u.as_slice();
    if starts_with(u, "rsync://".as_bytes()) || contains_seq(u, "::".as_bytes()) {
        Some(Program::Rsync)
    } else if starts_with(u, "http://".as_bytes()) || starts_with(u, "https://".as_bytes()) {
        if ends_with(u, ".git".as_bytes()) {
            Some(Program::Git)
        } else {
            Some(Program::Curl)
        }
    } else if starts_with(u, "git://".as_bytes()) {
        Some(Program::Git)
    } else {
        None
    }
}

/// The argument vector handed to a transfer program: tool flags first, then
/// the source-address flag when a binding is requested of a tool that
/// supports one, then the upstream and the scratch destination, then the
/// configured extra arguments. The clone tool takes no binding argument and
/// no extra arguments: it clones bare into the scratch directory.
pub open spec fn spec_program_args(
    program: Program,
    extra: Seq<Seq<char>>,
    upstream: Seq<char>,
    tmp: Seq<char>,
    bind_ip: Option<Seq<char>>,
) -> Seq<Seq<char>> {
    match program {
        Program::Rsync => seq!["-vP"@, "-rLptgoD"@, "--inplace"@] + (match bind_ip {
            Some(ip) => seq!["--address"@, ip],
            None => Seq::empty(),
        }) + seq![upstream, tmp] + extra,
        Program::Curl => seq!["-o"@, tmp] + (match bind_ip {
            Some(ip) => seq!["--interface"@, ip],
            None => Seq::empty(),
        }) + seq![upstream] + extra,
        Program::Wget => seq!["-O"@, tmp] + (match bind_ip {
            Some(ip) => seq!["--bind-address"@, ip],
            None => Seq::empty(),
        }) + seq![upstream] + extra,
        Program::Git => seq!["clone"@, "--bare"@, upstream, tmp],
    }
}

/// The character sequences a vector of strings holds.
pub open spec fn strings_view(v: Seq<String>) -> Seq<Seq<char>> {
    v.map_values(|s: String| s@)
}

/// Builds the exact argument vector for one run of a transfer program.
pub fn get_program_args(
    program: Program,
    extra: &[String],
    upstream: &str,
    tmp: &str,
    bind_ip: Option<&str>,
) -> (args: Vec<String>)
    ensures
        strings_view(args@) == spec_program_args(
            program,
            strings_view(extra@),
            upstream@,
            tmp@,
            match bind_ip {
                Some(ip) => Some(ip@),
                None => None,
            },
        ),
{
    let mut args: Vec<String> = Vec::new();
    match program {
        Program::Rsync => {
            args.push("-vP".to_owned());
            args.push("-rLptgoD".to_owned());
            args.push("--inplace".to_owned());
            if let Some(ip) = bind_ip {
                args.push("--address".to_owned());
                args.push(ip.to_owned());
            }
            args.push(upstream.to_owned());
            args.push(tmp.to_owned());
            push_all(&mut args, extra);
        },
        Program::Curl => {
            args.push("-o".to_owned());
            args.push(tmp.to_owned());
            if let Some(ip) = bind_ip {
                args.push("--interface".to_owned());
                args.push(ip.to_owned());
            }
            args.push(upstream.to_owned());
            push_all(&mut args, extra);
        },
        Program::Wget => {
            args.push("-O".to_owned());
            args.push(tmp.to_owned());
            if let Some(ip) = bind_ip {
                args.push("--bind-address".to_owned());
                args.push(ip.to_owned());
            }
            args.push(upstream.to_owned());
            push_all(&mut args, extra);
        },
        Program::Git => {
            args.push("clone".to_owned());
            args.push("--bare".to_owned());
            args.push(upstream.to_owned());
            args.push(tmp.to_owned());
        },
    }
    proof {
        assert(strings_view(args@) =~~= spec_program_args(
            program,
            strings_view(extra@),
            upstream@,
            tmp@,
            match bind_ip {
                Some(ip) => Some(ip@),
                None => None,
            },
        ));
    }
    args
}

/// Appends clones of every string in `more` to `args`, in order.
pub(crate) fn push_all(args: &mut Vec<String>, more: &[String])
    ensures
        final(args)@.len() == old(args)@.len() + more@.len(),
        strings_view(final(args)@) == strings_view(old(args)@) + strings_view(more@),
{
    let mut i: usize = 0;
    while i < more.len()
        invariant
            0 <= i <= more@.len(),
            args@.len() == old(args)@.len() + i,
            strings_view(args@) =~~= strings_view(old(args)@) + strings_view(
                more@.subrange(0, i as int),
            ),
        decreases more@.len() - i,
    {
        let ghost prev = args@;
        args.push(more[i].clone());
        proof {
            assert(strings_view(args@) =~= strings_view(prev).push(more@[i as int]@));
            assert(more@.subrange(0, i + 1).drop_last() =~= more@.subrange(0, i as int));
            assert(strings_view(more@.subrange(0, i + 1)) =~= strings_view(
                more@.subrange(0, i as int),
            ).push(more@[i as int]@));
            assert(strings_view(args@) =~~= strings_view(old(args)@) + strings_view(
                more@.subrange(0, i + 1),
            ));
        }
        i = i + 1;
    }
    proof {
        assert(more@.subrange(0, more@.len() as int) =~= more@);
        assert(strings_view(args@) =~~= strings_view(old(args)@) + strings_view(more@));
    }
}

/// The environment entries of one run: empty for every tool but the clone
/// tool under a requested binding, which takes the interposition library
/// through `LD_PRELOAD` and the source address through `BIND_ADDRESS`.
pub open spec fn spec_git_bind_env(binder_path: Seq<char>, bind_ip: Seq<char>) -> Seq<
    (Seq<char>, Seq<char>),
> {
    seq![("LD_PRELOAD"@, binder_path), ("BIND_ADDRESS"@, bind_ip)]
}

/// The sequences of character pairs a vector of string pairs holds.
pub open spec fn pairs_view(v: Seq<(String, String)>) -> Seq<(Seq<char>, Seq<char>)> {
    v.map_values(|p: (String, String)| (p.0@, p.1@))
}

/// Builds the environment entries that force the clone tool's outbound
/// connections onto the requested source address.
pub fn git_bind_env(binder_path: &str, bind_ip: &str) -> (env: Vec<(String, String)>)
    ensures
        pairs_view(env@) == spec_git_bind_env(binder_path@, bind_ip@),
{
    let mut env: Vec<(String, String)> = Vec::new();
    env.push(("LD_PRELOAD".to_owned(), binder_path.to_owned()));
    env.push(("BIND_ADDRESS".to_owned(), bind_ip.to_owned()));
    proof {
        assert(pairs_view(env@) =~~= spec_git_bind_env(binder_path@, bind_ip@));
    }
    env
}

} // verus!
