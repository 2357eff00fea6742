//! The two runner strategies. Each one turns a binding identifier and a
//! scratch destination into an exact launch plan — executable, argument
//! vector, environment, process-group placement — for the outer process
//! layer to spawn and supervise.
//!
//! The local-bind runner validates every binding address when it is
//! constructed, before any transfer starts, and hands the clone tool its
//! interposition environment. The isolated-network runner launches the
//! transfer inside a container attached to the target network, under a
//! unique name generated per run.

use crate::addr::{is_ip_text, is_valid_ip};
use crate::bench::Target;
use crate::config::ConfigError;
use crate::program::{
    get_program_args, get_program_name, git_bind_env, pairs_view, push_all, spec_git_bind_env,
    spec_program_args, spec_program_name, strings_view, Program,
};
use rand::RngExt;
use vstd::prelude::*;
use vstd::string::StringSliceAdditionalSpecFns;

verus! {

/// Everything the process layer needs to spawn one run: the executable,
/// its arguments, extra environment entries, and whether the child must be
/// placed in its own process group (so that group-wide termination reaches
/// only the transfer's own descendants, and the terminal's interrupt does
/// not).
pub struct LaunchPlan {
    pub program: String,
    pub args: Vec<String>,
    pub env: Vec<(String, String)>,
    pub own_process_group: bool,
}

/// The wait status reported after a forced container kill: 128 plus the
/// kill signal's number.
pub const FORCED_KILL_EXIT_CODE: i32 = 128 + 9;

/// An ASCII letter or digit.
pub open spec fn is_alnum_char(c: char) -> bool {
    (48 <= c as u32 <= 57) || (97 <= c as u32 <= 122) || (65 <= c as u32 <= 90)
}

/// Relies on rand's thread generator with the Alphanumeric distribution:
/// whatever it draws, every sampled byte is an ASCII letter or digit, and
/// exactly `len` of them are taken.
#[verifier::external_body]
fn random_alphanumeric(len: usize) -> (r: String)
    ensures
        r@.len() == len,
        forall|i: int| 0 <= i < r@.len() ==> is_alnum_char(#[trigger] r@[i]),
{
    rand::rng().sample_iter(rand::distr::Alphanumeric).take(len).map(char::from).collect()
}

/// How many random characters a container name carries.
pub const CONTAINER_NAME_RANDOM_LEN: usize = 16;

/// A fresh container name: the fixed prefix followed by random
/// alphanumeric characters, unique per run so that concurrent unrelated
/// containers are not struck by this run's termination.
pub fn container_name() -> (name: String)
    ensures
        name@.len() == "bestbind-"@.len() + CONTAINER_NAME_RANDOM_LEN,
        name@.subrange(0, "bestbind-"@.len() as int) == "bestbind-"@,
        forall|i: int|
            "bestbind-"@.len() <= i < name@.len() ==> is_alnum_char(#[trigger] name@[i]),
{
    let mut name = "bestbind-".to_owned();
    let suffix = random_alphanumeric(CONTAINER_NAME_RANDOM_LEN);
    name.append(suffix.as_str());
    proof {
        assert(name@.subrange(0, "bestbind-"@.len() as int) =~= "bestbind-"@);
    }
    name
}

/// The local-bind runner: transfers run on the host and bind directly to
/// one of the configured addresses.
pub struct IPFormatRunner {
    pub uses: Vec<Target>,
    pub binder_path: Option<String>,
    pub extra: Vec<String>,
    pub program: Program,
    pub upstream: String,
}

impl IPFormatRunner {
    /// The clone tool can only be bound through the interposition library,
    /// so a constructed runner for it always carries the library's path.
    pub open spec fn wf(&self) -> bool {
        self.program is Git ==> self.binder_path is Some
    }

    /// Constructs the runner, validating the whole configuration before
    /// any transfer starts: every binding identifier must be a
    /// syntactically valid IP address, and the clone tool must have found
    /// its interposition library.
    pub fn create(
        uses: Vec<Target>,
        extra: Vec<String>,
        program: Program,
        upstream: String,
        binder_path: Option<String>,
    ) -> (r: Result<IPFormatRunner, ConfigError>)
        ensures
            r is Ok <==> (forall|i: int|
                0 <= i < uses@.len() ==> is_ip_text(
                    vstd::utf8::encode_utf8((#[trigger] uses@[i]).network@),
                )) && (program is Git ==> binder_path is Some),
            r == Err::<IPFormatRunner, ConfigError>(ConfigError::InvalidBindingAddress) <==> (
            exists|i: int|
                0 <= i < uses@.len() && !is_ip_text(
                    vstd::utf8::encode_utf8((#[trigger] uses@[i]).network@),
                )),
            r == Err::<IPFormatRunner, ConfigError>(ConfigError::BinderLibraryMissing) <==> (
            forall|i: int|
                0 <= i < uses@.len() ==> is_ip_text(
                    vstd::utf8::encode_utf8((#[trigger] uses@[i]).network@),
                )) && program is Git && binder_path is None,
            r matches Ok(runner) ==> runner.wf() && runner.uses@ == uses@ && runner.extra@
                == extra@ && runner.program == program && runner.upstream@ == upstream@
                && runner.binder_path == binder_path,
    {
        let n = uses.len();
        let mut i: usize = 0;
        while i < n
            invariant
                n == uses@.len(),
                0 <= i <= n,
                forall|j: int|
                    0 <= j < i ==> is_ip_text(
                        vstd::utf8::encode_utf8((#[trigger] uses@[j]).network@),
                    ),
            decreases n - i,
        {
            if !is_valid_ip(uses[i].network.as_str()) {
                return Err(ConfigError::InvalidBindingAddress);
            }
            i = i + 1;
        }
        if matches!(program, Program::Git) && binder_path.is_none() {
            return Err(ConfigError::BinderLibraryMissing);
        }
        Ok(IPFormatRunner { uses, binder_path, extra, program, upstream })
    }

    /// The configured bindings, in declared order.
    pub fn uses(&self) -> (u: &Vec<Target>)
        ensures
            u@ == self.uses@,
    {
        &self.uses
    }

    /// The launch plan of one run against `target`, writing into `tmp`:
    /// the transfer tool itself, bound to the target address — through its
    /// own flag, or through the interposition environment for the clone
    /// tool — in a process group of its own.
    pub fn run_plan(&self, target: &str, tmp: &str) -> (plan: LaunchPlan)
        requires
            self.wf(),
        ensures
            plan.program@ == spec_program_name(self.program),
            strings_view(plan.args@) == spec_program_args(
                self.program,
                strings_view(self.extra@),
                self.upstream@,
                tmp@,
                Some(target@),
            ),
            self.program is Git ==> (self.binder_path matches Some(b) && pairs_view(plan.env@)
                == spec_git_bind_env(b@, target@)),
            !(self.program is Git) ==> plan.env@ == Seq::<(String, String)>::empty(),
            plan.own_process_group,
    {
        let args = get_program_args(
            self.program,
            self.extra.as_slice(),
            self.upstream.as_str(),
            tmp,
            Some(target),
        );
        let env: Vec<(String, String)> = if matches!(self.program, Program::Git) {
            match &self.binder_path {
                Some(binder) => git_bind_env(binder.as_str(), target),
                None => Vec::new(),
            }
        } else {
            Vec::new()
        };
        proof {
            assert(!(self.program is Git) ==> env@ =~= Seq::<(String, String)>::empty());
        }
        LaunchPlan { program: get_program_name(self.program), args, env, own_process_group: true }
    }
}

/// The argument vector of a containerised run: a named, self-removing
/// container attached to the target network, the scratch path mounted at
/// the same place inside, running the transfer program with its own
/// arguments.
pub open spec fn spec_docker_run_args(
    ctr_name: Seq<char>,
    network: Seq<char>,
    tmp: Seq<char>,
    image: Seq<char>,
    program_name: Seq<char>,
    prog_args: Seq<Seq<char>>,
) -> Seq<Seq<char>> {
    seq![
        "run"@,
        "--name"@,
        ctr_name,
        "--rm"@,
        "--network"@,
        network,
        "-v"@,
        tmp + ":"@ + tmp,
        image,
        program_name,
    ] + prog_args
}

/// The argument vector that asks the container runtime whether an image
/// exists locally.
pub fn docker_image_inspect_args(image: &str) -> (args: Vec<String>)
    ensures
        strings_view(args@) == seq!["image"@, "inspect"@, image@],
{
    let mut args: Vec<String> = Vec::new();
    args.push("image".to_owned());
    args.push("inspect".to_owned());
    args.push(image.to_owned());
    proof {
        assert(strings_view(args@) =~~= seq!["image"@, "inspect"@, image@]);
    }
    args
}

/// The argument vector that pulls an image.
pub fn docker_pull_args(image: &str) -> (args: Vec<String>)
    ensures
        strings_view(args@) == seq!["pull"@, image@],
{
    let mut args: Vec<String> = Vec::new();
    args.push("pull".to_owned());
    args.push(image.to_owned());
    proof {
        assert(strings_view(args@) =~~= seq!["pull"@, image@]);
    }
    args
}

/// The argument vector that kills a named container.
pub fn docker_kill_args(ctr_name: &str) -> (args: Vec<String>)
    ensures
        strings_view(args@) == seq!["kill"@, ctr_name@],
{
    let mut args: Vec<String> = Vec::new();
    args.push("kill".to_owned());
    args.push(ctr_name.to_owned());
    proof {
        assert(strings_view(args@) =~~= seq!["kill"@, ctr_name@]);
    }
    args
}

/// Whether the image-availability protocol succeeded: the image either
/// existed locally, or its pull went through; anything else is fatal
/// before any run starts.
pub fn confirm_image(inspect_ok: bool, pull_ok: bool) -> (r: Result<(), ConfigError>)
    ensures
        r is Ok <==> inspect_ok || pull_ok,
        r is Err ==> r == Err::<(), ConfigError>(ConfigError::ImageUnavailable),
{
    if inspect_ok || pull_ok {
        Ok(())
    } else {
        Err(ConfigError::ImageUnavailable)
    }
}

/// The isolated-network runner: each transfer runs inside a container
/// attached to the target network; network identity replaces address
/// binding.
pub struct DockerFormatRunner {
    pub docker: String,
    pub image: String,
    pub uses: Vec<Target>,
    pub extra: Vec<String>,
    pub program: Program,
    pub upstream: String,
}

impl DockerFormatRunner {
    /// Constructs the runner. The image's availability is confirmed by the
    /// process layer through `docker_image_inspect_args`,
    /// `docker_pull_args` and `confirm_image` before any run starts.
    pub fn create(
        uses: Vec<Target>,
        extra: Vec<String>,
        program: Program,
        upstream: String,
        docker: String,
        image: String,
    ) -> (runner: DockerFormatRunner)
        ensures
            runner.uses@ == uses@,
            runner.extra@ == extra@,
            runner.program == program,
            runner.upstream@ == upstream@,
            runner.docker@ == docker@,
            runner.image@ == image@,
    {
        DockerFormatRunner { docker, image, uses, extra, program, upstream }
    }

    /// The configured target networks, in declared order.
    pub fn uses(&self) -> (u: &Vec<Target>)
        ensures
            u@ == self.uses@,
    {
        &self.uses
    }

    /// The launch plan of one containerised run against `target`, writing
    /// into `tmp`, and the fresh container name the run is known by — kept
    /// so that termination can stop exactly this container.
    pub fn run_plan(&self, target: &str, tmp: &str) -> (r: (LaunchPlan, String))
        ensures
            r.0.program@ == self.docker@,
            strings_view(r.0.args@) == spec_docker_run_args(
                r.1@,
                target@,
                tmp@,
                self.image@,
                spec_program_name(self.program),
                spec_program_args(
                    self.program,
                    strings_view(self.extra@),
                    self.upstream@,
                    tmp@,
                    None,
                ),
            ),
            r.0.env@ == Seq::<(String, String)>::empty(),
            !r.0.own_process_group,
            r.1@.len() == "bestbind-"@.len() + CONTAINER_NAME_RANDOM_LEN,
            r.1@.subrange(0, "bestbind-"@.len() as int) == "bestbind-"@,
    {
        let ctr_name = container_name();
        let prog_args = get_program_args(
            self.program,
            self.extra.as_slice(),
            self.upstream.as_str(),
            tmp,
            None,
        );
        let mut args: Vec<String> = Vec::new();
        args.push("run".to_owned());
        args.push("--name".to_owned());
        args.push(ctr_name.clone());
        args.push("--rm".to_owned());
        args.push("--network".to_owned());
        args.push(target.to_owned());
        args.push("-v".to_owned());
        args.push(tmp.to_owned().concat(":").concat(tmp));
        args.push(self.image.clone());
        args.push(get_program_name(self.program));
        push_all(&mut args, prog_args.as_slice());
        proof {
            assert(strings_view(args@) =~~= spec_docker_run_args(
                ctr_name@,
                target@,
                tmp@,
                self.image@,
                spec_program_name(self.program),
                strings_view(prog_args@),
            ));
        }
        let env: Vec<(String, String)> = Vec::new();
        proof {
            assert(env@ =~= Seq::<(String, String)>::empty());
        }
        (
            LaunchPlan { program: self.docker.clone(), args, env, own_process_group: false },
            ctr_name,
        )
    }
}

} // verus!
