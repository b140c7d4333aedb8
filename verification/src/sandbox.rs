//! What a run is asked to do and what came of it, and the entry points that
//! turn a request into work for the host.

use crate::builder::{provision_plan, provision_steps, teardown_plan, teardown_steps};
use crate::env::Env;
use crate::executor::{launch_of, plan_launch, Launch};
use crate::paths::{
    host_path, host_path_of, lemma_host_path_under_root, oneshot_root, session_root,
    session_root_of,
};
use crate::steps::{plan_of, push_step, Op, OpView, Step, StepView};
use crate::text::{clone_strings, strings_of};
use vstd::prelude::*;
use vstd::string::*;

verus! {

/// One command to run, with the limits it runs under.
#[derive(Debug)]
pub struct RunConfig {
    /// The program and its arguments; the first entry is both the name that
    /// is looked up and the first argument.
    pub command: Vec<String>,
    /// CPU time in milliseconds.
    pub time_ms: u64,
    /// Address space in kilobytes.
    pub mem_kb: u64,
    /// Largest file the command may write, in kilobytes.
    pub fsize_kb: u64,
    /// Number of open files.
    pub nofile: u64,
    /// Environment variables.
    pub env: Env,
    /// Working directory, as seen from inside the sandbox.
    pub cwd: String,
}

impl RunConfig {
    /// True when the configuration can be launched: there is a program to
    /// run, and the two limits given in kilobytes fit in 64 bits as bytes.
    pub open spec fn launchable(&self) -> bool {
        &&& self.command@.len() > 0
        &&& self.mem_kb * 1024 <= u64::MAX
        &&& self.fsize_kb * 1024 <= u64::MAX
    }

    /// Tests [`RunConfig::launchable`].
    pub fn is_launchable(&self) -> (ok: bool)
        ensures
            ok == self.launchable(),
    {
        self.command.len() > 0 && self.mem_kb <= u64::MAX / 1024 && self.fsize_kb <= u64::MAX
            / 1024
    }
}

impl Clone for RunConfig {
    fn clone(&self) -> (copy: RunConfig)
        ensures
            strings_of(copy.command@) == strings_of(self.command@),
            copy.time_ms == self.time_ms,
            copy.mem_kb == self.mem_kb,
            copy.fsize_kb == self.fsize_kb,
            copy.nofile == self.nofile,
            copy.env@ == self.env@,
            copy.cwd@ == self.cwd@,
    {
        RunConfig {
            command: clone_strings(&self.command),
            time_ms: self.time_ms,
            mem_kb: self.mem_kb,
            fsize_kb: self.fsize_kb,
            nofile: self.nofile,
            env: self.env.clone(),
            cwd: self.cwd.clone(),
        }
    }
}

/// What came of one run.
#[derive(Debug, PartialEq, Eq)]
pub struct RunResult {
    /// Everything the command wrote to its standard output.
    pub stdout: String,
    /// Everything the command wrote to its standard error.
    pub stderr: String,
    /// The exit code, where the command exited.
    pub exit_code: Option<i32>,
    /// The signal number, where a signal killed the command.
    pub signal: Option<i32>,
}

impl Clone for RunResult {
    fn clone(&self) -> (copy: RunResult)
        ensures
            copy.stdout@ == self.stdout@,
            copy.stderr@ == self.stderr@,
            copy.exit_code == self.exit_code,
            copy.signal == self.signal,
    {
        RunResult {
            stdout: self.stdout.clone(),
            stderr: self.stderr.clone(),
            exit_code: self.exit_code,
            signal: self.signal,
        }
    }
}

/// A sandbox to build: where it goes and the steps that build it.
#[derive(Debug)]
pub struct Provision {
    pub root: String,
    pub steps: Vec<Step>,
}

/// A run in a sandbox of its own: the steps that build the sandbox, the
/// launch of the command in it, and the steps that take it down.
///
/// The setup is carried out first; the command is launched only if no step
/// of it failed. The teardown is carried out in either case, also after a
/// setup that failed half way.
#[derive(Debug)]
pub struct Oneshot {
    pub root: String,
    pub setup: Vec<Step>,
    pub launch: Launch,
    pub teardown: Vec<Step>,
}

/// The permission bits of a file written into a sandbox.
pub const WRITTEN_FILE_MODE: u32 = 0o644;

/// The steps that write `content` to `path` in the sandbox at `root`: make
/// the directories above the file, write it, set its permission bits.
pub open spec fn write_plan(root: Seq<char>, path: Seq<char>, content: Seq<u8>) -> Seq<StepView> {
    let full = host_path_of(root, path);
    seq![
        StepView {
            guard: None,
            op: OpView::MakeParentDirs { path: full },
            label: "mkdir parent"@,
            fatal: true,
        },
        StepView {
            guard: None,
            op: OpView::WriteFile { path: full, content },
            label: "write file"@,
            fatal: true,
        },
        StepView {
            guard: None,
            op: OpView::SetMode { path: full, mode: WRITTEN_FILE_MODE },
            label: "chmod"@,
            fatal: true,
        },
    ]
}

/// The step that reads `path` in the sandbox at `root`.
pub open spec fn read_step(root: Seq<char>, path: Seq<char>) -> StepView {
    StepView {
        guard: None,
        op: OpView::ReadFile { path: host_path_of(root, path) },
        label: "read file"@,
        fatal: true,
    }
}

/// A file is read where it was written: the step that reads a path in a
/// sandbox names the host file that the plan for writing the same path
/// writes, however many separators lead the path in either.
pub proof fn lemma_read_where_written(root: Seq<char>, path: Seq<char>, content: Seq<u8>)
    ensures
        write_plan(root, path, content)[1].op == (OpView::WriteFile {
            path: host_path_of(root, path),
            content,
        }),
        read_step(root, path).op == (OpView::ReadFile { path: host_path_of(root, path) }),
        read_step(root, seq!['/'] + path) == read_step(root, path),
        write_plan(root, seq!['/'] + path, content) == write_plan(root, path, content),
{
    lemma_host_path_under_root(root, path);
}

/// The run of `config` in a sandbox of its own, at the root that all such
/// runs share. Two of them at once would build and take down the same
/// directory.
pub fn run_oneshot(config: &RunConfig) -> (job: Oneshot)
    requires
        config.launchable(),
    ensures
        job.root@ == session_root_of("oneshot"@),
        plan_of(job.setup@) == provision_plan(job.root@),
        launch_of(job.launch, job.root@, *config),
        plan_of(job.teardown@) == teardown_plan(job.root@),
{
    let root = oneshot_root();
    let setup = provision_steps(root.as_str());
    let launch = plan_launch(root.as_str(), config);
    let teardown = teardown_steps(root.as_str());
    Oneshot { root, setup, launch, teardown }
}

/// The launch of `config` in the sandbox of a session, which is left as it
/// is whatever becomes of the run.
pub fn run_in_session(sandbox_root: &str, config: &RunConfig) -> (launch: Launch)
    requires
        config.launchable(),
    ensures
        launch_of(launch, sandbox_root@, *config),
{
    plan_launch(sandbox_root, config)
}

/// The sandbox of the session `session_id`: its root and the steps that
/// build it.
pub fn create_session_sandbox(session_id: &str) -> (job: Provision)
    ensures
        job.root@ == session_root_of(session_id@),
        plan_of(job.steps@) == provision_plan(job.root@),
{
    let root = session_root(session_id);
    let steps = provision_steps(root.as_str());
    Provision { root, steps }
}

/// The steps that take down the sandbox at `sandbox_root`.
pub fn destroy_session_sandbox(sandbox_root: &str) -> (steps: Vec<Step>)
    ensures
        plan_of(steps@) == teardown_plan(sandbox_root@),
{
    teardown_steps(sandbox_root)
}

/// The steps that write `content` to `path` in the sandbox at
/// `sandbox_root`, past the command channel. A file that is there is
/// replaced.
pub fn write_file_in_sandbox(sandbox_root: &str, path: &str, content: &[u8]) -> (steps: Vec<Step>)
    ensures
        plan_of(steps@) == write_plan(sandbox_root@, path@, content@),
{
    let full = host_path(sandbox_root, path);
    let mut steps: Vec<Step> = Vec::new();
    assert(plan_of(steps@) =~= Seq::<StepView>::empty());
    push_step(
        &mut steps,
        Step {
            guard: None,
            op: Op::MakeParentDirs { path: full.clone() },
            label: String::from_str("mkdir parent"),
            fatal: true,
        },
    );
    push_step(
        &mut steps,
        Step {
            guard: None,
            op: Op::WriteFile { path: full.clone(), content: vstd::slice::slice_to_vec(content) },
            label: String::from_str("write file"),
            fatal: true,
        },
    );
    push_step(
        &mut steps,
        Step {
            guard: None,
            op: Op::SetMode { path: full, mode: WRITTEN_FILE_MODE },
            label: String::from_str("chmod"),
            fatal: true,
        },
    );
    assert(plan_of(steps@) =~= write_plan(sandbox_root@, path@, content@));
    steps
}

/// The step that reads `path` in the sandbox at `sandbox_root`, past the
/// command channel.
pub fn read_file_in_sandbox(sandbox_root: &str, path: &str) -> (step: Step)
    ensures
        step@ == read_step(sandbox_root@, path@),
{
    Step {
        guard: None,
        op: Op::ReadFile { path: host_path(sandbox_root, path) },
        label: String::from_str("read file"),
        fatal: true,
    }
}

} // verus!
