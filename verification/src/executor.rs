//! The executor: what the child of a run is given and what the parent makes
//! of its end.
//!
//! The host creates two pipes, clones a child into new PID and mount
//! namespaces, and waits. The child redirects its output into the pipes,
//! changes root and directory, applies the limits in the order given and
//! executes the command. This module computes all that the two need to know.

use crate::env::{Binding, Env};
use crate::sandbox::{RunConfig, RunResult};
use crate::steps::{failure_message, failure_text};
use crate::text::{clone_strings, concat, strings_of};
use vstd::prelude::*;
use vstd::string::*;

verus! {

/// The size of the child's stack in bytes.
pub const CHILD_STACK_BYTES: usize = 1048576;

/// The number of processes a sandboxed user may have.
pub const PROCESS_LIMIT: u64 = 64;

/// The status with which a child ends that could not start its command.
pub const CHILD_FAILURE_STATUS: i32 = 1;

/// A resource that a limit applies to.
#[derive(Clone, Copy, Debug, PartialEq, Eq)]
pub enum Resource {
    /// CPU time in seconds.
    CpuSeconds,
    /// Virtual address space in bytes.
    AddressSpace,
    /// Size of a single file in bytes.
    FileSize,
    /// Number of open file descriptors.
    OpenFiles,
    /// Size of a core dump in bytes.
    CoreSize,
    /// Number of processes.
    Processes,
}

/// A ceiling on one resource, applied as both the soft and the hard limit.
#[derive(Clone, Copy, Debug, PartialEq, Eq)]
pub struct Limit {
    pub resource: Resource,
    pub value: u64,
}

/// Whole seconds of CPU time for a budget in milliseconds: rounded down, but
/// never less than one.
pub open spec fn cpu_seconds_of(time_ms: u64) -> u64 {
    if time_ms / 1000 >= 1 {
        time_ms / 1000
    } else {
        1
    }
}

/// The limits of a run, in the order in which the child applies them.
pub open spec fn limits_of(time_ms: u64, mem_kb: u64, fsize_kb: u64, nofile: u64) -> Seq<Limit> {
    seq![
        Limit { resource: Resource::CpuSeconds, value: cpu_seconds_of(time_ms) },
        Limit { resource: Resource::AddressSpace, value: (mem_kb * 1024) as u64 },
        Limit { resource: Resource::FileSize, value: (fsize_kb * 1024) as u64 },
        Limit { resource: Resource::OpenFiles, value: nofile },
        Limit { resource: Resource::CoreSize, value: 0 },
        Limit { resource: Resource::Processes, value: PROCESS_LIMIT },
    ]
}

/// The text `NAME=value` of one binding.
pub open spec fn assignment(binding: Binding) -> Seq<char> {
    binding.0 + "="@ + binding.1
}

/// The environment handed to the command: one assignment per binding, in
/// order, then `PATH` and `HOME`. The two are appended whatever the bindings
/// hold, so a binding of the same name stands before them.
pub open spec fn child_environment(env: Seq<Binding>) -> Seq<Seq<char>> {
    env.map_values(|b: Binding| assignment(b)) + seq!["PATH=/usr/bin:/bin"@, "HOME=/home"@]
}

/// Whole seconds of CPU time for a budget in milliseconds.
pub fn cpu_seconds(time_ms: u64) -> (seconds: u64)
    ensures
        seconds == cpu_seconds_of(time_ms),
        seconds >= 1,
        seconds * 1000 <= time_ms || seconds == 1,
{
    let whole = time_ms / 1000;
    if whole >= 1 {
        whole
    } else {
        1
    }
}

/// The limits of a run, in the order in which the child applies them.
pub fn resource_limits(config: &RunConfig) -> (limits: Vec<Limit>)
    requires
        config.mem_kb * 1024 <= u64::MAX,
        config.fsize_kb * 1024 <= u64::MAX,
    ensures
        limits@ == limits_of(config.time_ms, config.mem_kb, config.fsize_kb, config.nofile),
{
    let mut limits: Vec<Limit> = Vec::new();
    limits.push(Limit { resource: Resource::CpuSeconds, value: cpu_seconds(config.time_ms) });
    limits.push(Limit { resource: Resource::AddressSpace, value: config.mem_kb * 1024 });
    limits.push(Limit { resource: Resource::FileSize, value: config.fsize_kb * 1024 });
    limits.push(Limit { resource: Resource::OpenFiles, value: config.nofile });
    limits.push(Limit { resource: Resource::CoreSize, value: 0 });
    limits.push(Limit { resource: Resource::Processes, value: PROCESS_LIMIT });
    assert(limits@ =~= limits_of(config.time_ms, config.mem_kb, config.fsize_kb, config.nofile));
    limits
}

/// The environment handed to the command.
pub fn child_env(env: &Env) -> (list: Vec<String>)
    ensures
        strings_of(list@) == child_environment(env@),
{
    let mut list: Vec<String> = Vec::new();
    let n = env.len();
    let mut i: usize = 0;
    while i < n
        invariant
            i <= n,
            n == env@.len(),
            list@.len() == i,
            forall|j: int| 0 <= j < i ==> (#[trigger] list@[j])@ == assignment(env@[j]),
        decreases n - i,
    {
        let mut entry = concat(env.name_at(i).as_str(), "=");
        entry.append(env.value_at(i).as_str());
        list.push(entry);
        i += 1;
    }
    list.push(String::from_str("PATH=/usr/bin:/bin"));
    list.push(String::from_str("HOME=/home"));
    assert(strings_of(list@) =~= child_environment(env@));
    list
}

/// Everything the host needs to start one command.
#[derive(Debug, PartialEq, Eq)]
pub struct Launch {
    /// The directory the child changes root to.
    pub root: String,
    /// The directory the child changes to after that, so seen from inside.
    pub cwd: String,
    /// The limits, in the order in which the child applies them.
    pub limits: Vec<Limit>,
    /// The program and its arguments; the program is looked up by the first.
    pub argv: Vec<String>,
    /// The environment of the command.
    pub env: Vec<String>,
    /// The size of the child's stack in bytes.
    pub stack_bytes: usize,
    /// The child gets a PID namespace of its own.
    pub new_pid_namespace: bool,
    /// The child gets a mount namespace of its own.
    pub new_mount_namespace: bool,
}

/// True when `launch` is the launch of `config` in the sandbox at `root`.
pub open spec fn launch_of(launch: Launch, root: Seq<char>, config: RunConfig) -> bool {
    &&& launch.root@ == root
    &&& launch.cwd@ == config.cwd@
    &&& launch.limits@ == limits_of(config.time_ms, config.mem_kb, config.fsize_kb, config.nofile)
    &&& strings_of(launch.argv@) == strings_of(config.command@)
    &&& strings_of(launch.env@) == child_environment(config.env@)
    &&& launch.stack_bytes == CHILD_STACK_BYTES
    &&& launch.new_pid_namespace
    &&& launch.new_mount_namespace
}

/// The launch of `config` in the sandbox at `root`.
pub fn plan_launch(root: &str, config: &RunConfig) -> (launch: Launch)
    requires
        config.launchable(),
    ensures
        launch_of(launch, root@, *config),
{
    Launch {
        root: String::from_str(root),
        cwd: config.cwd.clone(),
        limits: resource_limits(config),
        argv: clone_strings(&config.command),
        env: child_env(&config.env),
        stack_bytes: CHILD_STACK_BYTES,
        new_pid_namespace: true,
        new_mount_namespace: true,
    }
}

/// A point at which a run can fail before the command is running.
#[derive(Clone, Copy, Debug, PartialEq, Eq)]
pub enum Stage {
    /// Creating a pipe, in the parent.
    Pipe,
    /// Cloning the child, in the parent.
    Clone,
    /// Waiting for the child, in the parent.
    Wait,
    /// Changing root, in the child.
    Chroot,
    /// Changing directory, in the child.
    Chdir,
    /// Applying the limit on a resource, in the child.
    Limit(Resource),
    /// Preparing the program's name, in the child.
    Command,
    /// Executing the program, in the child.
    Exec,
}

/// The tag under which a failure at `stage` is reported.
pub open spec fn stage_label(stage: Stage) -> Seq<char> {
    match stage {
        Stage::Pipe => "pipe"@,
        Stage::Clone => "clone"@,
        Stage::Wait => "waitpid"@,
        Stage::Chroot => "chroot"@,
        Stage::Chdir => "chdir"@,
        Stage::Limit(Resource::CpuSeconds) => "rlimit cpu"@,
        Stage::Limit(Resource::AddressSpace) => "rlimit as"@,
        Stage::Limit(Resource::FileSize) => "rlimit fsize"@,
        Stage::Limit(Resource::OpenFiles) => "rlimit nofile"@,
        Stage::Limit(Resource::CoreSize) => "rlimit core"@,
        Stage::Limit(Resource::Processes) => "rlimit nproc"@,
        Stage::Command => "cmd"@,
        Stage::Exec => "exec"@,
    }
}

/// The message for a failure at `stage` whose cause reads `detail`.
pub fn stage_failure(stage: Stage, detail: &str) -> (message: String)
    ensures
        message@ == failure_text(stage_label(stage), detail@),
{
    let label = match stage {
        Stage::Pipe => "pipe",
        Stage::Clone => "clone",
        Stage::Wait => "waitpid",
        Stage::Chroot => "chroot",
        Stage::Chdir => "chdir",
        Stage::Limit(Resource::CpuSeconds) => "rlimit cpu",
        Stage::Limit(Resource::AddressSpace) => "rlimit as",
        Stage::Limit(Resource::FileSize) => "rlimit fsize",
        Stage::Limit(Resource::OpenFiles) => "rlimit nofile",
        Stage::Limit(Resource::CoreSize) => "rlimit core",
        Stage::Limit(Resource::Processes) => "rlimit nproc",
        Stage::Command => "cmd",
        Stage::Exec => "exec",
    };
    failure_message(label, detail)
}

/// The line that a child writes to its standard error when it fails at
/// `stage`, before it ends with [`CHILD_FAILURE_STATUS`].
pub fn child_report(stage: Stage, detail: &str) -> (line: String)
    ensures
        line@ == "Child error: "@ + failure_text(stage_label(stage), detail@),
{
    let message = stage_failure(stage, detail);
    concat("Child error: ", message.as_str())
}

/// How a child ended, as the wait reported it.
#[derive(Clone, Copy, Debug, PartialEq, Eq)]
pub enum WaitOutcome {
    /// The child exited with this code.
    Exited(i32),
    /// A signal with this number killed the child.
    Signaled(i32),
    /// The wait reported something else.
    Other,
}

/// The exit code that a wait outcome stands for.
pub open spec fn exit_code_of(status: WaitOutcome) -> Option<i32> {
    match status {
        WaitOutcome::Exited(code) => Some(code),
        _ => None,
    }
}

/// The signal that a wait outcome stands for.
pub open spec fn signal_of(status: WaitOutcome) -> Option<i32> {
    match status {
        WaitOutcome::Signaled(signo) => Some(signo),
        _ => None,
    }
}

/// The result of a run whose child ended in `status` after writing `stdout`
/// and `stderr`.
///
/// At most one of exit code and signal is set, and neither only where the
/// wait reported neither an exit nor a signal. An exit code other than zero
/// is a result like any other.
pub fn conclude(stdout: String, stderr: String, status: WaitOutcome) -> (result: RunResult)
    ensures
        result.stdout@ == stdout@,
        result.stderr@ == stderr@,
        result.exit_code == exit_code_of(status),
        result.signal == signal_of(status),
        !(result.exit_code is Some && result.signal is Some),
        (result.exit_code is None && result.signal is None) <==> status is Other,
{
    let (exit_code, signal) = match status {
        WaitOutcome::Exited(code) => (Some(code), None),
        WaitOutcome::Signaled(signo) => (None, Some(signo)),
        WaitOutcome::Other => (None, None),
    };
    RunResult { stdout, stderr, exit_code, signal }
}

/// What the parent has to report once its part is over.
#[derive(Debug)]
pub enum Attempt {
    /// A pipe could not be created.
    PipeFailed(String),
    /// The child could not be cloned.
    CloneFailed(String),
    /// Waiting for the child failed.
    WaitFailed(String),
    /// The child ended and both pipes were read to their end.
    Ended { stdout: String, stderr: String, status: WaitOutcome },
}

/// The outcome of a run: the result where the child ended, however it
/// ended, and the failure message where the parent could not get that far.
pub fn settle(attempt: Attempt) -> (outcome: Result<RunResult, String>)
    ensures
        match attempt {
            Attempt::PipeFailed(detail) => outcome matches Err(message) && message@
                == failure_text(stage_label(Stage::Pipe), detail@),
            Attempt::CloneFailed(detail) => outcome matches Err(message) && message@
                == failure_text(stage_label(Stage::Clone), detail@),
            Attempt::WaitFailed(detail) => outcome matches Err(message) && message@
                == failure_text(stage_label(Stage::Wait), detail@),
            Attempt::Ended { stdout, stderr, status } => outcome matches Ok(result)
                && result.stdout@ == stdout@ && result.stderr@ == stderr@ && result.exit_code
                == exit_code_of(status) && result.signal == signal_of(status),
        },
{
    match attempt {
        Attempt::PipeFailed(detail) => Err(stage_failure(Stage::Pipe, detail.as_str())),
        Attempt::CloneFailed(detail) => Err(stage_failure(Stage::Clone, detail.as_str())),
        Attempt::WaitFailed(detail) => Err(stage_failure(Stage::Wait, detail.as_str())),
        Attempt::Ended { stdout, stderr, status } => Ok(conclude(stdout, stderr, status)),
    }
}

} // verus!
