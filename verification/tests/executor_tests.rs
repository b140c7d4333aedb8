use isolate::env::Env;
use isolate::executor::{
    child_env, child_report, conclude, cpu_seconds, plan_launch, resource_limits, settle,
    stage_failure, Attempt, Limit, Resource, Stage, WaitOutcome, CHILD_FAILURE_STATUS,
    CHILD_STACK_BYTES, PROCESS_LIMIT,
};
use isolate::sandbox::{RunConfig, RunResult};

fn config(command: &[&str]) -> RunConfig {
    RunConfig {
        command: command.iter().map(|s| s.to_string()).collect(),
        time_ms: 300000,
        mem_kb: 2097152,
        fsize_kb: 1048576,
        nofile: 256,
        env: Env::new(),
        cwd: "/".to_string(),
    }
}

#[test]
fn cpu_seconds_round_down_but_not_below_one() {
    assert_eq!(cpu_seconds(0), 1);
    assert_eq!(cpu_seconds(1), 1);
    assert_eq!(cpu_seconds(999), 1);
    assert_eq!(cpu_seconds(1000), 1);
    assert_eq!(cpu_seconds(1999), 1);
    assert_eq!(cpu_seconds(2000), 2);
    assert_eq!(cpu_seconds(2500), 2);
    assert_eq!(cpu_seconds(300000), 300);
    assert_eq!(cpu_seconds(u64::MAX), u64::MAX / 1000);
}

#[test]
fn limits_come_in_the_order_they_are_applied() {
    let limits = resource_limits(&config(&["/bin/true"]));
    assert_eq!(
        limits,
        vec![
            Limit { resource: Resource::CpuSeconds, value: 300 },
            Limit { resource: Resource::AddressSpace, value: 2147483648 },
            Limit { resource: Resource::FileSize, value: 1073741824 },
            Limit { resource: Resource::OpenFiles, value: 256 },
            Limit { resource: Resource::CoreSize, value: 0 },
            Limit { resource: Resource::Processes, value: 64 },
        ]
    );
    assert_eq!(PROCESS_LIMIT, 64);
}

#[test]
fn limits_of_the_smallest_and_largest_budgets() {
    let mut c = config(&["/bin/true"]);
    c.time_ms = 0;
    c.mem_kb = 0;
    c.fsize_kb = 0;
    c.nofile = 0;
    let values: Vec<u64> = resource_limits(&c).iter().map(|l| l.value).collect();
    assert_eq!(values, vec![1, 0, 0, 0, 0, 64]);
    c.mem_kb = u64::MAX / 1024;
    c.fsize_kb = u64::MAX / 1024;
    c.nofile = u64::MAX;
    let values: Vec<u64> = resource_limits(&c).iter().map(|l| l.value).collect();
    assert_eq!(values[1], u64::MAX - 1023);
    assert_eq!(values[2], u64::MAX - 1023);
    assert_eq!(values[3], u64::MAX);
}

#[test]
fn a_config_is_launchable_when_it_has_a_command_and_its_limits_fit() {
    let mut c = config(&["/bin/true"]);
    assert!(c.is_launchable());
    c.mem_kb = u64::MAX / 1024;
    assert!(c.is_launchable());
    c.mem_kb = u64::MAX / 1024 + 1;
    assert!(!c.is_launchable());
    c.mem_kb = 1;
    c.fsize_kb = u64::MAX;
    assert!(!c.is_launchable());
    c.fsize_kb = 0;
    assert!(c.is_launchable());
    c.command.clear();
    assert!(!c.is_launchable());
}

#[test]
fn child_env_appends_path_and_home() {
    assert_eq!(child_env(&Env::new()), vec!["PATH=/usr/bin:/bin", "HOME=/home"]);
    let mut env = Env::new();
    env.insert("FOO".to_string(), "bar".to_string());
    env.insert("EMPTY".to_string(), "".to_string());
    env.insert("EQ".to_string(), "a=b".to_string());
    assert_eq!(
        child_env(&env),
        vec!["FOO=bar", "EMPTY=", "EQ=a=b", "PATH=/usr/bin:/bin", "HOME=/home"]
    );
}

#[test]
fn child_env_does_not_merge_path_and_home() {
    let mut env = Env::new();
    env.insert("PATH".to_string(), "/opt/bin".to_string());
    env.insert("HOME".to_string(), "/root".to_string());
    assert_eq!(
        child_env(&env),
        vec!["PATH=/opt/bin", "HOME=/root", "PATH=/usr/bin:/bin", "HOME=/home"]
    );
}

#[test]
fn launch_carries_what_the_child_needs() {
    let mut c = config(&["/bin/sh", "-c", "echo $FOO"]);
    c.time_ms = 1000;
    c.cwd = "/tmp".to_string();
    c.env.insert("FOO".to_string(), "bar".to_string());
    let launch = plan_launch("/tmp/sandbox-s", &c);
    assert_eq!(launch.root, "/tmp/sandbox-s");
    assert_eq!(launch.cwd, "/tmp");
    assert_eq!(launch.argv, vec!["/bin/sh", "-c", "echo $FOO"]);
    assert_eq!(launch.env, vec!["FOO=bar", "PATH=/usr/bin:/bin", "HOME=/home"]);
    assert_eq!(launch.limits, resource_limits(&c));
    assert_eq!(launch.limits[0], Limit { resource: Resource::CpuSeconds, value: 1 });
    assert_eq!(launch.stack_bytes, 1024 * 1024);
    assert_eq!(CHILD_STACK_BYTES, 1024 * 1024);
    assert!(launch.new_pid_namespace);
    assert!(launch.new_mount_namespace);
}

#[test]
fn every_stage_has_its_tag() {
    let cases = [
        (Stage::Pipe, "pipe: x"),
        (Stage::Clone, "clone: x"),
        (Stage::Wait, "waitpid: x"),
        (Stage::Chroot, "chroot: x"),
        (Stage::Chdir, "chdir: x"),
        (Stage::Limit(Resource::CpuSeconds), "rlimit cpu: x"),
        (Stage::Limit(Resource::AddressSpace), "rlimit as: x"),
        (Stage::Limit(Resource::FileSize), "rlimit fsize: x"),
        (Stage::Limit(Resource::OpenFiles), "rlimit nofile: x"),
        (Stage::Limit(Resource::CoreSize), "rlimit core: x"),
        (Stage::Limit(Resource::Processes), "rlimit nproc: x"),
        (Stage::Command, "cmd: x"),
        (Stage::Exec, "exec: x"),
    ];
    for (stage, expected) in cases {
        assert_eq!(stage_failure(stage, "x"), expected);
    }
}

#[test]
fn a_failing_child_reports_on_its_standard_error() {
    assert_eq!(
        child_report(Stage::Chroot, "ENOENT: No such file or directory"),
        "Child error: chroot: ENOENT: No such file or directory"
    );
    assert_eq!(child_report(Stage::Exec, "ENOENT"), "Child error: exec: ENOENT");
    assert_eq!(CHILD_FAILURE_STATUS, 1);
}

#[test]
fn echo_hello_ends_with_exit_code_zero() {
    let result = conclude("hello\n".to_string(), String::new(), WaitOutcome::Exited(0));
    assert_eq!(
        result,
        RunResult {
            stdout: "hello\n".to_string(),
            stderr: String::new(),
            exit_code: Some(0),
            signal: None
        }
    );
}

#[test]
fn exit_seven_is_a_result_and_no_error() {
    let outcome = settle(Attempt::Ended {
        stdout: String::new(),
        stderr: String::new(),
        status: WaitOutcome::Exited(7),
    });
    assert_eq!(
        outcome,
        Ok(RunResult {
            stdout: String::new(),
            stderr: String::new(),
            exit_code: Some(7),
            signal: None
        })
    );
}

#[test]
fn a_busy_loop_under_one_second_of_cpu_ends_by_signal() {
    let mut c = config(&["/bin/sh", "-c", "while :; do :; done"]);
    c.time_ms = 1000;
    assert_eq!(resource_limits(&c)[0], Limit { resource: Resource::CpuSeconds, value: 1 });
    let sigxcpu = 24;
    let result = conclude(String::new(), String::new(), WaitOutcome::Signaled(sigxcpu));
    assert_eq!(result.exit_code, None);
    assert_eq!(result.signal, Some(24));
    assert_eq!(result.stdout, "");
    assert_eq!(result.stderr, "");
    let sigkill = 9;
    let result = conclude(String::new(), String::new(), WaitOutcome::Signaled(sigkill));
    assert_eq!((result.exit_code, result.signal), (None, Some(9)));
}

#[test]
fn an_unknown_wait_status_sets_neither_field() {
    let result = conclude("out".to_string(), "err".to_string(), WaitOutcome::Other);
    assert_eq!(result.exit_code, None);
    assert_eq!(result.signal, None);
    assert_eq!(result.stdout, "out");
    assert_eq!(result.stderr, "err");
}

#[test]
fn exit_code_and_signal_are_never_both_set() {
    let statuses = [
        WaitOutcome::Exited(0),
        WaitOutcome::Exited(-1),
        WaitOutcome::Exited(i32::MAX),
        WaitOutcome::Signaled(0),
        WaitOutcome::Signaled(11),
        WaitOutcome::Other,
    ];
    for status in statuses {
        let r = conclude(String::new(), String::new(), status);
        assert!(!(r.exit_code.is_some() && r.signal.is_some()));
        assert_eq!(r.exit_code.is_none() && r.signal.is_none(), status == WaitOutcome::Other);
    }
}

#[test]
fn parent_failures_name_their_stage() {
    assert_eq!(
        settle(Attempt::PipeFailed("EMFILE".to_string())),
        Err("pipe: EMFILE".to_string())
    );
    assert_eq!(
        settle(Attempt::CloneFailed("EPERM".to_string())),
        Err("clone: EPERM".to_string())
    );
    assert_eq!(
        settle(Attempt::WaitFailed("ECHILD".to_string())),
        Err("waitpid: ECHILD".to_string())
    );
}
