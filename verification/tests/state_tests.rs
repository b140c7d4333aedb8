use isolate::env::Env;
use isolate::sandbox::RunConfig;
use isolate::state::{choose_cwd, is_expired, time_since, Registry, SESSION_TTL_SECS};

fn env_of(pairs: &[(&str, &str)]) -> Env {
    let mut env = Env::new();
    for (name, value) in pairs {
        env.insert(name.to_string(), value.to_string());
    }
    env
}

fn pairs_of(env: &Env) -> Vec<(String, String)> {
    (0..env.len()).map(|i| (env.name_at(i).clone(), env.value_at(i).clone())).collect()
}

fn owned(pairs: &[(&str, &str)]) -> Vec<(String, String)> {
    pairs.iter().map(|(n, v)| (n.to_string(), v.to_string())).collect()
}

fn request(command: &[&str], env: Env, cwd: &str) -> RunConfig {
    RunConfig {
        command: command.iter().map(|s| s.to_string()).collect(),
        time_ms: 5000,
        mem_kb: 1024,
        fsize_kb: 10,
        nofile: 16,
        env,
        cwd: cwd.to_string(),
    }
}

fn registry_with(ids: &[&str], now: u64) -> Registry {
    let mut registry = Registry::new();
    for id in ids {
        registry.create(id.to_string(), format!("/tmp/sandbox-{}", id), Env::new(), now);
    }
    registry
}

#[test]
fn the_time_to_live_is_five_minutes() {
    assert_eq!(SESSION_TTL_SECS, 300);
}

#[test]
fn time_since_is_zero_for_a_later_reading() {
    assert_eq!(time_since(10, 3), 7);
    assert_eq!(time_since(3, 3), 0);
    assert_eq!(time_since(3, 10), 0);
    assert_eq!(time_since(u64::MAX, 0), u64::MAX);
}

#[test]
fn a_session_expires_after_more_than_the_time_to_live() {
    assert!(!is_expired(1000, 1000));
    assert!(!is_expired(1000, 300_999));
    assert!(!is_expired(1000, 301_000));
    assert!(is_expired(1000, 301_001));
    assert!(!is_expired(1000, 0));
    assert!(is_expired(0, u64::MAX));
}

#[test]
fn a_request_cwd_overrides_unless_it_is_empty_or_the_root() {
    let own = "/work".to_string();
    assert_eq!(choose_cwd(&"/tmp".to_string(), &own), "/tmp");
    assert_eq!(choose_cwd(&"/".to_string(), &own), "/work");
    assert_eq!(choose_cwd(&"".to_string(), &own), "/work");
    assert_eq!(choose_cwd(&"//".to_string(), &own), "//");
    assert_eq!(choose_cwd(&"relative".to_string(), &own), "relative");
    assert_eq!(choose_cwd(&"/".to_string(), &"/".to_string()), "/");
}

#[test]
fn a_new_registry_is_empty() {
    let registry = Registry::new();
    assert_eq!(registry.len(), 0);
    assert!(!registry.contains("a"));
    assert!(registry.get("a", 0).is_none());
    assert!(registry.list(0).is_empty());
}

#[test]
fn create_then_get() {
    let mut registry = Registry::new();
    registry.create("s1".to_string(), "/tmp/sandbox-s1".to_string(), env_of(&[("A", "1")]), 1000);
    assert!(registry.contains("s1"));
    assert_eq!(registry.len(), 1);
    let info = registry.get("s1", 4500).unwrap();
    assert_eq!(info.id, "s1");
    assert_eq!(pairs_of(&info.env), owned(&[("A", "1")]));
    assert_eq!(info.cwd, "/");
    assert_eq!(info.age_secs, 3);
    assert_eq!(info.idle_secs, 3);
    let session = registry.session_at(0);
    assert_eq!(session.sandbox_root, "/tmp/sandbox-s1");
    assert_eq!((session.created_at, session.last_used), (1000, 1000));
}

#[test]
fn get_does_not_count_as_a_use() {
    let mut registry = registry_with(&["s1"], 0);
    for now in [100_000, 200_000, 300_000] {
        assert!(registry.get("s1", now).is_some());
        assert!(!registry.list(now).is_empty());
    }
    assert_eq!(registry.session_at(0).last_used, 0);
    assert_eq!(registry.reap(300_001), vec!["/tmp/sandbox-s1"]);
    assert!(registry.get("s1", 300_001).is_none());
}

#[test]
fn ages_are_whole_seconds() {
    let registry = registry_with(&["s1"], 1000);
    assert_eq!(registry.get("s1", 1000).unwrap().age_secs, 0);
    assert_eq!(registry.get("s1", 1999).unwrap().age_secs, 0);
    assert_eq!(registry.get("s1", 2000).unwrap().age_secs, 1);
    assert_eq!(registry.get("s1", 500).unwrap().age_secs, 0);
    assert_eq!(registry.get("s1", 500).unwrap().idle_secs, 0);
}

#[test]
fn list_keeps_the_order_of_creation() {
    let mut registry = registry_with(&["b", "a", "c"], 0);
    registry.set_cwd("a", "/tmp".to_string(), 2000);
    let infos = registry.list(5000);
    let ids: Vec<&str> = infos.iter().map(|i| i.id.as_str()).collect();
    assert_eq!(ids, vec!["b", "a", "c"]);
    let idle: Vec<u64> = infos.iter().map(|i| i.idle_secs).collect();
    assert_eq!(idle, vec![5, 3, 5]);
    let age: Vec<u64> = infos.iter().map(|i| i.age_secs).collect();
    assert_eq!(age, vec![5, 5, 5]);
    assert_eq!(infos[1].cwd, "/tmp");
}

#[test]
fn create_with_a_live_id_replaces_the_session() {
    let mut registry = registry_with(&["a", "b"], 0);
    registry.set_cwd("a", "/tmp".to_string(), 10);
    registry.create("a".to_string(), "/elsewhere".to_string(), env_of(&[("N", "v")]), 50);
    assert_eq!(registry.len(), 2);
    let session = registry.session_at(0);
    assert_eq!(session.id, "a");
    assert_eq!(session.sandbox_root, "/elsewhere");
    assert_eq!(session.cwd, "/");
    assert_eq!((session.created_at, session.last_used), (50, 50));
    assert_eq!(registry.session_at(1).id, "b");
}

#[test]
fn delete_hands_back_the_root() {
    let mut registry = registry_with(&["a", "b", "c"], 0);
    assert_eq!(registry.delete("b"), Some("/tmp/sandbox-b".to_string()));
    assert_eq!(registry.len(), 2);
    assert!(!registry.contains("b"));
    assert!(registry.contains("a") && registry.contains("c"));
    assert_eq!(registry.session_at(0).id, "a");
    assert_eq!(registry.session_at(1).id, "c");
    assert_eq!(registry.delete("b"), None);
    assert_eq!(registry.delete("missing"), None);
    assert_eq!(registry.len(), 2);
}

#[test]
fn set_env_merges_and_counts_as_a_use() {
    let mut registry = Registry::new();
    registry.create("s".to_string(), "/r".to_string(), env_of(&[("A", "1"), ("B", "2")]), 0);
    assert!(registry.set_env("s", &env_of(&[("B", "two"), ("C", "3")]), 7000));
    let session = registry.session_at(0);
    assert_eq!(pairs_of(&session.env), owned(&[("A", "1"), ("B", "two"), ("C", "3")]));
    assert_eq!(session.last_used, 7000);
    assert_eq!(session.created_at, 0);
    assert_eq!(session.cwd, "/");
    assert!(!registry.set_env("missing", &env_of(&[("X", "y")]), 8000));
    assert_eq!(registry.len(), 1);
}

#[test]
fn set_env_twice_is_the_union_in_which_the_second_wins() {
    let mut registry = registry_with(&["s"], 0);
    registry.set_env("s", &env_of(&[("FOO", "bar"), ("X", "1")]), 1);
    registry.set_env("s", &env_of(&[("X", "2"), ("Y", "3")]), 2);
    let info = registry.get("s", 2).unwrap();
    assert_eq!(info.env.get("FOO"), Some("bar".to_string()));
    assert_eq!(info.env.get("X"), Some("2".to_string()));
    assert_eq!(info.env.get("Y"), Some("3".to_string()));
    assert_eq!(info.env.len(), 3);
}

#[test]
fn set_cwd_replaces_verbatim() {
    let mut registry = registry_with(&["s"], 0);
    assert!(registry.set_cwd("s", "/tmp".to_string(), 10));
    assert_eq!(registry.session_at(0).cwd, "/tmp");
    assert!(registry.set_cwd("s", "not/absolute/..".to_string(), 20));
    assert_eq!(registry.session_at(0).cwd, "not/absolute/..");
    assert!(registry.set_cwd("s", "".to_string(), 30));
    assert_eq!(registry.session_at(0).cwd, "");
    assert_eq!(registry.session_at(0).last_used, 30);
    assert!(!registry.set_cwd("t", "/tmp".to_string(), 40));
}

#[test]
fn the_time_of_last_use_never_goes_back() {
    let mut registry = registry_with(&["s"], 1000);
    registry.touch("s", 5000);
    assert_eq!(registry.session_at(0).last_used, 5000);
    registry.touch("s", 3000);
    assert_eq!(registry.session_at(0).last_used, 5000);
    registry.set_cwd("s", "/tmp".to_string(), 10);
    assert_eq!(registry.session_at(0).last_used, 5000);
    assert_eq!(registry.session_at(0).cwd, "/tmp");
    registry.touch("s", 5001);
    assert_eq!(registry.session_at(0).last_used, 5001);
    assert_eq!(registry.session_at(0).created_at, 1000);
}

#[test]
fn touch_hands_back_the_root() {
    let mut registry = registry_with(&["a", "b"], 0);
    assert_eq!(registry.touch("b", 9), Some("/tmp/sandbox-b".to_string()));
    assert_eq!(registry.touch("zz", 9), None);
    assert_eq!(registry.session_at(0).last_used, 0);
    assert_eq!(registry.session_at(1).last_used, 9);
}

#[test]
fn a_run_sees_the_session_env_under_the_request_env() {
    let mut registry = Registry::new();
    registry.create("s".to_string(), "/tmp/sandbox-s".to_string(), Env::new(), 0);
    registry.set_env("s", &env_of(&[("FOO", "bar")]), 1);
    let run = registry
        .begin_run("s", &request(&["/bin/sh", "-c", "echo $FOO"], Env::new(), "/"), 2)
        .unwrap();
    assert_eq!(run.sandbox_root, "/tmp/sandbox-s");
    assert_eq!(run.config.command, vec!["/bin/sh", "-c", "echo $FOO"]);
    assert_eq!(pairs_of(&run.config.env), owned(&[("FOO", "bar")]));
    assert_eq!(isolate::executor::child_env(&run.config.env)[0], "FOO=bar");
    assert_eq!(run.config.cwd, "/");
    assert_eq!(
        (run.config.time_ms, run.config.mem_kb, run.config.fsize_kb, run.config.nofile),
        (5000, 1024, 10, 16)
    );
}

#[test]
fn a_request_env_wins_for_the_run_alone() {
    let mut registry = Registry::new();
    registry.create("s".to_string(), "/r".to_string(), env_of(&[("A", "1"), ("B", "2")]), 0);
    registry.set_cwd("s", "/work".to_string(), 1);
    let run = registry
        .begin_run("s", &request(&["x"], env_of(&[("B", "run"), ("C", "run")]), "/tmp"), 2)
        .unwrap();
    assert_eq!(pairs_of(&run.config.env), owned(&[("A", "1"), ("B", "run"), ("C", "run")]));
    assert_eq!(run.config.cwd, "/tmp");
    let session = registry.session_at(0);
    assert_eq!(pairs_of(&session.env), owned(&[("A", "1"), ("B", "2")]));
    assert_eq!(session.cwd, "/work");
    assert_eq!(session.last_used, 2);
}

#[test]
fn a_run_uses_the_session_cwd_for_the_unset_values() {
    let mut registry = registry_with(&["s"], 0);
    registry.set_cwd("s", "/tmp".to_string(), 1);
    for unset in ["/", ""] {
        let run = registry.begin_run("s", &request(&["/bin/cat", "a"], Env::new(), unset), 2);
        assert_eq!(run.unwrap().config.cwd, "/tmp");
    }
}

#[test]
fn a_run_in_a_missing_session_is_refused() {
    let mut registry = registry_with(&["s"], 0);
    assert!(registry.begin_run("t", &request(&["x"], Env::new(), "/"), 5).is_none());
    assert_eq!(registry.session_at(0).last_used, 0);
}

#[test]
fn reap_removes_what_has_been_idle_too_long() {
    let mut registry = Registry::new();
    registry.create("old".to_string(), "/tmp/sandbox-old".to_string(), Env::new(), 0);
    registry.create("edge".to_string(), "/tmp/sandbox-edge".to_string(), Env::new(), 1);
    registry.create("older".to_string(), "/tmp/sandbox-older".to_string(), Env::new(), 0);
    registry.create("new".to_string(), "/tmp/sandbox-new".to_string(), Env::new(), 200_000);
    let roots = registry.reap(300_001);
    assert_eq!(roots, vec!["/tmp/sandbox-old", "/tmp/sandbox-older"]);
    assert_eq!(registry.len(), 2);
    assert_eq!(registry.session_at(0).id, "edge");
    assert_eq!(registry.session_at(1).id, "new");
    assert!(registry.reap(300_001).is_empty());
    assert_eq!(registry.reap(300_002), vec!["/tmp/sandbox-edge"]);
}

#[test]
fn reap_spares_a_session_that_was_used() {
    let mut registry = registry_with(&["a", "b"], 0);
    registry.touch("a", 250_000);
    assert_eq!(registry.reap(400_000), vec!["/tmp/sandbox-b"]);
    assert!(registry.contains("a"));
    assert!(registry.reap(550_000).is_empty());
    assert_eq!(registry.reap(550_001), vec!["/tmp/sandbox-a"]);
    assert_eq!(registry.len(), 0);
}

#[test]
fn an_idle_session_is_gone_after_301_seconds() {
    let mut registry = registry_with(&["S"], 10_000);
    let gone = registry.reap(10_000 + 301 * 1000);
    assert_eq!(gone, vec!["/tmp/sandbox-S"]);
    assert!(registry.get("S", 10_000 + 301 * 1000).is_none());
    let teardown = isolate::sandbox::destroy_session_sandbox(&gone[0]);
    assert_eq!(teardown.len(), 12);
}

#[test]
fn a_session_lives_while_it_is_used_and_not_deleted() {
    let mut registry = registry_with(&["keep", "other"], 0);
    let mut now = 0;
    for round in 0..20 {
        now += 299_000;
        match round % 4 {
            0 => assert!(registry.set_env("keep", &env_of(&[("R", "x")]), now)),
            1 => assert!(registry.set_cwd("keep", "/tmp".to_string(), now)),
            2 => assert!(registry.touch("keep", now).is_some()),
            _ => assert!(registry.begin_run("keep", &request(&["x"], Env::new(), "/"), now).is_some()),
        }
        registry.create(format!("n{}", round), "/r".to_string(), Env::new(), now);
        registry.delete("other");
        registry.reap(now);
        assert!(registry.get("keep", now).is_some());
    }
    assert_eq!(registry.delete("keep"), Some("/tmp/sandbox-keep".to_string()));
    assert!(registry.get("keep", now).is_none());
}
