use isolate::env::Env;

fn env_of(pairs: &[(&str, &str)]) -> Env {
    let mut env = Env::new();
    for (name, value) in pairs {
        env.insert(name.to_string(), value.to_string());
    }
    env
}

fn pairs_of(env: &Env) -> Vec<(String, String)> {
    (0..env.len()).map(|i| (env.name_at(i).clone(), env.value_at(i).clone())).collect()
}

fn owned(pairs: &[(&str, &str)]) -> Vec<(String, String)> {
    pairs.iter().map(|(n, v)| (n.to_string(), v.to_string())).collect()
}

#[test]
fn new_env_is_empty() {
    let env = Env::new();
    assert_eq!(env.len(), 0);
    assert_eq!(env.get("PATH"), None);
    assert_eq!(env.position("PATH"), None);
}

#[test]
fn insert_appends_new_names_in_order() {
    let env = env_of(&[("B", "2"), ("A", "1"), ("C", "3")]);
    assert_eq!(pairs_of(&env), owned(&[("B", "2"), ("A", "1"), ("C", "3")]));
    assert_eq!(env.position("A"), Some(1));
    assert_eq!(env.get("C"), Some("3".to_string()));
}

#[test]
fn insert_overwrites_in_place() {
    let mut env = env_of(&[("B", "2"), ("A", "1"), ("C", "3")]);
    env.insert("A".to_string(), "one".to_string());
    assert_eq!(env.len(), 3);
    assert_eq!(pairs_of(&env), owned(&[("B", "2"), ("A", "one"), ("C", "3")]));
}

#[test]
fn names_are_compared_whole_and_case_sensitive() {
    let env = env_of(&[("FOO", "1"), ("foo", "2"), ("FOOBAR", "3"), ("", "4")]);
    assert_eq!(env.len(), 4);
    assert_eq!(env.get("FOO"), Some("1".to_string()));
    assert_eq!(env.get("foo"), Some("2".to_string()));
    assert_eq!(env.get("FOOBAR"), Some("3".to_string()));
    assert_eq!(env.get(""), Some("4".to_string()));
    assert_eq!(env.get("FO"), None);
}

#[test]
fn extend_overrides_and_keeps_the_rest() {
    let mut env = env_of(&[("A", "1"), ("B", "2")]);
    let over = env_of(&[("B", "two"), ("C", "3")]);
    env.extend(&over);
    assert_eq!(pairs_of(&env), owned(&[("A", "1"), ("B", "two"), ("C", "3")]));
    assert_eq!(pairs_of(&over), owned(&[("B", "two"), ("C", "3")]));
}

#[test]
fn extend_with_empty_changes_nothing() {
    let mut env = env_of(&[("A", "1")]);
    env.extend(&Env::new());
    assert_eq!(pairs_of(&env), owned(&[("A", "1")]));
    let mut empty = Env::new();
    empty.extend(&env);
    assert_eq!(pairs_of(&empty), owned(&[("A", "1")]));
}

#[test]
fn second_extend_wins_over_first() {
    let mut env = env_of(&[("KEEP", "k"), ("X", "0")]);
    env.extend(&env_of(&[("X", "1"), ("Y", "1")]));
    env.extend(&env_of(&[("Y", "2"), ("Z", "2")]));
    assert_eq!(env.get("KEEP"), Some("k".to_string()));
    assert_eq!(env.get("X"), Some("1".to_string()));
    assert_eq!(env.get("Y"), Some("2".to_string()));
    assert_eq!(env.get("Z"), Some("2".to_string()));
    assert_eq!(env.len(), 4);
}

#[test]
fn extend_matches_a_hash_map_on_many_maps() {
    let mut seed: u64 = 0x2545F4914F6CDD1D;
    let mut next = move || {
        seed ^= seed << 13;
        seed ^= seed >> 7;
        seed ^= seed << 17;
        seed
    };
    for _ in 0..200 {
        let mut env = Env::new();
        let mut model = std::collections::HashMap::new();
        for _ in 0..3 {
            let mut over = Env::new();
            let mut over_model = std::collections::HashMap::new();
            for _ in 0..(next() % 6) {
                let name = format!("N{}", next() % 5);
                let value = format!("v{}", next() % 100);
                over.insert(name.clone(), value.clone());
                over_model.insert(name, value);
            }
            env.extend(&over);
            model.extend(over_model);
            assert_eq!(env.len(), model.len());
            for (name, value) in &model {
                assert_eq!(env.get(name), Some(value.clone()));
            }
        }
    }
}

#[test]
fn clone_keeps_bindings_and_is_independent() {
    let env = env_of(&[("A", "1"), ("B", "2")]);
    let mut copy = env.clone();
    assert_eq!(pairs_of(&copy), pairs_of(&env));
    copy.insert("A".to_string(), "changed".to_string());
    assert_eq!(env.get("A"), Some("1".to_string()));
}
