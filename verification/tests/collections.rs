use appmgr::config::collections::{ConfigMap, NameSet, StoppedMap};
use appmgr::config::value::{Config, Number, Value};
use appmgr::config::{ConfigurationRes, DependencyError, TaggedDependencyError};

fn cfg(n: i64) -> Config {
    Config(vec![("n".to_string(), Value::Number(Number::from_int(n)))])
}

fn names(m: &ConfigMap) -> Vec<String> {
    m.to_vec().into_iter().map(|(k, _)| k).collect()
}

#[test]
fn config_map_keeps_insertion_order() {
    let mut m = ConfigMap::new();
    assert!(m.to_vec().is_empty());
    m.insert("b".to_string(), cfg(1));
    m.insert("a".to_string(), cfg(2));
    m.insert("c".to_string(), cfg(3));
    assert_eq!(names(&m), vec!["b", "a", "c"]);
    assert_eq!(m.get("a"), Some(&cfg(2)));
    assert_eq!(m.get("z"), None);
    assert!(m.contains_key("c"));
    assert!(!m.contains_key("C"));
}

#[test]
fn config_map_insert_moves_an_old_key_to_the_back() {
    let mut m = ConfigMap::new();
    m.insert("b".to_string(), cfg(1));
    m.insert("a".to_string(), cfg(2));
    m.insert("b".to_string(), cfg(3));
    assert_eq!(m.to_vec(), vec![("a".to_string(), cfg(2)), ("b".to_string(), cfg(3))]);
}

#[test]
fn name_set_keeps_each_name_once_and_the_newest_last() {
    let mut s = NameSet::new();
    assert!(s.to_vec().is_empty());
    s.insert("x".to_string());
    s.insert("y".to_string());
    s.insert("x".to_string());
    assert_eq!(s.to_vec(), vec!["y", "x"]);
}

#[test]
fn stopped_map_records_reasons() {
    let mut m = StoppedMap::new();
    let reason = |dep: &str| TaggedDependencyError {
        dependency: dep.to_string(),
        error: DependencyError::NotRunning,
    };
    m.insert("a".to_string(), reason("x"));
    m.insert("b".to_string(), reason("y"));
    m.insert("a".to_string(), reason("z"));
    assert_eq!(
        m.to_vec(),
        vec![("b".to_string(), reason("y")), ("a".to_string(), reason("z"))]
    );
}

#[test]
fn a_fresh_result_is_empty() {
    let res = ConfigurationRes::default();
    assert!(res.changed.to_vec().is_empty());
    assert!(res.needs_restart.to_vec().is_empty());
    assert!(res.stopped.to_vec().is_empty());
}
