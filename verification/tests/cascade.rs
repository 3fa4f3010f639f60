use std::collections::BTreeMap;

use appmgr::config::cascade::{validate, Action, AppStatus, Event, Loaded, Step};
use appmgr::config::collections::ConfigMap;
use appmgr::config::rules::{Condition, ConfigRule, ConfigRuleEntry, Reference, Term};
use appmgr::config::spec::{ConfigSpec, DefaultString, ValueSpec, ValueSpecPointer};
use appmgr::config::util::{Bound, NumRange};
use appmgr::config::value::{Config, Number, Value};
use appmgr::config::{configure, ConfigurationRes, DependencyError, TaggedDependencyError};
use appmgr::error::{
    Error, CFG_RULES_VIOLATION, CFG_SPEC_VIOLATION, FILESYSTEM_ERROR, GENERAL_ERROR, NOT_FOUND,
};
use rand::rngs::StdRng;
use rand::SeedableRng;

fn num(n: i64) -> Value {
    Value::Number(Number::from_int(n))
}

fn object(entries: Vec<(&str, Value)>) -> Config {
    Config(entries.into_iter().map(|(k, v)| (k.to_string(), v)).collect())
}

fn port_range() -> ValueSpec {
    ValueSpec::Number {
        range: Some(NumRange(
            Bound::Included(Number::from_int(1)),
            Bound::Included(Number::from_int(65535)),
        )),
        integral: true,
        default: Some(Number::from_int(8080)),
    }
}

fn x_spec() -> ConfigSpec {
    ConfigSpec(vec![("port".to_string(), port_range())])
}

fn y_spec() -> ConfigSpec {
    ConfigSpec(vec![(
        "port".to_string(),
        ValueSpec::Pointer(ValueSpecPointer {
            app_id: "x".to_string(),
            index: vec!["port".to_string()],
        }),
    )])
}

fn strict_spec() -> ConfigSpec {
    ConfigSpec(vec![(
        "name".to_string(),
        ValueSpec::String { pattern: None, default: None },
    )])
}

fn no_rules() -> Vec<ConfigRuleEntry> {
    vec![]
}

fn low_port_rule() -> Vec<ConfigRuleEntry> {
    vec![ConfigRuleEntry {
        rule: ConfigRule {
            condition: Condition::Always,
            consequence: Condition::Not(Box::new(Condition::Equals(
                Term::Field(Reference { app_id: None, path: vec!["port".to_string()] }),
                Term::Literal(num(666)),
            ))),
        },
        description: "port 666 is taken".to_string(),
    }]
}

fn always(_: &Config, _: &Config) -> Option<DependencyError> {
    None
}

fn rejects_9090(dependency: &Config, _: &Config) -> Option<DependencyError> {
    if dependency.get("port") == Some(&num(9090)) {
        Some(DependencyError::ConfigUnsatisfied(vec!["port must not be 9090".to_string()]))
    } else {
        None
    }
}

struct App {
    status: AppStatus,
    spec: fn() -> ConfigSpec,
    rules: fn() -> Vec<ConfigRuleEntry>,
    config: Option<Config>,
    dependents: Vec<String>,
    requirement: fn(&Config, &Config) -> Option<DependencyError>,
    running: bool,
    needs_restart: bool,
    fail_persist: bool,
    fail_load: bool,
    fail_stop: bool,
}

fn app(spec: fn() -> ConfigSpec) -> App {
    App {
        status: AppStatus { configured: false, recoverable: false },
        spec,
        rules: no_rules,
        config: None,
        dependents: vec![],
        requirement: always,
        running: false,
        needs_restart: false,
        fail_persist: false,
        fail_load: false,
        fail_stop: false,
    }
}

struct World {
    apps: BTreeMap<String, App>,
    log: Vec<String>,
}

impl World {
    fn new() -> World {
        World { apps: BTreeMap::new(), log: vec![] }
    }

    fn with(mut self, name: &str, app: App) -> World {
        self.apps.insert(name.to_string(), app);
        self
    }

    fn stored(&self) -> ConfigMap {
        let mut m = ConfigMap::new();
        for (name, app) in self.apps.iter() {
            if let Some(c) = &app.config {
                m.insert(name.clone(), c.clone());
            }
        }
        m
    }

    fn stop_dependents(&mut self, name: &str, out: &mut Vec<(String, TaggedDependencyError)>) {
        let dependents = self.apps[name].dependents.clone();
        for d in dependents {
            let running = self.apps[&d].running;
            if running {
                self.apps.get_mut(&d).unwrap().running = false;
                out.push((
                    d.clone(),
                    TaggedDependencyError {
                        dependency: name.to_string(),
                        error: DependencyError::NotRunning,
                    },
                ));
                self.stop_dependents(&d, out);
            }
        }
    }

    fn perform(&mut self, action: Action, dry_run: bool) -> Event {
        match action {
            Action::Load { name } => {
                self.log.push(format!("load {}", name));
                let persisted = self.stored();
                match self.apps.get(&name) {
                    None => Event::Loaded(Loaded {
                        info: None,
                        spec: ConfigSpec(vec![]),
                        rules: vec![],
                        old_config: None,
                        persisted,
                    }),
                    Some(a) if a.fail_load => {
                        Event::Failed(Error::new("disk on fire".to_string(), FILESYSTEM_ERROR))
                    },
                    Some(a) => Event::Loaded(Loaded {
                        info: Some(a.status),
                        spec: (a.spec)(),
                        rules: (a.rules)(),
                        old_config: a.config.clone(),
                        persisted,
                    }),
                }
            },
            Action::ListDependents { name } => {
                self.log.push(format!("list {}", name));
                Event::Dependents(self.apps[&name].dependents.clone())
            },
            Action::CheckRequirement { dependency_config, dependent, dependent_config, .. } => {
                self.log.push(format!("check {}", dependent));
                Event::Requirement((self.apps[&dependent].requirement)(
                    &dependency_config,
                    &dependent_config,
                ))
            },
            Action::MarkUnconfigured { name } => {
                assert!(!dry_run);
                self.log.push(format!("unconfigure {}", name));
                self.apps.get_mut(&name).unwrap().status.configured = false;
                Event::Done
            },
            Action::StopDependents { name } => {
                self.log.push(format!("stop dependents of {}", name));
                let mut stopped = vec![];
                if !dry_run {
                    self.stop_dependents(&name, &mut stopped);
                }
                Event::DependentsStopped { stopped, running: self.apps[&name].running }
            },
            Action::StopApp { name } => {
                self.log.push(format!("stop {}", name));
                if self.apps[&name].fail_stop {
                    return Event::Failed(Error::new("will not stop".to_string(), GENERAL_ERROR));
                }
                if !dry_run {
                    self.apps.get_mut(&name).unwrap().running = false;
                }
                Event::Done
            },
            Action::Persist { name, config } => {
                assert!(!dry_run);
                self.log.push(format!("persist {}", name));
                let a = self.apps.get_mut(&name).unwrap();
                if a.fail_persist {
                    return Event::Failed(Error::new("disk full".to_string(), FILESYSTEM_ERROR));
                }
                a.config = Some(config);
                a.status = AppStatus { configured: true, recoverable: false };
                Event::Done
            },
            Action::Status { name } => {
                self.log.push(format!("status {}", name));
                Event::Status(self.apps[&name].running)
            },
            Action::MarkNeedsRestart { name } => {
                assert!(!dry_run);
                self.log.push(format!("flag {}", name));
                self.apps.get_mut(&name).unwrap().needs_restart = true;
                Event::Done
            },
        }
    }

    fn configure(
        &mut self,
        name: &str,
        config: Option<Config>,
        dry_run: bool,
    ) -> Result<ConfigurationRes, Error> {
        self.log.clear();
        let rng = StdRng::seed_from_u64(11);
        let (mut cascade, mut action) =
            configure(name.to_string(), config, None, dry_run, rng);
        for _ in 0..10_000 {
            let event = self.perform(action, dry_run);
            match cascade.step(event) {
                Step::Continue(c, a) => {
                    cascade = c;
                    action = a;
                },
                Step::Finish(res) => return res,
            }
        }
        panic!("the cascade does not end");
    }
}

fn changed(res: &ConfigurationRes) -> Vec<(String, Config)> {
    res.changed.to_vec()
}

fn stopped(res: &ConfigurationRes) -> Vec<(String, TaggedDependencyError)> {
    res.stopped.to_vec()
}

#[test]
fn scenario_a_running_app_without_dependents() {
    let mut x = app(x_spec);
    x.running = true;
    let mut world = World::new().with("x", x);
    let res = world.configure("x", Some(object(vec![("port", num(8080))])), false).unwrap();
    assert_eq!(changed(&res), vec![("x".to_string(), object(vec![("port", num(8080))]))]);
    assert_eq!(res.needs_restart.to_vec(), vec!["x"]);
    assert!(stopped(&res).is_empty());
    assert_eq!(world.apps["x"].config, Some(object(vec![("port", num(8080))])));
    assert_eq!(world.apps["x"].status, AppStatus { configured: true, recoverable: false });
    assert!(world.apps["x"].needs_restart);
    assert_eq!(
        world.log,
        vec!["load x", "list x", "persist x", "status x", "flag x"]
    );
}

#[test]
fn scenario_a_stopped_app_needs_no_restart() {
    let mut world = World::new().with("x", app(x_spec));
    let res = world.configure("x", Some(object(vec![("port", num(8080))])), false).unwrap();
    assert_eq!(changed(&res), vec![("x".to_string(), object(vec![("port", num(8080))]))]);
    assert!(res.needs_restart.to_vec().is_empty());
    assert!(stopped(&res).is_empty());
    assert!(!world.apps["x"].needs_restart);
}

fn x_and_y(requirement: fn(&Config, &Config) -> Option<DependencyError>) -> World {
    let mut x = app(x_spec);
    x.dependents = vec!["y".to_string()];
    x.running = true;
    x.config = Some(object(vec![("port", num(8080))]));
    x.status.configured = true;
    let mut y = app(y_spec);
    y.running = true;
    y.config = Some(object(vec![("port", num(8080))]));
    y.status.configured = true;
    y.requirement = requirement;
    World::new().with("x", x).with("y", y)
}

#[test]
fn scenario_b_dependent_follows_the_pointer() {
    let mut world = x_and_y(always);
    let res = world.configure("x", Some(object(vec![("port", num(9090))])), false).unwrap();
    assert_eq!(
        changed(&res),
        vec![
            ("x".to_string(), object(vec![("port", num(9090))])),
            ("y".to_string(), object(vec![("port", num(9090))])),
        ]
    );
    assert_eq!(res.needs_restart.to_vec(), vec!["y", "x"]);
    assert!(stopped(&res).is_empty());
    assert_eq!(world.apps["y"].config, Some(object(vec![("port", num(9090))])));
    assert_eq!(world.apps["x"].config, Some(object(vec![("port", num(9090))])));
}

#[test]
fn scenario_b_dependent_whose_requirement_fails_is_stopped() {
    let mut world = x_and_y(rejects_9090);
    let res = world.configure("x", Some(object(vec![("port", num(9090))])), false).unwrap();
    assert_eq!(
        stopped(&res),
        vec![(
            "y".to_string(),
            TaggedDependencyError {
                dependency: "x".to_string(),
                error: DependencyError::ConfigUnsatisfied(vec![
                    "port must not be 9090".to_string()
                ]),
            }
        )]
    );
    assert!(changed(&res).iter().any(|(n, c)| n == "x" && *c == object(vec![("port", num(9090))])));
    assert_eq!(world.apps["x"].config, Some(object(vec![("port", num(9090))])));
    assert!(!world.apps["y"].running);
    assert!(world.log.contains(&"stop y".to_string()));
    assert!(world.log.contains(&"persist x".to_string()));
}

#[test]
fn scenario_c_generates_a_default_when_nothing_is_stored_or_given() {
    let run = || {
        let mut world = World::new().with("x", app(x_spec));
        let res = world.configure("x", None, false).unwrap();
        (changed(&res), world.apps["x"].config.clone())
    };
    let (first, stored) = run();
    assert_eq!(first, vec![("x".to_string(), object(vec![("port", num(8080))]))]);
    assert_eq!(stored, Some(object(vec![("port", num(8080))])));
    assert_eq!(x_spec().matches(&first[0].1), Ok(()));
    assert_eq!(run().0, first);
}

fn secret_spec() -> ConfigSpec {
    ConfigSpec(vec![(
        "secret".to_string(),
        ValueSpec::String {
            pattern: Some("^[a-f]{12}$".to_string()),
            default: Some(DefaultString::Entropy { charset: ('a'..='f').collect(), len: 12 }),
        },
    )])
}

#[test]
fn scenario_c_random_defaults_repeat_for_a_seed() {
    let run = || {
        let mut world = World::new().with("x", app(secret_spec));
        changed(&world.configure("x", None, false).unwrap())
    };
    let first = run();
    assert_eq!(first.len(), 1);
    assert_eq!(secret_spec().matches(&first[0].1), Ok(()));
    assert_eq!(run(), first);
}

#[test]
fn the_stored_configuration_is_the_candidate_when_none_is_given() {
    let mut x = app(x_spec);
    x.config = Some(object(vec![("port", num(4444))]));
    let mut world = World::new().with("x", x);
    let res = world.configure("x", None, false).unwrap();
    assert_eq!(changed(&res), vec![("x".to_string(), object(vec![("port", num(4444))]))]);
}

#[test]
fn a_second_call_changes_nothing_and_does_not_descend() {
    let mut world = x_and_y(always);
    let v = object(vec![("port", num(9090))]);
    let first = world.configure("x", Some(v.clone()), false).unwrap();
    assert_eq!(changed(&first).len(), 2);
    let second = world.configure("x", Some(v), false).unwrap();
    assert!(changed(&second).is_empty());
    assert!(second.needs_restart.to_vec().is_empty());
    assert!(stopped(&second).is_empty());
    assert_eq!(world.log, vec!["load x"]);
}

#[test]
fn an_unchanged_app_that_is_recoverable_is_configured_again() {
    let mut x = app(x_spec);
    x.config = Some(object(vec![("port", num(8080))]));
    x.status = AppStatus { configured: true, recoverable: true };
    let mut world = World::new().with("x", x);
    let res = world.configure("x", Some(object(vec![("port", num(8080))])), false).unwrap();
    assert_eq!(changed(&res).len(), 1);
    assert_eq!(world.apps["x"].status, AppStatus { configured: true, recoverable: false });
}

#[test]
fn an_unchanged_app_that_is_not_configured_is_configured_again() {
    let mut x = app(x_spec);
    x.config = Some(object(vec![("port", num(8080))]));
    let mut world = World::new().with("x", x);
    let res = world.configure("x", Some(object(vec![("port", num(8080))])), false).unwrap();
    assert_eq!(changed(&res).len(), 1);
}

fn a_with_broken_d() -> World {
    let mut a = app(x_spec);
    a.dependents = vec!["d".to_string(), "e".to_string()];
    let mut d = app(strict_spec);
    d.running = true;
    d.status.configured = true;
    d.config = Some(object(vec![("name", num(1))]));
    d.dependents = vec!["f".to_string()];
    let mut e = app(x_spec);
    e.running = true;
    let mut f = app(x_spec);
    f.running = true;
    World::new().with("a", a).with("d", d).with("e", e).with("f", f)
}

#[test]
fn a_dependent_that_breaks_its_schema_is_contained() {
    let mut world = a_with_broken_d();
    let res = world.configure("a", Some(object(vec![("port", num(1))])), false).unwrap();
    let names: Vec<String> = changed(&res).into_iter().map(|(n, _)| n).collect();
    assert_eq!(names, vec!["a", "e"]);
    assert_eq!(
        stopped(&res),
        vec![
            (
                "f".to_string(),
                TaggedDependencyError {
                    dependency: "d".to_string(),
                    error: DependencyError::NotRunning,
                }
            ),
            (
                "d".to_string(),
                TaggedDependencyError {
                    dependency: "a".to_string(),
                    error: DependencyError::PointerUpdateError(
                        "name: Invalid Type: expected string, actual: number".to_string()
                    ),
                }
            ),
        ]
    );
    assert!(!world.apps["d"].status.configured);
    assert!(!world.apps["d"].running);
    assert!(!world.apps["f"].running);
    assert_eq!(world.apps["d"].config, Some(object(vec![("name", num(1))])));
    assert_eq!(world.apps["e"].config, Some(object(vec![("port", num(8080))])));
    assert_eq!(res.needs_restart.to_vec(), vec!["e"]);
}

#[test]
fn a_broken_dependent_that_was_stopped_already_is_not_recorded() {
    let mut world = a_with_broken_d();
    world.apps.get_mut("d").unwrap().running = false;
    world.apps.get_mut("f").unwrap().running = false;
    let res = world.configure("a", Some(object(vec![("port", num(1))])), false).unwrap();
    assert!(stopped(&res).is_empty());
    assert!(!world.log.contains(&"stop d".to_string()));
    assert!(!world.apps["d"].status.configured);
}

#[test]
fn a_dependent_that_fails_otherwise_is_contained_and_stays_configured() {
    let mut world = a_with_broken_d();
    {
        let d = world.apps.get_mut("d").unwrap();
        d.config = Some(object(vec![("name", Value::String("d".to_string()))]));
        d.fail_load = true;
    }
    let res = world.configure("a", Some(object(vec![("port", num(1))])), false).unwrap();
    assert_eq!(
        stopped(&res).last().unwrap(),
        &(
            "d".to_string(),
            TaggedDependencyError {
                dependency: "a".to_string(),
                error: DependencyError::Other("disk on fire".to_string()),
            }
        )
    );
    assert!(world.apps["d"].status.configured);
    assert!(!world.log.contains(&"unconfigure d".to_string()));
}

#[test]
fn a_dependent_that_breaks_a_rule_is_contained() {
    let mut x = app(x_spec);
    x.dependents = vec!["y".to_string()];
    let mut y = app(y_spec);
    y.rules = low_port_rule;
    y.running = true;
    y.status.configured = true;
    let mut world = World::new().with("x", x).with("y", y);
    let res = world.configure("x", Some(object(vec![("port", num(666))])), false).unwrap();
    assert_eq!(
        stopped(&res),
        vec![(
            "y".to_string(),
            TaggedDependencyError {
                dependency: "x".to_string(),
                error: DependencyError::PointerUpdateError("port 666 is taken".to_string()),
            }
        )]
    );
    assert!(!world.apps["y"].status.configured);
    assert_eq!(changed(&res).len(), 1);
}

#[test]
fn a_dry_run_changes_nothing_outside() {
    let mut world = x_and_y(rejects_9090);
    let res = world.configure("x", Some(object(vec![("port", num(9090))])), true).unwrap();
    assert_eq!(changed(&res).len(), 2);
    assert_eq!(stopped(&res).len(), 1);
    assert_eq!(res.needs_restart.to_vec(), vec!["y", "x"]);
    assert_eq!(world.apps["x"].config, Some(object(vec![("port", num(8080))])));
    assert_eq!(world.apps["y"].config, Some(object(vec![("port", num(8080))])));
    assert!(world.apps["y"].running);
    assert!(!world.apps["x"].needs_restart);
    assert!(!world.log.iter().any(|l| l.starts_with("persist") || l.starts_with("flag")));
}

#[test]
fn a_dry_run_does_not_mark_a_broken_dependent() {
    let mut world = a_with_broken_d();
    let res = world.configure("a", Some(object(vec![("port", num(1))])), true).unwrap();
    assert!(world.apps["d"].status.configured);
    assert!(stopped(&res).iter().any(|(n, _)| n == "d"));
}

#[test]
fn an_app_that_is_not_installed_is_not_found() {
    let mut world = World::new();
    let err = world.configure("ghost", None, false).err().unwrap();
    assert_eq!(err, Error::new("ghost is not installed".to_string(), NOT_FOUND));
}

#[test]
fn a_violation_at_the_root_is_handed_to_the_caller() {
    let mut world = World::new().with("x", app(x_spec));
    let err =
        world.configure("x", Some(object(vec![("port", num(0))])), false).err().unwrap();
    assert_eq!(err.code, CFG_SPEC_VIOLATION);
    assert_eq!(err.message, "port: Number Out Of Range: expected [1,65535], actual: 0");
    assert_eq!(world.apps["x"].config, None);
    assert_eq!(world.log, vec!["load x"]);
}

#[test]
fn a_broken_rule_at_the_root_is_handed_to_the_caller() {
    let mut x = app(x_spec);
    x.rules = low_port_rule;
    let mut world = World::new().with("x", x);
    let err =
        world.configure("x", Some(object(vec![("port", num(666))])), false).err().unwrap();
    assert_eq!(err, Error::new("port 666 is taken".to_string(), CFG_RULES_VIOLATION));
}

#[test]
fn a_failure_to_store_at_the_root_ends_the_call() {
    let mut x = app(x_spec);
    x.fail_persist = true;
    let mut world = World::new().with("x", x);
    let err =
        world.configure("x", Some(object(vec![("port", num(80))])), false).err().unwrap();
    assert_eq!(err, Error::new("disk full".to_string(), FILESYSTEM_ERROR));
}

#[test]
fn a_cycle_of_dependents_ends() {
    let mut a = app(x_spec);
    a.dependents = vec!["b".to_string()];
    let mut b = app(x_spec);
    b.dependents = vec!["a".to_string()];
    b.config = Some(object(vec![("port", num(2))]));
    b.status.configured = true;
    let mut world = World::new().with("a", a).with("b", b);
    let res = world.configure("a", Some(object(vec![("port", num(1))])), false).unwrap();
    assert_eq!(changed(&res).len(), 1);
    assert_eq!(world.log, vec!["load a", "list a", "load b", "check b", "persist a", "status a"]);
}

#[test]
fn configuring_begins_with_loading_the_root() {
    let rng = StdRng::seed_from_u64(0);
    let (cascade, action) = configure("x".to_string(), None, None, true, rng);
    assert_eq!(action, Action::Load { name: "x".to_string() });
    assert_eq!(cascade.stack.len(), 1);
    assert_eq!(cascade.stack[0].name, "x");
    assert!(cascade.dry_run);
}

#[test]
fn an_event_that_is_not_expected_ends_the_call() {
    let rng = StdRng::seed_from_u64(0);
    let (cascade, _) = configure("x".to_string(), None, None, false, rng);
    match cascade.step(Event::Done) {
        Step::Finish(Err(e)) => {
            assert_eq!(e, Error::new("unexpected event".to_string(), GENERAL_ERROR))
        },
        _ => panic!("the cascade went on"),
    }
}

#[test]
fn validate_runs_match_update_and_rules_in_turn() {
    let live = || {
        let mut m = ConfigMap::new();
        m.insert("x".to_string(), object(vec![("port", num(666))]));
        m
    };
    let name = "y".to_string();
    assert_eq!(
        validate(&name, &y_spec(), &no_rules(), Config::new(), live()),
        Ok(object(vec![("port", num(666))]))
    );
    assert_eq!(
        validate(&name, &y_spec(), &low_port_rule(), Config::new(), live()),
        Err(Error::new("port 666 is taken".to_string(), CFG_RULES_VIOLATION))
    );
    assert_eq!(
        validate(&name, &y_spec(), &no_rules(), Config::new(), ConfigMap::new()),
        Err(Error::new(
            "System Error: x is not installed".to_string(),
            CFG_SPEC_VIOLATION
        ))
    );
    assert_eq!(
        validate(&name, &strict_spec(), &no_rules(), Config::new(), live()),
        Err(Error::new("name: Field Is Not Nullable".to_string(), CFG_SPEC_VIOLATION))
    );
}

#[test]
fn rules_see_the_candidate_under_the_name_of_its_app() {
    let rules = vec![ConfigRuleEntry {
        rule: ConfigRule {
            condition: Condition::Always,
            consequence: Condition::Equals(
                Term::Field(Reference { app_id: None, path: vec!["port".to_string()] }),
                Term::Field(Reference {
                    app_id: Some("x".to_string()),
                    path: vec!["port".to_string()],
                }),
            ),
        },
        description: "sees itself".to_string(),
    }];
    let name = "x".to_string();
    assert_eq!(
        validate(&name, &x_spec(), &rules, object(vec![("port", num(5))]), ConfigMap::new()),
        Ok(object(vec![("port", num(5))]))
    );
}

#[test]
fn a_failure_while_containing_fails_the_app_that_contains() {
    let mut world = a_with_broken_d();
    world.apps.get_mut("d").unwrap().fail_stop = true;
    let err = world.configure("a", Some(object(vec![("port", num(1))])), false).err().unwrap();
    assert_eq!(err, Error::new("will not stop".to_string(), GENERAL_ERROR));
    assert_eq!(world.apps["a"].config, None);
    assert!(!world.log.contains(&"load e".to_string()));
}

#[test]
fn a_failure_while_containing_is_contained_one_level_up() {
    let mut root = app(x_spec);
    root.dependents = vec!["a".to_string()];
    let mut world = a_with_broken_d().with("root", root);
    world.apps.get_mut("a").unwrap().running = true;
    world.apps.get_mut("d").unwrap().fail_stop = true;
    let res = world.configure("root", Some(object(vec![("port", num(5))])), false).unwrap();
    assert_eq!(
        stopped(&res).last().unwrap(),
        &(
            "a".to_string(),
            TaggedDependencyError {
                dependency: "root".to_string(),
                error: DependencyError::Other("will not stop".to_string()),
            }
        )
    );
    assert_eq!(world.apps["root"].config, Some(object(vec![("port", num(5))])));
    assert_eq!(world.apps["a"].config, None);
}
