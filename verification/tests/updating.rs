use appmgr::config::collections::ConfigMap;
use appmgr::config::spec::{ConfigSpec, ValueSpec, ValueSpecPointer};
use appmgr::config::update::resolve;
use appmgr::config::util::{Bound, NumRange};
use appmgr::config::value::{Config, Number, Value};
use appmgr::config::{ConfigurationError, MatchError, NoMatchWithPath};
use appmgr::error::{Error, NOT_FOUND};

fn text(s: &str) -> Value {
    Value::String(s.to_string())
}

fn num(n: i64) -> Value {
    Value::Number(Number::from_int(n))
}

fn object(entries: Vec<(&str, Value)>) -> Config {
    Config(entries.into_iter().map(|(k, v)| (k.to_string(), v)).collect())
}

fn pointer(app: &str, path: Vec<&str>) -> ValueSpecPointer {
    ValueSpecPointer {
        app_id: app.to_string(),
        index: path.into_iter().map(|s| s.to_string()).collect(),
    }
}

fn live() -> ConfigMap {
    let mut m = ConfigMap::new();
    m.insert(
        "x".to_string(),
        object(vec![
            ("port", num(9090)),
            ("db", Value::Object(object(vec![("host", text("localhost"))]))),
        ]),
    );
    m
}

fn y_spec() -> ConfigSpec {
    ConfigSpec(vec![
        ("name".to_string(), ValueSpec::String { pattern: None, default: None }),
        ("upstream".to_string(), ValueSpec::Pointer(pointer("x", vec!["port"]))),
    ])
}

#[test]
fn update_overwrites_the_pointer_and_leaves_the_rest() {
    let mut cfg = object(vec![("name", text("y")), ("upstream", num(1))]);
    assert_eq!(y_spec().update(&mut cfg, &live()), Ok(()));
    assert_eq!(cfg, object(vec![("name", text("y")), ("upstream", num(9090))]));
}

#[test]
fn update_adds_a_pointer_field_that_was_missing() {
    let mut cfg = object(vec![("name", text("y"))]);
    assert_eq!(y_spec().update(&mut cfg, &live()), Ok(()));
    assert_eq!(cfg, object(vec![("name", text("y")), ("upstream", num(9090))]));
}

#[test]
fn update_does_not_add_other_fields_that_were_missing() {
    let mut cfg = Config::new();
    assert_eq!(y_spec().update(&mut cfg, &live()), Ok(()));
    assert_eq!(cfg, object(vec![("upstream", num(9090))]));
}

#[test]
fn update_is_idempotent() {
    let mut cfg = object(vec![("name", text("y")), ("upstream", num(1))]);
    y_spec().update(&mut cfg, &live()).unwrap();
    let once = cfg.clone();
    y_spec().update(&mut cfg, &live()).unwrap();
    assert_eq!(cfg, once);
}

#[test]
fn update_keeps_a_match() {
    let mut cfg = object(vec![("name", text("y")), ("upstream", text("stale"))]);
    assert_eq!(y_spec().matches(&cfg), Ok(()));
    y_spec().update(&mut cfg, &live()).unwrap();
    assert_eq!(y_spec().matches(&cfg), Ok(()));
}

#[test]
fn pointer_follows_a_path_of_several_names() {
    let spec = ConfigSpec(vec![(
        "host".to_string(),
        ValueSpec::Pointer(pointer("x", vec!["db", "host"])),
    )]);
    let mut cfg = Config::new();
    spec.update(&mut cfg, &live()).unwrap();
    assert_eq!(cfg, object(vec![("host", text("localhost"))]));
}

#[test]
fn pointer_with_an_empty_path_is_the_whole_configuration() {
    let p = pointer("x", vec![]);
    let whole = p.target(&live()).unwrap();
    assert_eq!(whole, Value::Object(live().get("x").unwrap().clone()));
}

#[test]
fn pointer_to_a_field_that_is_not_there_is_invalid() {
    let spec = ConfigSpec(vec![(
        "upstream".to_string(),
        ValueSpec::Pointer(pointer("x", vec!["nope"])),
    )]);
    let mut cfg = object(vec![("upstream", num(1))]);
    let before = cfg.clone();
    let err = spec.update(&mut cfg, &live()).unwrap_err();
    assert_eq!(
        err,
        ConfigurationError::NoMatch(NoMatchWithPath {
            path: vec!["upstream".to_string()],
            error: MatchError::InvalidPointer(pointer("x", vec!["nope"])),
        })
    );
    assert_eq!(err.message(), "No Match: upstream: Pointer Is Invalid: [x].nope");
    assert_eq!(cfg, before);
}

#[test]
fn pointer_through_a_value_that_is_no_object_is_invalid() {
    let p = pointer("x", vec!["port", "deeper"]);
    assert!(matches!(
        p.target(&live()),
        Err(ConfigurationError::NoMatch(NoMatchWithPath {
            error: MatchError::InvalidPointer(_),
            ..
        }))
    ));
}

#[test]
fn pointer_into_an_application_that_is_not_at_hand_is_a_system_error() {
    let spec = ConfigSpec(vec![(
        "upstream".to_string(),
        ValueSpec::Pointer(pointer("ghost", vec!["port"])),
    )]);
    let mut cfg = Config::new();
    let err = spec.update(&mut cfg, &live()).unwrap_err();
    assert_eq!(
        err,
        ConfigurationError::SystemError(Error::new("ghost is not installed".to_string(), NOT_FOUND))
    );
    assert_eq!(err.message(), "System Error: ghost is not installed");
}

#[test]
fn update_reaches_pointers_in_lists_and_nested_objects() {
    let item = ConfigSpec(vec![
        ("label".to_string(), ValueSpec::String { pattern: None, default: None }),
        ("port".to_string(), ValueSpec::Pointer(pointer("x", vec!["port"]))),
    ]);
    let spec = ConfigSpec(vec![(
        "routes".to_string(),
        ValueSpec::List {
            spec: Box::new(ValueSpec::Object { spec: item, null_by_default: false }),
            range: NumRange(Bound::Unbounded, Bound::Unbounded),
            unique: false,
        },
    )]);
    let mut cfg = object(vec![(
        "routes",
        Value::List(vec![
            Value::Object(object(vec![("label", text("a")), ("port", num(1))])),
            Value::Object(object(vec![("label", text("b"))])),
        ]),
    )]);
    spec.update(&mut cfg, &live()).unwrap();
    assert_eq!(
        cfg,
        object(vec![(
            "routes",
            Value::List(vec![
                Value::Object(object(vec![("label", text("a")), ("port", num(9090))])),
                Value::Object(object(vec![("label", text("b")), ("port", num(9090))])),
            ]),
        )])
    );
}

#[test]
fn update_error_in_a_list_names_the_index() {
    let spec = ConfigSpec(vec![(
        "routes".to_string(),
        ValueSpec::List {
            spec: Box::new(ValueSpec::Pointer(pointer("x", vec!["nope"]))),
            range: NumRange(Bound::Unbounded, Bound::Unbounded),
            unique: false,
        },
    )]);
    let mut cfg = object(vec![("routes", Value::List(vec![num(1)]))]);
    match spec.update(&mut cfg, &live()) {
        Err(ConfigurationError::NoMatch(e)) => assert_eq!(e.dotted_path(), "routes.0"),
        other => panic!("unexpected outcome: {:?}", other),
    }
}

#[test]
fn update_follows_the_variant_of_a_union() {
    let spec = ValueSpec::Union {
        tag: "kind".to_string(),
        variants: vec![
            ("plain".to_string(), ConfigSpec(vec![])),
            (
                "proxied".to_string(),
                ConfigSpec(vec![(
                    "port".to_string(),
                    ValueSpec::Pointer(pointer("x", vec!["port"])),
                )]),
            ),
        ],
        default: "plain".to_string(),
    };
    let proxied = Value::Object(object(vec![("kind", text("proxied"))]));
    assert_eq!(
        spec.updated(&proxied, &live()).unwrap(),
        Value::Object(object(vec![("kind", text("proxied")), ("port", num(9090))]))
    );
    let plain = Value::Object(object(vec![("kind", text("plain"))]));
    assert_eq!(spec.updated(&plain, &live()).unwrap(), plain);
    let unknown = Value::Object(object(vec![("kind", text("other"))]));
    assert_eq!(spec.updated(&unknown, &live()).unwrap(), unknown);
}

#[test]
fn update_reaches_the_entries_of_a_mapping() {
    let spec = ValueSpec::Mapping {
        tag: "id".to_string(),
        spec: ConfigSpec(vec![(
            "port".to_string(),
            ValueSpec::Pointer(pointer("x", vec!["port"])),
        )]),
    };
    let v = Value::Object(object(vec![
        ("a", Value::Object(Config::new())),
        ("b", Value::Null),
    ]));
    assert_eq!(
        spec.updated(&v, &live()).unwrap(),
        Value::Object(object(vec![
            ("a", Value::Object(object(vec![("port", num(9090))]))),
            ("b", Value::Null),
        ]))
    );
}

#[test]
fn a_null_under_nullable_stays_null() {
    let spec = ValueSpec::Nullable(Box::new(ValueSpec::Pointer(pointer("x", vec!["port"]))));
    assert_eq!(spec.updated(&Value::Null, &live()).unwrap(), Value::Null);
    assert_eq!(spec.updated(&num(1), &live()).unwrap(), num(9090));
}

#[test]
fn resolve_walks_objects_only() {
    let cfg = object(vec![("a", Value::Object(object(vec![("b", num(1))])))]);
    let path = |names: Vec<&str>| names.into_iter().map(|s| s.to_string()).collect::<Vec<_>>();
    assert_eq!(resolve(&cfg, &path(vec!["a", "b"])), Some(num(1)));
    assert_eq!(resolve(&cfg, &path(vec!["a", "c"])), None);
    assert_eq!(resolve(&cfg, &path(vec!["a", "b", "c"])), None);
    assert_eq!(resolve(&cfg, &path(vec![])), Some(Value::Object(cfg.clone())));
}

#[test]
fn a_unique_list_of_pointers_may_lose_its_match() {
    let spec = ConfigSpec(vec![(
        "ports".to_string(),
        ValueSpec::List {
            spec: Box::new(ValueSpec::Pointer(pointer("x", vec!["port"]))),
            range: NumRange(Bound::Unbounded, Bound::Unbounded),
            unique: true,
        },
    )]);
    assert!(!spec.is_well_formed());
    let mut cfg = object(vec![("ports", Value::List(vec![num(1), num(2)]))]);
    assert_eq!(spec.matches(&cfg), Ok(()));
    spec.update(&mut cfg, &live()).unwrap();
    assert_eq!(cfg, object(vec![("ports", Value::List(vec![num(9090), num(9090)]))]));
    assert_eq!(
        spec.matches(&cfg).unwrap_err().error,
        MatchError::ListUniquenessViolation
    );
}

#[test]
fn a_well_formed_schema_keeps_its_match() {
    assert!(y_spec().is_well_formed());
    let mut cfg = object(vec![("name", text("y"))]);
    assert_eq!(y_spec().matches(&cfg), Ok(()));
    y_spec().update(&mut cfg, &live()).unwrap();
    assert_eq!(y_spec().matches(&cfg), Ok(()));
    let once = cfg.clone();
    y_spec().update(&mut cfg, &live()).unwrap();
    assert_eq!(cfg, once);
}
