use appmgr::config::spec::{
    contains_duplicate, index_segment, is_valid_key, ConfigSpec, DefaultString, ValueSpec,
    ValueSpecPointer,
};
use appmgr::config::util::{Bound, NumRange};
use appmgr::config::value::{Config, Number, Value};
use appmgr::config::{MatchError, NoMatchWithPath};

fn text(s: &str) -> Value {
    Value::String(s.to_string())
}

fn num(n: i64) -> Value {
    Value::Number(Number::from_int(n))
}

fn object(entries: Vec<(&str, Value)>) -> Config {
    Config(entries.into_iter().map(|(k, v)| (k.to_string(), v)).collect())
}

fn port() -> ValueSpec {
    ValueSpec::Number {
        range: Some(NumRange(
            Bound::Included(Number::from_int(1)),
            Bound::Included(Number::from_int(65535)),
        )),
        integral: true,
        default: Some(Number::from_int(8080)),
    }
}

fn any_string() -> ValueSpec {
    ValueSpec::String { pattern: None, default: None }
}

fn port_spec() -> ConfigSpec {
    ConfigSpec(vec![("port".to_string(), port())])
}

fn at(path: Vec<&str>, error: MatchError) -> Result<(), NoMatchWithPath> {
    Err(NoMatchWithPath { path: path.into_iter().map(|s| s.to_string()).collect(), error })
}

#[test]
fn port_in_range_matches() {
    assert_eq!(port_spec().matches(&object(vec![("port", num(8080))])), Ok(()));
    assert_eq!(port_spec().matches(&object(vec![("port", num(1))])), Ok(()));
    assert_eq!(port_spec().matches(&object(vec![("port", num(65535))])), Ok(()));
}

#[test]
fn string_for_number_is_invalid_type_with_path() {
    let spec = ConfigSpec(vec![(
        "db".to_string(),
        ValueSpec::Object { spec: port_spec(), null_by_default: false },
    )]);
    let cfg = object(vec![("db", Value::Object(object(vec![("port", text("5432"))])))]);
    let err = spec.matches(&cfg).unwrap_err();
    assert_eq!(err.error, MatchError::InvalidType("number", "string"));
    assert_eq!(err.path, vec!["port".to_string(), "db".to_string()]);
    assert_eq!(err.dotted_path(), "db.port");
    assert_eq!(err.message(), "db.port: Invalid Type: expected number, actual: string");
}

#[test]
fn number_out_of_range() {
    let range = NumRange(
        Bound::Included(Number::from_int(1)),
        Bound::Included(Number::from_int(65535)),
    );
    assert_eq!(
        port().matches(&num(0)),
        at(vec![], MatchError::OutOfRange(range, Number::from_int(0)))
    );
    assert_eq!(
        port().matches(&num(65536)),
        at(vec![], MatchError::OutOfRange(range, Number::from_int(65536)))
    );
}

#[test]
fn excluded_bounds_leave_the_ends_out() {
    let spec = ValueSpec::Number {
        range: Some(NumRange(
            Bound::Excluded(Number::from_int(0)),
            Bound::Excluded(Number::from_int(10)),
        )),
        integral: false,
        default: None,
    };
    assert!(spec.matches(&num(0)).is_err());
    assert!(spec.matches(&num(10)).is_err());
    assert_eq!(spec.matches(&Value::Number(Number { micros: 1 })), Ok(()));
    assert_eq!(spec.matches(&Value::Number(Number { micros: 9_999_999 })), Ok(()));
}

#[test]
fn number_not_integral() {
    let half = Number { micros: 1_500_000 };
    assert_eq!(port().matches(&Value::Number(half)), at(vec![], MatchError::NonIntegral(half)));
}

#[test]
fn non_integral_is_reported_before_out_of_range() {
    let far = Number { micros: 70_000_500_000 };
    assert_eq!(port().matches(&Value::Number(far)), at(vec![], MatchError::NonIntegral(far)));
}

#[test]
fn null_where_not_nullable() {
    assert_eq!(port().matches(&Value::Null), at(vec![], MatchError::NotNullable));
    assert_eq!(any_string().matches(&Value::Null), at(vec![], MatchError::NotNullable));
    let flag = ValueSpec::Boolean { default: false };
    assert_eq!(flag.matches(&Value::Null), at(vec![], MatchError::NotNullable));
}

#[test]
fn nullable_admits_null_and_what_is_inside() {
    let spec = ValueSpec::Nullable(Box::new(port()));
    assert_eq!(spec.matches(&Value::Null), Ok(()));
    assert_eq!(spec.matches(&num(80)), Ok(()));
    assert_eq!(
        spec.matches(&text("80")),
        at(vec![], MatchError::InvalidType("number", "string"))
    );
}

#[test]
fn a_missing_property_is_read_as_null() {
    assert_eq!(port_spec().matches(&Config::new()), at(vec!["port"], MatchError::NotNullable));
    let lenient = ConfigSpec(vec![("port".to_string(), ValueSpec::Nullable(Box::new(port())))]);
    assert_eq!(lenient.matches(&Config::new()), Ok(()));
}

#[test]
fn properties_that_the_schema_does_not_declare_are_ignored() {
    let cfg = object(vec![("extra", text("x")), ("port", num(443))]);
    assert_eq!(port_spec().matches(&cfg), Ok(()));
}

#[test]
fn invalid_type_names_both_types() {
    let flag = ValueSpec::Boolean { default: false };
    assert_eq!(flag.matches(&num(1)), at(vec![], MatchError::InvalidType("boolean", "number")));
    assert_eq!(
        any_string().matches(&Value::Boolean(true)),
        at(vec![], MatchError::InvalidType("string", "boolean"))
    );
    let list = ValueSpec::List {
        spec: Box::new(any_string()),
        range: NumRange(Bound::Unbounded, Bound::Unbounded),
        unique: false,
    };
    assert_eq!(
        list.matches(&Value::Object(Config::new())),
        at(vec![], MatchError::InvalidType("list", "object"))
    );
    let obj = ValueSpec::Object { spec: port_spec(), null_by_default: false };
    assert_eq!(
        obj.matches(&Value::List(vec![])),
        at(vec![], MatchError::InvalidType("object", "list"))
    );
}

#[test]
fn pattern_accepts_and_rejects() {
    let spec = ValueSpec::String { pattern: Some("^[a-z]+$".to_string()), default: None };
    assert_eq!(spec.matches(&text("abc")), Ok(()));
    assert_eq!(
        spec.matches(&text("ABC")),
        at(vec![], MatchError::Pattern("ABC".to_string(), "^[a-z]+$".to_string()))
    );
    assert_eq!(
        spec.matches(&text("")),
        at(vec![], MatchError::Pattern("".to_string(), "^[a-z]+$".to_string()))
    );
}

#[test]
fn pattern_without_anchors_finds_a_match_inside() {
    let spec = ValueSpec::String { pattern: Some("b+".to_string()), default: None };
    assert_eq!(spec.matches(&text("aabba")), Ok(()));
    assert!(spec.matches(&text("aaa")).is_err());
}

#[test]
fn a_pattern_that_is_no_regular_expression_accepts_nothing() {
    let spec = ValueSpec::String { pattern: Some("(".to_string()), default: None };
    assert_eq!(
        spec.matches(&text("(")),
        at(vec![], MatchError::Pattern("(".to_string(), "(".to_string()))
    );
}

#[test]
fn enum_membership() {
    let values = vec!["red".to_string(), "green".to_string()];
    let spec = ValueSpec::Enum {
        values: values.clone(),
        default: DefaultString::Literal("red".to_string()),
    };
    assert_eq!(spec.matches(&text("green")), Ok(()));
    assert_eq!(
        spec.matches(&text("blue")),
        at(vec![], MatchError::Enum("blue".to_string(), values))
    );
    assert_eq!(spec.matches(&num(1)), at(vec![], MatchError::InvalidType("string", "number")));
}

#[test]
fn list_length_outside_the_range() {
    let range = NumRange(Bound::Included(1), Bound::Included(2));
    let spec = ValueSpec::List { spec: Box::new(any_string()), range, unique: false };
    assert_eq!(spec.matches(&Value::List(vec![])), at(vec![], MatchError::LengthMismatch(range, 0)));
    assert_eq!(
        spec.matches(&Value::List(vec![text("a"), text("b"), text("c")])),
        at(vec![], MatchError::LengthMismatch(range, 3))
    );
    assert_eq!(spec.matches(&Value::List(vec![text("a"), text("b")])), Ok(()));
}

#[test]
fn list_items_are_checked_in_order_under_their_index() {
    let spec = ConfigSpec(vec![(
        "items".to_string(),
        ValueSpec::List {
            spec: Box::new(ValueSpec::Object {
                spec: ConfigSpec(vec![("name".to_string(), any_string())]),
                null_by_default: false,
            }),
            range: NumRange(Bound::Unbounded, Bound::Unbounded),
            unique: false,
        },
    )]);
    let good = Value::Object(object(vec![("name", text("a"))]));
    let bad = Value::Object(object(vec![("name", num(1))]));
    let worse = Value::Object(object(vec![("name", Value::Boolean(true))]));
    let cfg = object(vec![("items", Value::List(vec![good.clone(), good, bad, worse]))]);
    let err = spec.matches(&cfg).unwrap_err();
    assert_eq!(err.error, MatchError::InvalidType("string", "number"));
    assert_eq!(err.dotted_path(), "items.2.name");
}

#[test]
fn unique_list_rejects_equal_items() {
    let spec = ValueSpec::List {
        spec: Box::new(any_string()),
        range: NumRange(Bound::Unbounded, Bound::Unbounded),
        unique: true,
    };
    assert_eq!(spec.matches(&Value::List(vec![text("a"), text("b")])), Ok(()));
    assert_eq!(
        spec.matches(&Value::List(vec![text("a"), text("b"), text("a")])),
        at(vec![], MatchError::ListUniquenessViolation)
    );
}

#[test]
fn a_list_that_need_not_be_unique_admits_equal_items() {
    let spec = ValueSpec::List {
        spec: Box::new(any_string()),
        range: NumRange(Bound::Unbounded, Bound::Unbounded),
        unique: false,
    };
    assert_eq!(spec.matches(&Value::List(vec![text("a"), text("a")])), Ok(()));
}

#[test]
fn contains_duplicate_compares_structurally() {
    let a = Value::Object(object(vec![("k", num(1))]));
    let b = Value::Object(object(vec![("k", num(1))]));
    let c = Value::Object(object(vec![("k", num(2))]));
    assert!(contains_duplicate(&vec![a.clone(), c.clone(), b]));
    assert!(!contains_duplicate(&vec![a, c]));
    assert!(!contains_duplicate(&vec![]));
}

fn shape() -> ValueSpec {
    ValueSpec::Union {
        tag: "type".to_string(),
        variants: vec![
            (
                "circle".to_string(),
                ConfigSpec(vec![("radius".to_string(), port())]),
            ),
            (
                "square".to_string(),
                ConfigSpec(vec![("side".to_string(), port())]),
            ),
        ],
        default: "circle".to_string(),
    }
}

#[test]
fn union_matches_the_variant_that_the_tag_names() {
    let circle = Value::Object(object(vec![("type", text("circle")), ("radius", num(3))]));
    assert_eq!(shape().matches(&circle), Ok(()));
    let square = Value::Object(object(vec![("type", text("square")), ("side", num(3))]));
    assert_eq!(shape().matches(&square), Ok(()));
    let wrong = Value::Object(object(vec![("type", text("square")), ("radius", num(3))]));
    assert_eq!(shape().matches(&wrong), at(vec!["side"], MatchError::NotNullable));
}

#[test]
fn union_with_an_unknown_tag() {
    let v = Value::Object(object(vec![("type", text("line"))]));
    assert_eq!(
        shape().matches(&v),
        at(
            vec![],
            MatchError::Union(
                "line".to_string(),
                vec!["circle".to_string(), "square".to_string()]
            )
        )
    );
}

#[test]
fn union_without_its_tag() {
    let v = Value::Object(object(vec![("radius", num(3))]));
    assert_eq!(shape().matches(&v), at(vec![], MatchError::MissingTag("type".to_string())));
    let v = Value::Object(object(vec![("type", num(1)), ("radius", num(3))]));
    assert_eq!(shape().matches(&v), at(vec![], MatchError::MissingTag("type".to_string())));
}

#[test]
fn union_variant_that_declares_the_tag() {
    let spec = ValueSpec::Union {
        tag: "type".to_string(),
        variants: vec![(
            "circle".to_string(),
            ConfigSpec(vec![("type".to_string(), any_string())]),
        )],
        default: "circle".to_string(),
    };
    let v = Value::Object(object(vec![("type", text("circle"))]));
    assert_eq!(
        spec.matches(&v),
        at(
            vec![],
            MatchError::PropertyMatchesUnionTag("type".to_string(), "circle".to_string())
        )
    );
}

fn peers() -> ValueSpec {
    ValueSpec::Mapping {
        tag: "id".to_string(),
        spec: ConfigSpec(vec![("port".to_string(), port())]),
    }
}

#[test]
fn mapping_checks_every_entry_under_its_key() {
    let good = Value::Object(object(vec![("port", num(1))]));
    let bad = Value::Object(object(vec![("port", num(0))]));
    assert_eq!(
        peers().matches(&Value::Object(object(vec![("alice", good.clone()), ("bob", good.clone())]))),
        Ok(())
    );
    let err = peers()
        .matches(&Value::Object(object(vec![("alice", good), ("bob", bad)])))
        .unwrap_err();
    assert_eq!(err.dotted_path(), "bob.port");
    assert!(matches!(err.error, MatchError::OutOfRange(_, _)));
}

#[test]
fn mapping_with_an_invalid_key() {
    let good = Value::Object(object(vec![("port", num(1))]));
    assert_eq!(
        peers().matches(&Value::Object(object(vec![("not a key", good.clone())]))),
        at(vec![], MatchError::InvalidKey("not a key".to_string()))
    );
    assert_eq!(
        peers().matches(&Value::Object(object(vec![("", good)]))),
        at(vec![], MatchError::InvalidKey("".to_string()))
    );
}

#[test]
fn mapping_whose_entries_declare_the_key_tag() {
    let spec = ValueSpec::Mapping {
        tag: "port".to_string(),
        spec: ConfigSpec(vec![("port".to_string(), port())]),
    };
    assert_eq!(
        spec.matches(&Value::Object(Config::new())),
        at(vec![], MatchError::PropertyNameMatchesMapTag("port".to_string()))
    );
}

#[test]
fn mapping_entry_that_is_no_object() {
    let err = peers().matches(&Value::Object(object(vec![("alice", num(1))]))).unwrap_err();
    assert_eq!(err.error, MatchError::InvalidType("object", "number"));
    assert_eq!(err.dotted_path(), "alice");
}

#[test]
fn a_pointer_matches_whatever_stands_there() {
    let spec = ValueSpec::Pointer(ValueSpecPointer {
        app_id: "other".to_string(),
        index: vec!["port".to_string()],
    });
    assert_eq!(spec.matches(&Value::Null), Ok(()));
    assert_eq!(spec.matches(&num(5)), Ok(()));
    assert_eq!(spec.matches(&text("x")), Ok(()));
}

#[test]
fn the_first_mismatch_in_declaration_order_is_reported() {
    let spec = ConfigSpec(vec![
        ("a".to_string(), any_string()),
        ("b".to_string(), port()),
        ("c".to_string(), ValueSpec::Boolean { default: true }),
    ]);
    let cfg = object(vec![("c", num(1)), ("b", text("x")), ("a", text("fine"))]);
    let err = spec.matches(&cfg).unwrap_err();
    assert_eq!(err.dotted_path(), "b");
    assert_eq!(err.error, MatchError::InvalidType("number", "string"));
}

#[test]
fn valid_keys() {
    assert!(is_valid_key("abc"));
    assert!(is_valid_key("a-b_c9"));
    assert!(is_valid_key("Z"));
    assert!(!is_valid_key(""));
    assert!(!is_valid_key("a b"));
    assert!(!is_valid_key("a.b"));
    assert!(!is_valid_key("ü"));
}

#[test]
fn index_segments_are_decimal_numerals() {
    assert_eq!(index_segment(0), "0");
    assert_eq!(index_segment(7), "7");
    assert_eq!(index_segment(10), "10");
    assert_eq!(index_segment(1234567890), "1234567890");
}

#[test]
fn new_mismatch_has_an_empty_path_and_prepend_goes_outwards() {
    let e = NoMatchWithPath::new(MatchError::NotNullable);
    assert!(e.path.is_empty());
    assert_eq!(e.dotted_path(), "");
    let e = e.prepend("inner".to_string()).prepend("outer".to_string());
    assert_eq!(e.path, vec!["inner".to_string(), "outer".to_string()]);
    assert_eq!(e.dotted_path(), "outer.inner");
    assert_eq!(e.message(), "outer.inner: Field Is Not Nullable");
}

#[test]
fn messages_of_mismatches() {
    assert_eq!(
        MatchError::Pattern("x".to_string(), "^a$".to_string()).message(),
        "String \"x\" Does Not Match Pattern ^a$"
    );
    assert_eq!(
        MatchError::Enum("x".to_string(), vec![]).message(),
        "String \"x\" Is Not In Enum {}"
    );
    assert_eq!(
        MatchError::Enum("x".to_string(), vec!["red".to_string(), "green".to_string()]).message(),
        "String \"x\" Is Not In Enum {\"red\", \"green\"}"
    );
    assert_eq!(MatchError::NotNullable.message(), "Field Is Not Nullable");
    assert_eq!(
        MatchError::InvalidType("list", "null").message(),
        "Invalid Type: expected list, actual: null"
    );
    assert_eq!(
        MatchError::LengthMismatch(NumRange(Bound::Included(1), Bound::Excluded(4)), 7).message(),
        "Length Mismatch: expected [1,4), actual: 7"
    );
    assert_eq!(
        MatchError::OutOfRange(
            NumRange(Bound::Excluded(Number::from_int(0)), Bound::Unbounded),
            Number { micros: -1_500_000 }
        )
        .message(),
        "Number Out Of Range: expected (0,*), actual: -1.5"
    );
    assert_eq!(
        MatchError::NonIntegral(Number { micros: 2_000_001 }).message(),
        "Number Is Not Integral: 2.000001"
    );
    assert_eq!(
        MatchError::InvalidPointer(ValueSpecPointer {
            app_id: "bitcoind".to_string(),
            index: vec!["rpc".to_string(), "port".to_string()],
        })
        .message(),
        "Pointer Is Invalid: [bitcoind].rpc.port"
    );
    assert_eq!(MatchError::MissingTag("type".to_string()).message(), "Variant Is Missing Tag \"type\"");
    assert_eq!(
        MatchError::PropertyMatchesUnionTag("type".to_string(), "a".to_string()).message(),
        "Property \"type\" Of Variant \"a\" Conflicts With Union Tag"
    );
    assert_eq!(
        MatchError::PropertyNameMatchesMapTag("id".to_string()).message(),
        "Name of Property \"id\" Conflicts With Map Tag Name"
    );
    assert_eq!(MatchError::InvalidKey("a b".to_string()).message(), "Object Key Is Invalid: a b");
    assert_eq!(MatchError::ListUniquenessViolation.message(), "Value In List Is Not Unique");
    assert_eq!(
        MatchError::Union("x".to_string(), vec!["a".to_string()]).message(),
        "Variant \"x\" Is Not In Union {\"a\"}"
    );
}

#[test]
fn numbers_as_text() {
    assert_eq!(Number::from_int(0).to_text(), "0");
    assert_eq!(Number::from_int(8080).to_text(), "8080");
    assert_eq!(Number::from_int(-3).to_text(), "-3");
    assert_eq!(Number { micros: 1_500_000 }.to_text(), "1.5");
    assert_eq!(Number { micros: -1_250_000 }.to_text(), "-1.25");
    assert_eq!(Number { micros: 1 }.to_text(), "0.000001");
    assert_eq!(Number { micros: -10 }.to_text(), "-0.00001");
    assert_eq!(Number { micros: 123_456_789 }.to_text(), "123.456789");
    assert_eq!(Number { micros: 100_000 }.to_text(), "0.1");
    assert_eq!(
        Number { micros: i128::MAX }.to_text(),
        "170141183460469231731687303715884.105727"
    );
    assert_eq!(
        Number { micros: i128::MIN }.to_text(),
        "-170141183460469231731687303715884.105728"
    );
}

#[test]
fn ranges_as_text() {
    assert_eq!(NumRange::<usize>(Bound::Unbounded, Bound::Unbounded).to_text(), "(*,*)");
    assert_eq!(NumRange(Bound::Included(0usize), Bound::Unbounded).to_text(), "[0,*)");
    assert_eq!(NumRange(Bound::Excluded(1usize), Bound::Included(20)).to_text(), "(1,20]");
    assert_eq!(
        NumRange(Bound::Included(Number::from_int(1)), Bound::Included(Number::from_int(65535)))
            .to_text(),
        "[1,65535]"
    );
    assert_eq!(
        NumRange(Bound::Unbounded, Bound::Excluded(Number { micros: 2_500_000 })).to_text(),
        "(*,2.5)"
    );
}

#[test]
fn ranges_of_lengths() {
    let r = NumRange(Bound::Excluded(1usize), Bound::Included(3));
    assert!(!r.contains(1));
    assert!(r.contains(2));
    assert!(r.contains(3));
    assert!(!r.contains(4));
    let open = NumRange::<usize>(Bound::Unbounded, Bound::Unbounded);
    assert!(open.contains(0));
    assert!(open.contains(usize::MAX));
}
