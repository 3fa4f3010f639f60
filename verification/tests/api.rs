use appmgr::api::api::{Full, GitInfo, Portable, Semver, Verbosity, VERSION};
use appmgr::api::arg_value::{ArgValue, Base64Error, ParseError, QueryMap, StrDeserializer};
use appmgr::api::clap_helpers::{
    command_at, find_command, forward_url, log_level, params_of, query_encode, resolve, ArgMatch,
    LogLevel,
};
use appmgr::api::hyper_helpers::{
    accepts_cbor, bad_request, check_args, check_query, classify, default_hyper_validation,
    find_char, is_cbor, no_content, not_found, route, Answer, QueryError, Reply, Route,
};
use appmgr::api::{describe, describe_argument, Api, Argument, ArgumentSpec, Command};
use appmgr::inspect::{Json, Pretty, Yaml};
use appmgr::text::decimal_string;
use percent_encoding::{utf8_percent_encode, AsciiSet, NON_ALPHANUMERIC};

fn query(entries: Vec<(&str, &str)>) -> QueryMap {
    QueryMap(
        entries.into_iter().map(|(k, v)| (k.to_string(), ArgValue::Str(v.to_string()))).collect(),
    )
}

fn plain(name: &'static str) -> ArgumentSpec {
    ArgumentSpec {
        name,
        help: None,
        short: None,
        long: None,
        default_value: None,
        required: false,
        takes_value: false,
        multiple: false,
        conflicts_with: &[],
        required_unless: None,
        requires_argument: None,
    }
}

#[test]
fn verbosity_declares_itself() {
    assert_eq!(Verbosity.name(), "verbosity");
    assert_eq!(Verbosity.short(), Some("v"));
    assert_eq!(Verbosity.help(), Some("Sets verbosity level"));
    assert!(Verbosity.multiple());
    assert!(!Verbosity.required());
    assert!(!Verbosity.takes_value());
    assert_eq!(Verbosity.long(), None);
    assert_eq!(Verbosity.default_value(), None);
    assert!(Verbosity.conflicts_with().is_empty());
    assert_eq!(Verbosity.required_unless(), None);
    assert_eq!(Verbosity.requires_argument(), None);
}

#[test]
fn root_commands_declare_themselves() {
    assert_eq!(Portable.name(), "Start9 Application Manager (portable)");
    assert_eq!(Portable.version(), Some(VERSION));
    assert_eq!(Full.name(), "Start9 Application Manager");
    assert_eq!(Full.version(), None);
    assert_eq!(Semver.name(), "semver");
    assert_eq!(Api::about(&Semver), Some("Prints semantic version and exits"));
    assert_eq!(Semver.version(), "0.1.0");
    assert_eq!(GitInfo.name(), "git-info");
    assert_eq!(GitInfo.about(), Some("Prints git version info and exits"));
    assert!(Semver.args().is_empty());
    assert!(Semver.commands().is_empty());
    assert!(Semver.aliases().is_empty());
    assert_eq!(Semver.author(), None);
}

#[test]
fn describe_gathers_the_tree_of_commands() {
    let root = describe(&Portable);
    assert_eq!(root.name, "Start9 Application Manager (portable)");
    assert_eq!(root.args.len(), 1);
    assert_eq!(root.args[0].name, "verbosity");
    assert!(root.args[0].multiple);
    let names: Vec<&str> = root.commands.iter().map(|c| c.name).collect();
    assert_eq!(names, vec!["semver", "git-info", "inspect"]);
    let inspect = &root.commands[2];
    let names: Vec<&str> = inspect.commands.iter().map(|c| c.name).collect();
    assert_eq!(names, vec!["info", "instructions"]);
    assert_eq!(inspect.commands[0].args.len(), 8);
    assert_eq!(inspect.commands[1].args.len(), 1);
    assert_eq!(describe(&Full).commands.len(), 3);
}

#[test]
fn describe_argument_copies_what_is_declared() {
    let json = describe_argument(&Json);
    assert_eq!(json.name, "json");
    assert_eq!(json.conflicts_with, &["yaml"]);
    assert_eq!(json.required_unless, Some("yaml"));
    assert_eq!(json.short, Some("j"));
    assert_eq!(json.long, Some("json"));
    assert_eq!(json.help, Some("Output as JSON"));
    let pretty = describe_argument(&Pretty);
    assert_eq!(pretty.requires_argument, Some("json"));
}

#[test]
fn an_argument_declares_everything_in_one_place() {
    assert_eq!(
        Verbosity.spec(),
        ArgumentSpec {
            short: Some("v"),
            help: Some("Sets verbosity level"),
            multiple: true,
            ..plain("verbosity")
        }
    );
    assert_eq!(ArgumentSpec::named("x"), plain("x"));
    assert_eq!(
        Json.spec(),
        ArgumentSpec {
            conflicts_with: &["yaml"],
            required_unless: Some("yaml"),
            long: Some("json"),
            short: Some("j"),
            help: Some("Output as JSON"),
            ..plain("json")
        }
    );
}

#[test]
fn commands_are_built_piece_by_piece() {
    let c = Command::named("root")
        .with_about("about")
        .with_version("1")
        .with_arg(plain("a"))
        .with_arg(plain("b"))
        .with_command(Command::named("sub"));
    assert_eq!(
        c,
        Command {
            name: "root",
            about: Some("about"),
            version: Some("1"),
            author: None,
            aliases: &[],
            args: vec![plain("a"), plain("b")],
            commands: vec![Command {
                name: "sub",
                about: None,
                version: None,
                author: None,
                aliases: &[],
                args: vec![],
                commands: vec![],
            }],
        }
    );
    assert_eq!(Semver.command(), Command::named("semver").with_about("Prints semantic version and exits"));
    assert_eq!(describe(&Semver), Semver.command());
}

#[test]
fn git_info_marks_development_builds() {
    assert_eq!(GitInfo.info("abc123", false), "abc123-dev");
    assert_eq!(GitInfo.info("abc123", true), "abc123");
}

#[test]
fn log_levels() {
    assert_eq!(log_level(0), LogLevel::Error);
    assert_eq!(log_level(1), LogLevel::Warn);
    assert_eq!(log_level(2), LogLevel::Info);
    assert_eq!(log_level(3), LogLevel::Debug);
    assert_eq!(log_level(4), LogLevel::Trace);
    assert_eq!(log_level(u64::MAX), LogLevel::Trace);
}

#[test]
fn find_command_by_name() {
    let commands = describe(&Portable).commands;
    assert_eq!(find_command(&commands, "git-info"), Some(1));
    assert_eq!(find_command(&commands, "semver"), Some(0));
    assert_eq!(find_command(&commands, "nope"), None);
    assert_eq!(find_command(&vec![], "semver"), None);
}

#[test]
fn a_required_argument_must_be_given() {
    let mut a = plain("PATH");
    a.required = true;
    assert_eq!(check_query(&a, &query(vec![])), Err(QueryError::Required { name: "PATH" }));
    assert_eq!(check_query(&a, &query(vec![("PATH", "/tmp/x")])), Ok(()));
    assert_eq!(QueryError::Required { name: "PATH" }.message(), "PATH: required");
}

#[test]
fn an_argument_that_counts_must_be_a_count() {
    let a = describe_argument(&Verbosity);
    assert_eq!(check_query(&a, &query(vec![("verbosity", "3")])), Ok(()));
    assert_eq!(check_query(&a, &query(vec![])), Ok(()));
    let err = check_query(&a, &query(vec![("verbosity", "many")])).unwrap_err();
    assert_eq!(
        err,
        QueryError::ExpectedUsize {
            name: "verbosity",
            error: ParseError::Int("invalid digit found in string".to_string()),
        }
    );
    assert_eq!(
        err.message(),
        "verbosity: expected usize: Parse Error: invalid digit found in string"
    );
    let listed =
        QueryMap(vec![("verbosity".to_string(), ArgValue::Arr(vec![ArgValue::Str("1".into())]))]);
    assert_eq!(
        check_query(&a, &listed),
        Err(QueryError::ExpectedUsize { name: "verbosity", error: ParseError::Array })
    );
}

#[test]
fn conflicting_arguments() {
    let json = describe_argument(&Json);
    let err = check_query(&json, &query(vec![("json", "true"), ("yaml", "true")])).unwrap_err();
    assert_eq!(err, QueryError::ConflictsWith { name: "json", other: "yaml" });
    assert_eq!(err.message(), "json: conflicts with: yaml");
    assert_eq!(check_query(&json, &query(vec![("json", "true")])), Ok(()));
}

#[test]
fn the_first_conflict_in_declaration_order_is_reported() {
    let mut a = plain("a");
    a.conflicts_with = &["b", "c", "d"];
    assert_eq!(
        check_query(&a, &query(vec![("d", "1"), ("c", "1")])),
        Err(QueryError::ConflictsWith { name: "a", other: "c" })
    );
}

#[test]
fn required_unless_another_is_given() {
    let json = describe_argument(&Json);
    let err = check_query(&json, &query(vec![])).unwrap_err();
    assert_eq!(err, QueryError::RequiredUnless { name: "json", other: "yaml" });
    assert_eq!(err.message(), "json: required unless: yaml");
    let yaml = describe_argument(&Yaml);
    assert_eq!(
        check_query(&yaml, &query(vec![("json", "true")])),
        Err(QueryError::ConflictsWith { name: "yaml", other: "json" })
    );
    let mut a = plain("a");
    a.required_unless = Some("b");
    assert_eq!(check_query(&a, &query(vec![("b", "1")])), Ok(()));
    assert_eq!(check_query(&a, &query(vec![("a", "1")])), Ok(()));
    assert_eq!(
        check_query(&a, &query(vec![("c", "1")])),
        Err(QueryError::RequiredUnless { name: "a", other: "b" })
    );
}

#[test]
fn an_argument_that_requires_another() {
    let pretty = describe_argument(&Pretty);
    let err = check_query(&pretty, &query(vec![("pretty", "true")])).unwrap_err();
    assert_eq!(err, QueryError::Requires { name: "pretty", other: "json" });
    assert_eq!(err.message(), "pretty: requires: json");
    assert_eq!(check_query(&pretty, &query(vec![("pretty", "true"), ("json", "true")])), Ok(()));
    assert_eq!(check_query(&pretty, &query(vec![])), Ok(()));
}

#[test]
fn default_validation_goes_by_what_the_argument_declares() {
    assert_eq!(
        default_hyper_validation(&Json, &query(vec![("yaml", "1"), ("json", "1")])),
        Err(QueryError::ConflictsWith { name: "json", other: "yaml" })
    );
    assert_eq!(default_hyper_validation(&Verbosity, &query(vec![("verbosity", "2")])), Ok(()));
}

#[test]
fn query_map_gives_the_first_value_of_a_name() {
    let q = query(vec![("a", "1"), ("b", "2"), ("a", "3")]);
    assert_eq!(q.get("a"), Some(&ArgValue::Str("1".to_string())));
    assert_eq!(q.get("c"), None);
    assert!(q.contains_key("b"));
    assert!(!q.contains_key("B"));
    assert!(QueryMap::new().0.is_empty());
}

#[test]
fn parsing_text() {
    assert_eq!(StrDeserializer("42").parse::<usize>(), Ok(42));
    assert_eq!(StrDeserializer("-7").parse::<i64>(), Ok(-7));
    assert_eq!(StrDeserializer("true").parse::<bool>(), Ok(true));
    assert_eq!(StrDeserializer("false").parse::<bool>(), Ok(false));
    assert_eq!(
        StrDeserializer("yes").parse::<bool>(),
        Err(ParseError::Bool("provided string was not `true` or `false`".to_string()))
    );
    assert_eq!(
        StrDeserializer("").parse::<usize>(),
        Err(ParseError::Int("cannot parse integer from empty string".to_string()))
    );
    assert_eq!(
        StrDeserializer("-1").parse::<usize>(),
        Err(ParseError::Int("invalid digit found in string".to_string()))
    );
    assert_eq!(
        StrDeserializer("99999999999999999999").parse::<i64>(),
        Err(ParseError::Int("number too large to fit in target type".to_string()))
    );
}

#[test]
fn the_text_of_a_bool_error_is_that_of_std() {
    let std_text = "yes".parse::<bool>().unwrap_err().to_string();
    assert_eq!(StrDeserializer("yes").parse::<bool>(), Err(ParseError::Bool(std_text)));
}

#[test]
fn only_text_can_be_parsed() {
    assert_eq!(ArgValue::Str("5".to_string()).parse::<usize>(), Ok(5));
    assert_eq!(ArgValue::Arr(vec![]).parse::<usize>(), Err(ParseError::Array));
    assert_eq!(ArgValue::Mapping(QueryMap::new()).parse::<bool>(), Err(ParseError::Mapping));
}

#[test]
fn parse_error_messages() {
    assert_eq!(ParseError::Array.message(), "Parse Error: Can't Parse Array");
    assert_eq!(ParseError::Mapping.message(), "Parse Error: Can't Parse Map");
    assert_eq!(ParseError::NotArray.message(), "Parse Error: Not An Array");
    assert_eq!(ParseError::NotMap.message(), "Parse Error: Not A Map");
    assert_eq!(ParseError::Custom("odd".to_string()).message(), "Parse Error: odd");
    assert_eq!(ParseError::Int("bad".to_string()).message(), "Parse Error: bad");
    assert_eq!(ParseError::Bool("bad".to_string()).message(), "Parse Error: bad");
    assert_eq!(ParseError::Float("bad".to_string()).message(), "Parse Error: bad");
    assert_eq!(
        ParseError::Base64(Base64Error::InvalidLength).message(),
        "Parse Error: invalid length"
    );
}

#[test]
fn bytes_in_url_safe_base64() {
    assert_eq!(StrDeserializer("aGVsbG8gaW50ZXJuZXR-Cg==").checked_bytes(), Some(Ok(b"hello internet~\n".to_vec())));
    assert_eq!(StrDeserializer("").checked_bytes(), Some(Ok(vec![])));
    assert_eq!(
        StrDeserializer("a+b=").checked_bytes(),
        Some(Err(ParseError::Base64(Base64Error::InvalidByte(1, b'+'))))
    );
    assert_eq!(
        StrDeserializer("abcde").checked_bytes(),
        Some(Err(ParseError::Base64(Base64Error::InvalidLength)))
    );
    assert_eq!(StrDeserializer("aGk=").bytes(), Ok(b"hi".to_vec()));
    assert_eq!(StrDeserializer("iYU=").checked_bytes(), Some(Ok(vec![0x89, 0x85])));
    assert_eq!(
        StrDeserializer("iYV=").checked_bytes(),
        Some(Err(ParseError::Base64(Base64Error::InvalidLastSymbol(2, b'V'))))
    );
}

#[test]
fn percent_encoding_of_query_text() {
    assert_eq!(query_encode("abcXYZ019"), "abcXYZ019");
    assert_eq!(query_encode("a b*c-d.e_f"), "a b*c-d.e_f");
    assert_eq!(query_encode("a&b=c"), "a%26b%3Dc");
    assert_eq!(query_encode("/tmp/x y"), "%2Ftmp%2Fx y");
    assert_eq!(query_encode("ü"), "%C3%BC");
    assert_eq!(query_encode("\u{0}\u{7f}~"), "%00%7F%7E");
    assert_eq!(query_encode(""), "");
}

#[test]
fn decimal_numerals() {
    assert_eq!(decimal_string(0), "0");
    assert_eq!(decimal_string(9), "9");
    assert_eq!(decimal_string(5959), "5959");
    assert_eq!(decimal_string(u128::MAX), "340282366920938463463374607431768211455");
}

fn given(values: Vec<&str>) -> ArgMatch {
    ArgMatch {
        values: Some(values.into_iter().map(|s| s.to_string()).collect()),
        occurrences: 1,
        present: true,
    }
}

fn absent() -> ArgMatch {
    ArgMatch { values: None, occurrences: 0, present: false }
}

#[test]
fn parameters_of_each_kind_of_argument() {
    let mut many = plain("tag");
    many.takes_value = true;
    many.multiple = true;
    assert_eq!(params_of(&many, &given(vec!["a b", "c/d"])), vec!["tag[0]=a b", "tag[1]=c%2Fd"]);
    assert!(params_of(&many, &absent()).is_empty());
    let mut one = plain("path");
    one.takes_value = true;
    assert_eq!(params_of(&one, &given(vec!["x&y", "ignored"])), vec!["path=x%26y"]);
    assert!(params_of(&one, &absent()).is_empty());
    let mut count = plain("verbosity");
    count.multiple = true;
    assert_eq!(
        params_of(&count, &ArgMatch { values: None, occurrences: 3, present: true }),
        vec!["verbosity=3"]
    );
    assert_eq!(params_of(&count, &absent()), vec!["verbosity=0"]);
    let flag = plain("dry-run");
    assert_eq!(params_of(&flag, &given(vec![])), vec!["dry-run=true"]);
    assert_eq!(params_of(&flag, &absent()), vec!["dry-run=false"]);
}

#[test]
fn forwarded_url() {
    let mut path = plain("PATH");
    path.takes_value = true;
    let mut tags = plain("tag");
    tags.takes_value = true;
    tags.multiple = true;
    let args = vec![
        (path, given(vec!["/tmp/a b.s9pk"])),
        (describe_argument(&Json), given(vec![])),
        (tags, given(vec!["x", "y"])),
        (describe_argument(&Verbosity), ArgMatch { values: None, occurrences: 2, present: true }),
    ];
    assert_eq!(
        forward_url(5959, &vec!["inspect", "info"], &args),
        "http://localhost:5959/inspect/info?PATH=%2Ftmp%2Fa b.s9pk&json=true&tag[0]=x&tag[1]=y&verbosity=2"
    );
}

#[test]
fn forwarded_url_without_commands_or_parameters() {
    assert_eq!(forward_url(80, &vec![], &vec![]), "http://localhost:80");
    let mut path = plain("PATH");
    path.takes_value = true;
    assert_eq!(
        forward_url(65535, &vec!["semver"], &vec![(path, absent())]),
        "http://localhost:65535/semver"
    );
    assert_eq!(
        forward_url(0, &vec![], &vec![(plain("x"), absent())]),
        "http://localhost:0?x=false"
    );
}

#[test]
fn plain_replies() {
    assert_eq!(
        bad_request("nope".to_string()),
        Reply { status: 400, content_type: Some("text/plain"), body: "nope".to_string() }
    );
    assert_eq!(not_found(), Reply { status: 400, content_type: None, body: String::new() });
    assert_eq!(no_content(), Reply { status: 204, content_type: None, body: String::new() });
}

#[test]
fn content_type_that_says_cbor() {
    assert!(is_cbor(Some("application/cbor")));
    assert!(is_cbor(Some(" application/cbor ; charset=utf-8")));
    assert!(!is_cbor(Some("application/json")));
    assert!(!is_cbor(Some("application/*")));
    assert!(!is_cbor(Some("text/plain; application/cbor")));
    assert!(!is_cbor(Some("")));
    assert!(!is_cbor(None));
}

#[test]
fn accept_header_that_admits_cbor() {
    assert!(accepts_cbor(Some("*/*"), None));
    assert!(accepts_cbor(Some("application/*"), None));
    assert!(accepts_cbor(Some("text/html, application/cbor"), None));
    assert!(accepts_cbor(Some("text/html ,  application/cbor ;q=0.9"), None));
    assert!(!accepts_cbor(Some("text/html, application/json"), None));
    assert!(!accepts_cbor(Some("text/html;q=0.9, application/cbor"), None));
    assert!(!accepts_cbor(Some(""), Some("application/cbor")));
    assert!(!accepts_cbor(Some("application/json,"), None));
}

#[test]
fn without_an_accept_header_the_request_decides() {
    assert!(accepts_cbor(None, Some("application/cbor")));
    assert!(!accepts_cbor(None, Some("application/json")));
    assert!(!accepts_cbor(None, None));
}

#[test]
fn find_char_from_an_offset() {
    assert_eq!(find_char("a,b,c", ',', 0), 1);
    assert_eq!(find_char("a,b,c", ',', 2), 3);
    assert_eq!(find_char("a,b,c", ',', 4), 5);
    assert_eq!(find_char("", ',', 0), 0);
    assert_eq!(find_char("ü,", ',', 0), 1);
}

#[test]
fn percent_encoding_agrees_with_the_crate() {
    const SET: &AsciiSet =
        &NON_ALPHANUMERIC.remove(b' ').remove(b'*').remove(b'-').remove(b'.').remove(b'_');
    let mut samples: Vec<String> = (0u32..0x250)
        .filter_map(char::from_u32)
        .map(|c| c.to_string())
        .collect();
    samples.push("a b&c=d/e?f#g%h+i".to_string());
    samples.push("日本語 テキスト".to_string());
    samples.push("\u{1F600} smile".to_string());
    for s in samples {
        assert_eq!(query_encode(&s), utf8_percent_encode(&s, SET).to_string(), "{:?}", s);
    }
}

#[test]
fn the_text_items_and_entries_of_a_value() {
    let s = ArgValue::Str("x".to_string());
    let a = ArgValue::Arr(vec![ArgValue::Str("y".to_string())]);
    let m = ArgValue::Mapping(query(vec![("k", "v")]));
    assert_eq!(s.text(), Ok("x"));
    assert_eq!(a.text(), Err(ParseError::Array));
    assert_eq!(m.text(), Err(ParseError::Mapping));
    assert_eq!(a.items(), Ok(&vec![ArgValue::Str("y".to_string())]));
    assert_eq!(s.items(), Err(ParseError::NotArray));
    assert_eq!(m.items(), Err(ParseError::NotArray));
    assert_eq!(m.entries(), Ok(&query(vec![("k", "v")])));
    assert_eq!(s.entries(), Err(ParseError::NotMap));
    assert_eq!(a.entries(), Err(ParseError::NotMap));
}

#[test]
fn a_single_character() {
    assert_eq!(ArgValue::Str("x".to_string()).single_char(), Ok('x'));
    assert_eq!(
        ArgValue::Str("xy".to_string()).single_char(),
        Err(ParseError::Custom("invalid length 2, expected a single character".to_string()))
    );
    assert_eq!(
        ArgValue::Str("".to_string()).single_char(),
        Err(ParseError::Custom("invalid length 0, expected a single character".to_string()))
    );
    assert_eq!(
        ArgValue::Str("ü".to_string()).single_char(),
        Err(ParseError::Custom("invalid length 2, expected a single character".to_string()))
    );
    assert_eq!(ArgValue::Arr(vec![]).single_char(), Err(ParseError::Array));
    assert_eq!(ArgValue::Mapping(QueryMap::new()).single_char(), Err(ParseError::Mapping));
}

#[test]
fn a_unit_by_its_name() {
    assert_eq!(ArgValue::Str("Unit".to_string()).unit("Unit"), Ok(()));
    assert_eq!(ArgValue::Str("".to_string()).unit(""), Ok(()));
    assert_eq!(
        ArgValue::Str("other".to_string()).unit("Unit"),
        Err(ParseError::Custom("invalid value: string \"other\", expected Unit".to_string()))
    );
    assert_eq!(ArgValue::Arr(vec![]).unit("Unit"), Err(ParseError::Array));
    assert_eq!(ArgValue::Mapping(QueryMap::new()).unit("Unit"), Err(ParseError::Mapping));
}

#[test]
fn a_variant_with_or_without_content() {
    assert_eq!(ArgValue::Str("A".to_string()).variant(), Ok(("A", None)));
    let one = ArgValue::Mapping(query(vec![("B", "1")]));
    assert_eq!(one.variant(), Ok(("B", Some(&ArgValue::Str("1".to_string())))));
    let two = ArgValue::Mapping(query(vec![("B", "1"), ("C", "2")]));
    assert_eq!(
        two.variant(),
        Err(ParseError::Custom("invalid value: map, expected map with a single key".to_string()))
    );
    assert_eq!(
        ArgValue::Mapping(QueryMap::new()).variant(),
        Err(ParseError::Custom("invalid value: map, expected map with a single key".to_string()))
    );
    assert_eq!(
        ArgValue::Arr(vec![]).variant(),
        Err(ParseError::Custom("invalid type: sequence, expected string or map".to_string()))
    );
}

#[test]
fn fields_are_read_up_to_the_first_that_is_absent() {
    let q = query(vec![("c", "3"), ("a", "1"), ("d", "4")]);
    let one = ArgValue::Str("1".to_string());
    let three = ArgValue::Str("3".to_string());
    assert_eq!(q.fields(&["a", "c"]), vec![("a", &one), ("c", &three)]);
    assert_eq!(q.fields(&["a", "b", "c"]), vec![("a", &one)]);
    assert!(q.fields(&["b", "a"]).is_empty());
    assert!(q.fields(&[]).is_empty());
}

#[test]
fn answers_by_status() {
    assert_eq!(classify(204), Answer::Nothing);
    assert_eq!(classify(200), Answer::Value);
    assert_eq!(classify(201), Answer::Value);
    assert_eq!(classify(299), Answer::Value);
    assert_eq!(classify(199), Answer::Failure);
    assert_eq!(classify(300), Answer::Failure);
    assert_eq!(classify(404), Answer::Failure);
    assert_eq!(classify(500), Answer::Failure);
    assert_eq!(classify(0), Answer::Failure);
}

fn words(names: Vec<&str>) -> Vec<String> {
    names.into_iter().map(|s| s.to_string()).collect()
}

#[test]
fn arguments_are_checked_in_their_order() {
    let mut first = plain("a");
    first.required = true;
    let mut second = plain("b");
    second.required = true;
    let args = vec![first, second];
    assert_eq!(check_args(&args, &query(vec![("a", "1"), ("b", "1")])), Ok(()));
    assert_eq!(
        check_args(&args, &query(vec![])),
        Err(QueryError::Required { name: "a" })
    );
    assert_eq!(
        check_args(&args, &query(vec![("a", "1")])),
        Err(QueryError::Required { name: "b" })
    );
    assert_eq!(check_args(&vec![], &query(vec![])), Ok(()));
}

#[test]
fn a_request_is_routed_along_its_path() {
    let root = describe(&Portable);
    let q = query(vec![("PATH", "/tmp/a.s9pk"), ("json", "true")]);
    assert_eq!(route(&root, &words(vec![]), &q), Route::Found(vec![]));
    assert_eq!(route(&root, &words(vec!["semver"]), &q), Route::Found(vec![0]));
    assert_eq!(
        route(&root, &words(vec!["inspect", "instructions"]), &q),
        Route::Found(vec![2, 1])
    );
    assert_eq!(
        route(&root, &words(vec!["inspect", "info"]), &q),
        Route::Invalid(QueryError::ConflictsWith { name: "yaml", other: "json" })
    );
    assert_eq!(route(&root, &words(vec!["inspect", "nope"]), &q), Route::Missing);
    assert_eq!(route(&root, &words(vec!["nope"]), &q), Route::Missing);
    assert_eq!(route(&root, &words(vec!["semver", "deeper"]), &q), Route::Missing);
}

#[test]
fn a_request_whose_query_does_not_fit_is_invalid() {
    let root = describe(&Portable);
    assert_eq!(
        route(&root, &words(vec!["inspect", "info"]), &query(vec![("json", "true")])),
        Route::Invalid(QueryError::Required { name: "PATH" })
    );
    assert_eq!(
        route(&root, &words(vec!["inspect", "info"]), &query(vec![("PATH", "x")])),
        Route::Invalid(QueryError::RequiredUnless { name: "json", other: "yaml" })
    );
    assert_eq!(
        route(&root, &words(vec!["inspect", "info"]), &query(vec![("verbosity", "x")])),
        Route::Invalid(QueryError::ExpectedUsize {
            name: "verbosity",
            error: ParseError::Int("invalid digit found in string".to_string()),
        })
    );
    assert_eq!(
        route(&root, &words(vec!["inspect", "instructions"]), &query(vec![])),
        Route::Invalid(QueryError::Required { name: "PATH" })
    );
    assert_eq!(
        route(&root, &words(vec!["inspect", "nope"]), &query(vec![("verbosity", "x")])),
        Route::Invalid(QueryError::ExpectedUsize {
            name: "verbosity",
            error: ParseError::Int("invalid digit found in string".to_string()),
        })
    );
}

#[test]
fn subcommands_are_resolved_as_far_as_they_are_known() {
    let root = describe(&Portable);
    assert_eq!(resolve(&root, &words(vec![])), Vec::<usize>::new());
    assert_eq!(resolve(&root, &words(vec!["git-info"])), vec![1]);
    assert_eq!(resolve(&root, &words(vec!["inspect", "instructions"])), vec![2, 1]);
    assert_eq!(resolve(&root, &words(vec!["inspect", "nope", "info"])), vec![2]);
    assert_eq!(resolve(&root, &words(vec!["nope", "inspect"])), Vec::<usize>::new());
}

#[test]
fn the_command_at_the_end_of_a_way() {
    let root = describe(&Portable);
    assert_eq!(command_at(&root, &vec![]), Some(&root));
    assert_eq!(command_at(&root, &vec![2, 1]).map(|c| c.name), Some("instructions"));
    assert_eq!(command_at(&root, &vec![0]).map(|c| c.name), Some("semver"));
    assert_eq!(command_at(&root, &vec![3]), None);
    assert_eq!(command_at(&root, &vec![0, 0]), None);
}
