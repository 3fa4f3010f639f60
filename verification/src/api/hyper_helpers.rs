//! What the HTTP interface needs of the commands: the validation of a query
//! against an argument, the plain replies, and the reading of the headers
//! that choose between CBOR and JSON.

use vstd::prelude::*;
use vstd::string::StrSliceExecFns;
use vstd::string::StringExecFns;
use crate::api::{
    command_names, describe_argument, texts_view, Argument, ArgumentSpec, ArgumentView, Command,
};
use crate::api::clap_helpers::find_command;
use crate::config::spec::index_of;
use crate::config::strings_view;
use crate::api::arg_value::{
    parse_message, query_value, value_parsed, ParseError, ParseErrorView, QueryMap,
};

verus! {

/// Why a query does not fit an argument. `name` is the argument.
#[derive(Clone, Debug, PartialEq)]
pub enum QueryError {
    /// The argument is required and not given.
    Required { name: &'static str },
    /// The argument counts occurrences, and what is given is no count.
    ExpectedUsize { name: &'static str, error: ParseError },
    /// The argument is given together with one that it conflicts with.
    ConflictsWith { name: &'static str, other: &'static str },
    /// Neither the argument nor the one that could stand for it is given.
    RequiredUnless { name: &'static str, other: &'static str },
    /// The argument is given without the one that it requires.
    Requires { name: &'static str, other: &'static str },
}

/// Mathematical model of a [`QueryError`].
pub enum QueryErrorView {
    Required { name: Seq<char> },
    ExpectedUsize { name: Seq<char>, error: ParseErrorView },
    ConflictsWith { name: Seq<char>, other: Seq<char> },
    RequiredUnless { name: Seq<char>, other: Seq<char> },
    Requires { name: Seq<char>, other: Seq<char> },
}

impl View for QueryError {
    type V = QueryErrorView;

    open spec fn view(&self) -> QueryErrorView {
        match self {
            QueryError::Required { name } => QueryErrorView::Required { name: name@ },
            QueryError::ExpectedUsize { name, error } => QueryErrorView::ExpectedUsize {
                name: name@,
                error: error@,
            },
            QueryError::ConflictsWith { name, other } => QueryErrorView::ConflictsWith {
                name: name@,
                other: other@,
            },
            QueryError::RequiredUnless { name, other } => QueryErrorView::RequiredUnless {
                name: name@,
                other: other@,
            },
            QueryError::Requires { name, other } => QueryErrorView::Requires {
                name: name@,
                other: other@,
            },
        }
    }
}

/// The text that answers a query that does not fit.
pub open spec fn query_message(e: QueryErrorView) -> Seq<char> {
    match e {
        QueryErrorView::Required { name } => name + ": required"@,
        QueryErrorView::ExpectedUsize { name, error } => name + ": expected usize: "@
            + parse_message(error),
        QueryErrorView::ConflictsWith { name, other } => name + ": conflicts with: "@ + other,
        QueryErrorView::RequiredUnless { name, other } => name + ": required unless: "@ + other,
        QueryErrorView::Requires { name, other } => name + ": requires: "@ + other,
    }
}

impl QueryError {
    /// The text that answers the query.
    pub fn message(&self) -> (res: String)
        ensures
            res@ == query_message(self@),
    {
        match self {
            QueryError::Required { name } => (*name).to_owned().concat(": required"),
            QueryError::ExpectedUsize { name, error } => {
                let text = error.message();
                (*name).to_owned().concat(": expected usize: ").concat(text.as_str())
            },
            QueryError::ConflictsWith { name, other } => (*name).to_owned().concat(
                ": conflicts with: ",
            ).concat(other),
            QueryError::RequiredUnless { name, other } => (*name).to_owned().concat(
                ": required unless: ",
            ).concat(other),
            QueryError::Requires { name, other } => (*name).to_owned().concat(": requires: ").concat(
                other,
            ),
        }
    }
}

/// The first of `others[i..]` under which the query gives a value.
pub open spec fn first_conflict(others: Seq<Seq<char>>, q: QueryMap, i: int) -> Option<
    Seq<char>,
>
    decreases others.len() - i,
{
    if i < 0 || i >= others.len() {
        None
    } else if query_value(q, others[i]).is_some() {
        Some(others[i])
    } else {
        first_conflict(others, q, i + 1)
    }
}

/// The verdict on a query for one argument. In this order: a required
/// argument must be given; an argument that counts must be given as a count,
/// if it is given; none of the arguments that it conflicts with may be given;
/// where neither it nor the argument that could stand for it is given, it is
/// missing; and where it is given, the argument that it requires must be too.
pub open spec fn query_verdict(a: ArgumentView, q: QueryMap) -> Result<(), QueryErrorView> {
    let val = query_value(q, a.name);
    if a.required && val is None {
        Err(QueryErrorView::Required { name: a.name })
    } else if a.multiple && val is Some && value_parsed::<usize>(val->Some_0) is Err {
        Err(
            QueryErrorView::ExpectedUsize {
                name: a.name,
                error: value_parsed::<usize>(val->Some_0)->Err_0,
            },
        )
    } else {
        match first_conflict(a.conflicts_with, q, 0) {
            Some(other) => Err(QueryErrorView::ConflictsWith { name: a.name, other }),
            None => if a.required_unless is Some && val is None && query_value(
                q,
                a.required_unless->Some_0,
            ) is None {
                Err(
                    QueryErrorView::RequiredUnless {
                        name: a.name,
                        other: a.required_unless->Some_0,
                    },
                )
            } else if a.requires_argument is Some && val is Some && query_value(
                q,
                a.requires_argument->Some_0,
            ) is None {
                Err(
                    QueryErrorView::Requires { name: a.name, other: a.requires_argument->Some_0 },
                )
            } else {
                Ok(())
            },
        }
    }
}

/// The model of the outcome of a validation.
pub open spec fn validation(res: Result<(), QueryError>) -> Result<(), QueryErrorView> {
    match res {
        Ok(_) => Ok(()),
        Err(e) => Err(e@),
    }
}

/// Validates the query against what one argument declares.
#[verifier::loop_isolation(false)]
pub fn check_query(a: &ArgumentSpec, query: &QueryMap) -> (res: Result<(), QueryError>)
    ensures
        validation(res) == query_verdict(a@, *query),
{
    let val = query.get(a.name);
    if a.required && val.is_none() {
        return Err(QueryError::Required { name: a.name });
    }
    if a.multiple {
        match val {
            Some(v) => match v.parse::<usize>() {
                Ok(_) => {},
                Err(error) => {
                    return Err(QueryError::ExpectedUsize { name: a.name, error });
                },
            },
            None => {},
        }
    }
    let others = a.conflicts_with;
    let mut i: usize = 0;
    while i < others.len()
        invariant
            i <= others.len(),
            others == a.conflicts_with,
            first_conflict(texts_view(others@), *query, 0) == first_conflict(
                texts_view(others@),
                *query,
                i as int,
            ),
        decreases others.len() - i,
    {
        assert(texts_view(others@)[i as int] == others[i as int]@);
        if query.contains_key(others[i]) {
            return Err(QueryError::ConflictsWith { name: a.name, other: others[i] });
        }
        i += 1;
    }
    match a.required_unless {
        Some(other) => {
            if val.is_none() && !query.contains_key(other) {
                return Err(QueryError::RequiredUnless { name: a.name, other });
            }
        },
        None => {},
    }
    match a.requires_argument {
        Some(other) => {
            if val.is_some() && !query.contains_key(other) {
                return Err(QueryError::Requires { name: a.name, other });
            }
        },
        None => {},
    }
    Ok(())
}

/// Validates the query against what the argument declares.
pub fn default_hyper_validation<A: Argument + ?Sized>(arg: &A, query: &QueryMap) -> (res: Result<
    (),
    QueryError,
>)
    ensures
        validation(res) == query_verdict(arg.declared(), *query),
{
    let a = describe_argument(arg);
    check_query(&a, query)
}

/// The verdict on a query for the arguments `i..`, in their order: the first
/// that the query does not fit.
pub open spec fn args_verdict(args: Seq<ArgumentSpec>, q: QueryMap, i: int) -> Result<
    (),
    QueryErrorView,
>
    decreases args.len() - i,
{
    if i < 0 || i >= args.len() {
        Ok(())
    } else {
        match query_verdict(args[i]@, q) {
            Err(e) => Err(e),
            Ok(_) => args_verdict(args, q, i + 1),
        }
    }
}

/// Validates the query against the arguments, in their order.
pub fn check_args(args: &Vec<ArgumentSpec>, query: &QueryMap) -> (res: Result<(), QueryError>)
    ensures
        validation(res) == args_verdict(args@, *query, 0),
{
    let mut i: usize = 0;
    while i < args.len()
        invariant
            i <= args.len(),
            args_verdict(args@, *query, 0) == args_verdict(args@, *query, i as int),
        decreases args.len() - i,
    {
        match check_query(&args[i], query) {
            Ok(_) => {},
            Err(e) => {
                return Err(e);
            },
        }
        i += 1;
    }
    Ok(())
}

/// Where a request leads.
#[derive(Debug, PartialEq)]
pub enum Route {
    /// The query does not fit an argument of a command on the way.
    Invalid(QueryError),
    /// The path names a command that is not there.
    Missing,
    /// The command that the path names: for each segment of the path, the
    /// index of the subcommand that was taken.
    Found(Vec<usize>),
}

/// Mathematical model of a [`Route`].
pub enum RouteView {
    Invalid(QueryErrorView),
    Missing,
    Found(Seq<usize>),
}

impl View for Route {
    type V = RouteView;

    open spec fn view(&self) -> RouteView {
        match self {
            Route::Invalid(e) => RouteView::Invalid(e@),
            Route::Missing => RouteView::Missing,
            Route::Found(path) => RouteView::Found(path@),
        }
    }
}

/// Where the segments `i..` of a path lead from the command `cmd`, which
/// was reached by `path`. The query must fit the arguments of every command
/// on the way, the last one too; each segment must name a subcommand of the
/// command before it.
pub open spec fn route_from(
    cmd: Command,
    segments: Seq<Seq<char>>,
    i: int,
    q: QueryMap,
    path: Seq<usize>,
) -> RouteView
    decreases segments.len() - i,
{
    match args_verdict(cmd.args@, q, 0) {
        Err(e) => RouteView::Invalid(e),
        Ok(_) => if i < 0 || i >= segments.len() {
            RouteView::Found(path)
        } else {
            match index_of(command_names(cmd.commands@), segments[i]) {
                Some(j) => if 0 <= j < cmd.commands.len() {
                    route_from(cmd.commands[j], segments, i + 1, q, path.push(j as usize))
                } else {
                    RouteView::Missing
                },
                None => RouteView::Missing,
            }
        },
    }
}

/// Finds the command that the segments of a path name, from the root on, and
/// validates the query against the arguments of every command on the way.
pub fn route(root: &Command, segments: &Vec<String>, query: &QueryMap) -> (res: Route)
    ensures
        res@ == route_from(*root, strings_view(segments@), 0, *query, Seq::empty()),
{
    let ghost names = strings_view(segments@);
    let mut cmd: &Command = root;
    let mut path: Vec<usize> = Vec::new();
    let mut i: usize = 0;
    loop
        invariant
            i <= segments.len(),
            names == strings_view(segments@),
            route_from(*root, names, 0, *query, Seq::empty()) == route_from(
                *cmd,
                names,
                i as int,
                *query,
                path@,
            ),
        decreases segments.len() - i,
    {
        match check_args(&cmd.args, query) {
            Ok(_) => {},
            Err(e) => {
                return Route::Invalid(e);
            },
        }
        if i >= segments.len() {
            return Route::Found(path);
        }
        assert(names[i as int] == segments[i as int]@);
        match find_command(&cmd.commands, segments[i].as_str()) {
            Some(j) => {
                path.push(j);
                cmd = &cmd.commands[j];
            },
            None => {
                return Route::Missing;
            },
        }
        i += 1;
    }
}

/// A reply without the machinery of HTTP: the status, the content type if
/// there is a body to speak of, and the body.
#[derive(Debug, PartialEq, Eq)]
pub struct Reply {
    pub status: u16,
    pub content_type: Option<&'static str>,
    pub body: String,
}

/// The reply to a request that cannot be served as it is: status 400, with
/// the reason as plain text.
pub fn bad_request(msg: String) -> (res: Reply)
    ensures
        res.status == 400,
        res.content_type matches Some(t) && t@ == "text/plain"@,
        res.body@ == msg@,
{
    Reply { status: 400, content_type: Some("text/plain"), body: msg }
}

/// The reply to a request for a command that is not there: status 400,
/// without a body.
pub fn not_found() -> (res: Reply)
    ensures
        res.status == 400,
        res.content_type is None,
        res.body@.len() == 0,
{
    Reply { status: 400, content_type: None, body: String::new() }
}

/// The reply that has nothing to say: status 204, without a body.
pub fn no_content() -> (res: Reply)
    ensures
        res.status == 204,
        res.content_type is None,
        res.body@.len() == 0,
{
    Reply { status: 204, content_type: None, body: String::new() }
}

/// What an answer of the HTTP interface stands for, by its status.
#[derive(Clone, Copy, Debug, PartialEq, Eq)]
pub enum Answer {
    /// The command succeeded and has nothing to say.
    Nothing,
    /// The command succeeded; the body holds what it returns.
    Value,
    /// The command failed; the body holds the error.
    Failure,
}

/// What an answer stands for: status 204 says that there is nothing to
/// read, the other statuses from 200 to 299 carry a value, and all the rest
/// carry an error.
pub open spec fn spec_classify(status: u16) -> Answer {
    if status == 204 {
        Answer::Nothing
    } else if 200 <= status && status <= 299 {
        Answer::Value
    } else {
        Answer::Failure
    }
}

/// What an answer of this status stands for.
pub fn classify(status: u16) -> (res: Answer)
    ensures
        res == spec_classify(status),
{
    if status == 204 {
        Answer::Nothing
    } else if 200 <= status && status <= 299 {
        Answer::Value
    } else {
        Answer::Failure
    }
}

/// What `str::trim` leaves of a text: the text without the white space at
/// its ends.
pub uninterp spec fn trimmed(s: Seq<char>) -> Seq<char>;

/// `str::trim`. The claim is only that what is left depends on the text alone.
#[verifier::external_body]
fn trim_text<'a>(s: &'a str) -> (res: &'a str)
    ensures
        res@ == trimmed(s@),
{
    s.trim()
}

/// The index of the first `c` in `s[from..]`, or the length of `s` if there is none.
pub open spec fn first_at(s: Seq<char>, c: char, from: int) -> int
    decreases s.len() - from,
{
    if from < 0 || from >= s.len() {
        s.len() as int
    } else if s[from] == c {
        from
    } else {
        first_at(s, c, from + 1)
    }
}

/// The part of `s` before its first `c`, or all of it if there is none.
pub open spec fn before(s: Seq<char>, c: char) -> Seq<char> {
    s.subrange(0, first_at(s, c, 0))
}

/// True for the media types that let the answer be CBOR.
pub open spec fn admits_cbor(t: Seq<char>) -> bool {
    t == "*/*"@ || t == "application/*"@ || t == "application/cbor"@
}

/// True when one of the items of `s[from..]`, which commas part, admits CBOR
/// once trimmed.
pub open spec fn any_admits(s: Seq<char>, from: int) -> bool
    decreases s.len() - from,
{
    if from < 0 || from > s.len() {
        false
    } else {
        let end = first_at(s, ',', from);
        admits_cbor(trimmed(s.subrange(from, end))) || (from <= end < s.len() && any_admits(
            s,
            end + 1,
        ))
    }
}

/// True when the content type says CBOR: what stands before the first
/// semicolon is, once trimmed, `application/cbor`.
pub open spec fn says_cbor(content_type: Seq<char>) -> bool {
    trimmed(before(content_type, ';')) == "application/cbor"@
}

/// True when the accept header admits CBOR: one of the media types before
/// the first semicolon does.
pub open spec fn wants_cbor(accept: Seq<char>) -> bool {
    any_admits(before(accept, ';'), 0)
}

/// The index of the first `c` in `s[from..]`, or the length of `s` in
/// characters if there is none.
pub fn find_char(s: &str, c: char, from: usize) -> (res: usize)
    requires
        from <= s@.len(),
    ensures
        res == first_at(s@, c, from as int),
        from <= res <= s@.len(),
{
    let n = s.unicode_len();
    let mut i: usize = from;
    while i < n
        invariant
            n == s@.len(),
            from <= i <= n,
            first_at(s@, c, from as int) == first_at(s@, c, i as int),
        decreases n - i,
    {
        if s.get_char(i) == c {
            return i;
        }
        i += 1;
    }
    n
}

/// True when the content type, if there is one, says CBOR.
pub fn is_cbor(content_type: Option<&str>) -> (res: bool)
    ensures
        res == match content_type {
            Some(h) => says_cbor(h@),
            None => false,
        },
{
    match content_type {
        Some(h) => {
            let end = find_char(h, ';', 0);
            let head = h.substring_char(0, end);
            *trim_text(head) == *"application/cbor"
        },
        None => false,
    }
}

/// True when the answer may be CBOR: the accept header admits it, or, where
/// there is no accept header, the request itself is CBOR.
#[verifier::loop_isolation(false)]
pub fn accepts_cbor(accept: Option<&str>, content_type: Option<&str>) -> (res: bool)
    ensures
        res == match accept {
            Some(a) => wants_cbor(a@),
            None => match content_type {
                Some(h) => says_cbor(h@),
                None => false,
            },
        },
{
    match accept {
        Some(a) => {
            let end = find_char(a, ';', 0);
            let head = a.substring_char(0, end);
            let n = head.unicode_len();
            let mut from: usize = 0;
            loop
                invariant
                    n == head@.len(),
                    from <= n,
                    any_admits(head@, 0) == any_admits(head@, from as int),
                decreases n - from,
            {
                let stop = find_char(head, ',', from);
                let item = trim_text(head.substring_char(from, stop));
                if *item == *"*/*" || *item == *"application/*" || *item == *"application/cbor" {
                    return true;
                }
                if stop >= n {
                    return false;
                }
                from = stop + 1;
            }
        },
        None => is_cbor(content_type),
    }
}

} // verus!
