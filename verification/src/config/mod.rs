//! The configuration engine: the errors of validation, the result of
//! configuring, and the two things that callers ask of it, configuring an
//! application and removing its configuration.

use vstd::prelude::*;
use vstd::string::StringExecFns;
use rand::rngs::StdRng;
use std::time::Duration;
use crate::config::cascade::{
    optional_config, Action, ActionView, Cascade, CascadeView, Frame, FrameView, Stage,
};
use crate::config::collections::{ConfigMap, NameSet, StoppedMap};
use crate::config::spec::{PointerView, ValueSpecPointer};
use crate::config::store::{spec_removal, RemovalStep};
use crate::config::util::{len_range_text, num_range_text, NumRange};
use crate::config::value::{number_text, Config, ConfigView, Number};
use crate::error::{Error, ErrorView};
use crate::text::{decimal, decimal_string};

pub mod cascade;
pub mod collections;
pub mod generate;
pub mod laws;
pub mod rules;
pub mod spec;
pub mod store;
pub mod update;
pub mod util;
pub mod validity;
pub mod value;

verus! {

/// Generation of a value ran past its deadline.
#[derive(Clone, Copy, Debug, PartialEq, Eq)]
pub struct TimeoutError;

/// Why a value does not match a schema node.
#[derive(Clone, Debug, PartialEq)]
pub enum MatchError {
    /// The string (first) fails the regular expression (second).
    Pattern(String, String),
    /// The string (first) is none of the allowed ones (second).
    Enum(String, Vec<String>),
    /// Null stands where the schema allows none.
    NotNullable,
    /// The length (second) lies outside the range (first).
    LengthMismatch(NumRange<usize>, usize),
    /// The schema expects the type named first, the value has the one named second.
    InvalidType(&'static str, &'static str),
    /// The number (second) lies outside the range (first).
    OutOfRange(NumRange<Number>, Number),
    /// The number has a fractional part where the schema asks for an integer.
    NonIntegral(Number),
    /// The tag (first) names none of the variants (second).
    Union(String, Vec<String>),
    /// The object lacks the tag field of this name.
    MissingTag(String),
    /// The tag field (first) is also a property of the variant (second).
    PropertyMatchesUnionTag(String, String),
    /// The key tag of a map is also a property of its entries' schema.
    PropertyNameMatchesMapTag(String),
    /// The pointer's target does not exist.
    InvalidPointer(ValueSpecPointer),
    /// The key is not a valid object key.
    InvalidKey(String),
    /// Two items of a list are equal where they must all differ.
    ListUniquenessViolation,
}

/// Mathematical model of a [`MatchError`].
pub enum MatchErrorView {
    Pattern(Seq<char>, Seq<char>),
    Enum(Seq<char>, Seq<Seq<char>>),
    NotNullable,
    LengthMismatch(NumRange<usize>, int),
    InvalidType(Seq<char>, Seq<char>),
    OutOfRange(NumRange<Number>, int),
    NonIntegral(int),
    Union(Seq<char>, Seq<Seq<char>>),
    MissingTag(Seq<char>),
    PropertyMatchesUnionTag(Seq<char>, Seq<char>),
    PropertyNameMatchesMapTag(Seq<char>),
    InvalidPointer(PointerView),
    InvalidKey(Seq<char>),
    ListUniquenessViolation,
}

/// The character sequences of a sequence of strings.
pub open spec fn strings_view(v: Seq<String>) -> Seq<Seq<char>> {
    Seq::new(v.len(), |i: int| v[i]@)
}

impl View for MatchError {
    type V = MatchErrorView;

    open spec fn view(&self) -> MatchErrorView {
        match self {
            MatchError::Pattern(s, p) => MatchErrorView::Pattern(s@, p@),
            MatchError::Enum(s, values) => MatchErrorView::Enum(s@, strings_view(values@)),
            MatchError::NotNullable => MatchErrorView::NotNullable,
            MatchError::LengthMismatch(r, n) => MatchErrorView::LengthMismatch(*r, *n as int),
            MatchError::InvalidType(expected, actual) => MatchErrorView::InvalidType(
                expected@,
                actual@,
            ),
            MatchError::OutOfRange(r, n) => MatchErrorView::OutOfRange(*r, n.micros as int),
            MatchError::NonIntegral(n) => MatchErrorView::NonIntegral(n.micros as int),
            MatchError::Union(s, names) => MatchErrorView::Union(s@, strings_view(names@)),
            MatchError::MissingTag(tag) => MatchErrorView::MissingTag(tag@),
            MatchError::PropertyMatchesUnionTag(tag, variant) => {
                MatchErrorView::PropertyMatchesUnionTag(tag@, variant@)
            },
            MatchError::PropertyNameMatchesMapTag(tag) => MatchErrorView::PropertyNameMatchesMapTag(
                tag@,
            ),
            MatchError::InvalidPointer(p) => MatchErrorView::InvalidPointer(p@),
            MatchError::InvalidKey(key) => MatchErrorView::InvalidKey(key@),
            MatchError::ListUniquenessViolation => MatchErrorView::ListUniquenessViolation,
        }
    }
}

/// A copy of a vector of strings.
pub fn clone_strings(v: &Vec<String>) -> (res: Vec<String>)
    ensures
        strings_view(res@) == strings_view(v@),
{
    let mut out: Vec<String> = Vec::new();
    let mut i: usize = 0;
    while i < v.len()
        invariant
            i <= v.len(),
            out.len() == i,
            forall|k: int| 0 <= k < i ==> out[k]@ == v[k]@,
        decreases v.len() - i,
    {
        out.push(v[i].clone());
        i += 1;
    }
    proof {
        assert(strings_view(out@) =~= strings_view(v@));
    }
    out
}

/// A mismatch together with the place where it was found. The path holds the
/// segments from the innermost outwards.
#[derive(Clone, Debug, PartialEq)]
pub struct NoMatchWithPath {
    pub path: Vec<String>,
    pub error: MatchError,
}

/// Mathematical model of a [`NoMatchWithPath`].
pub struct NoMatchView {
    pub path: Seq<Seq<char>>,
    pub error: MatchErrorView,
}

impl NoMatchView {
    /// The mismatch found directly at a node.
    pub open spec fn at_node(error: MatchErrorView) -> NoMatchView {
        NoMatchView { path: Seq::empty(), error }
    }

    /// The same mismatch seen from one level further out.
    pub open spec fn prepend(self, seg: Seq<char>) -> NoMatchView {
        NoMatchView { path: self.path.push(seg), error: self.error }
    }
}

impl View for NoMatchWithPath {
    type V = NoMatchView;

    open spec fn view(&self) -> NoMatchView {
        NoMatchView { path: strings_view(self.path@), error: self.error@ }
    }
}

/// The segments `path[0..n]` from the last to the first, joined by dots.
pub open spec fn dotted(path: Seq<Seq<char>>, n: int) -> Seq<char>
    decreases n,
{
    if n <= 0 {
        Seq::empty()
    } else if n == 1 {
        path[0]
    } else {
        path[n - 1] + "."@ + dotted(path, n - 1)
    }
}

impl NoMatchWithPath {
    /// A mismatch at the node itself, with an empty path.
    pub fn new(error: MatchError) -> (res: NoMatchWithPath)
        ensures
            res@ == NoMatchView::at_node(error@),
    {
        let res = NoMatchWithPath { path: Vec::new(), error };
        proof {
            assert(strings_view(res.path@) =~= Seq::<Seq<char>>::empty());
        }
        res
    }

    /// The mismatch seen from one level further out, through the field or
    /// index `seg`.
    pub fn prepend(self, seg: String) -> (res: NoMatchWithPath)
        ensures
            res@ == self@.prepend(seg@),
    {
        let mut this = self;
        this.path.push(seg);
        proof {
            assert(strings_view(this.path@) =~= strings_view(self.path@).push(seg@));
        }
        this
    }

    /// The path from the outermost segment to the innermost, joined by dots.
    pub fn dotted_path(&self) -> (res: String)
        ensures
            res@ == dotted(self@.path, self@.path.len() as int),
    {
        let n = self.path.len();
        let mut out = String::new();
        let mut i: usize = 0;
        while i < n
            invariant
                n == self.path.len(),
                i <= n,
                out@ == dotted(strings_view(self.path@), i as int),
            decreases n - i,
        {
            if i == 0 {
                out = self.path[0].clone();
            } else {
                let mut next = self.path[i].clone();
                next.append(".");
                next.append(out.as_str());
                out = next;
            }
            i += 1;
        }
        out
    }
}

/// Why a configuration could not be produced or brought up to date.
#[derive(Clone, Debug, PartialEq)]
pub enum ConfigurationError {
    TimeoutError(TimeoutError),
    NoMatch(NoMatchWithPath),
    InvalidVariant(String),
    SystemError(Error),
}

/// Mathematical model of a [`ConfigurationError`].
pub enum ConfigurationErrorView {
    TimeoutError,
    NoMatch(NoMatchView),
    InvalidVariant(Seq<char>),
    SystemError(ErrorView),
}

impl View for ConfigurationError {
    type V = ConfigurationErrorView;

    open spec fn view(&self) -> ConfigurationErrorView {
        match self {
            ConfigurationError::TimeoutError(_) => ConfigurationErrorView::TimeoutError,
            ConfigurationError::NoMatch(e) => ConfigurationErrorView::NoMatch(e@),
            ConfigurationError::InvalidVariant(name) => ConfigurationErrorView::InvalidVariant(
                name@,
            ),
            ConfigurationError::SystemError(e) => ConfigurationErrorView::SystemError(e@),
        }
    }
}

/// A text between double quotes.
pub open spec fn quoted(s: Seq<char>) -> Seq<char> {
    "\""@ + s + "\""@
}

/// The first `n` texts, each between double quotes, with commas between them.
pub open spec fn quoted_list(items: Seq<Seq<char>>, n: int) -> Seq<char>
    decreases n,
{
    if n <= 0 {
        Seq::empty()
    } else if n == 1 {
        quoted(items[0])
    } else {
        quoted_list(items, n - 1) + ", "@ + quoted(items[n - 1])
    }
}

/// The texts as a set: between braces, each between double quotes.
pub open spec fn quoted_set(items: Seq<Seq<char>>) -> Seq<char> {
    "{"@ + quoted_list(items, items.len() as int) + "}"@
}

/// The first `n` names of a path, each behind a dot.
pub open spec fn dotted_tail(path: Seq<Seq<char>>, n: int) -> Seq<char>
    decreases n,
{
    if n <= 0 {
        Seq::empty()
    } else {
        dotted_tail(path, n - 1) + "."@ + path[n - 1]
    }
}

/// A pointer as text: the application between brackets, and the names of
/// the path, each behind a dot.
pub open spec fn pointer_text(p: PointerView) -> Seq<char> {
    "["@ + p.app_id + "]"@ + dotted_tail(p.index, p.index.len() as int)
}

/// The text that names a mismatch.
pub open spec fn match_message(e: MatchErrorView) -> Seq<char> {
    match e {
        MatchErrorView::Pattern(s, p) => "String "@ + quoted(s) + " Does Not Match Pattern "@ + p,
        MatchErrorView::Enum(s, values) => "String "@ + quoted(s) + " Is Not In Enum "@
            + quoted_set(values),
        MatchErrorView::NotNullable => "Field Is Not Nullable"@,
        MatchErrorView::LengthMismatch(range, n) => "Length Mismatch: expected "@
            + len_range_text(range) + ", actual: "@ + decimal(n),
        MatchErrorView::InvalidType(expected, actual) => "Invalid Type: expected "@ + expected
            + ", actual: "@ + actual,
        MatchErrorView::OutOfRange(range, n) => "Number Out Of Range: expected "@
            + num_range_text(range) + ", actual: "@ + number_text(n),
        MatchErrorView::NonIntegral(n) => "Number Is Not Integral: "@ + number_text(n),
        MatchErrorView::Union(s, names) => "Variant "@ + quoted(s) + " Is Not In Union "@
            + quoted_set(names),
        MatchErrorView::MissingTag(tag) => "Variant Is Missing Tag "@ + quoted(tag),
        MatchErrorView::PropertyMatchesUnionTag(tag, variant) => "Property "@ + quoted(tag)
            + " Of Variant "@ + quoted(variant) + " Conflicts With Union Tag"@,
        MatchErrorView::PropertyNameMatchesMapTag(tag) => "Name of Property "@ + quoted(tag)
            + " Conflicts With Map Tag Name"@,
        MatchErrorView::InvalidPointer(p) => "Pointer Is Invalid: "@ + pointer_text(p),
        MatchErrorView::InvalidKey(key) => "Object Key Is Invalid: "@ + key,
        MatchErrorView::ListUniquenessViolation => "Value In List Is Not Unique"@,
    }
}

/// The text that names a mismatch and its place: the dotted path, a colon,
/// and the mismatch.
pub open spec fn no_match_message(e: NoMatchView) -> Seq<char> {
    dotted(e.path, e.path.len() as int) + ": "@ + match_message(e.error)
}

/// The text that names a configuration error.
pub open spec fn configuration_message(e: ConfigurationErrorView) -> Seq<char> {
    match e {
        ConfigurationErrorView::TimeoutError => "Timeout Error"@,
        ConfigurationErrorView::NoMatch(n) => "No Match: "@ + no_match_message(n),
        ConfigurationErrorView::InvalidVariant(name) => "Invalid Variant: "@ + name,
        ConfigurationErrorView::SystemError(err) => "System Error: "@ + err.message,
    }
}

/// A text between double quotes.
pub fn quote(s: &str) -> (res: String)
    ensures
        res@ == quoted(s@),
{
    "\"".to_owned().concat(s).concat("\"")
}

/// The texts as a set: between braces, each between double quotes.
pub fn quote_set(items: &Vec<String>) -> (res: String)
    ensures
        res@ == quoted_set(strings_view(items@)),
{
    let ghost all = strings_view(items@);
    let mut out = "{".to_owned();
    let mut i: usize = 0;
    while i < items.len()
        invariant
            i <= items.len(),
            all == strings_view(items@),
            out@ == "{"@ + quoted_list(all, i as int),
        decreases items.len() - i,
    {
        assert(all[i as int] == items[i as int]@);
        if i > 0 {
            out.append(", ");
        }
        let next = quote(items[i].as_str());
        out.append(next.as_str());
        proof {
            assert(out@ =~= "{"@ + quoted_list(all, i + 1));
        }
        i += 1;
    }
    out.concat("}")
}

impl ValueSpecPointer {
    /// The pointer as text.
    pub fn to_text(&self) -> (res: String)
        ensures
            res@ == pointer_text(self@),
    {
        let ghost names = strings_view(self.index@);
        let mut out = "[".to_owned().concat(self.app_id.as_str()).concat("]");
        let mut i: usize = 0;
        while i < self.index.len()
            invariant
                i <= self.index.len(),
                names == strings_view(self.index@),
                out@ == "["@ + self.app_id@ + "]"@ + dotted_tail(names, i as int),
            decreases self.index.len() - i,
        {
            assert(names[i as int] == self.index[i as int]@);
            out.append(".");
            out.append(self.index[i].as_str());
            proof {
                assert(out@ =~= "["@ + self.app_id@ + "]"@ + dotted_tail(names, i + 1));
            }
            i += 1;
        }
        out
    }
}

impl MatchError {
    /// The text that names the mismatch.
    pub fn message(&self) -> (res: String)
        ensures
            res@ == match_message(self@),
    {
        match self {
            MatchError::Pattern(s, p) => {
                let q = quote(s.as_str());
                "String ".to_owned().concat(q.as_str()).concat(" Does Not Match Pattern ").concat(
                    p.as_str(),
                )
            },
            MatchError::Enum(s, values) => {
                let q = quote(s.as_str());
                let set = quote_set(values);
                "String ".to_owned().concat(q.as_str()).concat(" Is Not In Enum ").concat(
                    set.as_str(),
                )
            },
            MatchError::NotNullable => "Field Is Not Nullable".to_owned(),
            MatchError::LengthMismatch(range, n) => {
                let expected = range.to_text();
                let actual = decimal_string(*n as u128);
                "Length Mismatch: expected ".to_owned().concat(expected.as_str()).concat(
                    ", actual: ",
                ).concat(actual.as_str())
            },
            MatchError::InvalidType(expected, actual) => "Invalid Type: expected ".to_owned().concat(
                expected,
            ).concat(", actual: ").concat(actual),
            MatchError::OutOfRange(range, n) => {
                let expected = range.to_text();
                let actual = n.to_text();
                "Number Out Of Range: expected ".to_owned().concat(expected.as_str()).concat(
                    ", actual: ",
                ).concat(actual.as_str())
            },
            MatchError::NonIntegral(n) => {
                let actual = n.to_text();
                "Number Is Not Integral: ".to_owned().concat(actual.as_str())
            },
            MatchError::Union(s, names) => {
                let q = quote(s.as_str());
                let set = quote_set(names);
                "Variant ".to_owned().concat(q.as_str()).concat(" Is Not In Union ").concat(
                    set.as_str(),
                )
            },
            MatchError::MissingTag(tag) => {
                let q = quote(tag.as_str());
                "Variant Is Missing Tag ".to_owned().concat(q.as_str())
            },
            MatchError::PropertyMatchesUnionTag(tag, variant) => {
                let t = quote(tag.as_str());
                let v = quote(variant.as_str());
                "Property ".to_owned().concat(t.as_str()).concat(" Of Variant ").concat(
                    v.as_str(),
                ).concat(" Conflicts With Union Tag")
            },
            MatchError::PropertyNameMatchesMapTag(tag) => {
                let t = quote(tag.as_str());
                "Name of Property ".to_owned().concat(t.as_str()).concat(
                    " Conflicts With Map Tag Name",
                )
            },
            MatchError::InvalidPointer(p) => {
                let text = p.to_text();
                "Pointer Is Invalid: ".to_owned().concat(text.as_str())
            },
            MatchError::InvalidKey(key) => "Object Key Is Invalid: ".to_owned().concat(
                key.as_str(),
            ),
            MatchError::ListUniquenessViolation => "Value In List Is Not Unique".to_owned(),
        }
    }
}

impl NoMatchWithPath {
    /// The text that names the mismatch and its place.
    pub fn message(&self) -> (res: String)
        ensures
            res@ == no_match_message(self@),
    {
        let text = self.error.message();
        self.dotted_path().concat(": ").concat(text.as_str())
    }
}

impl ConfigurationError {
    /// The text that names the error.
    pub fn message(&self) -> (res: String)
        ensures
            res@ == configuration_message(self@),
    {
        match self {
            ConfigurationError::TimeoutError(_) => "Timeout Error".to_owned(),
            ConfigurationError::NoMatch(n) => {
                let text = n.message();
                "No Match: ".to_owned().concat(text.as_str())
            },
            ConfigurationError::InvalidVariant(name) => "Invalid Variant: ".to_owned().concat(
                name.as_str(),
            ),
            ConfigurationError::SystemError(err) => "System Error: ".to_owned().concat(
                err.message.as_str(),
            ),
        }
    }
}

/// Why a dependent application cannot go on running.
#[derive(Debug, PartialEq)]
pub enum DependencyError {
    /// An application that it needs is not running.
    NotRunning,
    /// The configuration that it depends on breaks these of its rules.
    ConfigUnsatisfied(Vec<String>),
    /// Its own configuration could not be brought up to date.
    PointerUpdateError(String),
    /// Anything else.
    Other(String),
}

/// Mathematical model of a [`DependencyError`].
pub enum DependencyErrorView {
    NotRunning,
    ConfigUnsatisfied(Seq<Seq<char>>),
    PointerUpdateError(Seq<char>),
    Other(Seq<char>),
}

impl View for DependencyError {
    type V = DependencyErrorView;

    open spec fn view(&self) -> DependencyErrorView {
        match self {
            DependencyError::NotRunning => DependencyErrorView::NotRunning,
            DependencyError::ConfigUnsatisfied(rules) => DependencyErrorView::ConfigUnsatisfied(
                strings_view(rules@),
            ),
            DependencyError::PointerUpdateError(m) => DependencyErrorView::PointerUpdateError(m@),
            DependencyError::Other(m) => DependencyErrorView::Other(m@),
        }
    }
}

impl Clone for DependencyError {
    fn clone(&self) -> (res: DependencyError)
        ensures
            res@ == self@,
    {
        match self {
            DependencyError::NotRunning => DependencyError::NotRunning,
            DependencyError::ConfigUnsatisfied(rules) => DependencyError::ConfigUnsatisfied(
                clone_strings(rules),
            ),
            DependencyError::PointerUpdateError(m) => DependencyError::PointerUpdateError(
                m.clone(),
            ),
            DependencyError::Other(m) => DependencyError::Other(m.clone()),
        }
    }
}

/// A dependency error together with the dependency that it is about.
#[derive(Debug, PartialEq)]
pub struct TaggedDependencyError {
    pub dependency: String,
    pub error: DependencyError,
}

/// Mathematical model of a [`TaggedDependencyError`].
pub struct TaggedView {
    pub dependency: Seq<char>,
    pub error: DependencyErrorView,
}

impl View for TaggedDependencyError {
    type V = TaggedView;

    open spec fn view(&self) -> TaggedView {
        TaggedView { dependency: self.dependency@, error: self.error@ }
    }
}

impl Clone for TaggedDependencyError {
    fn clone(&self) -> (res: TaggedDependencyError)
        ensures
            res@ == self@,
    {
        TaggedDependencyError { dependency: self.dependency.clone(), error: self.error.clone() }
    }
}

/// What one call to configure an application did: the applications whose
/// configuration changed, in the order they were visited; those that must be
/// restarted; and those that were stopped, each with the reason.
pub struct ConfigurationRes {
    pub changed: ConfigMap,
    pub needs_restart: NameSet,
    pub stopped: StoppedMap,
}

/// Mathematical model of a [`ConfigurationRes`].
pub struct ConfigurationResView {
    pub changed: Seq<(Seq<char>, ConfigView)>,
    pub needs_restart: Seq<Seq<char>>,
    pub stopped: Seq<(Seq<char>, TaggedView)>,
}

impl View for ConfigurationRes {
    type V = ConfigurationResView;

    open spec fn view(&self) -> ConfigurationResView {
        ConfigurationResView {
            changed: self.changed@,
            needs_restart: self.needs_restart@,
            stopped: self.stopped@,
        }
    }
}

impl ConfigurationResView {
    /// The result in which nothing has happened.
    pub open spec fn empty() -> ConfigurationResView {
        ConfigurationResView {
            changed: Seq::empty(),
            needs_restart: Seq::empty(),
            stopped: Seq::empty(),
        }
    }
}

impl Default for ConfigurationRes {
    fn default() -> (res: ConfigurationRes)
        ensures
            res@ == ConfigurationResView::empty(),
    {
        ConfigurationRes {
            changed: ConfigMap::new(),
            needs_restart: NameSet::new(),
            stopped: StoppedMap::new(),
        }
    }
}

/// Begins to configure the application `name` with the configuration given,
/// if any: the result is empty, the application stands alone on the stack,
/// and the first thing to do is to read it. What follows is decided step by
/// step by [`Cascade::step`], which ends with the result of the call.
pub fn configure(
    name: String,
    config: Option<Config>,
    timeout: Option<Duration>,
    dry_run: bool,
    rng: StdRng,
) -> (res: (Cascade, Action))
    ensures
        res.0@ == (CascadeView {
            dry_run,
            stack: seq![FrameView::fresh(name@, optional_config(config))],
            res: ConfigurationResView::empty(),
        }),
        res.1@ == (ActionView::Load { name: name@ }),
        res.0.timeout == timeout,
        res.0.rng == rng,
{
    let action = Action::Load { name: name.clone() };
    let root = Frame {
        name,
        config: Config::new(),
        dependents: Vec::new(),
        next: 0,
        stage: Stage::Loading { supplied: config },
    };
    proof {
        assert(root@.dependents =~= Seq::<Seq<char>>::empty());
    }
    let mut stack: Vec<Frame> = Vec::new();
    stack.push(root);
    let cascade = Cascade { dry_run, timeout, rng, stack, res: ConfigurationRes::default() };
    proof {
        assert(cascade@.stack =~= seq![FrameView::fresh(name@, optional_config(config))]);
    }
    (cascade, action)
}

/// What removing the configuration of an application takes, given which of
/// its two files are there: each file is deleted if it is there, and then the
/// application is marked as not configured. No other application is touched.
pub fn remove(stored_exists: bool, replica_exists: bool) -> (res: Vec<RemovalStep>)
    ensures
        res@ == spec_removal(stored_exists, replica_exists),
{
    let mut plan: Vec<RemovalStep> = Vec::new();
    if stored_exists {
        plan.push(RemovalStep::DeleteStored);
    }
    if replica_exists {
        plan.push(RemovalStep::DeleteReplica);
    }
    plan.push(RemovalStep::MarkUnconfigured);
    proof {
        assert(plan@ =~= spec_removal(stored_exists, replica_exists));
    }
    plan
}

} // verus!
