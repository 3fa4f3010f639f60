//! The schema of a configuration, and what it means for a value to match it.

use vstd::prelude::*;
use vstd::string::StrSliceExecFns;
use vstd::string::StringExecFns;
use regex::Regex;
use crate::config::{
    clone_strings, strings_view, MatchError, MatchErrorView, NoMatchView, NoMatchWithPath,
};
use crate::config::util::{len_in_range, num_in_range, NumRange};
use crate::config::value::{
    lemma_list_view, lemma_object_view, lookup, spec_type_of, value_at, values_view, Config,
    ConfigView, Number, Value, ValueView,
};
use crate::text::{decimal, decimal_string};

verus! {

/// A reference to a field of another application's configuration: the
/// application, and the chain of property names that leads to the field.
#[derive(Debug, PartialEq)]
pub struct ValueSpecPointer {
    pub app_id: String,
    pub index: Vec<String>,
}

/// Mathematical model of a [`ValueSpecPointer`].
pub struct PointerView {
    pub app_id: Seq<char>,
    pub index: Seq<Seq<char>>,
}

impl View for ValueSpecPointer {
    type V = PointerView;

    open spec fn view(&self) -> PointerView {
        PointerView { app_id: self.app_id@, index: strings_view(self.index@) }
    }
}

impl Clone for ValueSpecPointer {
    fn clone(&self) -> (res: ValueSpecPointer)
        ensures
            res@ == self@,
    {
        ValueSpecPointer { app_id: self.app_id.clone(), index: clone_strings(&self.index) }
    }
}

/// How a default string is produced.
#[derive(Clone, Debug, PartialEq)]
pub enum DefaultString {
    /// Always this string.
    Literal(String),
    /// `len` characters, each drawn at random from `charset`.
    Entropy { charset: Vec<char>, len: usize },
}

/// The allowed shape of one position of a configuration value.
#[derive(Debug, PartialEq)]
pub enum ValueSpec {
    /// True or false.
    Boolean { default: bool },
    /// One of the listed strings.
    Enum { values: Vec<String>, default: DefaultString },
    /// A list whose length lies in `range` and whose items all match `spec`;
    /// with `unique`, no two items are equal.
    List { spec: Box<ValueSpec>, range: NumRange<usize>, unique: bool },
    /// A number, within `range` if there is one, and whole if `integral`.
    Number { range: Option<NumRange<Number>>, integral: bool, default: Option<Number> },
    /// An object whose properties match `spec`.
    Object { spec: ConfigSpec, null_by_default: bool },
    /// A string that the regular expression `pattern` accepts, if there is one.
    String { pattern: Option<String>, default: Option<DefaultString> },
    /// An object whose string field `tag` names one of `variants`, and whose
    /// other properties match that variant.
    Union { tag: String, variants: Vec<(String, ConfigSpec)>, default: String },
    /// An object with any valid keys, each entry of which is an object that
    /// matches `spec`; `tag` is the property name reserved for an entry's key.
    Mapping { tag: String, spec: ConfigSpec },
    /// A value taken from another application's configuration.
    Pointer(ValueSpecPointer),
    /// Null, or what the inner node allows.
    Nullable(Box<ValueSpec>),
}

/// The schema of an object: its properties in declaration order.
#[derive(Debug, PartialEq)]
pub struct ConfigSpec(pub Vec<(String, ValueSpec)>);

/// Index of the first of `names[i..]` that equals `key`.
pub open spec fn index_from(names: Seq<Seq<char>>, key: Seq<char>, i: int) -> Option<int>
    decreases names.len() - i,
{
    if i < 0 || i >= names.len() {
        None
    } else if names[i] == key {
        Some(i)
    } else {
        index_from(names, key, i + 1)
    }
}

/// Index of the first of `names` that equals `key`.
pub open spec fn index_of(names: Seq<Seq<char>>, key: Seq<char>) -> Option<int> {
    index_from(names, key, 0)
}

/// What `index_from` returns is the least matching index from `i` on.
pub proof fn lemma_index_from(names: Seq<Seq<char>>, key: Seq<char>, i: int)
    requires
        0 <= i <= names.len(),
    ensures
        match index_from(names, key, i) {
            Some(j) => i <= j < names.len() && names[j] == key && forall|k: int|
                i <= k < j ==> #[trigger] names[k] != key,
            None => forall|k: int| i <= k < names.len() ==> #[trigger] names[k] != key,
        },
    decreases names.len() - i,
{
    if i < names.len() && names[i] != key {
        lemma_index_from(names, key, i + 1);
    }
}

/// The property names of a schema, in declaration order.
pub open spec fn field_names(spec: ConfigSpec) -> Seq<Seq<char>> {
    Seq::new(spec.0.len() as nat, |i: int| spec.0[i].0@)
}

/// The names of a union's variants, in declaration order.
pub open spec fn variant_names(variants: Seq<(String, ConfigSpec)>) -> Seq<Seq<char>> {
    Seq::new(variants.len(), |i: int| variants[i].0@)
}

/// True when the schema declares a property of this name.
pub open spec fn has_field(spec: ConfigSpec, name: Seq<char>) -> bool {
    index_of(field_names(spec), name).is_some()
}

/// True when `c` may stand in an object key: an ASCII letter or digit, a
/// hyphen or an underscore.
pub open spec fn key_char(c: char) -> bool {
    ('a' <= c && c <= 'z') || ('A' <= c && c <= 'Z') || ('0' <= c && c <= '9') || c == '-' || c
        == '_'
}

/// True when `key` is a valid object key: not empty, and made of key characters.
pub open spec fn valid_key(key: Seq<char>) -> bool {
    key.len() > 0 && forall|i: int| 0 <= i < key.len() ==> key_char(#[trigger] key[i])
}

/// True when two items of the list are equal.
pub open spec fn has_duplicate(items: Seq<ValueView>) -> bool {
    exists|i: int, j: int| 0 <= i < j < items.len() && items[i] == items[j]
}

/// What matching a pattern against a text gives: `None` when the pattern is
/// no regular expression, else whether the expression finds a match in the text.
pub uninterp spec fn regex_match(pattern: Seq<char>, text: Seq<char>) -> Option<bool>;

/// Compiles `pattern` with `regex::Regex::new` and, where that succeeds, tests
/// `text` with `Regex::is_match`. The claim is only that the answer depends on
/// the two strings alone.
#[verifier::external_body]
pub(crate) fn pattern_is_match(pattern: &str, text: &str) -> (res: Option<bool>)
    ensures
        res == regex_match(pattern@, text@),
{
    match Regex::new(pattern) {
        Ok(re) => Some(re.is_match(text)),
        Err(_) => None,
    }
}

/// The verdict on a value of the wrong type at a node that expects `expected`.
pub open spec fn wrong_type(expected: Seq<char>, v: ValueView) -> Result<(), NoMatchView> {
    if v is Null {
        Err(NoMatchView::at_node(MatchErrorView::NotNullable))
    } else {
        Err(NoMatchView::at_node(MatchErrorView::InvalidType(expected, spec_type_of(v))))
    }
}

/// Whether `v` matches the node, and if not, the first mismatch with its path.
pub open spec fn node_matches(node: ValueSpec, v: ValueView) -> Result<(), NoMatchView>
    decreases node, 0nat, 0nat,
{
    match node {
        ValueSpec::Boolean { default } => match v {
            ValueView::Boolean(_) => Ok(()),
            _ => wrong_type("boolean"@, v),
        },
        ValueSpec::Enum { values, default } => match v {
            ValueView::String(s) => if index_of(strings_view(values@), s).is_some() {
                Ok(())
            } else {
                Err(NoMatchView::at_node(MatchErrorView::Enum(s, strings_view(values@))))
            },
            _ => wrong_type("string"@, v),
        },
        ValueSpec::List { spec, range, unique } => match v {
            ValueView::List(items) => if !len_in_range(range, items.len() as int) {
                Err(
                    NoMatchView::at_node(
                        MatchErrorView::LengthMismatch(range, items.len() as int),
                    ),
                )
            } else {
                match items_match(*spec, items, 0) {
                    Err(e) => Err(e),
                    Ok(_) => if unique && has_duplicate(items) {
                        Err(NoMatchView::at_node(MatchErrorView::ListUniquenessViolation))
                    } else {
                        Ok(())
                    },
                }
            },
            _ => wrong_type("list"@, v),
        },
        ValueSpec::Number { range, integral, default } => match v {
            ValueView::Number(n) => if integral && !Number::spec_is_integral(n) {
                Err(NoMatchView::at_node(MatchErrorView::NonIntegral(n)))
            } else {
                match range {
                    Some(r) => if num_in_range(r, n) {
                        Ok(())
                    } else {
                        Err(NoMatchView::at_node(MatchErrorView::OutOfRange(r, n)))
                    },
                    None => Ok(()),
                }
            },
            _ => wrong_type("number"@, v),
        },
        ValueSpec::Object { spec, null_by_default } => object_matches(spec, v),
        ValueSpec::String { pattern, default } => match v {
            ValueView::String(s) => match pattern {
                Some(p) => if regex_match(p@, s) == Some(true) {
                    Ok(())
                } else {
                    Err(NoMatchView::at_node(MatchErrorView::Pattern(s, p@)))
                },
                None => Ok(()),
            },
            _ => wrong_type("string"@, v),
        },
        ValueSpec::Union { tag, variants, default } => match v {
            ValueView::Object(cfg) => match lookup(cfg, tag@) {
                Some(ValueView::String(t)) => match index_of(variant_names(variants@), t) {
                    Some(j) => if 0 <= j < variants.len() {
                        if has_field(variants[j].1, tag@) {
                            Err(
                                NoMatchView::at_node(
                                    MatchErrorView::PropertyMatchesUnionTag(tag@, t),
                                ),
                            )
                        } else {
                            fields_match(variants[j].1, cfg, 0)
                        }
                    } else {
                        Ok(())
                    },
                    None => Err(
                        NoMatchView::at_node(MatchErrorView::Union(t, variant_names(variants@))),
                    ),
                },
                _ => Err(NoMatchView::at_node(MatchErrorView::MissingTag(tag@))),
            },
            _ => wrong_type("object"@, v),
        },
        ValueSpec::Mapping { tag, spec } => match v {
            ValueView::Object(entries) => if has_field(spec, tag@) {
                Err(NoMatchView::at_node(MatchErrorView::PropertyNameMatchesMapTag(tag@)))
            } else {
                entries_match(spec, entries, 0)
            },
            _ => wrong_type("object"@, v),
        },
        ValueSpec::Pointer(_) => Ok(()),
        ValueSpec::Nullable(inner) => if v is Null {
            Ok(())
        } else {
            node_matches(*inner, v)
        },
    }
}

/// The first mismatch among `items[i..]` against `elem`, each under its index.
pub open spec fn items_match(elem: ValueSpec, items: Seq<ValueView>, i: int) -> Result<
    (),
    NoMatchView,
>
    decreases elem, 1nat, items.len() - i,
{
    if i < 0 || i >= items.len() {
        Ok(())
    } else {
        match node_matches(elem, items[i]) {
            Err(e) => Err(e.prepend(decimal(i))),
            Ok(_) => items_match(elem, items, i + 1),
        }
    }
}

/// The first mismatch among the properties `i..` of the schema, each under
/// its name. A property that the object lacks is read as null.
pub open spec fn fields_match(spec: ConfigSpec, cfg: ConfigView, i: int) -> Result<
    (),
    NoMatchView,
>
    decreases spec, 0nat, spec.0.len() - i,
{
    if i < 0 || i >= spec.0.len() {
        Ok(())
    } else {
        match node_matches(spec.0[i].1, value_at(cfg, spec.0[i].0@)) {
            Err(e) => Err(e.prepend(spec.0[i].0@)),
            Ok(_) => fields_match(spec, cfg, i + 1),
        }
    }
}

/// Whether `v` is an object that matches the schema.
pub open spec fn object_matches(spec: ConfigSpec, v: ValueView) -> Result<(), NoMatchView>
    decreases spec, 1nat, 0nat,
{
    match v {
        ValueView::Object(cfg) => fields_match(spec, cfg, 0),
        _ => wrong_type("object"@, v),
    }
}

/// The first mismatch among the entries `i..` of a map: an invalid key, or an
/// entry that does not match the schema, under its key.
pub open spec fn entries_match(spec: ConfigSpec, entries: ConfigView, i: int) -> Result<
    (),
    NoMatchView,
>
    decreases spec, 2nat, entries.len() - i,
{
    if i < 0 || i >= entries.len() {
        Ok(())
    } else if !valid_key(entries[i].0) {
        Err(NoMatchView::at_node(MatchErrorView::InvalidKey(entries[i].0)))
    } else {
        match object_matches(spec, entries[i].1) {
            Err(e) => Err(e.prepend(entries[i].0)),
            Ok(_) => entries_match(spec, entries, i + 1),
        }
    }
}

/// Whether the configuration matches the schema.
pub open spec fn config_matches(spec: ConfigSpec, cfg: ConfigView) -> Result<(), NoMatchView> {
    fields_match(spec, cfg, 0)
}

/// The model of the outcome of a match.
pub open spec fn outcome(res: Result<(), NoMatchWithPath>) -> Result<(), NoMatchView> {
    match res {
        Ok(_) => Ok(()),
        Err(e) => Err(e@),
    }
}

/// Index of the first of `values` that equals `s`.
pub fn find_string(values: &Vec<String>, s: &str) -> (res: Option<usize>)
    ensures
        match res {
            Some(i) => index_of(strings_view(values@), s@) == Some(i as int) && i < values.len(),
            None => index_of(strings_view(values@), s@) is None,
        },
{
    let mut i: usize = 0;
    while i < values.len()
        invariant
            i <= values.len(),
            index_of(strings_view(values@), s@) == index_from(strings_view(values@), s@, i as int),
        decreases values.len() - i,
    {
        proof {
            assert(strings_view(values@)[i as int] == values[i as int]@);
        }
        if *values[i].as_str() == *s {
            return Some(i);
        }
        i += 1;
    }
    None
}

/// Index of the first variant called `tag`.
pub fn find_variant(variants: &Vec<(String, ConfigSpec)>, tag: &str) -> (res: Option<usize>)
    ensures
        match res {
            Some(i) => index_of(variant_names(variants@), tag@) == Some(i as int) && i
                < variants.len(),
            None => index_of(variant_names(variants@), tag@) is None,
        },
{
    let mut i: usize = 0;
    while i < variants.len()
        invariant
            i <= variants.len(),
            index_of(variant_names(variants@), tag@) == index_from(
                variant_names(variants@),
                tag@,
                i as int,
            ),
        decreases variants.len() - i,
    {
        proof {
            assert(variant_names(variants@)[i as int] == variants[i as int].0@);
        }
        if *variants[i].0.as_str() == *tag {
            return Some(i);
        }
        i += 1;
    }
    None
}

/// The names of the variants, in declaration order.
pub fn names_of(variants: &Vec<(String, ConfigSpec)>) -> (res: Vec<String>)
    ensures
        strings_view(res@) == variant_names(variants@),
{
    let mut out: Vec<String> = Vec::new();
    let mut i: usize = 0;
    while i < variants.len()
        invariant
            i <= variants.len(),
            out.len() == i,
            forall|k: int| 0 <= k < i ==> out[k]@ == variants[k].0@,
        decreases variants.len() - i,
    {
        out.push(variants[i].0.clone());
        i += 1;
    }
    proof {
        assert(strings_view(out@) =~= variant_names(variants@));
    }
    out
}

/// True when `key` is a valid object key.
pub fn is_valid_key(key: &str) -> (res: bool)
    ensures
        res == valid_key(key@),
{
    let n = key.unicode_len();
    if n == 0 {
        return false;
    }
    let mut i: usize = 0;
    while i < n
        invariant
            n == key@.len(),
            i <= n,
            forall|k: int| 0 <= k < i ==> key_char(#[trigger] key@[k]),
        decreases n - i,
    {
        let c = key.get_char(i);
        let ok = ('a' <= c && c <= 'z') || ('A' <= c && c <= 'Z') || ('0' <= c && c <= '9') || c
            == '-' || c == '_';
        if !ok {
            return false;
        }
        i += 1;
    }
    true
}

/// True when two items of the list are equal.
pub fn contains_duplicate(items: &Vec<Value>) -> (res: bool)
    ensures
        res == has_duplicate(values_view(items@)),
{
    let n = items.len();
    let mut i: usize = 0;
    while i < n
        invariant
            n == items.len(),
            i <= n,
            forall|a: int, b: int| 0 <= a < i && a < b < n ==> items[a]@ != items[b]@,
        decreases n - i,
    {
        let mut j: usize = i + 1;
        while j < n
            invariant
                n == items.len(),
                i < n,
                i < j <= n,
                forall|a: int, b: int| 0 <= a < i && a < b < n ==> items[a]@ != items[b]@,
                forall|b: int| i < b < j ==> items[i as int]@ != items[b]@,
            decreases n - j,
        {
            if items[i].equals(&items[j]) {
                proof {
                    let v = values_view(items@);
                    assert(0 <= i < j < v.len() && v[i as int] == v[j as int]);
                }
                return true;
            }
            j += 1;
        }
        i += 1;
    }
    proof {
        let v = values_view(items@);
        assert forall|a: int, b: int| 0 <= a < b < v.len() implies v[a] != v[b] by {
            assert(items[a]@ != items[b]@);
        }
    }
    false
}

/// The path segment of the list index `n`: its decimal numeral.
pub fn index_segment(n: usize) -> (res: String)
    ensures
        res@ == decimal(n as int),
{
    decimal_string(n as u128)
}

/// The mismatch of a value of the wrong type at a node that expects `expected`.
fn type_mismatch(expected: &'static str, value: &Value) -> (res: Result<(), NoMatchWithPath>)
    ensures
        outcome(res) == wrong_type(expected@, value@),
{
    match value {
        Value::Null => Err(NoMatchWithPath::new(MatchError::NotNullable)),
        _ => Err(NoMatchWithPath::new(MatchError::InvalidType(expected, value.type_of()))),
    }
}

/// Whether `value` is an object that matches the schema.
#[verifier::loop_isolation(false)]
fn match_object(spec: &ConfigSpec, value: &Value) -> (res: Result<(), NoMatchWithPath>)
    ensures
        outcome(res) == object_matches(*spec, value@),
    decreases spec, 1nat,
{
    match value {
        Value::Object(cfg) => {
            proof {
                lemma_object_view(*cfg);
            }
            spec.matches(cfg)
        },
        _ => type_mismatch("object", value),
    }
}

impl ConfigSpec {
    /// True when the schema declares a property called `name`.
    pub fn declares(&self, name: &str) -> (res: bool)
        ensures
            res == has_field(*self, name@),
    {
        let mut i: usize = 0;
        while i < self.0.len()
            invariant
                i <= self.0.len(),
                index_of(field_names(*self), name@) == index_from(
                    field_names(*self),
                    name@,
                    i as int,
                ),
            decreases self.0.len() - i,
        {
            proof {
                assert(field_names(*self)[i as int] == self.0[i as int].0@);
            }
            if *self.0[i].0.as_str() == *name {
                return true;
            }
            i += 1;
        }
        false
    }

    /// Checks the configuration against the schema, property by property in
    /// declaration order, and reports the first mismatch with its path.
    #[verifier::loop_isolation(false)]
    pub fn matches(&self, cfg: &Config) -> (res: Result<(), NoMatchWithPath>)
        ensures
            outcome(res) == config_matches(*self, cfg@),
        decreases self, 0nat,
    {
        let null = Value::Null;
        let mut i: usize = 0;
        while i < self.0.len()
            invariant
                i <= self.0.len(),
                null@ == ValueView::Null,
                config_matches(*self, cfg@) == fields_match(*self, cfg@, i as int),
            decreases self.0.len() - i,
        {
            let found = cfg.get(self.0[i].0.as_str());
            let value: &Value = match found {
                Some(v) => v,
                None => &null,
            };
            assert(value@ == value_at(cfg@, self.0[i as int].0@));
            match self.0[i].1.matches(value) {
                Ok(_) => {},
                Err(e) => {
                    return Err(e.prepend(self.0[i].0.clone()));
                },
            }
            i += 1;
        }
        Ok(())
    }
}

impl ValueSpec {
    /// Checks the value against this node and everything below it, and
    /// reports the first mismatch with its path.
    #[verifier::loop_isolation(false)]
    pub fn matches(&self, value: &Value) -> (res: Result<(), NoMatchWithPath>)
        ensures
            outcome(res) == node_matches(*self, value@),
        decreases self, 0nat,
    {
        match self {
            ValueSpec::Boolean { default } => match value {
                Value::Boolean(_) => Ok(()),
                _ => type_mismatch("boolean", value),
            },
            ValueSpec::Enum { values, default } => match value {
                Value::String(s) => {
                    if find_string(values, s.as_str()).is_some() {
                        Ok(())
                    } else {
                        Err(
                            NoMatchWithPath::new(
                                MatchError::Enum(s.clone(), clone_strings(values)),
                            ),
                        )
                    }
                },
                _ => type_mismatch("string", value),
            },
            ValueSpec::List { spec, range, unique } => match value {
                Value::List(items) => {
                    proof {
                        lemma_list_view(*items);
                    }
                    if !range.contains(items.len()) {
                        return Err(
                            NoMatchWithPath::new(
                                MatchError::LengthMismatch(*range, items.len()),
                            ),
                        );
                    }
                    let ghost all = values_view(items@);
                    let mut i: usize = 0;
                    while i < items.len()
                        invariant
                            i <= items.len(),
                            items_match(**spec, all, 0) == items_match(**spec, all, i as int),
                        decreases items.len() - i,
                    {
                        match spec.matches(&items[i]) {
                            Ok(_) => {},
                            Err(e) => {
                                return Err(e.prepend(index_segment(i)));
                            },
                        }
                        i += 1;
                    }
                    if *unique && contains_duplicate(items) {
                        Err(NoMatchWithPath::new(MatchError::ListUniquenessViolation))
                    } else {
                        Ok(())
                    }
                },
                _ => type_mismatch("list", value),
            },
            ValueSpec::Number { range, integral, default } => match value {
                Value::Number(n) => {
                    if *integral && !n.is_integral() {
                        Err(NoMatchWithPath::new(MatchError::NonIntegral(*n)))
                    } else {
                        match range {
                            Some(r) => if r.contains(*n) {
                                Ok(())
                            } else {
                                Err(NoMatchWithPath::new(MatchError::OutOfRange(*r, *n)))
                            },
                            None => Ok(()),
                        }
                    }
                },
                _ => type_mismatch("number", value),
            },
            ValueSpec::Object { spec, null_by_default } => match_object(spec, value),
            ValueSpec::String { pattern, default } => match value {
                Value::String(s) => match pattern {
                    Some(p) => {
                        let verdict = pattern_is_match(p.as_str(), s.as_str());
                        match verdict {
                            Some(true) => Ok(()),
                            _ => Err(
                                NoMatchWithPath::new(MatchError::Pattern(s.clone(), p.clone())),
                            ),
                        }
                    },
                    None => Ok(()),
                },
                _ => type_mismatch("string", value),
            },
            ValueSpec::Union { tag, variants, default } => match value {
                Value::Object(cfg) => {
                    proof {
                        lemma_object_view(*cfg);
                    }
                    match cfg.get(tag.as_str()) {
                        Some(Value::String(t)) => match find_variant(variants, t.as_str()) {
                            Some(j) => {
                                if variants[j].1.declares(tag.as_str()) {
                                    Err(
                                        NoMatchWithPath::new(
                                            MatchError::PropertyMatchesUnionTag(
                                                tag.clone(),
                                                t.clone(),
                                            ),
                                        ),
                                    )
                                } else {
                                    variants[j].1.matches(cfg)
                                }
                            },
                            None => Err(
                                NoMatchWithPath::new(
                                    MatchError::Union(t.clone(), names_of(variants)),
                                ),
                            ),
                        },
                        _ => Err(NoMatchWithPath::new(MatchError::MissingTag(tag.clone()))),
                    }
                },
                _ => type_mismatch("object", value),
            },
            ValueSpec::Mapping { tag, spec } => match value {
                Value::Object(cfg) => {
                    proof {
                        lemma_object_view(*cfg);
                    }
                    if spec.declares(tag.as_str()) {
                        return Err(
                            NoMatchWithPath::new(
                                MatchError::PropertyNameMatchesMapTag(tag.clone()),
                            ),
                        );
                    }
                    let mut i: usize = 0;
                    while i < cfg.0.len()
                        invariant
                            i <= cfg.0.len(),
                            entries_match(*spec, cfg@, 0) == entries_match(*spec, cfg@, i as int),
                        decreases cfg.0.len() - i,
                    {
                        assert(cfg@[i as int] == (cfg.0[i as int].0@, cfg.0[i as int].1@));
                        if !is_valid_key(cfg.0[i].0.as_str()) {
                            return Err(
                                NoMatchWithPath::new(MatchError::InvalidKey(cfg.0[i].0.clone())),
                            );
                        }
                        match match_object(spec, &cfg.0[i].1) {
                            Ok(_) => {},
                            Err(e) => {
                                return Err(e.prepend(cfg.0[i].0.clone()));
                            },
                        }
                        i += 1;
                    }
                    Ok(())
                },
                _ => type_mismatch("object", value),
            },
            ValueSpec::Pointer(_) => Ok(()),
            ValueSpec::Nullable(inner) => match value {
                Value::Null => Ok(()),
                _ => inner.matches(value),
            },
        }
    }
}

} // verus!
