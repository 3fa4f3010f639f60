//! The values of a query string, and how text is read as a value of a type.

use vstd::prelude::*;
use vstd::string::StrSliceExecFns;
use vstd::string::StringExecFns;
use vstd::string::StringSliceAdditionalSpecFns;
use vstd::utf8::encode_utf8;
use crate::api::texts_view;
use crate::config::quoted;
use crate::config::quote;
use crate::config::spec::{index_from, index_of};
use crate::text::{decimal, decimal_string};

verus! {

/// Why a text of base 64 cannot be decoded: a byte that is no symbol (its
/// offset, the byte), a length that no encoding has, or a last symbol with
/// bits that no encoding sets (its offset, the byte).
#[derive(Clone, Copy, Debug, PartialEq, Eq)]
pub enum Base64Error {
    InvalidByte(usize, u8),
    InvalidLength,
    InvalidLastSymbol(usize, u8),
}

/// Why a text cannot be read as a value.
#[derive(Clone, Debug, PartialEq)]
pub enum ParseError {
    /// Not `true` or `false`; the text says why.
    Bool(String),
    /// No integer of the type asked for; the text says why.
    Int(String),
    /// No number; the text says why.
    Float(String),
    /// No base 64.
    Base64(Base64Error),
    /// Any other reason.
    Custom(String),
    /// A list stands where one value is asked for.
    Array,
    /// A map stands where one value is asked for.
    Mapping,
    /// No list stands where one is asked for.
    NotArray,
    /// No map stands where one is asked for.
    NotMap,
}

/// Mathematical model of a [`ParseError`].
pub enum ParseErrorView {
    Bool(Seq<char>),
    Int(Seq<char>),
    Float(Seq<char>),
    Base64(Base64Error),
    Custom(Seq<char>),
    Array,
    Mapping,
    NotArray,
    NotMap,
}

impl View for ParseError {
    type V = ParseErrorView;

    open spec fn view(&self) -> ParseErrorView {
        match self {
            ParseError::Bool(m) => ParseErrorView::Bool(m@),
            ParseError::Int(m) => ParseErrorView::Int(m@),
            ParseError::Float(m) => ParseErrorView::Float(m@),
            ParseError::Base64(e) => ParseErrorView::Base64(*e),
            ParseError::Custom(m) => ParseErrorView::Custom(m@),
            ParseError::Array => ParseErrorView::Array,
            ParseError::Mapping => ParseErrorView::Mapping,
            ParseError::NotArray => ParseErrorView::NotArray,
            ParseError::NotMap => ParseErrorView::NotMap,
        }
    }
}

/// The text of a symbol error of base 64.
pub closed spec fn base64_message(e: Base64Error) -> Seq<char> {
    match e {
        Base64Error::InvalidByte(_, _) => "invalid byte"@,
        Base64Error::InvalidLength => "invalid length"@,
        Base64Error::InvalidLastSymbol(_, _) => "invalid last symbol"@,
    }
}

/// The text that names a parse error.
pub open spec fn parse_message(e: ParseErrorView) -> Seq<char> {
    match e {
        ParseErrorView::Bool(m) => "Parse Error: "@ + m,
        ParseErrorView::Int(m) => "Parse Error: "@ + m,
        ParseErrorView::Float(m) => "Parse Error: "@ + m,
        ParseErrorView::Base64(e) => "Parse Error: "@ + base64_message(e),
        ParseErrorView::Custom(m) => "Parse Error: "@ + m,
        ParseErrorView::Array => "Parse Error: Can't Parse Array"@,
        ParseErrorView::Mapping => "Parse Error: Can't Parse Map"@,
        ParseErrorView::NotArray => "Parse Error: Not An Array"@,
        ParseErrorView::NotMap => "Parse Error: Not A Map"@,
    }
}

impl ParseError {
    /// The text that names the error.
    pub fn message(&self) -> (res: String)
        ensures
            res@ == parse_message(self@),
    {
        match self {
            ParseError::Bool(m) => "Parse Error: ".to_owned().concat(m.as_str()),
            ParseError::Int(m) => "Parse Error: ".to_owned().concat(m.as_str()),
            ParseError::Float(m) => "Parse Error: ".to_owned().concat(m.as_str()),
            ParseError::Base64(e) => {
                let text = match e {
                    Base64Error::InvalidByte(_, _) => "invalid byte",
                    Base64Error::InvalidLength => "invalid length",
                    Base64Error::InvalidLastSymbol(_, _) => "invalid last symbol",
                };
                "Parse Error: ".to_owned().concat(text)
            },
            ParseError::Custom(m) => "Parse Error: ".to_owned().concat(m.as_str()),
            ParseError::Array => "Parse Error: Can't Parse Array".to_owned(),
            ParseError::Mapping => "Parse Error: Can't Parse Map".to_owned(),
            ParseError::NotArray => "Parse Error: Not An Array".to_owned(),
            ParseError::NotMap => "Parse Error: Not A Map".to_owned(),
        }
    }
}

/// What `str::parse::<usize>` makes of a text: the number, or the text of the error.
pub uninterp spec fn usize_from_str(s: Seq<char>) -> Result<usize, Seq<char>>;

/// What `str::parse::<i64>` makes of a text: the number, or the text of the error.
pub uninterp spec fn i64_from_str(s: Seq<char>) -> Result<i64, Seq<char>>;

/// What decoding a text as URL-safe base 64 with padding gives.
pub uninterp spec fn base64_url_decoded(input: Seq<u8>) -> Result<Seq<u8>, Base64Error>;

/// The model of a parsed number or the text of its error.
pub open spec fn text_result<T>(res: Result<T, String>) -> Result<T, Seq<char>> {
    match res {
        Ok(n) => Ok(n),
        Err(m) => Err(m@),
    }
}

/// `str::parse::<usize>`; a failure is handed on as its text. The claim is
/// only that the outcome depends on the text alone.
#[verifier::external_body]
fn parse_usize(s: &str) -> (res: Result<usize, String>)
    ensures
        text_result(res) == usize_from_str(s@),
{
    s.parse::<usize>().map_err(|e| e.to_string())
}

/// `str::parse::<i64>`; a failure is handed on as its text. The claim is
/// only that the outcome depends on the text alone.
#[verifier::external_body]
fn parse_i64(s: &str) -> (res: Result<i64, String>)
    ensures
        text_result(res) == i64_from_str(s@),
{
    s.parse::<i64>().map_err(|e| e.to_string())
}

/// The model of decoded bytes or the error.
pub open spec fn bytes_result(res: Result<Vec<u8>, Base64Error>) -> Result<Seq<u8>, Base64Error> {
    match res {
        Ok(b) => Ok(b@),
        Err(e) => Err(e),
    }
}

/// `base64::decode_config` with the URL-safe alphabet and padding. The claim
/// is only that the outcome depends on the bytes of the text alone. Texts of
/// more bytes than the largest `isize` are left out: the function adds to the
/// length and sizes a buffer from it, and panics where that overflows.
#[verifier::external_body]
fn decode_base64_url(s: &str) -> (res: Result<Vec<u8>, Base64Error>)
    requires
        s.spec_bytes().len() <= isize::MAX,
    ensures
        bytes_result(res) == base64_url_decoded(s.spec_bytes()),
{
    match base64::decode_config(s, base64::URL_SAFE) {
        Ok(bytes) => Ok(bytes),
        Err(base64::DecodeError::InvalidByte(at, byte)) => Err(Base64Error::InvalidByte(at, byte)),
        Err(base64::DecodeError::InvalidLength) => Err(Base64Error::InvalidLength),
        Err(base64::DecodeError::InvalidLastSymbol(at, byte)) => Err(
            Base64Error::InvalidLastSymbol(at, byte),
        ),
    }
}

/// The model of the outcome of parsing.
pub open spec fn parse_result<T>(res: Result<T, ParseError>) -> Result<T, ParseErrorView> {
    match res {
        Ok(v) => Ok(v),
        Err(e) => Err(e@),
    }
}

/// A type whose values can be read from text.
pub trait Parse: Sized {
    /// What reading the text gives.
    spec fn parsed(s: Seq<char>) -> Result<Self, ParseErrorView>;

    /// Reads the text as a value of this type.
    fn parse_str(s: &str) -> (res: Result<Self, ParseError>)
        ensures
            parse_result(res) == Self::parsed(s@),
    ;
}

/// The text of the error for a text that is neither `true` nor `false`.
pub open spec fn not_a_bool() -> Seq<char> {
    "provided string was not `true` or `false`"@
}

impl Parse for bool {
    open spec fn parsed(s: Seq<char>) -> Result<bool, ParseErrorView> {
        if s == "true"@ {
            Ok(true)
        } else if s == "false"@ {
            Ok(false)
        } else {
            Err(ParseErrorView::Bool(not_a_bool()))
        }
    }

    fn parse_str(s: &str) -> (res: Result<bool, ParseError>) {
        if *s == *"true" {
            Ok(true)
        } else if *s == *"false" {
            Ok(false)
        } else {
            Err(ParseError::Bool("provided string was not `true` or `false`".to_owned()))
        }
    }
}

impl Parse for usize {
    open spec fn parsed(s: Seq<char>) -> Result<usize, ParseErrorView> {
        match usize_from_str(s) {
            Ok(n) => Ok(n),
            Err(m) => Err(ParseErrorView::Int(m)),
        }
    }

    fn parse_str(s: &str) -> (res: Result<usize, ParseError>) {
        match parse_usize(s) {
            Ok(n) => Ok(n),
            Err(m) => Err(ParseError::Int(m)),
        }
    }
}

impl Parse for i64 {
    open spec fn parsed(s: Seq<char>) -> Result<i64, ParseErrorView> {
        match i64_from_str(s) {
            Ok(n) => Ok(n),
            Err(m) => Err(ParseErrorView::Int(m)),
        }
    }

    fn parse_str(s: &str) -> (res: Result<i64, ParseError>) {
        match parse_i64(s) {
            Ok(n) => Ok(n),
            Err(m) => Err(ParseError::Int(m)),
        }
    }
}

/// One value of a query string: a text, a list of values, or a map of values.
#[derive(Debug, PartialEq)]
pub enum ArgValue {
    Str(String),
    Arr(Vec<ArgValue>),
    Mapping(QueryMap),
}

/// The values of a query string by name, in the order they were given.
#[derive(Debug, PartialEq)]
pub struct QueryMap(pub Vec<(String, ArgValue)>);

/// The names of a query, in the order they were given.
pub open spec fn query_names(q: QueryMap) -> Seq<Seq<char>> {
    Seq::new(q.0.len() as nat, |i: int| q.0[i].0@)
}

/// The value given under `name`, if any: the first one.
pub open spec fn query_value(q: QueryMap, name: Seq<char>) -> Option<ArgValue> {
    match index_of(query_names(q), name) {
        Some(i) => Some(q.0[i].1),
        None => None,
    }
}

/// What reading a value as a `T` gives: only a text can be read.
pub open spec fn value_parsed<T: Parse>(v: ArgValue) -> Result<T, ParseErrorView> {
    match v {
        ArgValue::Str(s) => T::parsed(s@),
        ArgValue::Arr(_) => Err(ParseErrorView::Array),
        ArgValue::Mapping(_) => Err(ParseErrorView::Mapping),
    }
}

impl ArgValue {
    /// Reads the value as a `T`. Only a text can be read.
    pub fn parse<T: Parse>(&self) -> (res: Result<T, ParseError>)
        ensures
            parse_result(res) == value_parsed::<T>(*self),
    {
        match self {
            ArgValue::Str(s) => T::parse_str(s.as_str()),
            ArgValue::Arr(_) => Err(ParseError::Array),
            ArgValue::Mapping(_) => Err(ParseError::Mapping),
        }
    }
}

impl QueryMap {
    /// A query without values.
    pub fn new() -> (res: QueryMap)
        ensures
            res.0@.len() == 0,
    {
        QueryMap(Vec::new())
    }

    /// The value given under `name`, if any.
    pub fn get(&self, name: &str) -> (res: Option<&ArgValue>)
        ensures
            match res {
                Some(v) => query_value(*self, name@) == Some(*v),
                None => query_value(*self, name@) is None,
            },
    {
        let mut i: usize = 0;
        while i < self.0.len()
            invariant
                i <= self.0.len(),
                index_of(query_names(*self), name@) == index_from(
                    query_names(*self),
                    name@,
                    i as int,
                ),
            decreases self.0.len() - i,
        {
            proof {
                assert(query_names(*self)[i as int] == self.0[i as int].0@);
            }
            if *self.0[i].0.as_str() == *name {
                return Some(&self.0[i].1);
            }
            i += 1;
        }
        None
    }

    /// True when a value is given under `name`.
    pub fn contains_key(&self, name: &str) -> (res: bool)
        ensures
            res == query_value(*self, name@).is_some(),
    {
        self.get(name).is_some()
    }
}

/// A text that is to be read as a value.
pub struct StrDeserializer<'a>(pub &'a str);

/// The outcome of decoding a text of base 64, as a parse result.
pub open spec fn decoded(s: &str) -> Result<Seq<u8>, ParseErrorView> {
    match base64_url_decoded(s.spec_bytes()) {
        Ok(b) => Ok(b),
        Err(e) => Err(ParseErrorView::Base64(e)),
    }
}

/// The model of bytes read from a text.
pub open spec fn read_bytes(res: Result<Vec<u8>, ParseError>) -> Result<Seq<u8>, ParseErrorView> {
    match res {
        Ok(b) => Ok(b@),
        Err(e) => Err(e@),
    }
}

impl<'a> StrDeserializer<'a> {
    /// Reads the text as a `T`.
    pub fn parse<T: Parse>(&self) -> (res: Result<T, ParseError>)
        ensures
            parse_result(res) == T::parsed(self.0@),
    {
        T::parse_str(self.0)
    }

    /// Reads the text as bytes in URL-safe base 64 with padding. The text
    /// must not be longer than the largest `isize`.
    pub fn bytes(&self) -> (res: Result<Vec<u8>, ParseError>)
        requires
            self.0.spec_bytes().len() <= isize::MAX,
        ensures
            read_bytes(res) == decoded(self.0),
    {
        match decode_base64_url(self.0) {
            Ok(b) => Ok(b),
            Err(e) => Err(ParseError::Base64(e)),
        }
    }

    /// Reads the text as bytes in URL-safe base 64 with padding, unless it
    /// is too long for that: then nothing is read.
    pub fn checked_bytes(&self) -> (res: Option<Result<Vec<u8>, ParseError>>)
        ensures
            match res {
                Some(r) => self.0.spec_bytes().len() <= isize::MAX && read_bytes(r) == decoded(
                    self.0,
                ),
                None => self.0.spec_bytes().len() > isize::MAX,
            },
    {
        let bytes = self.0.as_bytes();
        if bytes.len() <= isize::MAX as usize {
            Some(self.bytes())
        } else {
            None
        }
    }
}

/// The error for a text of `len` bytes where a single character is asked for.
pub open spec fn not_a_char(len: int) -> ParseErrorView {
    ParseErrorView::Custom("invalid length "@ + decimal(len) + ", expected a single character"@)
}

/// The error for the text `s` where the text `name` is asked for.
pub open spec fn not_the_unit(s: Seq<char>, name: Seq<char>) -> ParseErrorView {
    ParseErrorView::Custom("invalid value: string "@ + quoted(s) + ", expected "@ + name)
}

/// The error for a map that does not stand for a variant.
pub open spec fn not_one_key() -> ParseErrorView {
    ParseErrorView::Custom("invalid value: map, expected map with a single key"@)
}

/// The error for a list where a variant is asked for.
pub open spec fn not_a_variant() -> ParseErrorView {
    ParseErrorView::Custom("invalid type: sequence, expected string or map"@)
}

/// What reading a value as a single character gives: only a text of one
/// byte is one.
pub open spec fn value_char(v: ArgValue) -> Result<char, ParseErrorView> {
    match v {
        ArgValue::Str(s) => if encode_utf8(s@).len() == 1 && s@.len() == 1 {
            Ok(s@[0])
        } else {
            Err(not_a_char(encode_utf8(s@).len() as int))
        },
        ArgValue::Arr(_) => Err(ParseErrorView::Array),
        ArgValue::Mapping(_) => Err(ParseErrorView::Mapping),
    }
}

/// What reading a value as the unit called `name` gives: only the text
/// `name` is it.
pub open spec fn value_unit(v: ArgValue, name: Seq<char>) -> Result<(), ParseErrorView> {
    match v {
        ArgValue::Str(s) => if s@ == name {
            Ok(())
        } else {
            Err(not_the_unit(s@, name))
        },
        ArgValue::Arr(_) => Err(ParseErrorView::Array),
        ArgValue::Mapping(_) => Err(ParseErrorView::Mapping),
    }
}

/// What reading a value as a variant gives: a text names a variant without
/// content; a map with a single entry names a variant by its key, with the
/// value as its content.
pub open spec fn value_variant(v: ArgValue) -> Result<(Seq<char>, Option<ArgValue>), ParseErrorView> {
    match v {
        ArgValue::Str(s) => Ok((s@, None)),
        ArgValue::Arr(_) => Err(not_a_variant()),
        ArgValue::Mapping(m) => if m.0.len() == 1 {
            Ok((m.0[0].0@, Some(m.0[0].1)))
        } else {
            Err(not_one_key())
        },
    }
}

/// The number of the names, from the first on, under which the query gives
/// a value, up to the first under which it gives none.
pub open spec fn fields_given(q: QueryMap, names: Seq<Seq<char>>, i: int) -> int
    decreases names.len() - i,
{
    if i < 0 || i >= names.len() || query_value(q, names[i]) is None {
        i
    } else {
        fields_given(q, names, i + 1)
    }
}

/// The model of the outcome of reading a variant.
pub open spec fn variant_result(res: Result<(&str, Option<&ArgValue>), ParseError>) -> Result<
    (Seq<char>, Option<ArgValue>),
    ParseErrorView,
> {
    match res {
        Ok((name, content)) => Ok(
            (
                name@,
                match content {
                    Some(v) => Some(*v),
                    None => None,
                },
            ),
        ),
        Err(e) => Err(e@),
    }
}

impl ArgValue {
    /// The text of the value. Only a text has one.
    pub fn text(&self) -> (res: Result<&str, ParseError>)
        ensures
            match *self {
                ArgValue::Str(s) => res matches Ok(t) && t@ == s@,
                ArgValue::Arr(_) => res matches Err(e) && e@ == ParseErrorView::Array,
                ArgValue::Mapping(_) => res matches Err(e) && e@ == ParseErrorView::Mapping,
            },
    {
        match self {
            ArgValue::Str(s) => Ok(s.as_str()),
            ArgValue::Arr(_) => Err(ParseError::Array),
            ArgValue::Mapping(_) => Err(ParseError::Mapping),
        }
    }

    /// The items of the value. Only a list has them.
    pub fn items(&self) -> (res: Result<&Vec<ArgValue>, ParseError>)
        ensures
            match *self {
                ArgValue::Arr(items) => res matches Ok(v) && *v == items,
                _ => res matches Err(e) && e@ == ParseErrorView::NotArray,
            },
    {
        match self {
            ArgValue::Arr(items) => Ok(items),
            _ => Err(ParseError::NotArray),
        }
    }

    /// The entries of the value. Only a map has them.
    pub fn entries(&self) -> (res: Result<&QueryMap, ParseError>)
        ensures
            match *self {
                ArgValue::Mapping(m) => res matches Ok(q) && *q == m,
                _ => res matches Err(e) && e@ == ParseErrorView::NotMap,
            },
    {
        match self {
            ArgValue::Mapping(m) => Ok(m),
            _ => Err(ParseError::NotMap),
        }
    }

    /// Reads the value as a single character.
    pub fn single_char(&self) -> (res: Result<char, ParseError>)
        ensures
            parse_result(res) == value_char(*self),
    {
        match self {
            ArgValue::Str(s) => {
                let bytes = s.as_str().as_bytes();
                let chars = s.as_str().unicode_len();
                if bytes.len() == 1 && chars == 1 {
                    Ok(s.as_str().get_char(0))
                } else {
                    let len = decimal_string(bytes.len() as u128);
                    Err(
                        ParseError::Custom(
                            "invalid length ".to_owned().concat(len.as_str()).concat(
                                ", expected a single character",
                            ),
                        ),
                    )
                }
            },
            ArgValue::Arr(_) => Err(ParseError::Array),
            ArgValue::Mapping(_) => Err(ParseError::Mapping),
        }
    }

    /// Reads the value as the unit called `name`.
    pub fn unit(&self, name: &str) -> (res: Result<(), ParseError>)
        ensures
            parse_result(res) == value_unit(*self, name@),
    {
        match self {
            ArgValue::Str(s) => {
                if *s.as_str() == *name {
                    Ok(())
                } else {
                    let q = quote(s.as_str());
                    Err(
                        ParseError::Custom(
                            "invalid value: string ".to_owned().concat(q.as_str()).concat(
                                ", expected ",
                            ).concat(name),
                        ),
                    )
                }
            },
            ArgValue::Arr(_) => Err(ParseError::Array),
            ArgValue::Mapping(_) => Err(ParseError::Mapping),
        }
    }

    /// Reads the value as a variant: its name, and its content if it has any.
    pub fn variant(&self) -> (res: Result<(&str, Option<&ArgValue>), ParseError>)
        ensures
            variant_result(res) == value_variant(*self),
    {
        match self {
            ArgValue::Str(s) => Ok((s.as_str(), None)),
            ArgValue::Arr(_) => Err(
                ParseError::Custom("invalid type: sequence, expected string or map".to_owned()),
            ),
            ArgValue::Mapping(m) => {
                if m.0.len() == 1 {
                    Ok((m.0[0].0.as_str(), Some(&m.0[0].1)))
                } else {
                    Err(
                        ParseError::Custom(
                            "invalid value: map, expected map with a single key".to_owned(),
                        ),
                    )
                }
            },
        }
    }
}

impl QueryMap {
    /// The values of the fields called `names`, in that order, up to the
    /// first field that is not given: what stands behind an absent field is
    /// not read.
    pub fn fields(&self, names: &'static [&'static str]) -> (res: Vec<(&'static str, &ArgValue)>)
        ensures
            res.len() == fields_given(*self, texts_view(names@), 0),
            forall|i: int|
                0 <= i < res.len() ==> (#[trigger] res[i]).0 == names@[i] && query_value(
                    *self,
                    names@[i]@,
                ) == Some(*res[i].1),
    {
        let ghost all = texts_view(names@);
        let mut out: Vec<(&'static str, &ArgValue)> = Vec::new();
        let mut i: usize = 0;
        while i < names.len()
            invariant
                i <= names.len(),
                out.len() == i,
                all == texts_view(names@),
                fields_given(*self, all, 0) == fields_given(*self, all, i as int),
                forall|k: int|
                    0 <= k < i ==> (#[trigger] out[k]).0 == names@[k] && query_value(
                        *self,
                        names@[k]@,
                    ) == Some(*out[k].1),
            decreases names.len() - i,
        {
            assert(all[i as int] == names@[i as int]@);
            match self.get(names[i]) {
                Some(v) => {
                    out.push((names[i], v));
                },
                None => {
                    return out;
                },
            }
            i += 1;
        }
        out
    }
}

} // verus!
