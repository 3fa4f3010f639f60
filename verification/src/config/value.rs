//! The untyped configuration value tree.

use vstd::prelude::*;
use vstd::string::StringExecFns;
use crate::text::{decimal, decimal_string, digit, digit_str};

verus! {

/// Number of fractional units in one whole: numbers are decimals with six
/// fractional digits.
pub const NUMBER_SCALE: i128 = 1_000_000;

/// A fixed-point decimal number, held as a count of millionths.
#[derive(Clone, Copy, Debug, PartialEq, Eq, Structural)]
pub struct Number {
    pub micros: i128,
}

impl Number {
    /// The number that stands for the integer `n`.
    pub fn from_int(n: i64) -> (res: Number)
        ensures
            res.micros == n * NUMBER_SCALE,
    {
        let wide: i128 = n as i128;
        Number { micros: wide * NUMBER_SCALE }
    }

    pub open spec fn spec_is_integral(micros: int) -> bool {
        micros % (NUMBER_SCALE as int) == 0
    }

    /// True when the number has no fractional part.
    pub fn is_integral(&self) -> (res: bool)
        ensures
            res == Self::spec_is_integral(self.micros as int),
    {
        self.micros % NUMBER_SCALE == 0
    }
}

/// The digits of the fraction `frac / (10 * div)`, from the digit worth `div`
/// on, without the zeros at the end.
pub open spec fn fraction_text(frac: int, div: int) -> Seq<char>
    decreases div,
{
    if frac <= 0 || div <= 0 {
        Seq::empty()
    } else {
        digit(frac / div) + fraction_text(frac % div, div / 10)
    }
}

/// A number of millionths as a decimal numeral: a minus sign if it is below
/// zero, the whole part, and, unless the number is whole, a point and the
/// digits after it, without zeros at the end.
pub open spec fn number_text(micros: int) -> Seq<char> {
    let size = if micros < 0 {
        -micros
    } else {
        micros
    };
    let whole = size / (NUMBER_SCALE as int);
    let frac = size % (NUMBER_SCALE as int);
    (if micros < 0 {
        "-"@
    } else {
        Seq::empty()
    }) + decimal(whole) + (if frac == 0 {
        Seq::empty()
    } else {
        "."@ + fraction_text(frac, 100_000)
    })
}

impl Number {
    /// The number as a decimal numeral.
    pub fn to_text(&self) -> (res: String)
        ensures
            res@ == number_text(self.micros as int),
    {
        let negative = self.micros < 0;
        let size: u128 = if negative {
            ((-(self.micros + 1)) as u128) + 1
        } else {
            self.micros as u128
        };
        let whole = size / 1_000_000;
        let mut frac = size % 1_000_000;
        let mut out = if negative {
            "-".to_owned()
        } else {
            String::new()
        };
        let numeral = decimal_string(whole);
        out.append(numeral.as_str());
        proof {
            assert(out@ =~= (if self.micros < 0 {
                "-"@
            } else {
                Seq::empty()
            }) + decimal(whole as int));
        }
        if frac != 0 {
            out.append(".");
            let ghost head = out@;
            let ghost all = frac as int;
            let mut div: u128 = 100_000;
            while frac != 0 && div != 0
                invariant
                    div == 100_000 || div == 10_000 || div == 1_000 || div == 100 || div == 10
                        || div == 1 || div == 0,
                    frac < 10 * div || div == 0,
                    div == 0 ==> frac == 0,
                    head + fraction_text(all, 100_000) == out@ + fraction_text(
                        frac as int,
                        div as int,
                    ),
                decreases div,
            {
                let d = frac / div;
                proof {
                    assert(d < 10) by (nonlinear_arith)
                        requires
                            d == frac / div,
                            frac < 10 * div,
                            div > 0,
                    ;
                    assert(frac % div < div) by (nonlinear_arith)
                        requires
                            div > 0,
                    ;
                }
                let ghost before = out@;
                out.append(digit_str(d));
                proof {
                    assert(out@ + fraction_text((frac % div) as int, (div / 10) as int) =~= before
                        + fraction_text(frac as int, div as int));
                }
                frac = frac % div;
                div = div / 10;
            }
            proof {
                assert(fraction_text(frac as int, div as int) =~= Seq::<char>::empty());
                assert(out@ =~= head + fraction_text(all, 100_000));
            }
        }
        out
    }
}

/// `==` on string slices compares their characters.
pub assume_specification[ <str as PartialEq>::eq ](a: &str, b: &str) -> (res: bool)
    ensures
        res == (a@ == b@),
;

/// Mathematical model of a [`Value`].
pub enum ValueView {
    String(Seq<char>),
    Number(int),
    Boolean(bool),
    Null,
    List(Seq<ValueView>),
    Object(Seq<(Seq<char>, ValueView)>),
}

/// Mathematical model of a [`Config`]: its entries in insertion order.
pub type ConfigView = Seq<(Seq<char>, ValueView)>;

/// Index of the first entry at or after `i` whose key is `key`.
pub open spec fn find_from<T>(entries: Seq<(Seq<char>, T)>, key: Seq<char>, i: int) -> Option<int>
    decreases entries.len() - i,
{
    if i < 0 || i >= entries.len() {
        None
    } else if entries[i].0 == key {
        Some(i)
    } else {
        find_from(entries, key, i + 1)
    }
}

/// Index of the first entry whose key is `key`.
pub open spec fn find<T>(entries: Seq<(Seq<char>, T)>, key: Seq<char>) -> Option<int> {
    find_from(entries, key, 0)
}

/// What is stored under `key`, if anything.
pub open spec fn lookup<T>(entries: Seq<(Seq<char>, T)>, key: Seq<char>) -> Option<T> {
    match find(entries, key) {
        Some(i) => Some(entries[i].1),
        None => None,
    }
}

/// The value stored under `key`, with an absent key read as null.
pub open spec fn value_at(entries: ConfigView, key: Seq<char>) -> ValueView {
    match lookup(entries, key) {
        Some(v) => v,
        None => ValueView::Null,
    }
}

/// The entries after storing `value` under `key`: an existing entry keeps its
/// place, a new one goes to the end.
pub open spec fn put<T>(entries: Seq<(Seq<char>, T)>, key: Seq<char>, value: T) -> Seq<
    (Seq<char>, T),
> {
    match find(entries, key) {
        Some(i) => entries.update(i, (key, value)),
        None => entries.push((key, value)),
    }
}

/// The test for an entry that is stored under another key than `key`.
pub open spec fn not_under<T>(key: Seq<char>) -> spec_fn((Seq<char>, T)) -> bool {
    |e: (Seq<char>, T)| e.0 != key
}

/// The entries stored under other keys than `key`, in their order.
pub open spec fn without<T>(entries: Seq<(Seq<char>, T)>, key: Seq<char>) -> Seq<(Seq<char>, T)> {
    entries.filter(not_under(key))
}

/// The entries after storing `value` under `key` at the end, in place of
/// whatever was stored under that key before.
pub open spec fn put_last<T>(entries: Seq<(Seq<char>, T)>, key: Seq<char>, value: T) -> Seq<
    (Seq<char>, T),
> {
    without(entries, key).push((key, value))
}

/// What `find_from` returns is the least matching index from `i` on.
pub proof fn lemma_find_from<T>(entries: Seq<(Seq<char>, T)>, key: Seq<char>, i: int)
    requires
        0 <= i <= entries.len(),
    ensures
        match find_from(entries, key, i) {
            Some(j) => i <= j < entries.len() && entries[j].0 == key && forall|k: int|
                i <= k < j ==> (#[trigger] entries[k]).0 != key,
            None => forall|k: int| i <= k < entries.len() ==> (#[trigger] entries[k]).0 != key,
        },
    decreases entries.len() - i,
{
    if i < entries.len() && entries[i].0 != key {
        lemma_find_from(entries, key, i + 1);
    }
}

/// The name of a value's runtime type.
pub open spec fn spec_type_of(v: ValueView) -> Seq<char> {
    match v {
        ValueView::String(_) => "string"@,
        ValueView::Number(_) => "number"@,
        ValueView::Boolean(_) => "boolean"@,
        ValueView::Null => "null"@,
        ValueView::List(_) => "list"@,
        ValueView::Object(_) => "object"@,
    }
}

/// One configuration value.
#[derive(Debug, PartialEq)]
pub enum Value {
    String(String),
    Number(Number),
    Boolean(bool),
    Null,
    List(Vec<Value>),
    Object(Config),
}

/// An ordered map from property name to value.
#[derive(Debug, PartialEq)]
pub struct Config(pub Vec<(String, Value)>);

/// Model of a vector of values.
pub open spec fn values_view(items: Seq<Value>) -> Seq<ValueView> {
    Seq::new(items.len(), |i: int| items[i]@)
}

/// Model of a vector of entries.
pub open spec fn entries_view(entries: Seq<(String, Value)>) -> ConfigView {
    Seq::new(entries.len(), |i: int| (entries[i].0@, entries[i].1@))
}

/// The model of a value, by recursion over the tree.
pub open spec fn value_view(v: Value) -> ValueView
    decreases v,
{
    match v {
        Value::String(s) => ValueView::String(s@),
        Value::Number(n) => ValueView::Number(n.micros as int),
        Value::Boolean(b) => ValueView::Boolean(b),
        Value::Null => ValueView::Null,
        Value::List(items) => ValueView::List(
            Seq::new(
                items.len() as nat,
                |i: int|
                    if 0 <= i < items.len() {
                        value_view(items[i])
                    } else {
                        ValueView::Null
                    },
            ),
        ),
        Value::Object(cfg) => ValueView::Object(
            Seq::new(
                cfg.0.len() as nat,
                |i: int|
                    if 0 <= i < cfg.0.len() {
                        (cfg.0[i].0@, value_view(cfg.0[i].1))
                    } else {
                        (Seq::empty(), ValueView::Null)
                    },
            ),
        ),
    }
}

impl View for Value {
    type V = ValueView;

    open spec fn view(&self) -> ValueView {
        value_view(*self)
    }
}

impl View for Config {
    type V = ConfigView;

    open spec fn view(&self) -> ConfigView {
        entries_view(self.0@)
    }
}

/// The model of a list is the sequence of its items' models.
pub proof fn lemma_list_view(items: Vec<Value>)
    ensures
        Value::List(items)@ == ValueView::List(values_view(items@)),
{
    assert(Value::List(items)@->List_0 =~= values_view(items@));
}

/// The model of an object is the model of its configuration.
pub proof fn lemma_object_view(cfg: Config)
    ensures
        Value::Object(cfg)@ == ValueView::Object(cfg@),
{
    assert(Value::Object(cfg)@->Object_0 =~= cfg@);
}

impl Value {
    /// The name of the value's runtime type.
    pub fn type_of(&self) -> (res: &'static str)
        ensures
            res@ == spec_type_of(self@),
    {
        match self {
            Value::String(_) => "string",
            Value::Number(_) => "number",
            Value::Boolean(_) => "boolean",
            Value::Null => "null",
            Value::List(_) => "list",
            Value::Object(_) => "object",
        }
    }

    /// Structural equality.
    #[verifier::loop_isolation(false)]
    pub fn equals(&self, other: &Value) -> (res: bool)
        ensures
            res == (self@ == other@),
        decreases self,
    {
        match (self, other) {
            (Value::String(a), Value::String(b)) => *a == *b,
            (Value::Number(a), Value::Number(b)) => a.micros == b.micros,
            (Value::Boolean(a), Value::Boolean(b)) => *a == *b,
            (Value::Null, Value::Null) => true,
            (Value::List(a), Value::List(b)) => {
                proof {
                    lemma_list_view(*a);
                    lemma_list_view(*b);
                }
                if a.len() != b.len() {
                    proof {
                        assert(values_view(a@).len() != values_view(b@).len());
                    }
                    return false;
                }
                let mut i: usize = 0;
                while i < a.len()
                    invariant
                        i <= a.len(),
                        a.len() == b.len(),
                        forall|k: int| 0 <= k < i ==> a[k]@ == b[k]@,
                    decreases a.len() - i,
                {
                    if !a[i].equals(&b[i]) {
                        proof {
                            assert(values_view(a@)[i as int] != values_view(b@)[i as int]);
                        }
                        return false;
                    }
                    i += 1;
                }
                proof {
                    assert(values_view(a@) =~= values_view(b@));
                }
                true
            },
            (Value::Object(a), Value::Object(b)) => {
                proof {
                    lemma_object_view(*a);
                    lemma_object_view(*b);
                }
                a.equals(b)
            },
            _ => false,
        }
    }
}

impl Clone for Value {
    #[verifier::loop_isolation(false)]
    fn clone(&self) -> (res: Value)
        ensures
            res@ == self@,
        decreases self,
    {
        match self {
            Value::String(s) => Value::String(s.clone()),
            Value::Number(n) => Value::Number(*n),
            Value::Boolean(b) => Value::Boolean(*b),
            Value::Null => Value::Null,
            Value::List(items) => {
                let mut out: Vec<Value> = Vec::new();
                let mut i: usize = 0;
                while i < items.len()
                    invariant
                        i <= items.len(),
                        out.len() == i,
                        forall|k: int| 0 <= k < i ==> out[k]@ == items[k]@,
                    decreases items.len() - i,
                {
                    out.push(items[i].clone());
                    i += 1;
                }
                proof {
                    lemma_list_view(*items);
                    lemma_list_view(out);
                    assert(values_view(out@) =~= values_view(items@));
                }
                Value::List(out)
            },
            Value::Object(cfg) => {
                let copy = cfg.clone();
                proof {
                    lemma_object_view(*cfg);
                    lemma_object_view(copy);
                }
                Value::Object(copy)
            },
        }
    }
}

impl Clone for Config {
    #[verifier::loop_isolation(false)]
    fn clone(&self) -> (res: Config)
        ensures
            res@ == self@,
        decreases self,
    {
        let mut out: Vec<(String, Value)> = Vec::new();
        let mut i: usize = 0;
        while i < self.0.len()
            invariant
                i <= self.0.len(),
                out.len() == i,
                forall|k: int| 0 <= k < i ==> out[k].0@ == self.0[k].0@ && out[k].1@ == self.0[k].1@,
            decreases self.0.len() - i,
        {
            out.push((self.0[i].0.clone(), self.0[i].1.clone()));
            i += 1;
        }
        proof {
            assert(entries_view(out@) =~= entries_view(self.0@));
        }
        Config(out)
    }
}

impl Config {
    /// An empty configuration.
    pub fn new() -> (res: Config)
        ensures
            res@ == Seq::<(Seq<char>, ValueView)>::empty(),
    {
        let res = Config(Vec::new());
        proof {
            assert(res@ =~= Seq::<(Seq<char>, ValueView)>::empty());
        }
        res
    }

    /// Number of entries.
    pub fn len(&self) -> (res: usize)
        ensures
            res == self@.len(),
    {
        self.0.len()
    }

    /// Position of the first entry stored under `key`.
    pub fn position(&self, key: &str) -> (res: Option<usize>)
        ensures
            match res {
                Some(i) => find(self@, key@) == Some(i as int) && i < self.0.len(),
                None => find(self@, key@) is None,
            },
    {
        let mut i: usize = 0;
        while i < self.0.len()
            invariant
                i <= self.0.len(),
                find(self@, key@) == find_from(self@, key@, i as int),
            decreases self.0.len() - i,
        {
            proof {
                assert(self@[i as int].0 == self.0[i as int].0@);
            }
            if *self.0[i].0.as_str() == *key {
                return Some(i);
            }
            i += 1;
        }
        None
    }

    /// The value stored under `key`.
    pub fn get(&self, key: &str) -> (res: Option<&Value>)
        ensures
            match res {
                Some(v) => lookup(self@, key@) == Some(v@),
                None => lookup(self@, key@) is None,
            },
    {
        match self.position(key) {
            Some(i) => Some(&self.0[i].1),
            None => None,
        }
    }

    /// True when some entry is stored under `key`.
    pub fn contains_key(&self, key: &str) -> (res: bool)
        ensures
            res == lookup(self@, key@).is_some(),
    {
        self.position(key).is_some()
    }

    /// Stores `value` under `key`. An existing entry keeps its place and gets
    /// the new value; a new entry goes to the end.
    pub fn insert(&mut self, key: String, value: Value)
        ensures
            final(self)@ == put(old(self)@, key@, value@),
    {
        match self.position(key.as_str()) {
            Some(i) => {
                self.0[i] = (key, value);
                proof {
                    assert(final(self)@ =~= put(old(self)@, key@, value@));
                }
            },
            None => {
                self.0.push((key, value));
                proof {
                    assert(final(self)@ =~= put(old(self)@, key@, value@));
                }
            },
        }
    }

    /// Structural equality: the same keys with equal values, in the same order.
    #[verifier::loop_isolation(false)]
    pub fn equals(&self, other: &Config) -> (res: bool)
        ensures
            res == (self@ == other@),
        decreases self,
    {
        if self.0.len() != other.0.len() {
            proof {
                assert(self@.len() != other@.len());
            }
            return false;
        }
        let mut i: usize = 0;
        while i < self.0.len()
            invariant
                i <= self.0.len(),
                self.0.len() == other.0.len(),
                forall|k: int| 0 <= k < i ==> self@[k] == other@[k],
            decreases self.0.len() - i,
        {
            if !(self.0[i].0 == other.0[i].0) || !self.0[i].1.equals(&other.0[i].1) {
                proof {
                    assert(self@[i as int] != other@[i as int]);
                }
                return false;
            }
            i += 1;
        }
        proof {
            assert(self@ =~= other@);
        }
        true
    }
}

} // verus!
