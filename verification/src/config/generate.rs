//! Producing a default configuration for a schema.

use vstd::prelude::*;
use rand::rngs::StdRng;
use rand::Rng;
use std::time::{Duration, Instant};
use crate::config::{ConfigurationError, ConfigurationErrorView, TimeoutError};
use crate::config::spec::{
    config_matches, find_string, find_variant, index_of, node_matches, pattern_is_match,
    variant_names, ConfigSpec, DefaultString, ValueSpec,
};
use crate::config::update::{config_outcome, value_outcome};
use crate::config::util::{Bound, NumRange};
use crate::config::value::{
    lemma_list_view, lemma_object_view, put, values_view, Config, ConfigView, Value, ValueView,
};
use crate::text::push_char;

verus! {

/// `rand::rngs::StdRng`, the source of random choices.
#[verifier::external_type_specification]
#[verifier::external_body]
pub struct ExStdRng(StdRng);

/// `std::time::Instant`, a moment on the clock.
#[verifier::external_type_specification]
#[verifier::external_body]
pub struct ExInstant(Instant);

/// `rand::Rng::gen_range` with the lower end 0: some number below `bound`.
/// Which one depends on the generator's state.
#[verifier::external_body]
fn random_below(rng: &mut StdRng, bound: usize) -> (res: usize)
    requires
        bound > 0,
    ensures
        res < bound,
{
    rng.gen_range(0, bound)
}

/// `Instant::now`: the present moment.
#[verifier::external_body]
fn clock_now() -> Instant {
    Instant::now()
}

/// `Instant::elapsed`: the time that has passed since `start`.
#[verifier::external_body]
fn clock_elapsed(start: &Instant) -> Duration {
    start.elapsed()
}

/// `Duration::as_nanos`: the length of the duration in nanoseconds.
#[verifier::external_body]
fn duration_nanos(d: &Duration) -> u128 {
    d.as_nanos()
}

/// The moment generation began, and how long it may take.
pub struct Deadline {
    pub start: Instant,
    pub limit: Option<Duration>,
}

impl Deadline {
    /// A deadline that begins to run now. Without a timeout it never expires.
    pub fn begin(timeout: &Option<Duration>) -> (res: Deadline)
        ensures
            res.limit == *timeout,
    {
        Deadline { start: clock_now(), limit: *timeout }
    }

    /// True when more time has passed since the beginning than the timeout allows.
    pub fn expired(&self) -> (res: bool)
        ensures
            self.limit is None ==> !res,
    {
        match &self.limit {
            None => false,
            Some(limit) => {
                let spent = clock_elapsed(&self.start);
                time_is_up(duration_nanos(&spent), Some(duration_nanos(limit)))
            },
        }
    }
}

/// Whether the time is up once `spent` nanoseconds have passed, where `limit`
/// is the timeout in nanoseconds, if there is one: the time is up when more
/// has passed than the timeout allows, and without a timeout it is never up.
pub fn time_is_up(spent: u128, limit: Option<u128>) -> (res: bool)
    ensures
        res == match limit {
            Some(l) => spent > l,
            None => false,
        },
{
    match limit {
        Some(l) => spent > l,
        None => false,
    }
}

/// True when the generator gives the same string every time.
pub open spec fn is_literal(d: DefaultString) -> bool {
    d is Literal
}

/// True when generation for the node makes no random choice.
pub open spec fn node_deterministic(node: ValueSpec) -> bool
    decreases node, 0nat,
{
    match node {
        ValueSpec::Enum { values, default } => is_literal(default),
        ValueSpec::String { pattern, default } => match default {
            Some(d) => is_literal(d),
            None => true,
        },
        ValueSpec::List { spec, range, unique } => node_deterministic(*spec),
        ValueSpec::Object { spec, null_by_default } => spec_deterministic(spec),
        ValueSpec::Union { tag, variants, default } => forall|j: int|
            0 <= j < variants.len() ==> spec_deterministic(#[trigger] variants[j].1),
        ValueSpec::Nullable(inner) => node_deterministic(*inner),
        _ => true,
    }
}

/// True when generation for the schema makes no random choice.
pub open spec fn spec_deterministic(spec: ConfigSpec) -> bool
    decreases spec, 1nat,
{
    forall|i: int| 0 <= i < spec.0.len() ==> node_deterministic(#[trigger] spec.0[i].1)
}

/// The number of items that a generated list gets: the least that the lower
/// end of the range admits.
pub open spec fn least_len(r: NumRange<usize>) -> int {
    match r.0 {
        Bound::Unbounded => 0,
        Bound::Included(l) => l as int,
        Bound::Excluded(l) => if l < usize::MAX {
            l + 1
        } else {
            l as int
        },
    }
}

/// The default value of a node that makes no random choice.
pub open spec fn node_default(node: ValueSpec) -> Result<ValueView, ConfigurationErrorView>
    decreases node, 0nat, 0nat,
{
    match node {
        ValueSpec::Boolean { default } => Ok(ValueView::Boolean(default)),
        ValueSpec::Enum { values, default } => match default {
            DefaultString::Literal(s) => Ok(ValueView::String(s@)),
            _ => Ok(ValueView::Null),
        },
        ValueSpec::List { spec, range, unique } => if least_len(range) == 0 {
            Ok(ValueView::List(Seq::empty()))
        } else {
            match node_default(*spec) {
                Ok(v) => Ok(ValueView::List(Seq::new(least_len(range) as nat, |i: int| v))),
                Err(e) => Err(e),
            }
        },
        ValueSpec::Number { range, integral, default } => match default {
            Some(n) => Ok(ValueView::Number(n.micros as int)),
            None => Ok(ValueView::Null),
        },
        ValueSpec::Object { spec, null_by_default } => if null_by_default {
            Ok(ValueView::Null)
        } else {
            match fields_default(spec, 0, Seq::empty()) {
                Ok(c) => Ok(ValueView::Object(c)),
                Err(e) => Err(e),
            }
        },
        ValueSpec::String { pattern, default } => match default {
            Some(DefaultString::Literal(s)) => Ok(ValueView::String(s@)),
            _ => Ok(ValueView::Null),
        },
        ValueSpec::Union { tag, variants, default } => match index_of(
            variant_names(variants@),
            default@,
        ) {
            Some(j) => if 0 <= j < variants.len() {
                match fields_default(variants[j].1, 0, Seq::empty()) {
                    Ok(c) => Ok(ValueView::Object(put(c, tag@, ValueView::String(default@)))),
                    Err(e) => Err(e),
                }
            } else {
                Ok(ValueView::Null)
            },
            None => Err(ConfigurationErrorView::InvalidVariant(default@)),
        },
        ValueSpec::Mapping { tag, spec } => Ok(ValueView::Object(Seq::empty())),
        ValueSpec::Pointer(_) => Ok(ValueView::Null),
        ValueSpec::Nullable(inner) => node_default(*inner),
    }
}

/// The configuration `acc` with the defaults of the properties `i..` stored in it.
pub open spec fn fields_default(spec: ConfigSpec, i: int, acc: ConfigView) -> Result<
    ConfigView,
    ConfigurationErrorView,
>
    decreases spec, 1nat, spec.0.len() - i,
{
    if i < 0 || i >= spec.0.len() {
        Ok(acc)
    } else {
        match node_default(spec.0[i].1) {
            Ok(v) => fields_default(spec, i + 1, put(acc, spec.0[i].0@, v)),
            Err(e) => Err(e),
        }
    }
}

/// The default that was checked against the node it was made for.
pub open spec fn checked_value(node: ValueSpec, made: Result<ValueView, ConfigurationErrorView>)
    -> Result<ValueView, ConfigurationErrorView> {
    match made {
        Ok(v) => match node_matches(node, v) {
            Ok(_) => Ok(v),
            Err(m) => Err(ConfigurationErrorView::NoMatch(m)),
        },
        Err(e) => Err(e),
    }
}

/// The default that was checked against the schema it was made for.
pub open spec fn checked_config(spec: ConfigSpec, made: Result<ConfigView, ConfigurationErrorView>)
    -> Result<ConfigView, ConfigurationErrorView> {
    match made {
        Ok(c) => match config_matches(spec, c) {
            Ok(_) => Ok(c),
            Err(m) => Err(ConfigurationErrorView::NoMatch(m)),
        },
        Err(e) => Err(e),
    }
}

/// True when generation itself may fail this way: by running out of time, or
/// on a union whose default names no variant.
pub open spec fn generation_failure(e: ConfigurationError) -> bool {
    e is TimeoutError || e is InvalidVariant
}

/// True when the generator can give the string `s`. A literal gives itself;
/// entropy gives any string of `len` characters of the character set, or
/// nothing where the set is empty.
pub open spec fn producible(d: DefaultString, s: Seq<char>) -> bool {
    match d {
        DefaultString::Literal(t) => s == t@,
        DefaultString::Entropy { charset, len } => if charset.len() == 0 {
            s.len() == 0
        } else {
            s.len() == len && forall|k: int| 0 <= k < s.len() ==> charset@.contains(#[trigger] s[k])
        },
    }
}

/// The generator from which the node draws strings at random, if it draws any.
pub open spec fn drawn_from(node: ValueSpec) -> Option<DefaultString> {
    match node {
        ValueSpec::Enum { values, default } => if is_literal(default) {
            None
        } else {
            Some(default)
        },
        ValueSpec::String { pattern, default } => match default {
            Some(d) => if is_literal(d) {
                None
            } else {
                Some(d)
            },
            None => None,
        },
        _ => None,
    }
}

/// What holds of the outcome at a node that draws strings at random: the
/// value is a string that its generator can give and that matches the node,
/// or the time was up.
pub open spec fn drawn(node: ValueSpec, res: Result<Value, ConfigurationError>) -> bool {
    match drawn_from(node) {
        Some(d) => match res {
            Ok(v) => v@ is String && producible(d, v@->String_0) && node_matches(node, v@) is Ok,
            Err(e) => e is TimeoutError,
        },
        None => true,
    }
}

/// True when the node draws strings at random and none that its generator
/// can give matches it.
pub open spec fn out_of_reach(node: ValueSpec) -> bool {
    match drawn_from(node) {
        Some(d) => forall|s: Seq<char>|
            producible(d, s) ==> !(#[trigger] node_matches(node, ValueView::String(s)) is Ok),
        None => false,
    }
}

/// True when one of the properties of the schema draws strings at random
/// and none that its generator can give matches it.
pub open spec fn some_out_of_reach(spec: ConfigSpec) -> bool {
    exists|i: int| 0 <= i < spec.0.len() && out_of_reach(#[trigger] spec.0[i].1)
}

impl DefaultString {
    /// One string of this generator.
    pub fn candidate(&self, rng: &mut StdRng) -> (res: String)
        ensures
            producible(*self, res@),
    {
        match self {
            DefaultString::Literal(s) => s.clone(),
            DefaultString::Entropy { charset, len } => {
                let mut out = String::new();
                if charset.len() == 0 {
                    return out;
                }
                let mut i: usize = 0;
                while i < *len
                    invariant
                        i <= *len,
                        charset.len() > 0,
                        out@.len() == i,
                        forall|k: int| 0 <= k < i ==> charset@.contains(#[trigger] out@[k]),
                    decreases *len - i,
                {
                    let pick = random_below(rng, charset.len());
                    let c = charset[pick];
                    let ghost before = out@;
                    push_char(&mut out, c);
                    proof {
                        assert(charset@[pick as int] == c);
                        assert forall|k: int| 0 <= k < i + 1 implies charset@.contains(
                            #[trigger] out@[k],
                        ) by {
                            if k < i {
                                assert(out@[k] == before[k]);
                            }
                        }
                    }
                    i += 1;
                }
                out
            },
        }
    }
}

/// The number of items that a generated list gets.
pub fn least_items(range: &NumRange<usize>) -> (res: usize)
    ensures
        res == least_len(*range),
{
    match range.0 {
        Bound::Unbounded => 0,
        Bound::Included(l) => l,
        Bound::Excluded(l) => if l < usize::MAX {
            l + 1
        } else {
            l
        },
    }
}

impl ConfigSpec {
    /// A configuration made of the defaults of the properties, not yet
    /// checked against the schema.
    #[verifier::loop_isolation(false)]
    pub fn draft(&self, rng: &mut StdRng, deadline: &Deadline) -> (res: Result<
        Config,
        ConfigurationError,
    >)
        ensures
            res matches Err(e) ==> generation_failure(e),
            some_out_of_reach(*self) ==> res is Err,
            deadline.limit is None && spec_deterministic(*self) ==> config_outcome(res)
                == fields_default(*self, 0, Seq::empty()),
        decreases self, 2nat,
    {
        let mut out = Config::new();
        let mut i: usize = 0;
        while i < self.0.len()
            invariant
                i <= self.0.len(),
                forall|k: int| 0 <= k < i ==> !out_of_reach(#[trigger] self.0[k].1),
                deadline.limit is None && spec_deterministic(*self) ==> fields_default(
                    *self,
                    0,
                    Seq::empty(),
                ) == fields_default(*self, i as int, out@),
            decreases self.0.len() - i,
        {
            match self.0[i].1.draft(rng, deadline) {
                Ok(v) => {
                    out.insert(self.0[i].0.clone(), v);
                },
                Err(e) => {
                    return Err(e);
                },
            }
            i += 1;
        }
        Ok(out)
    }

    /// Generates a configuration that matches the schema. Random choices come
    /// from `rng`; with a timeout, generation gives up once that much time has
    /// passed. Where a property draws strings at random, none of which can
    /// match it, generation ends without success.
    pub fn generate(&self, rng: &mut StdRng, timeout: &Option<Duration>) -> (res: Result<
        Config,
        ConfigurationError,
    >)
        ensures
            res matches Ok(c) ==> config_matches(*self, c@) is Ok,
            res matches Err(e) ==> !(e is SystemError),
            some_out_of_reach(*self) ==> (res matches Err(e) && generation_failure(e)),
            *timeout is None && spec_deterministic(*self) ==> config_outcome(res)
                == checked_config(*self, fields_default(*self, 0, Seq::empty())),
    {
        let deadline = Deadline::begin(timeout);
        match self.draft(rng, &deadline) {
            Ok(c) => match self.matches(&c) {
                Ok(_) => Ok(c),
                Err(m) => Err(ConfigurationError::NoMatch(m)),
            },
            Err(e) => Err(e),
        }
    }
}

impl ValueSpec {
    /// A string of the generator that fits the node, found by drawing
    /// candidates until one fits. The search ends without one when the time is
    /// up, and at the latest after as many attempts as a `u64` counts.
    fn sample(
        &self,
        generator: &DefaultString,
        rng: &mut StdRng,
        deadline: &Deadline,
    ) -> (res: Result<Value, ConfigurationError>)
        requires
            self is Enum || self is String,
        ensures
            res matches Err(e) ==> e is TimeoutError,
            res matches Ok(v) ==> v@ is String && producible(*generator, v@->String_0)
                && node_matches(*self, v@) is Ok,
    {
        let mut attempts: u64 = 0;
        while attempts < u64::MAX
            invariant
                self is Enum || self is String,
            decreases u64::MAX - attempts,
        {
            let text = generator.candidate(rng);
            let fits = match self {
                ValueSpec::Enum { values, default } => find_string(values, text.as_str()).is_some(),
                ValueSpec::String { pattern, default } => match pattern {
                    Some(p) => match pattern_is_match(p.as_str(), text.as_str()) {
                        Some(true) => true,
                        _ => false,
                    },
                    None => true,
                },
                _ => false,
            };
            if fits {
                return Ok(Value::String(text));
            }
            if deadline.expired() {
                return Err(ConfigurationError::TimeoutError(TimeoutError));
            }
            attempts += 1;
        }
        Err(ConfigurationError::TimeoutError(TimeoutError))
    }

    /// A value made of the defaults below this node, not yet checked against
    /// it as a whole. The deadline is looked at first: see [`Self::draft_after`].
    pub fn draft(&self, rng: &mut StdRng, deadline: &Deadline) -> (res: Result<
        Value,
        ConfigurationError,
    >)
        ensures
            res matches Err(e) ==> generation_failure(e),
            drawn(*self, res),
            deadline.limit is None && node_deterministic(*self) ==> value_outcome(res)
                == node_default(*self),
        decreases self, 1nat,
    {
        let late = deadline.expired();
        self.draft_after(late, rng, deadline)
    }

    /// A value made of the defaults below this node, where `late` says
    /// whether the deadline had passed when the node was entered: then
    /// nothing is made, and the time is up.
    #[verifier::loop_isolation(false)]
    pub fn draft_after(&self, late: bool, rng: &mut StdRng, deadline: &Deadline) -> (res: Result<
        Value,
        ConfigurationError,
    >)
        ensures
            late ==> (res matches Err(e) && e is TimeoutError),
            res matches Err(e) ==> generation_failure(e),
            drawn(*self, res),
            !late && deadline.limit is None && node_deterministic(*self) ==> value_outcome(res)
                == node_default(*self),
        decreases self, 0nat,
    {
        if late {
            return Err(ConfigurationError::TimeoutError(TimeoutError));
        }
        match self {
            ValueSpec::Boolean { default } => Ok(Value::Boolean(*default)),
            ValueSpec::Enum { values, default } => match default {
                DefaultString::Literal(s) => Ok(Value::String(s.clone())),
                DefaultString::Entropy { charset, len } => self.sample(default, rng, deadline),
            },
            ValueSpec::List { spec, range, unique } => {
                let n = least_items(range);
                let mut out: Vec<Value> = Vec::new();
                let mut i: usize = 0;
                while i < n
                    invariant
                        i <= n,
                        out.len() == i,
                        deadline.limit is None && node_deterministic(**spec) ==> forall|k: int|
                            0 <= k < i ==> node_default(**spec) == Ok::<
                                ValueView,
                                ConfigurationErrorView,
                            >((#[trigger] out[k])@),
                    decreases n - i,
                {
                    match spec.draft(rng, deadline) {
                        Ok(v) => {
                            out.push(v);
                        },
                        Err(e) => {
                            return Err(e);
                        },
                    }
                    i += 1;
                }
                proof {
                    lemma_list_view(out);
                    if deadline.limit is None && node_deterministic(*self) {
                        if n == 0 {
                            assert(values_view(out@) =~= Seq::<ValueView>::empty());
                        } else {
                            let v = out[0]@;
                            assert(values_view(out@) =~= Seq::new(n as nat, |i: int| v));
                        }
                    }
                }
                Ok(Value::List(out))
            },
            ValueSpec::Number { range, integral, default } => match default {
                Some(n) => Ok(Value::Number(*n)),
                None => Ok(Value::Null),
            },
            ValueSpec::Object { spec, null_by_default } => {
                if *null_by_default {
                    Ok(Value::Null)
                } else {
                    match spec.draft(rng, deadline) {
                        Ok(c) => {
                            proof {
                                lemma_object_view(c);
                            }
                            Ok(Value::Object(c))
                        },
                        Err(e) => Err(e),
                    }
                }
            },
            ValueSpec::String { pattern, default } => match default {
                None => Ok(Value::Null),
                Some(DefaultString::Literal(s)) => Ok(Value::String(s.clone())),
                Some(generator) => self.sample(generator, rng, deadline),
            },
            ValueSpec::Union { tag, variants, default } => match find_variant(
                variants,
                default.as_str(),
            ) {
                Some(j) => match variants[j].1.draft(rng, deadline) {
                    Ok(c) => {
                        let mut c = c;
                        c.insert(tag.clone(), Value::String(default.clone()));
                        proof {
                            lemma_object_view(c);
                        }
                        Ok(Value::Object(c))
                    },
                    Err(e) => Err(e),
                },
                None => Err(ConfigurationError::InvalidVariant(default.clone())),
            },
            ValueSpec::Mapping { tag, spec } => {
                let c = Config::new();
                proof {
                    lemma_object_view(c);
                }
                Ok(Value::Object(c))
            },
            ValueSpec::Pointer(_) => Ok(Value::Null),
            ValueSpec::Nullable(inner) => inner.draft(rng, deadline),
        }
    }

    /// Generates a value that matches this node. Random choices come from
    /// `rng`; with a timeout, generation gives up once that much time has
    /// passed. A node that draws strings at random, none of which can match
    /// it, runs out of time: generation ends, and does not succeed.
    pub fn generate(&self, rng: &mut StdRng, timeout: &Option<Duration>) -> (res: Result<
        Value,
        ConfigurationError,
    >)
        ensures
            res matches Ok(v) ==> node_matches(*self, v@) is Ok,
            res matches Err(e) ==> !(e is SystemError),
            out_of_reach(*self) ==> (res matches Err(e) && e is TimeoutError),
            *timeout is None && node_deterministic(*self) ==> value_outcome(res) == checked_value(
                *self,
                node_default(*self),
            ),
    {
        let deadline = Deadline::begin(timeout);
        match self.draft(rng, &deadline) {
            Ok(v) => match self.matches(&v) {
                Ok(_) => Ok(v),
                Err(m) => Err(ConfigurationError::NoMatch(m)),
            },
            Err(e) => Err(e),
        }
    }
}

} // verus!
