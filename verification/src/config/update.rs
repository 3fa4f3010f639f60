//! Bringing the pointers of a configuration up to date.

use vstd::prelude::*;
use vstd::string::StringExecFns;
use crate::config::{
    strings_view, ConfigurationError, ConfigurationErrorView, MatchError, MatchErrorView,
    NoMatchView, NoMatchWithPath,
};
use crate::config::collections::ConfigMap;
use crate::config::spec::{
    find_variant, index_of, index_segment, variant_names, ConfigSpec, PointerView, ValueSpec,
    ValueSpecPointer,
};
use crate::config::value::{
    lemma_list_view, lemma_object_view, lookup, put, value_at, values_view, Config, ConfigView,
    Value, ValueView,
};
use crate::error::{Error, ErrorView, NOT_FOUND};
use crate::text::decimal;

verus! {

/// The configurations that pointers may refer to, by application name.
pub type LiveView = Seq<(Seq<char>, ConfigView)>;

/// The value reached from `v` along the property names `path[i..]`.
pub open spec fn select(v: ValueView, path: Seq<Seq<char>>, i: int) -> Option<ValueView>
    decreases path.len() - i,
{
    if i < 0 || i >= path.len() {
        Some(v)
    } else {
        match v {
            ValueView::Object(cfg) => match lookup(cfg, path[i]) {
                Some(x) => select(x, path, i + 1),
                None => None,
            },
            _ => None,
        }
    }
}

/// The error for a pointer into an application whose configuration is not at hand.
pub open spec fn missing_app(app_id: Seq<char>) -> ErrorView {
    ErrorView { message: app_id + " is not installed"@, code: NOT_FOUND as int }
}

/// What a pointer stands for, given the configurations at hand.
pub open spec fn pointer_target(p: PointerView, live: LiveView) -> Result<
    ValueView,
    ConfigurationErrorView,
> {
    match lookup(live, p.app_id) {
        None => Err(ConfigurationErrorView::SystemError(missing_app(p.app_id))),
        Some(cfg) => match select(ValueView::Object(cfg), p.index, 0) {
            Some(v) => Ok(v),
            None => Err(
                ConfigurationErrorView::NoMatch(
                    NoMatchView::at_node(MatchErrorView::InvalidPointer(p)),
                ),
            ),
        },
    }
}

/// The error seen from one level further out: a mismatch gains the segment,
/// any other error stays as it is.
pub open spec fn within(e: ConfigurationErrorView, seg: Seq<char>) -> ConfigurationErrorView {
    match e {
        ConfigurationErrorView::NoMatch(n) => ConfigurationErrorView::NoMatch(n.prepend(seg)),
        _ => e,
    }
}

/// The configuration after a property was brought up to date: a property that
/// was absent and is still null stays absent.
pub open spec fn stored(cfg: ConfigView, key: Seq<char>, v: ValueView) -> ConfigView {
    if lookup(cfg, key) is None && v is Null {
        cfg
    } else {
        put(cfg, key, v)
    }
}

/// The value with every pointer below the node replaced by its target.
pub open spec fn node_update(node: ValueSpec, v: ValueView, live: LiveView) -> Result<
    ValueView,
    ConfigurationErrorView,
>
    decreases node, 0nat, 0nat,
{
    match node {
        ValueSpec::Pointer(p) => pointer_target(p@, live),
        ValueSpec::Object { spec, null_by_default } => object_update(spec, v, live),
        ValueSpec::List { spec, range, unique } => match v {
            ValueView::List(items) => match items_update(*spec, items, 0, live) {
                Ok(r) => Ok(ValueView::List(r)),
                Err(e) => Err(e),
            },
            _ => Ok(v),
        },
        ValueSpec::Union { tag, variants, default } => match v {
            ValueView::Object(cfg) => match lookup(cfg, tag@) {
                Some(ValueView::String(t)) => match index_of(variant_names(variants@), t) {
                    Some(j) => if 0 <= j < variants.len() {
                        match fields_update(variants[j].1, cfg, 0, live) {
                            Ok(r) => Ok(ValueView::Object(r)),
                            Err(e) => Err(e),
                        }
                    } else {
                        Ok(v)
                    },
                    None => Ok(v),
                },
                _ => Ok(v),
            },
            _ => Ok(v),
        },
        ValueSpec::Mapping { tag, spec } => match v {
            ValueView::Object(entries) => match entries_update(spec, entries, 0, live) {
                Ok(r) => Ok(ValueView::Object(r)),
                Err(e) => Err(e),
            },
            _ => Ok(v),
        },
        ValueSpec::Nullable(inner) => if v is Null {
            Ok(v)
        } else {
            node_update(*inner, v, live)
        },
        _ => Ok(v),
    }
}

/// The list with the items `i..` brought up to date.
pub open spec fn items_update(elem: ValueSpec, items: Seq<ValueView>, i: int, live: LiveView)
    -> Result<Seq<ValueView>, ConfigurationErrorView>
    decreases elem, 1nat, items.len() - i,
{
    if i < 0 || i >= items.len() {
        Ok(items)
    } else {
        match node_update(elem, items[i], live) {
            Err(e) => Err(within(e, decimal(i))),
            Ok(r) => items_update(elem, items.update(i, r), i + 1, live),
        }
    }
}

/// The configuration with the properties `i..` of the schema brought up to date.
pub open spec fn fields_update(spec: ConfigSpec, cfg: ConfigView, i: int, live: LiveView)
    -> Result<ConfigView, ConfigurationErrorView>
    decreases spec, 0nat, spec.0.len() - i,
{
    if i < 0 || i >= spec.0.len() {
        Ok(cfg)
    } else {
        match node_update(spec.0[i].1, value_at(cfg, spec.0[i].0@), live) {
            Err(e) => Err(within(e, spec.0[i].0@)),
            Ok(r) => fields_update(spec, stored(cfg, spec.0[i].0@, r), i + 1, live),
        }
    }
}

/// An object brought up to date against the schema; any other value as it is.
pub open spec fn object_update(spec: ConfigSpec, v: ValueView, live: LiveView) -> Result<
    ValueView,
    ConfigurationErrorView,
>
    decreases spec, 1nat, 0nat,
{
    match v {
        ValueView::Object(cfg) => match fields_update(spec, cfg, 0, live) {
            Ok(r) => Ok(ValueView::Object(r)),
            Err(e) => Err(e),
        },
        _ => Ok(v),
    }
}

/// The map with the entries `i..` brought up to date.
pub open spec fn entries_update(spec: ConfigSpec, entries: ConfigView, i: int, live: LiveView)
    -> Result<ConfigView, ConfigurationErrorView>
    decreases spec, 2nat, entries.len() - i,
{
    if i < 0 || i >= entries.len() {
        Ok(entries)
    } else {
        match object_update(spec, entries[i].1, live) {
            Err(e) => Err(within(e, entries[i].0)),
            Ok(r) => entries_update(spec, entries.update(i, (entries[i].0, r)), i + 1, live),
        }
    }
}

/// The configuration with every pointer of the schema replaced by its target.
pub open spec fn config_update(spec: ConfigSpec, cfg: ConfigView, live: LiveView) -> Result<
    ConfigView,
    ConfigurationErrorView,
> {
    fields_update(spec, cfg, 0, live)
}

/// The model of the outcome of bringing a value up to date.
pub open spec fn value_outcome(res: Result<Value, ConfigurationError>) -> Result<
    ValueView,
    ConfigurationErrorView,
> {
    match res {
        Ok(v) => Ok(v@),
        Err(e) => Err(e@),
    }
}

/// The model of the outcome of bringing a configuration up to date.
pub open spec fn config_outcome(res: Result<Config, ConfigurationError>) -> Result<
    ConfigView,
    ConfigurationErrorView,
> {
    match res {
        Ok(c) => Ok(c@),
        Err(e) => Err(e@),
    }
}

/// The error seen from one level further out.
pub fn within_segment(e: ConfigurationError, seg: String) -> (res: ConfigurationError)
    ensures
        res@ == within(e@, seg@),
{
    match e {
        ConfigurationError::NoMatch(n) => ConfigurationError::NoMatch(n.prepend(seg)),
        other => other,
    }
}

/// The value reached from the configuration along the property names of `path`.
pub fn resolve(cfg: &Config, path: &Vec<String>) -> (res: Option<Value>)
    ensures
        match res {
            Some(v) => select(ValueView::Object(cfg@), strings_view(path@), 0) == Some(v@),
            None => select(ValueView::Object(cfg@), strings_view(path@), 0) is None,
        },
{
    let ghost names = strings_view(path@);
    if path.len() == 0 {
        let copy = cfg.clone();
        proof {
            lemma_object_view(copy);
        }
        return Some(Value::Object(copy));
    }
    assert(names[0] == path[0]@);
    let mut cur: &Value = match cfg.get(path[0].as_str()) {
        Some(x) => x,
        None => {
            return None;
        },
    };
    let mut i: usize = 1;
    while i < path.len()
        invariant
            1 <= i <= path.len(),
            names == strings_view(path@),
            select(ValueView::Object(cfg@), names, 0) == select(cur@, names, i as int),
        decreases path.len() - i,
    {
        assert(names[i as int] == path[i as int]@);
        match cur {
            Value::Object(inner) => {
                proof {
                    lemma_object_view(*inner);
                }
                match inner.get(path[i].as_str()) {
                    Some(x) => {
                        cur = x;
                    },
                    None => {
                        return None;
                    },
                }
            },
            _ => {
                return None;
            },
        }
        i += 1;
    }
    Some(cur.clone())
}

impl ValueSpecPointer {
    /// What the pointer stands for, given the configurations at hand.
    pub fn target(&self, live: &ConfigMap) -> (res: Result<Value, ConfigurationError>)
        ensures
            value_outcome(res) == pointer_target(self@, live@),
    {
        match live.get(self.app_id.as_str()) {
            None => {
                let message = self.app_id.clone().concat(" is not installed");
                Err(ConfigurationError::SystemError(Error::new(message, NOT_FOUND)))
            },
            Some(cfg) => match resolve(cfg, &self.index) {
                Some(v) => Ok(v),
                None => Err(
                    ConfigurationError::NoMatch(
                        NoMatchWithPath::new(MatchError::InvalidPointer(self.clone())),
                    ),
                ),
            },
        }
    }
}

/// An object brought up to date against the schema; any other value as it is.
#[verifier::loop_isolation(false)]
fn updated_object(spec: &ConfigSpec, value: &Value, live: &ConfigMap) -> (res: Result<
    Value,
    ConfigurationError,
>)
    ensures
        value_outcome(res) == object_update(*spec, value@, live@),
    decreases spec, 1nat,
{
    match value {
        Value::Object(cfg) => {
            proof {
                lemma_object_view(*cfg);
            }
            match spec.updated(cfg, live) {
                Ok(r) => {
                    proof {
                        lemma_object_view(r);
                    }
                    Ok(Value::Object(r))
                },
                Err(e) => Err(e),
            }
        },
        _ => Ok(value.clone()),
    }
}

impl ConfigSpec {
    /// A copy of the configuration in which every pointer of the schema holds
    /// its target's present value.
    #[verifier::loop_isolation(false)]
    pub fn updated(&self, cfg: &Config, live: &ConfigMap) -> (res: Result<
        Config,
        ConfigurationError,
    >)
        ensures
            config_outcome(res) == config_update(*self, cfg@, live@),
        decreases self, 0nat,
    {
        let null = Value::Null;
        let mut out = cfg.clone();
        let mut i: usize = 0;
        while i < self.0.len()
            invariant
                i <= self.0.len(),
                null@ == ValueView::Null,
                config_update(*self, cfg@, live@) == fields_update(*self, out@, i as int, live@),
            decreases self.0.len() - i,
        {
            let found = out.get(self.0[i].0.as_str());
            let present = found.is_some();
            let result = match found {
                Some(v) => self.0[i].1.updated(v, live),
                None => self.0[i].1.updated(&null, live),
            };
            match result {
                Ok(v) => {
                    let is_null = match v {
                        Value::Null => true,
                        _ => false,
                    };
                    if present || !is_null {
                        out.insert(self.0[i].0.clone(), v);
                    }
                },
                Err(e) => {
                    return Err(within_segment(e, self.0[i].0.clone()));
                },
            }
            i += 1;
        }
        Ok(out)
    }

    /// Replaces every pointer of the schema in the configuration by its
    /// target's present value. On failure the configuration is left as it was.
    pub fn update(&self, cfg: &mut Config, live: &ConfigMap) -> (res: Result<
        (),
        ConfigurationError,
    >)
        ensures
            match res {
                Ok(_) => config_update(*self, old(cfg)@, live@) == Ok::<
                    ConfigView,
                    ConfigurationErrorView,
                >(final(cfg)@),
                Err(e) => config_update(*self, old(cfg)@, live@) == Err::<
                    ConfigView,
                    ConfigurationErrorView,
                >(e@) && final(cfg)@ == old(cfg)@,
            },
    {
        match self.updated(cfg, live) {
            Ok(r) => {
                *cfg = r;
                Ok(())
            },
            Err(e) => Err(e),
        }
    }
}

impl ValueSpec {
    /// A copy of the value in which every pointer below this node holds its
    /// target's present value.
    #[verifier::loop_isolation(false)]
    pub fn updated(&self, value: &Value, live: &ConfigMap) -> (res: Result<
        Value,
        ConfigurationError,
    >)
        ensures
            value_outcome(res) == node_update(*self, value@, live@),
        decreases self, 0nat,
    {
        match self {
            ValueSpec::Pointer(p) => p.target(live),
            ValueSpec::Object { spec, null_by_default } => updated_object(spec, value, live),
            ValueSpec::List { spec, range, unique } => match value {
                Value::List(items) => {
                    proof {
                        lemma_list_view(*items);
                    }
                    let ghost all = values_view(items@);
                    let ghost mut cur = all;
                    let mut out: Vec<Value> = Vec::new();
                    let mut i: usize = 0;
                    while i < items.len()
                        invariant
                            i <= items.len(),
                            out.len() == i,
                            cur.len() == all.len(),
                            all == values_view(items@),
                            forall|k: int| 0 <= k < i ==> cur[k] == out[k]@,
                            forall|k: int| i <= k < all.len() ==> cur[k] == all[k],
                            items_update(**spec, all, 0, live@) == items_update(
                                **spec,
                                cur,
                                i as int,
                                live@,
                            ),
                        decreases items.len() - i,
                    {
                        match spec.updated(&items[i], live) {
                            Ok(v) => {
                                proof {
                                    cur = cur.update(i as int, v@);
                                }
                                out.push(v);
                            },
                            Err(e) => {
                                return Err(within_segment(e, index_segment(i)));
                            },
                        }
                        i += 1;
                    }
                    proof {
                        lemma_list_view(out);
                        assert(cur =~= values_view(out@));
                    }
                    Ok(Value::List(out))
                },
                _ => Ok(value.clone()),
            },
            ValueSpec::Union { tag, variants, default } => match value {
                Value::Object(cfg) => {
                    proof {
                        lemma_object_view(*cfg);
                    }
                    match cfg.get(tag.as_str()) {
                        Some(Value::String(t)) => match find_variant(variants, t.as_str()) {
                            Some(j) => match variants[j].1.updated(cfg, live) {
                                Ok(r) => {
                                    proof {
                                        lemma_object_view(r);
                                    }
                                    Ok(Value::Object(r))
                                },
                                Err(e) => Err(e),
                            },
                            None => Ok(value.clone()),
                        },
                        _ => Ok(value.clone()),
                    }
                },
                _ => Ok(value.clone()),
            },
            ValueSpec::Mapping { tag, spec } => match value {
                Value::Object(cfg) => {
                    proof {
                        lemma_object_view(*cfg);
                    }
                    let ghost all = cfg@;
                    let ghost mut cur = all;
                    let mut out: Vec<(String, Value)> = Vec::new();
                    let mut i: usize = 0;
                    while i < cfg.0.len()
                        invariant
                            i <= cfg.0.len(),
                            out.len() == i,
                            cur.len() == all.len(),
                            all == cfg@,
                            forall|k: int| 0 <= k < i ==> cur[k] == (out[k].0@, out[k].1@),
                            forall|k: int| i <= k < all.len() ==> cur[k] == all[k],
                            entries_update(*spec, all, 0, live@) == entries_update(
                                *spec,
                                cur,
                                i as int,
                                live@,
                            ),
                        decreases cfg.0.len() - i,
                    {
                        assert(all[i as int] == (cfg.0[i as int].0@, cfg.0[i as int].1@));
                        match updated_object(spec, &cfg.0[i].1, live) {
                            Ok(v) => {
                                let key = cfg.0[i].0.clone();
                                proof {
                                    cur = cur.update(i as int, (key@, v@));
                                }
                                out.push((key, v));
                            },
                            Err(e) => {
                                return Err(within_segment(e, cfg.0[i].0.clone()));
                            },
                        }
                        i += 1;
                    }
                    let res = Config(out);
                    proof {
                        lemma_object_view(res);
                        assert(cur =~= res@);
                    }
                    Ok(Value::Object(res))
                },
                _ => Ok(value.clone()),
            },
            ValueSpec::Nullable(inner) => match value {
                Value::Null => Ok(Value::Null),
                _ => inner.updated(value, live),
            },
            _ => Ok(value.clone()),
        }
    }
}

/// The applications that the pointers at and below the node name, in the
/// order of the schema; an application is named once for each pointer.
pub open spec fn node_pointer_apps(node: ValueSpec) -> Seq<Seq<char>>
    decreases node, 0nat, 0nat,
{
    match node {
        ValueSpec::Pointer(p) => seq![p.app_id@],
        ValueSpec::List { spec, range, unique } => node_pointer_apps(*spec),
        ValueSpec::Object { spec, null_by_default } => fields_pointer_apps(
            spec,
            spec.0.len() as int,
        ),
        ValueSpec::Union { tag, variants, default } => variants_pointer_apps(
            variants,
            variants.len() as int,
        ),
        ValueSpec::Mapping { tag, spec } => fields_pointer_apps(spec, spec.0.len() as int),
        ValueSpec::Nullable(inner) => node_pointer_apps(*inner),
        _ => Seq::empty(),
    }
}

/// The applications that the pointers of the first `n` properties name.
pub open spec fn fields_pointer_apps(spec: ConfigSpec, n: int) -> Seq<Seq<char>>
    decreases spec, 1nat, n,
{
    if n <= 0 || n > spec.0.len() {
        Seq::empty()
    } else {
        fields_pointer_apps(spec, n - 1) + node_pointer_apps(spec.0[n - 1].1)
    }
}

/// The applications that the pointers of the first `n` variants name.
pub open spec fn variants_pointer_apps(variants: Vec<(String, ConfigSpec)>, n: int) -> Seq<
    Seq<char>,
>
    decreases variants, 2nat, n,
{
    if n <= 0 || n > variants.len() {
        Seq::empty()
    } else {
        variants_pointer_apps(variants, n - 1) + fields_pointer_apps(
            variants[n - 1].1,
            variants[n - 1].1.0.len() as int,
        )
    }
}

impl ConfigSpec {
    /// Appends to `out` the applications that the pointers of the schema name.
    #[verifier::loop_isolation(false)]
    fn collect_pointer_apps(&self, out: &mut Vec<String>)
        ensures
            strings_view(final(out)@) == strings_view(old(out)@) + fields_pointer_apps(
                *self,
                self.0.len() as int,
            ),
        decreases self, 1nat,
    {
        let ghost start = strings_view(out@);
        let mut i: usize = 0;
        proof {
            assert(strings_view(out@) =~= start + fields_pointer_apps(*self, 0));
        }
        while i < self.0.len()
            invariant
                i <= self.0.len(),
                strings_view(out@) == start + fields_pointer_apps(*self, i as int),
            decreases self.0.len() - i,
        {
            let ghost before = strings_view(out@);
            self.0[i].1.collect_pointer_apps(out);
            proof {
                assert(strings_view(out@) =~= start + fields_pointer_apps(*self, i + 1));
            }
            i += 1;
        }
    }

    /// The applications that the pointers of the schema name: those whose
    /// configurations an update needs at hand.
    pub fn pointer_apps(&self) -> (res: Vec<String>)
        ensures
            strings_view(res@) == fields_pointer_apps(*self, self.0.len() as int),
    {
        let mut out: Vec<String> = Vec::new();
        proof {
            assert(strings_view(out@) =~= Seq::<Seq<char>>::empty());
        }
        self.collect_pointer_apps(&mut out);
        proof {
            assert(strings_view(out@) =~= fields_pointer_apps(*self, self.0.len() as int));
        }
        out
    }
}

impl ValueSpec {
    /// Appends to `out` the applications that the pointers at and below the
    /// node name.
    #[verifier::loop_isolation(false)]
    fn collect_pointer_apps(&self, out: &mut Vec<String>)
        ensures
            strings_view(final(out)@) == strings_view(old(out)@) + node_pointer_apps(*self),
        decreases self, 0nat,
    {
        let ghost start = strings_view(out@);
        match self {
            ValueSpec::Pointer(p) => {
                out.push(p.app_id.clone());
                proof {
                    assert(strings_view(out@) =~= start + node_pointer_apps(*self));
                }
            },
            ValueSpec::List { spec, range, unique } => {
                spec.collect_pointer_apps(out);
            },
            ValueSpec::Object { spec, null_by_default } => {
                spec.collect_pointer_apps(out);
            },
            ValueSpec::Union { tag, variants, default } => {
                let mut i: usize = 0;
                proof {
                    assert(strings_view(out@) =~= start + variants_pointer_apps(*variants, 0));
                }
                while i < variants.len()
                    invariant
                        i <= variants.len(),
                        strings_view(out@) == start + variants_pointer_apps(*variants, i as int),
                    decreases variants.len() - i,
                {
                    variants[i].1.collect_pointer_apps(out);
                    proof {
                        assert(strings_view(out@) =~= start + variants_pointer_apps(
                            *variants,
                            i + 1,
                        ));
                    }
                    i += 1;
                }
            },
            ValueSpec::Mapping { tag, spec } => {
                spec.collect_pointer_apps(out);
            },
            ValueSpec::Nullable(inner) => {
                inner.collect_pointer_apps(out);
            },
            _ => {
                proof {
                    assert(strings_view(out@) =~= start + node_pointer_apps(*self));
                }
            },
        }
    }
}

} // verus!
