//! Insertion-ordered tables keyed by application name.

use vstd::prelude::*;
use hashlink::{LinkedHashMap, LinkedHashSet};
use crate::config::{strings_view, TaggedDependencyError, TaggedView};
use crate::config::value::{lookup, put_last, Config, ConfigView};

verus! {

/// A table of configurations by application name, in insertion order.
#[verifier::external_body]
pub struct ConfigMap {
    inner: LinkedHashMap<String, Config>,
}

/// The entries of a [`ConfigMap`], oldest first.
pub uninterp spec fn config_map_entries(m: ConfigMap) -> Seq<(Seq<char>, ConfigView)>;

impl View for ConfigMap {
    type V = Seq<(Seq<char>, ConfigView)>;

    open spec fn view(&self) -> Seq<(Seq<char>, ConfigView)> {
        config_map_entries(*self)
    }
}

/// The models of a vector of named configurations.
pub open spec fn named_configs_view(v: Seq<(String, Config)>) -> Seq<(Seq<char>, ConfigView)> {
    Seq::new(v.len(), |i: int| (v[i].0@, v[i].1@))
}

/// `LinkedHashMap::new`: a table without entries.
#[verifier::external_body]
fn config_map_new() -> (res: ConfigMap)
    ensures
        config_map_entries(res) == Seq::<(Seq<char>, ConfigView)>::empty(),
{
    ConfigMap { inner: LinkedHashMap::new() }
}

/// `LinkedHashMap::insert`: the pair goes to the back of the table, and an
/// entry that was stored under the same name leaves its place.
#[verifier::external_body]
fn config_map_insert(m: &mut ConfigMap, name: String, config: Config)
    ensures
        config_map_entries(*final(m)) == put_last(config_map_entries(*old(m)), name@, config@),
{
    m.inner.insert(name, config);
}

/// `LinkedHashMap::get`: the configuration stored under the name, if any.
#[verifier::external_body]
fn config_map_get<'a>(m: &'a ConfigMap, name: &str) -> (res: Option<&'a Config>)
    ensures
        match res {
            Some(c) => lookup(config_map_entries(*m), name@) == Some(c@),
            None => lookup(config_map_entries(*m), name@) is None,
        },
{
    m.inner.get(name)
}

/// `LinkedHashMap::iter`: the entries from the oldest to the newest, each
/// handed out as a copy.
#[verifier::external_body]
fn config_map_to_vec(m: &ConfigMap) -> (res: Vec<(String, Config)>)
    ensures
        named_configs_view(res@) == config_map_entries(*m),
{
    m.inner.iter().map(|(k, v)| (k.clone(), v.clone())).collect()
}

impl ConfigMap {
    /// A table without entries.
    pub fn new() -> (res: ConfigMap)
        ensures
            res@ == Seq::<(Seq<char>, ConfigView)>::empty(),
    {
        config_map_new()
    }

    /// Stores `config` under `name` as the newest entry, in place of what was
    /// stored under that name before.
    pub fn insert(&mut self, name: String, config: Config)
        ensures
            final(self)@ == put_last(old(self)@, name@, config@),
    {
        config_map_insert(self, name, config)
    }

    /// The configuration stored under `name`.
    pub fn get(&self, name: &str) -> (res: Option<&Config>)
        ensures
            match res {
                Some(c) => lookup(self@, name@) == Some(c@),
                None => lookup(self@, name@) is None,
            },
    {
        config_map_get(self, name)
    }

    /// True when a configuration is stored under `name`.
    pub fn contains_key(&self, name: &str) -> (res: bool)
        ensures
            res == lookup(self@, name@).is_some(),
    {
        config_map_get(self, name).is_some()
    }

    /// The entries from the oldest to the newest.
    pub fn to_vec(&self) -> (res: Vec<(String, Config)>)
        ensures
            named_configs_view(res@) == self@,
    {
        config_map_to_vec(self)
    }
}

/// A set of application names, in insertion order.
#[verifier::external_body]
pub struct NameSet {
    inner: LinkedHashSet<String>,
}

/// The names in a [`NameSet`], oldest first.
pub uninterp spec fn name_set_items(s: NameSet) -> Seq<Seq<char>>;

impl View for NameSet {
    type V = Seq<Seq<char>>;

    open spec fn view(&self) -> Seq<Seq<char>> {
        name_set_items(*self)
    }
}

/// The test for another name than `name`.
pub open spec fn other_than(name: Seq<char>) -> spec_fn(Seq<char>) -> bool {
    |n: Seq<char>| n != name
}

/// The names after `name` was inserted: it is the newest, and stands nowhere else.
pub open spec fn name_added(items: Seq<Seq<char>>, name: Seq<char>) -> Seq<Seq<char>> {
    items.filter(other_than(name)).push(name)
}

/// `LinkedHashSet::new`: a set without names.
#[verifier::external_body]
fn name_set_new() -> (res: NameSet)
    ensures
        name_set_items(res) == Seq::<Seq<char>>::empty(),
{
    NameSet { inner: LinkedHashSet::new() }
}

/// `LinkedHashSet::insert`: the name goes to the back of the set, leaving
/// the place it had if it was there already.
#[verifier::external_body]
fn name_set_insert(s: &mut NameSet, name: String)
    ensures
        name_set_items(*final(s)) == name_added(name_set_items(*old(s)), name@),
{
    s.inner.insert(name);
}

/// `LinkedHashSet::iter`: the names from the oldest to the newest, each
/// handed out as a copy.
#[verifier::external_body]
fn name_set_to_vec(s: &NameSet) -> (res: Vec<String>)
    ensures
        strings_view(res@) == name_set_items(*s),
{
    s.inner.iter().map(|n| n.clone()).collect()
}

impl NameSet {
    /// A set without names.
    pub fn new() -> (res: NameSet)
        ensures
            res@ == Seq::<Seq<char>>::empty(),
    {
        name_set_new()
    }

    /// Puts `name` into the set as its newest member.
    pub fn insert(&mut self, name: String)
        ensures
            final(self)@ == name_added(old(self)@, name@),
    {
        name_set_insert(self, name)
    }

    /// The names from the oldest to the newest.
    pub fn to_vec(&self) -> (res: Vec<String>)
        ensures
            strings_view(res@) == self@,
    {
        name_set_to_vec(self)
    }
}

/// A table of the applications that were stopped, with the reason for each,
/// in insertion order.
#[verifier::external_body]
pub struct StoppedMap {
    inner: LinkedHashMap<String, TaggedDependencyError>,
}

/// The entries of a [`StoppedMap`], oldest first.
pub uninterp spec fn stopped_map_entries(m: StoppedMap) -> Seq<(Seq<char>, TaggedView)>;

impl View for StoppedMap {
    type V = Seq<(Seq<char>, TaggedView)>;

    open spec fn view(&self) -> Seq<(Seq<char>, TaggedView)> {
        stopped_map_entries(*self)
    }
}

/// The models of a vector of named reasons.
pub open spec fn named_reasons_view(v: Seq<(String, TaggedDependencyError)>) -> Seq<
    (Seq<char>, TaggedView),
> {
    Seq::new(v.len(), |i: int| (v[i].0@, v[i].1@))
}

/// `LinkedHashMap::new`: a table without entries.
#[verifier::external_body]
fn stopped_map_new() -> (res: StoppedMap)
    ensures
        stopped_map_entries(res) == Seq::<(Seq<char>, TaggedView)>::empty(),
{
    StoppedMap { inner: LinkedHashMap::new() }
}

/// `LinkedHashMap::insert`: the pair goes to the back of the table, and an
/// entry that was stored under the same name leaves its place.
#[verifier::external_body]
fn stopped_map_insert(m: &mut StoppedMap, name: String, reason: TaggedDependencyError)
    ensures
        stopped_map_entries(*final(m)) == put_last(stopped_map_entries(*old(m)), name@, reason@),
{
    m.inner.insert(name, reason);
}

/// `LinkedHashMap::iter`: the entries from the oldest to the newest, each
/// handed out as a copy.
#[verifier::external_body]
fn stopped_map_to_vec(m: &StoppedMap) -> (res: Vec<(String, TaggedDependencyError)>)
    ensures
        named_reasons_view(res@) == stopped_map_entries(*m),
{
    m.inner.iter().map(|(k, v)| (k.clone(), v.clone())).collect()
}

impl StoppedMap {
    /// A table without entries.
    pub fn new() -> (res: StoppedMap)
        ensures
            res@ == Seq::<(Seq<char>, TaggedView)>::empty(),
    {
        stopped_map_new()
    }

    /// Records `reason` under `name` as the newest entry, in place of what
    /// was recorded under that name before.
    pub fn insert(&mut self, name: String, reason: TaggedDependencyError)
        ensures
            final(self)@ == put_last(old(self)@, name@, reason@),
    {
        stopped_map_insert(self, name, reason)
    }

    /// The entries from the oldest to the newest.
    pub fn to_vec(&self) -> (res: Vec<(String, TaggedDependencyError)>)
        ensures
            named_reasons_view(res@) == self@,
    {
        stopped_map_to_vec(self)
    }
}

} // verus!
