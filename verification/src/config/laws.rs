//! Laws of the configuration engine: matching survives an update, an update
//! is idempotent, a second call to configure changes nothing, and a dependent
//! that breaks is contained; with the lemmas that they rest on.

use vstd::prelude::*;
use crate::config::{
    no_match_message, ConfigurationErrorView, ConfigurationResView, DependencyErrorView,
    TaggedView,
};
use crate::config::cascade::{
    not_installed, on_dependent, overlay, recorded, spec_advance, spec_complete, spec_restart,
    spec_step, step_candidate, validated, ActionView, AppStatus, CascadeView, EventView,
    FrameView, LoadedView, StageView, StepView,
};
use crate::config::spec::{
    config_matches, entries_match, field_names, fields_match, has_field, index_of, items_match,
    lemma_index_from, node_matches, object_matches, valid_key, variant_names, ConfigSpec,
    ValueSpec,
};
use crate::config::update::{
    config_update, entries_update, fields_update, items_update, node_update, object_update,
    stored, LiveView,
};
use crate::config::validity::{
    distinct, node_pointer_free, node_well_formed, spec_pointer_free, spec_well_formed,
};
use crate::config::value::{
    find, lemma_find_from, lookup, not_under, put, put_last, value_at, without, ConfigView,
    ValueView,
};

use crate::error::ErrorView;

verus! {

/// The first entry under a key is the one that `find` gives.
pub proof fn lemma_find_is<T>(entries: Seq<(Seq<char>, T)>, key: Seq<char>, j: int)
    requires
        0 <= j < entries.len(),
        entries[j].0 == key,
        forall|k: int| 0 <= k < j ==> (#[trigger] entries[k]).0 != key,
    ensures
        find(entries, key) == Some(j),
{
    lemma_find_from(entries, key, 0);
}

/// Where no entry has the key, `find` gives none.
pub proof fn lemma_find_none<T>(entries: Seq<(Seq<char>, T)>, key: Seq<char>)
    requires
        forall|k: int| 0 <= k < entries.len() ==> (#[trigger] entries[k]).0 != key,
    ensures
        find(entries, key) is None,
{
    lemma_find_from(entries, key, 0);
}

/// Storing under a key is read back under that key, and leaves what is
/// stored under the other keys.
pub proof fn lemma_put<T>(entries: Seq<(Seq<char>, T)>, key: Seq<char>, v: T, other: Seq<char>)
    ensures
        lookup(put(entries, key, v), key) == Some(v),
        other != key ==> lookup(put(entries, key, v), other) == lookup(entries, other),
{
    lemma_find_from(entries, key, 0);
    lemma_find_from(entries, other, 0);
    let after = put(entries, key, v);
    match find(entries, key) {
        Some(i) => {
            assert(after == entries.update(i, (key, v)));
            assert forall|k: int| 0 <= k < i implies (#[trigger] after[k]).0 != key by {
                assert(after[k] == entries[k]);
            }
            lemma_find_is(after, key, i);
            if other != key {
                match find(entries, other) {
                    Some(j) => {
                        assert(j != i);
                        assert forall|k: int| 0 <= k < j implies (#[trigger] after[k]).0
                            != other by {
                            if k != i {
                                assert(after[k] == entries[k]);
                            }
                        }
                        assert(after[j] == entries[j]);
                        lemma_find_is(after, other, j);
                    },
                    None => {
                        assert forall|k: int| 0 <= k < after.len() implies (#[trigger] after[k]).0
                            != other by {
                            if k != i {
                                assert(after[k] == entries[k]);
                            }
                        }
                        lemma_find_none(after, other);
                    },
                }
            }
        },
        None => {
            assert(after == entries.push((key, v)));
            let n = entries.len() as int;
            assert forall|k: int| 0 <= k < n implies (#[trigger] after[k]).0 != key by {
                assert(after[k] == entries[k]);
            }
            lemma_find_is(after, key, n);
            if other != key {
                match find(entries, other) {
                    Some(j) => {
                        assert forall|k: int| 0 <= k < j implies (#[trigger] after[k]).0
                            != other by {
                            assert(after[k] == entries[k]);
                        }
                        assert(after[j] == entries[j]);
                        lemma_find_is(after, other, j);
                    },
                    None => {
                        assert forall|k: int| 0 <= k < after.len() implies (#[trigger] after[k]).0
                            != other by {
                            if k < n {
                                assert(after[k] == entries[k]);
                            }
                        }
                        lemma_find_none(after, other);
                    },
                }
            }
        },
    }
}

/// What `stored` keeps: the value is read back under the key, and what is
/// stored under the other keys stays.
pub proof fn lemma_stored(cfg: ConfigView, key: Seq<char>, v: ValueView, other: Seq<char>)
    ensures
        value_at(stored(cfg, key, v), key) == v,
        other != key ==> lookup(stored(cfg, key, v), other) == lookup(cfg, other),
{
    lemma_put(cfg, key, v, other);
}

/// Storing again what is stored already changes nothing.
pub proof fn lemma_stored_same(cfg: ConfigView, key: Seq<char>)
    ensures
        stored(cfg, key, value_at(cfg, key)) == cfg,
{
    lemma_find_from(cfg, key, 0);
    match find(cfg, key) {
        Some(i) => {
            assert(cfg.update(i, (key, cfg[i].1)) =~= cfg);
        },
        None => {},
    }
}

/// The items from `i` on all match exactly when matching them reports nothing.
pub proof fn lemma_items_match(elem: ValueSpec, items: Seq<ValueView>, i: int)
    requires
        0 <= i <= items.len(),
    ensures
        items_match(elem, items, i) is Ok <==> forall|k: int|
            i <= k < items.len() ==> node_matches(elem, #[trigger] items[k]) is Ok,
    decreases items.len() - i,
{
    if i < items.len() {
        lemma_items_match(elem, items, i + 1);
        if node_matches(elem, items[i]) is Ok {
            assert(items_match(elem, items, i) == items_match(elem, items, i + 1));
        }
    }
}

/// The properties from `i` on all match exactly when matching them reports nothing.
pub proof fn lemma_fields_match(spec: ConfigSpec, cfg: ConfigView, i: int)
    requires
        0 <= i <= spec.0.len(),
    ensures
        fields_match(spec, cfg, i) is Ok <==> forall|k: int|
            i <= k < spec.0.len() ==> node_matches(
                spec.0[k].1,
                value_at(cfg, #[trigger] spec.0[k].0@),
            ) is Ok,
    decreases spec.0.len() - i,
{
    if i < spec.0.len() {
        lemma_fields_match(spec, cfg, i + 1);
        if node_matches(spec.0[i].1, value_at(cfg, spec.0[i].0@)) is Ok {
            assert(fields_match(spec, cfg, i) == fields_match(spec, cfg, i + 1));
        }
    }
}

/// The entries from `i` on all have valid keys and match exactly when matching
/// them reports nothing.
pub proof fn lemma_entries_match(spec: ConfigSpec, entries: ConfigView, i: int)
    requires
        0 <= i <= entries.len(),
    ensures
        entries_match(spec, entries, i) is Ok <==> forall|k: int|
            i <= k < entries.len() ==> valid_key((#[trigger] entries[k]).0) && object_matches(
                spec,
                entries[k].1,
            ) is Ok,
    decreases entries.len() - i,
{
    if i < entries.len() {
        lemma_entries_match(spec, entries, i + 1);
        if valid_key(entries[i].0) && object_matches(spec, entries[i].1) is Ok {
            assert(entries_match(spec, entries, i) == entries_match(spec, entries, i + 1));
        }
    }
}

/// What bringing the items from `i` on up to date gives: the earlier items
/// stay, and each later one is the item brought up to date by itself.
pub proof fn lemma_items_update(elem: ValueSpec, items: Seq<ValueView>, i: int, live: LiveView)
    requires
        0 <= i <= items.len(),
        items_update(elem, items, i, live) is Ok,
    ensures
        ({
            let r = items_update(elem, items, i, live)->Ok_0;
            &&& r.len() == items.len()
            &&& forall|k: int| 0 <= k < i ==> #[trigger] r[k] == items[k]
            &&& forall|k: int|
                i <= k < items.len() ==> node_update(elem, items[k], live) == Ok::<
                    ValueView,
                    ConfigurationErrorView,
                >(#[trigger] r[k])
        }),
    decreases items.len() - i,
{
    if i < items.len() {
        let x = node_update(elem, items[i], live)->Ok_0;
        let next = items.update(i, x);
        lemma_items_update(elem, next, i + 1, live);
        let r = items_update(elem, items, i, live)->Ok_0;
        assert(r == items_update(elem, next, i + 1, live)->Ok_0);
        assert forall|k: int| 0 <= k < i implies #[trigger] r[k] == items[k] by {
            assert(r[k] == next[k]);
        }
        assert forall|k: int| i <= k < items.len() implies node_update(elem, items[k], live)
            == Ok::<ValueView, ConfigurationErrorView>(#[trigger] r[k]) by {
            if k == i {
                assert(r[i] == next[i]);
            } else {
                assert(next[k] == items[k]);
            }
        }
    }
}

/// What bringing the entries from `i` on up to date gives: the keys and the
/// earlier entries stay, and each later one is brought up to date by itself.
pub proof fn lemma_entries_update(spec: ConfigSpec, entries: ConfigView, i: int, live: LiveView)
    requires
        0 <= i <= entries.len(),
        entries_update(spec, entries, i, live) is Ok,
    ensures
        ({
            let r = entries_update(spec, entries, i, live)->Ok_0;
            &&& r.len() == entries.len()
            &&& forall|k: int| 0 <= k < r.len() ==> (#[trigger] r[k]).0 == entries[k].0
            &&& forall|k: int| 0 <= k < i ==> #[trigger] r[k] == entries[k]
            &&& forall|k: int|
                i <= k < entries.len() ==> object_update(spec, entries[k].1, live) == Ok::<
                    ValueView,
                    ConfigurationErrorView,
                >((#[trigger] r[k]).1)
        }),
    decreases entries.len() - i,
{
    if i < entries.len() {
        let x = object_update(spec, entries[i].1, live)->Ok_0;
        let next = entries.update(i, (entries[i].0, x));
        lemma_entries_update(spec, next, i + 1, live);
        let r = entries_update(spec, entries, i, live)->Ok_0;
        assert(r == entries_update(spec, next, i + 1, live)->Ok_0);
        assert forall|k: int| 0 <= k < r.len() implies (#[trigger] r[k]).0 == entries[k].0 by {
            assert(r[k].0 == next[k].0);
        }
        assert forall|k: int| 0 <= k < i implies #[trigger] r[k] == entries[k] by {
            assert(r[k] == next[k]);
        }
        assert forall|k: int| i <= k < entries.len() implies object_update(
            spec,
            entries[k].1,
            live,
        ) == Ok::<ValueView, ConfigurationErrorView>((#[trigger] r[k]).1) by {
            if k == i {
                assert(r[i] == next[i]);
            } else {
                assert(next[k] == entries[k]);
            }
        }
    }
}

/// What bringing the properties from `i` on up to date gives, where the
/// property names differ from one another: each such property is the old one
/// brought up to date by itself, and what is stored under any other key stays.
pub proof fn lemma_fields_update(spec: ConfigSpec, cfg: ConfigView, i: int, live: LiveView)
    requires
        0 <= i <= spec.0.len(),
        distinct(field_names(spec)),
        fields_update(spec, cfg, i, live) is Ok,
    ensures
        ({
            let r = fields_update(spec, cfg, i, live)->Ok_0;
            &&& forall|k: int|
                i <= k < spec.0.len() ==> node_update(
                    spec.0[k].1,
                    value_at(cfg, #[trigger] spec.0[k].0@),
                    live,
                ) == Ok::<ValueView, ConfigurationErrorView>(
                    value_at(r, spec.0[k].0@),
                )
            &&& forall|key: Seq<char>|
                (forall|k: int| i <= k < spec.0.len() ==> #[trigger] spec.0[k].0@ != key)
                    ==> #[trigger] lookup(r, key) == lookup(cfg, key)
        }),
    decreases spec.0.len() - i,
{
    if i < spec.0.len() {
        let name = spec.0[i].0@;
        let x = node_update(spec.0[i].1, value_at(cfg, name), live)->Ok_0;
        let next = stored(cfg, name, x);
        lemma_fields_update(spec, next, i + 1, live);
        let r = fields_update(spec, cfg, i, live)->Ok_0;
        assert(r == fields_update(spec, next, i + 1, live)->Ok_0);
        assert forall|k: int| i < k < spec.0.len() implies #[trigger] spec.0[k].0@ != name by {
            assert(field_names(spec)[i] == name);
            assert(field_names(spec)[k] == spec.0[k].0@);
        }
        assert(lookup(r, name) == lookup(next, name));
        lemma_stored(cfg, name, x, name);
        assert forall|k: int| i <= k < spec.0.len() implies node_update(
            spec.0[k].1,
            value_at(cfg, #[trigger] spec.0[k].0@),
            live,
        ) == Ok::<ValueView, ConfigurationErrorView>(
            value_at(r, spec.0[k].0@),
        ) by {
            if k != i {
                lemma_stored(cfg, name, x, spec.0[k].0@);
            }
        }
        assert forall|key: Seq<char>|
            (forall|k: int| i <= k < spec.0.len() ==> #[trigger] spec.0[k].0@ != key)
            implies #[trigger] lookup(r, key) == lookup(cfg, key) by {
            assert(spec.0[i].0@ != key);
            lemma_stored(cfg, name, x, key);
            assert(lookup(r, key) == lookup(next, key));
        }
    }
}

/// Where the node holds no pointer, bringing a value up to date changes nothing.
pub proof fn lemma_pointer_free_node(node: ValueSpec, v: ValueView, live: LiveView)
    requires
        node_pointer_free(node),
    ensures
        node_update(node, v, live) == Ok::<ValueView, ConfigurationErrorView>(v),
    decreases node, 0nat, 0nat,
{
    match node {
        ValueSpec::List { spec, range, unique } => match v {
            ValueView::List(items) => {
                lemma_pointer_free_items(*spec, items, 0, live);
            },
            _ => {},
        },
        ValueSpec::Object { spec, null_by_default } => {
            lemma_pointer_free_object(spec, v, live);
        },
        ValueSpec::Union { tag, variants, default } => match v {
            ValueView::Object(cfg) => match lookup(cfg, tag@) {
                Some(ValueView::String(t)) => match index_of(variant_names(variants@), t) {
                    Some(j) => {
                        if 0 <= j < variants.len() {
                            lemma_pointer_free_fields(variants[j].1, cfg, 0, live);
                        }
                    },
                    None => {},
                },
                _ => {},
            },
            _ => {},
        },
        ValueSpec::Mapping { tag, spec } => match v {
            ValueView::Object(entries) => {
                lemma_pointer_free_entries(spec, entries, 0, live);
            },
            _ => {},
        },
        ValueSpec::Nullable(inner) => {
            if !(v is Null) {
                lemma_pointer_free_node(*inner, v, live);
            }
        },
        _ => {},
    }
}

/// Where the item schema holds no pointer, bringing a list up to date changes nothing.
pub proof fn lemma_pointer_free_items(
    elem: ValueSpec,
    items: Seq<ValueView>,
    i: int,
    live: LiveView,
)
    requires
        node_pointer_free(elem),
        0 <= i <= items.len(),
    ensures
        items_update(elem, items, i, live) == Ok::<
            Seq<ValueView>,
            ConfigurationErrorView,
        >(items),
    decreases elem, 1nat, items.len() - i,
{
    if i < items.len() {
        lemma_pointer_free_node(elem, items[i], live);
        assert(items.update(i, items[i]) =~= items);
        lemma_pointer_free_items(elem, items, i + 1, live);
    }
}

/// Where the schema holds no pointer, bringing a configuration up to date
/// changes nothing.
pub proof fn lemma_pointer_free_fields(spec: ConfigSpec, cfg: ConfigView, i: int, live: LiveView)
    requires
        spec_pointer_free(spec),
        0 <= i <= spec.0.len(),
    ensures
        fields_update(spec, cfg, i, live) == Ok::<
            ConfigView,
            ConfigurationErrorView,
        >(cfg),
    decreases spec, 1nat, spec.0.len() - i,
{
    if i < spec.0.len() {
        let name = spec.0[i].0@;
        lemma_pointer_free_node(spec.0[i].1, value_at(cfg, name), live);
        lemma_stored_same(cfg, name);
        lemma_pointer_free_fields(spec, cfg, i + 1, live);
    }
}

/// Where the schema holds no pointer, bringing an object up to date changes nothing.
pub proof fn lemma_pointer_free_object(spec: ConfigSpec, v: ValueView, live: LiveView)
    requires
        spec_pointer_free(spec),
    ensures
        object_update(spec, v, live) == Ok::<ValueView, ConfigurationErrorView>(v),
    decreases spec, 2nat, 0nat,
{
    match v {
        ValueView::Object(cfg) => {
            lemma_pointer_free_fields(spec, cfg, 0, live);
        },
        _ => {},
    }
}

/// Where the entry schema holds no pointer, bringing a map up to date changes nothing.
pub proof fn lemma_pointer_free_entries(
    spec: ConfigSpec,
    entries: ConfigView,
    i: int,
    live: LiveView,
)
    requires
        spec_pointer_free(spec),
        0 <= i <= entries.len(),
    ensures
        entries_update(spec, entries, i, live) == Ok::<
            ConfigView,
            ConfigurationErrorView,
        >(entries),
    decreases spec, 3nat, entries.len() - i,
{
    if i < entries.len() {
        lemma_pointer_free_object(spec, entries[i].1, live);
        assert(entries.update(i, (entries[i].0, entries[i].1)) =~= entries);
        lemma_pointer_free_entries(spec, entries, i + 1, live);
    }
}

/// A value that matches a well-formed node still matches it after its
/// pointers were brought up to date.
pub proof fn lemma_node_update_keeps_match(node: ValueSpec, v: ValueView, live: LiveView)
    requires
        node_well_formed(node),
        node_matches(node, v) is Ok,
        node_update(node, v, live) is Ok,
    ensures
        node_matches(node, node_update(node, v, live)->Ok_0) is Ok,
    decreases node, 0nat,
{
    match node {
        ValueSpec::List { spec, range, unique } => match v {
            ValueView::List(items) => {
                let r = items_update(*spec, items, 0, live)->Ok_0;
                lemma_items_update(*spec, items, 0, live);
                lemma_items_match(*spec, items, 0);
                assert forall|k: int| 0 <= k < r.len() implies node_matches(
                    *spec,
                    #[trigger] r[k],
                ) is Ok by {
                    assert(node_matches(*spec, items[k]) is Ok);
                    lemma_node_update_keeps_match(*spec, items[k], live);
                }
                lemma_items_match(*spec, r, 0);
                if unique {
                    lemma_pointer_free_items(*spec, items, 0, live);
                }
            },
            _ => {},
        },
        ValueSpec::Object { spec, null_by_default } => {
            lemma_object_update_keeps_match(spec, v, live);
        },
        ValueSpec::Union { tag, variants, default } => match v {
            ValueView::Object(cfg) => match lookup(cfg, tag@) {
                Some(ValueView::String(t)) => match index_of(variant_names(variants@), t) {
                    Some(j) => {
                        lemma_index_from(variant_names(variants@), t, 0);
                        let variant = variants[j].1;
                        assert(spec_well_formed(variants[j].1) && !has_field(variants[j].1, tag@));
                        lemma_index_from(field_names(variant), tag@, 0);
                        assert forall|k: int| 0 <= k < variant.0.len() implies #[trigger] variant.0[k].0@
                            != tag@ by {
                            assert(field_names(variant)[k] == variant.0[k].0@);
                        }
                        lemma_fields_update(variant, cfg, 0, live);
                        let r = fields_update(variant, cfg, 0, live)->Ok_0;
                        assert(lookup(r, tag@) == lookup(cfg, tag@));
                        lemma_config_update_keeps_match(variant, cfg, live);
                    },
                    None => {},
                },
                _ => {},
            },
            _ => {},
        },
        ValueSpec::Mapping { tag, spec } => match v {
            ValueView::Object(entries) => {
                let r = entries_update(spec, entries, 0, live)->Ok_0;
                lemma_entries_update(spec, entries, 0, live);
                lemma_entries_match(spec, entries, 0);
                assert forall|k: int| 0 <= k < r.len() implies valid_key((#[trigger] r[k]).0)
                    && object_matches(spec, r[k].1) is Ok by {
                    assert(valid_key(entries[k].0) && object_matches(spec, entries[k].1) is Ok);
                    lemma_object_update_keeps_match(spec, entries[k].1, live);
                }
                lemma_entries_match(spec, r, 0);
            },
            _ => {},
        },
        ValueSpec::Nullable(inner) => {
            if !(v is Null) {
                lemma_node_update_keeps_match(*inner, v, live);
            }
        },
        _ => {},
    }
}

/// An object that matches a well-formed schema still matches it after its
/// pointers were brought up to date.
pub proof fn lemma_object_update_keeps_match(spec: ConfigSpec, v: ValueView, live: LiveView)
    requires
        spec_well_formed(spec),
        object_matches(spec, v) is Ok,
        object_update(spec, v, live) is Ok,
    ensures
        object_matches(spec, object_update(spec, v, live)->Ok_0) is Ok,
    decreases spec, 2nat,
{
    match v {
        ValueView::Object(cfg) => {
            lemma_config_update_keeps_match(spec, cfg, live);
        },
        _ => {},
    }
}

/// Matching survives an update: a configuration that matches a well-formed
/// schema still matches it after every pointer was replaced by its target.
pub proof fn lemma_config_update_keeps_match(spec: ConfigSpec, cfg: ConfigView, live: LiveView)
    requires
        spec_well_formed(spec),
        config_matches(spec, cfg) is Ok,
        config_update(spec, cfg, live) is Ok,
    ensures
        config_matches(spec, config_update(spec, cfg, live)->Ok_0) is Ok,
    decreases spec, 1nat,
{
    let r = fields_update(spec, cfg, 0, live)->Ok_0;
    lemma_fields_update(spec, cfg, 0, live);
    lemma_fields_match(spec, cfg, 0);
    assert forall|k: int| 0 <= k < spec.0.len() implies node_matches(
        spec.0[k].1,
        value_at(r, #[trigger] spec.0[k].0@),
    ) is Ok by {
        let old_value = value_at(cfg, spec.0[k].0@);
        assert(node_matches(spec.0[k].1, old_value) is Ok);
        lemma_node_update_keeps_match(spec.0[k].1, old_value, live);
    }
    lemma_fields_match(spec, r, 0);
}

/// A list whose items each stay as they are stays as it is.
pub proof fn lemma_fixed_items(elem: ValueSpec, items: Seq<ValueView>, i: int, live: LiveView)
    requires
        0 <= i <= items.len(),
        forall|k: int|
            i <= k < items.len() ==> node_update(elem, #[trigger] items[k], live) == Ok::<
                ValueView,
                ConfigurationErrorView,
            >(items[k]),
    ensures
        items_update(elem, items, i, live) == Ok::<
            Seq<ValueView>,
            ConfigurationErrorView,
        >(items),
    decreases items.len() - i,
{
    if i < items.len() {
        assert(items.update(i, items[i]) =~= items);
        lemma_fixed_items(elem, items, i + 1, live);
    }
}

/// A configuration whose properties each stay as they are stays as it is.
pub proof fn lemma_fixed_fields(spec: ConfigSpec, cfg: ConfigView, i: int, live: LiveView)
    requires
        0 <= i <= spec.0.len(),
        forall|k: int|
            i <= k < spec.0.len() ==> node_update(
                spec.0[k].1,
                value_at(cfg, #[trigger] spec.0[k].0@),
                live,
            ) == Ok::<ValueView, ConfigurationErrorView>(
                value_at(cfg, spec.0[k].0@),
            ),
    ensures
        fields_update(spec, cfg, i, live) == Ok::<
            ConfigView,
            ConfigurationErrorView,
        >(cfg),
    decreases spec.0.len() - i,
{
    if i < spec.0.len() {
        let name = spec.0[i].0@;
        assert(node_update(spec.0[i].1, value_at(cfg, name), live) == Ok::<
            ValueView,
            ConfigurationErrorView,
        >(value_at(cfg, name)));
        lemma_stored_same(cfg, name);
        lemma_fixed_fields(spec, cfg, i + 1, live);
    }
}

/// A map whose entries each stay as they are stays as it is.
pub proof fn lemma_fixed_entries(spec: ConfigSpec, entries: ConfigView, i: int, live: LiveView)
    requires
        0 <= i <= entries.len(),
        forall|k: int|
            i <= k < entries.len() ==> object_update(spec, (#[trigger] entries[k]).1, live)
                == Ok::<ValueView, ConfigurationErrorView>(entries[k].1),
    ensures
        entries_update(spec, entries, i, live) == Ok::<
            ConfigView,
            ConfigurationErrorView,
        >(entries),
    decreases entries.len() - i,
{
    if i < entries.len() {
        assert(object_update(spec, entries[i].1, live) == Ok::<
            ValueView,
            ConfigurationErrorView,
        >(entries[i].1));
        assert(entries.update(i, (entries[i].0, entries[i].1)) =~= entries);
        lemma_fixed_entries(spec, entries, i + 1, live);
    }
}

/// A value that was brought up to date against a well-formed node stays as
/// it is when it is brought up to date again.
pub proof fn lemma_node_update_twice(node: ValueSpec, v: ValueView, live: LiveView)
    requires
        node_well_formed(node),
        node_update(node, v, live) is Ok,
    ensures
        node_update(node, node_update(node, v, live)->Ok_0, live) == node_update(node, v, live),
    decreases node, 0nat,
{
    match node {
        ValueSpec::List { spec, range, unique } => match v {
            ValueView::List(items) => {
                let r = items_update(*spec, items, 0, live)->Ok_0;
                lemma_items_update(*spec, items, 0, live);
                assert forall|k: int| 0 <= k < r.len() implies node_update(
                    *spec,
                    #[trigger] r[k],
                    live,
                ) == Ok::<ValueView, ConfigurationErrorView>(r[k]) by {
                    lemma_node_update_twice(*spec, items[k], live);
                }
                lemma_fixed_items(*spec, r, 0, live);
            },
            _ => {},
        },
        ValueSpec::Object { spec, null_by_default } => {
            lemma_object_update_twice(spec, v, live);
        },
        ValueSpec::Union { tag, variants, default } => match v {
            ValueView::Object(cfg) => match lookup(cfg, tag@) {
                Some(ValueView::String(t)) => match index_of(variant_names(variants@), t) {
                    Some(j) => {
                        lemma_index_from(variant_names(variants@), t, 0);
                        let variant = variants[j].1;
                        assert(spec_well_formed(variants[j].1) && !has_field(variants[j].1, tag@));
                        lemma_index_from(field_names(variant), tag@, 0);
                        assert forall|k: int| 0 <= k < variant.0.len() implies #[trigger] variant.0[k].0@
                            != tag@ by {
                            assert(field_names(variant)[k] == variant.0[k].0@);
                        }
                        lemma_fields_update(variant, cfg, 0, live);
                        let r = fields_update(variant, cfg, 0, live)->Ok_0;
                        assert(lookup(r, tag@) == lookup(cfg, tag@));
                        lemma_config_update_twice(variant, cfg, live);
                    },
                    None => {},
                },
                _ => {},
            },
            _ => {},
        },
        ValueSpec::Mapping { tag, spec } => match v {
            ValueView::Object(entries) => {
                let r = entries_update(spec, entries, 0, live)->Ok_0;
                lemma_entries_update(spec, entries, 0, live);
                assert forall|k: int| 0 <= k < r.len() implies object_update(
                    spec,
                    (#[trigger] r[k]).1,
                    live,
                ) == Ok::<ValueView, ConfigurationErrorView>(r[k].1) by {
                    lemma_object_update_twice(spec, entries[k].1, live);
                }
                lemma_fixed_entries(spec, r, 0, live);
            },
            _ => {},
        },
        ValueSpec::Nullable(inner) => {
            if !(v is Null) {
                lemma_node_update_twice(*inner, v, live);
            }
        },
        _ => {},
    }
}

/// An object that was brought up to date against a well-formed schema stays
/// as it is when it is brought up to date again.
pub proof fn lemma_object_update_twice(spec: ConfigSpec, v: ValueView, live: LiveView)
    requires
        spec_well_formed(spec),
        object_update(spec, v, live) is Ok,
    ensures
        object_update(spec, object_update(spec, v, live)->Ok_0, live) == object_update(
            spec,
            v,
            live,
        ),
    decreases spec, 2nat,
{
    match v {
        ValueView::Object(cfg) => {
            lemma_config_update_twice(spec, cfg, live);
        },
        _ => {},
    }
}

/// An update is idempotent: a configuration that was brought up to date
/// against a well-formed schema stays as it is when it is brought up to date
/// again, as long as the configurations pointed to stay the same.
pub proof fn lemma_config_update_twice(spec: ConfigSpec, cfg: ConfigView, live: LiveView)
    requires
        spec_well_formed(spec),
        config_update(spec, cfg, live) is Ok,
    ensures
        config_update(spec, config_update(spec, cfg, live)->Ok_0, live) == config_update(
            spec,
            cfg,
            live,
        ),
    decreases spec, 1nat,
{
    let r = fields_update(spec, cfg, 0, live)->Ok_0;
    lemma_fields_update(spec, cfg, 0, live);
    assert forall|k: int| 0 <= k < spec.0.len() implies node_update(
        spec.0[k].1,
        value_at(r, #[trigger] spec.0[k].0@),
        live,
    ) == Ok::<ValueView, ConfigurationErrorView>(value_at(r, spec.0[k].0@)) by {
        let old_value = value_at(cfg, spec.0[k].0@);
        assert(node_update(spec.0[k].1, old_value, live) == Ok::<
            ValueView,
            ConfigurationErrorView,
        >(value_at(r, spec.0[k].0@)));
        lemma_node_update_twice(spec.0[k].1, old_value, live);
    }
    lemma_fixed_fields(spec, r, 0, live);
}

/// What was stored last under a key is what is read back under it.
pub proof fn lemma_put_last<T>(entries: Seq<(Seq<char>, T)>, key: Seq<char>, v: T)
    ensures
        lookup(put_last(entries, key, v), key) == Some(v),
{
    let kept = without(entries, key);
    let after = put_last(entries, key, v);
    assert forall|k: int| 0 <= k < kept.len() implies (#[trigger] after[k]).0 != key by {
        entries.lemma_filter_pred(not_under::<T>(key), k);
        assert(after[k] == kept[k]);
    }
    lemma_find_is(after, key, kept.len() as int);
}

/// Idempotence of configuring. Let a call have configured the application
/// `name` with the configuration `v`: it arrived at `config`, stored it, and
/// left the application configured and not in need of recovery. Let nothing
/// else have changed: the schema, the rules and the stored configurations
/// that the pointers name are those of `l`. Then a second call with `v` ends
/// at once, by its first step, with a result in which nothing is changed,
/// nothing needs a restart and nothing is stopped; it lists no dependents.
pub proof fn lemma_second_call_changes_nothing(
    name: Seq<char>,
    dry_run: bool,
    v: ConfigView,
    config: ConfigView,
    l: LoadedView,
    cand: Result<ConfigView, ErrorView>,
)
    requires
        validated(name, l.spec, l.rules, v, l.persisted) == Ok::<ConfigView, ErrorView>(config),
        l.old_config == Some(config),
        l.info == Some(AppStatus { configured: true, recoverable: false }),
        step_candidate(
            CascadeView {
                dry_run,
                stack: seq![FrameView::fresh(name, Some(v))],
                res: ConfigurationResView::empty(),
            },
            EventView::Loaded(l),
            cand,
        ),
    ensures
        spec_step(
            CascadeView {
                dry_run,
                stack: seq![FrameView::fresh(name, Some(v))],
                res: ConfigurationResView::empty(),
            },
            EventView::Loaded(l),
            cand,
        ) == StepView::Finish(Ok(ConfigurationResView::empty())),
{
    let start = CascadeView {
        dry_run,
        stack: seq![FrameView::fresh(name, Some(v))],
        res: ConfigurationResView::empty(),
    };
    assert(start.stack.last() == FrameView::fresh(name, Some(v)));
    assert(start.without_top().stack.len() == 0);
    assert(overlay(l.persisted, start.res.changed, 0) == l.persisted);
}

/// Containment of a broken dependent. Let the application in work be a
/// dependent that was just about to be read, let its candidate fail to match
/// its schema, and let the dependent be running when what depends on it has
/// been stopped. Then the cascade marks it as not configured (unless this is
/// a dry run), stops what depends on it, stops the dependent, and goes on
/// with the work of the application below it on the stack. After these steps
/// the dependent is recorded as stopped, with the dependency and the
/// mismatch as the reason, and the record of changed configurations is what
/// it was: the failure of the dependent fails neither its siblings nor the call.
pub proof fn lemma_broken_dependent_is_contained(
    c: CascadeView,
    l: LoadedView,
    cand: Result<ConfigView, ErrorView>,
    stopped: Seq<(Seq<char>, TaggedView)>,
)
    requires
        c.stack.len() >= 2,
        c.stack.last().stage == (StageView::Loading { supplied: None }),
        c.stack[c.stack.len() - 2].stage is Descending,
        c.stack[c.stack.len() - 2].has_dependent(),
        c.stack[c.stack.len() - 2].dependent() == c.stack.last().name,
        l.info is Some,
        step_candidate(c, EventView::Loaded(l), cand),
        cand is Ok,
        config_matches(l.spec, cand->Ok_0) is Err,
    ensures
        ({
            let idle = Ok::<ConfigView, ErrorView>(Seq::empty());
            let dependent = c.stack.last().name;
            let parent = c.stack[c.stack.len() - 2];
            let reason = DependencyErrorView::PointerUpdateError(
                no_match_message(config_matches(l.spec, cand->Ok_0)->Err_0),
            );
            let first = spec_step(c, EventView::Loaded(l), cand);
            let second = if c.dry_run {
                first
            } else {
                spec_step(first->Continue_0, EventView::Done, idle)
            };
            let third = spec_step(
                second->Continue_0,
                EventView::DependentsStopped { stopped, running: true },
                idle,
            );
            let fourth = spec_step(third->Continue_0, EventView::Done, idle);
            &&& first is Continue
            &&& !c.dry_run ==> first->Continue_1 == (ActionView::MarkUnconfigured {
                name: dependent,
            })
            &&& second == StepView::Continue(
                c.without_top().without_top().with_frame(
                    parent.at(StageView::Containing { error: reason }),
                ),
                ActionView::StopDependents { name: dependent },
            )
            &&& third is Continue
            &&& third->Continue_1 == (ActionView::StopApp { name: dependent })
            &&& fourth is Continue
            &&& fourth->Continue_0.res.changed == c.res.changed
            &&& lookup(fourth->Continue_0.res.stopped, dependent) == Some(
                TaggedView { dependency: parent.name, error: reason },
            )
        }),
{
    let idle = Ok::<ConfigView, ErrorView>(Seq::empty());
    let dependent = c.stack.last().name;
    let parent = c.stack[c.stack.len() - 2];
    let rest = c.without_top();
    assert(rest.stack.last() == parent);
    let below = rest.without_top();
    let m = config_matches(l.spec, cand->Ok_0)->Err_0;
    let reason = DependencyErrorView::PointerUpdateError(no_match_message(m));
    let first = spec_step(c, EventView::Loaded(l), cand);
    let second = if c.dry_run {
        first
    } else {
        spec_step(first->Continue_0, EventView::Done, idle)
    };
    let contained = below.with_frame(parent.at(StageView::Containing { error: reason }));
    if !c.dry_run {
        let waiting = below.with_frame(parent.at(StageView::Unconfiguring { error: reason }));
        assert(first == StepView::Continue(
            waiting,
            ActionView::MarkUnconfigured { name: dependent },
        ));
        assert(waiting.stack.last() == parent.at(StageView::Unconfiguring { error: reason }));
        assert(waiting.without_top().stack =~= below.stack);
        assert(waiting.without_top() == below);
    }
    assert(second == StepView::Continue(
        contained,
        ActionView::StopDependents { name: dependent },
    ));
    assert(contained.stack.last() == parent.at(StageView::Containing { error: reason }));
    assert(contained.without_top().stack =~= below.stack);
    assert(contained.without_top() == below);
    let third = spec_step(
        contained,
        EventView::DependentsStopped { stopped, running: true },
        idle,
    );
    let noted = CascadeView {
        res: ConfigurationResView {
            stopped: recorded(below.res.stopped, stopped, 0),
            ..below.res
        },
        ..below
    };
    let stopping = noted.with_frame(parent.at(StageView::Stopping { error: reason }));
    assert(third == StepView::Continue(stopping, ActionView::StopApp { name: dependent }));
    assert(stopping.stack.last() == parent.at(StageView::Stopping { error: reason }));
    assert(stopping.without_top().stack =~= noted.stack);
    assert(stopping.without_top() == noted);
    let fourth = spec_step(stopping, EventView::Done, idle);
    lemma_put_last(
        noted.res.stopped,
        dependent,
        TaggedView { dependency: parent.name, error: reason },
    );
}

/// True when the stack of the cascade is in order: it is not empty; every
/// frame below the last waits for the dependent in turn, which is the
/// application of the frame above it; and the last frame has a dependent in
/// turn if its stage works on one.
pub open spec fn stack_in_order(c: CascadeView) -> bool {
    &&& c.stack.len() > 0
    &&& forall|i: int|
        0 <= i < c.stack.len() - 1 ==> (#[trigger] c.stack[i]).stage is Descending
            && c.stack[i].has_dependent() && c.stack[i].dependent() == c.stack[i + 1].name
    &&& on_dependent(c.stack.last().stage) ==> c.stack.last().has_dependent()
    &&& !(c.stack.last().stage is Descending)
}

/// True when the frames are those of a stack that lacks its last frame.
pub open spec fn frames_below(c: CascadeView) -> bool {
    forall|i: int|
        0 <= i < c.stack.len() - 1 ==> (#[trigger] c.stack[i]).stage is Descending
            && c.stack[i].has_dependent() && c.stack[i].dependent() == c.stack[i + 1].name
}

/// True when `c` holds what is below a frame for the application `name`.
pub open spec fn waits_for(c: CascadeView, name: Seq<char>) -> bool {
    frames_below(c) && (c.stack.len() > 0 ==> c.stack.last().stage is Descending
        && c.stack.last().has_dependent() && c.stack.last().dependent() == name)
}

/// True when a step leaves the stack in order, if it goes on at all.
pub open spec fn goes_on_in_order(s: StepView) -> bool {
    s matches StepView::Continue(c, _) ==> stack_in_order(c)
}

/// The cascade begins with its stack in order.
pub proof fn lemma_begin_in_order(name: Seq<char>, supplied: Option<ConfigView>, dry_run: bool)
    ensures
        stack_in_order(
            CascadeView {
                dry_run,
                stack: seq![FrameView::fresh(name, supplied)],
                res: ConfigurationResView::empty(),
            },
        ),
{
}

/// Putting a frame that fits on top of what waits for it gives a stack in order.
pub proof fn lemma_with_frame(c: CascadeView, f: FrameView)
    requires
        waits_for(c, f.name),
        on_dependent(f.stage) ==> f.has_dependent(),
        !(f.stage is Descending),
    ensures
        stack_in_order(c.with_frame(f)),
{
    let next = c.with_frame(f);
    assert forall|i: int| 0 <= i < next.stack.len() - 1 implies (#[trigger] next.stack[i]).stage is Descending
        && next.stack[i].has_dependent() && next.stack[i].dependent() == next.stack[i + 1].name by {
        if i < c.stack.len() - 1 {
            assert(next.stack[i] == c.stack[i]);
            assert(next.stack[i + 1] == c.stack[i + 1]);
        } else {
            assert(next.stack[i] == c.stack.last());
        }
    }
}

/// What is below the last frame of a stack in order waits for that frame.
pub proof fn lemma_without_top(c: CascadeView)
    requires
        stack_in_order(c),
    ensures
        waits_for(c.without_top(), c.stack.last().name),
{
    let rest = c.without_top();
    assert forall|i: int| 0 <= i < rest.stack.len() - 1 implies (#[trigger] rest.stack[i]).stage is Descending
        && rest.stack[i].has_dependent() && rest.stack[i].dependent() == rest.stack[i + 1].name by {
        assert(rest.stack[i] == c.stack[i]);
        assert(rest.stack[i + 1] == c.stack[i + 1]);
    }
    if rest.stack.len() > 0 {
        let top = rest.stack.len() - 1;
        assert(rest.stack.last() == c.stack[top]);
        assert(c.stack[top + 1] == c.stack.last());
    }
}

/// Going on with the dependent in turn, or settling, leaves the stack in order.
pub proof fn lemma_advance_in_order(c: CascadeView, f: FrameView)
    requires
        waits_for(c, f.name),
    ensures
        goes_on_in_order(spec_advance(c, f)),
{
    if f.has_dependent() {
        let waiting = f.at(StageView::Descending);
        let below = c.with_frame(waiting);
        let child = FrameView::fresh(f.dependent(), None);
        assert forall|i: int| 0 <= i < below.stack.len() - 1 implies (#[trigger] below.stack[i]).stage is Descending
            && below.stack[i].has_dependent() && below.stack[i].dependent() == below.stack[i
            + 1].name by {
            if i < c.stack.len() - 1 {
                assert(below.stack[i] == c.stack[i]);
                assert(below.stack[i + 1] == c.stack[i + 1]);
            } else {
                assert(below.stack[i] == c.stack.last());
            }
        }
        assert(below.stack.last() == waiting);
        lemma_with_frame(below, child);
    } else if !c.dry_run {
        lemma_with_frame(c, f.at(StageView::Persisting));
    } else {
        lemma_with_frame(c, f.at(StageView::Probing));
    }
}

/// Finishing the application in work leaves the stack in order.
pub proof fn lemma_complete_in_order(c: CascadeView, result: Result<ConfigView, ErrorView>)
    requires
        frames_below(c),
        c.stack.len() > 0 ==> c.stack.last().stage is Descending,
    ensures
        goes_on_in_order(spec_complete(c, result)),
{
    if c.stack.len() > 0 {
        let p = c.stack.last();
        let rest = c.without_top();
        if p.has_dependent() {
            assert forall|i: int| 0 <= i < rest.stack.len() - 1 implies (#[trigger] rest.stack[i]).stage is Descending
                && rest.stack[i].has_dependent() && rest.stack[i].dependent() == rest.stack[i
                + 1].name by {
                assert(rest.stack[i] == c.stack[i]);
                assert(rest.stack[i + 1] == c.stack[i + 1]);
            }
            if rest.stack.len() > 0 {
                let top = rest.stack.len() - 1;
                assert(rest.stack.last() == c.stack[top]);
                assert(c.stack[top + 1] == p);
            }
            assert(waits_for(rest, p.name));
            match result {
                Ok(_) => {
                    lemma_with_frame(rest, p.at(StageView::Checking));
                },
                Err(e) => {
                    let pointer = DependencyErrorView::PointerUpdateError(e.message);
                    let other = DependencyErrorView::Other(e.message);
                    lemma_with_frame(rest, p.at(StageView::Unconfiguring { error: pointer }));
                    lemma_with_frame(rest, p.at(StageView::Containing { error: pointer }));
                    lemma_with_frame(rest, p.at(StageView::Containing { error: other }));
                },
            }
        }
    }
}

/// The cascade keeps its stack in order: a step on a stack in order leaves
/// a stack in order, if it goes on at all.
pub proof fn lemma_step_keeps_order(
    c: CascadeView,
    event: EventView,
    cand: Result<ConfigView, ErrorView>,
)
    requires
        stack_in_order(c),
    ensures
        goes_on_in_order(spec_step(c, event, cand)),
{
    let f = c.stack.last();
    let rest = c.without_top();
    lemma_without_top(c);
    if event is Failed {
        lemma_complete_in_order(rest, Err(event->Failed_0));
    } else if on_dependent(f.stage) && !f.has_dependent() {
    } else {
        match (f.stage, event) {
            (StageView::Loading { supplied }, EventView::Loaded(l)) => {
                match l.info {
                    None => {
                        lemma_complete_in_order(
                            rest,
                            Err(not_installed(f.name)),
                        );
                    },
                    Some(info) => match cand {
                        Err(e) => {
                            lemma_complete_in_order(rest, Err(e));
                        },
                        Ok(candidate) => {
                            let verdict = validated(
                                f.name,
                                l.spec,
                                l.rules,
                                candidate,
                                overlay(l.persisted, rest.res.changed, 0),
                            );
                            match verdict {
                                Err(e) => {
                                    lemma_complete_in_order(rest, Err(e));
                                },
                                Ok(config) => {
                                    lemma_complete_in_order(rest, Ok(config));
                                    let noted = CascadeView {
                                        res: ConfigurationResView {
                                            changed: put_last(rest.res.changed, f.name, config),
                                            ..rest.res
                                        },
                                        ..rest
                                    };
                                    assert(noted.stack == rest.stack);
                                    lemma_with_frame(
                                        noted,
                                        FrameView { config, stage: StageView::Listing, ..f },
                                    );
                                },
                            }
                        },
                    },
                }
            },
            (StageView::Listing, EventView::Dependents(names)) => {
                lemma_advance_in_order(rest, FrameView { dependents: names, next: 0, ..f });
            },
            (StageView::Checking, EventView::Requirement(None)) => {
                lemma_advance_in_order(rest, f.forward());
            },
            (StageView::Checking, EventView::Requirement(Some(error))) => {
                lemma_with_frame(rest, f.at(StageView::Containing { error }));
            },
            (StageView::Unconfiguring { error }, EventView::Done) => {
                lemma_with_frame(rest, f.at(StageView::Containing { error }));
            },
            (
                StageView::Containing { error },
                EventView::DependentsStopped { stopped, running },
            ) => {
                let noted = CascadeView {
                    res: ConfigurationResView {
                        stopped: recorded(rest.res.stopped, stopped, 0),
                        ..rest.res
                    },
                    ..rest
                };
                assert(noted.stack == rest.stack);
                lemma_with_frame(noted, f.at(StageView::Stopping { error }));
                lemma_advance_in_order(noted, f.forward());
            },
            (StageView::Stopping { error }, EventView::Done) => {
                let noted = CascadeView {
                    res: ConfigurationResView {
                        stopped: put_last(
                            rest.res.stopped,
                            f.dependent(),
                            TaggedView { dependency: f.name, error },
                        ),
                        ..rest.res
                    },
                    ..rest
                };
                assert(noted.stack == rest.stack);
                lemma_advance_in_order(noted, f.forward());
            },
            (StageView::Persisting, EventView::Done) => {
                lemma_with_frame(rest, f.at(StageView::Probing));
            },
            (StageView::Probing, EventView::Status(running)) => {
                lemma_complete_in_order(rest, Ok(f.config));
                lemma_with_frame(rest, f.at(StageView::Flagging));
                let noted = spec_restart(rest, f.name);
                assert(noted.stack == rest.stack);
                lemma_complete_in_order(noted, Ok(f.config));
            },
            (StageView::Flagging, EventView::Done) => {
                let noted = spec_restart(rest, f.name);
                assert(noted.stack == rest.stack);
                lemma_complete_in_order(noted, Ok(f.config));
            },
            _ => {},
        }
    }
}

} // verus!
