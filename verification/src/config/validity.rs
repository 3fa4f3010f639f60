//! Which schemas are well formed.

use vstd::prelude::*;
use crate::config::spec::{field_names, has_field, ConfigSpec, ValueSpec};

verus! {

/// True when no two of the names are equal.
pub open spec fn distinct(names: Seq<Seq<char>>) -> bool {
    forall|i: int, j: int| 0 <= i < j < names.len() ==> names[i] != names[j]
}

/// True when no pointer stands at or below the node.
pub open spec fn node_pointer_free(node: ValueSpec) -> bool
    decreases node, 0nat,
{
    match node {
        ValueSpec::Pointer(_) => false,
        ValueSpec::List { spec, range, unique } => node_pointer_free(*spec),
        ValueSpec::Object { spec, null_by_default } => spec_pointer_free(spec),
        ValueSpec::Union { tag, variants, default } => forall|j: int|
            0 <= j < variants.len() ==> spec_pointer_free(#[trigger] variants[j].1),
        ValueSpec::Mapping { tag, spec } => spec_pointer_free(spec),
        ValueSpec::Nullable(inner) => node_pointer_free(*inner),
        _ => true,
    }
}

/// True when no pointer stands in the schema.
pub open spec fn spec_pointer_free(spec: ConfigSpec) -> bool
    decreases spec, 1nat,
{
    forall|i: int| 0 <= i < spec.0.len() ==> node_pointer_free(#[trigger] spec.0[i].1)
}

/// True when the node and everything below it is well formed: the property
/// names of every object schema differ from one another; no variant of a
/// union declares the union's tag, and the entries of no mapping declare the
/// mapping's tag; and a list that demands unique items holds no pointer.
pub open spec fn node_well_formed(node: ValueSpec) -> bool
    decreases node, 0nat,
{
    match node {
        ValueSpec::List { spec, range, unique } => node_well_formed(*spec) && (unique
            ==> node_pointer_free(*spec)),
        ValueSpec::Object { spec, null_by_default } => spec_well_formed(spec),
        ValueSpec::Union { tag, variants, default } => forall|j: int|
            0 <= j < variants.len() ==> spec_well_formed(#[trigger] variants[j].1) && !has_field(
                variants[j].1,
                tag@,
            ),
        ValueSpec::Mapping { tag, spec } => spec_well_formed(spec) && !has_field(spec, tag@),
        ValueSpec::Nullable(inner) => node_well_formed(*inner),
        _ => true,
    }
}

/// True when the schema is well formed: its property names differ from one
/// another, and every node in it is well formed.
pub open spec fn spec_well_formed(spec: ConfigSpec) -> bool
    decreases spec, 1nat,
{
    distinct(field_names(spec)) && forall|i: int|
        0 <= i < spec.0.len() ==> node_well_formed(#[trigger] spec.0[i].1)
}

/// True when no two of the property names of the schema are equal.
pub fn has_distinct_names(spec: &ConfigSpec) -> (res: bool)
    ensures
        res == distinct(field_names(*spec)),
{
    let n = spec.0.len();
    let ghost names = field_names(*spec);
    let mut i: usize = 0;
    while i < n
        invariant
            n == spec.0.len(),
            names == field_names(*spec),
            i <= n,
            forall|a: int, b: int| 0 <= a < i && a < b < n ==> names[a] != names[b],
        decreases n - i,
    {
        let mut j: usize = i + 1;
        while j < n
            invariant
                n == spec.0.len(),
                names == field_names(*spec),
                i < n,
                i < j <= n,
                forall|a: int, b: int| 0 <= a < i && a < b < n ==> names[a] != names[b],
                forall|b: int| i < b < j ==> names[i as int] != names[b],
            decreases n - j,
        {
            proof {
                assert(names[i as int] == spec.0[i as int].0@);
                assert(names[j as int] == spec.0[j as int].0@);
            }
            if spec.0[i].0 == spec.0[j].0 {
                return false;
            }
            j += 1;
        }
        i += 1;
    }
    true
}

impl ConfigSpec {
    /// True when no pointer stands in the schema.
    #[verifier::loop_isolation(false)]
    pub fn is_pointer_free(&self) -> (res: bool)
        ensures
            res == spec_pointer_free(*self),
        decreases self, 1nat,
    {
        let mut i: usize = 0;
        while i < self.0.len()
            invariant
                i <= self.0.len(),
                forall|k: int| 0 <= k < i ==> node_pointer_free(#[trigger] self.0[k].1),
            decreases self.0.len() - i,
        {
            if !self.0[i].1.is_pointer_free() {
                return false;
            }
            i += 1;
        }
        true
    }

    /// True when the schema is well formed.
    #[verifier::loop_isolation(false)]
    pub fn is_well_formed(&self) -> (res: bool)
        ensures
            res == spec_well_formed(*self),
        decreases self, 1nat,
    {
        if !has_distinct_names(self) {
            return false;
        }
        let mut i: usize = 0;
        while i < self.0.len()
            invariant
                i <= self.0.len(),
                forall|k: int| 0 <= k < i ==> node_well_formed(#[trigger] self.0[k].1),
            decreases self.0.len() - i,
        {
            if !self.0[i].1.is_well_formed() {
                return false;
            }
            i += 1;
        }
        true
    }
}

impl ValueSpec {
    /// True when no pointer stands at or below the node.
    #[verifier::loop_isolation(false)]
    pub fn is_pointer_free(&self) -> (res: bool)
        ensures
            res == node_pointer_free(*self),
        decreases self, 0nat,
    {
        match self {
            ValueSpec::Pointer(_) => false,
            ValueSpec::List { spec, range, unique } => spec.is_pointer_free(),
            ValueSpec::Object { spec, null_by_default } => spec.is_pointer_free(),
            ValueSpec::Union { tag, variants, default } => {
                let mut j: usize = 0;
                while j < variants.len()
                    invariant
                        j <= variants.len(),
                        forall|k: int| 0 <= k < j ==> spec_pointer_free(#[trigger] variants[k].1),
                    decreases variants.len() - j,
                {
                    if !variants[j].1.is_pointer_free() {
                        return false;
                    }
                    j += 1;
                }
                true
            },
            ValueSpec::Mapping { tag, spec } => spec.is_pointer_free(),
            ValueSpec::Nullable(inner) => inner.is_pointer_free(),
            _ => true,
        }
    }

    /// True when the node and everything below it is well formed.
    #[verifier::loop_isolation(false)]
    pub fn is_well_formed(&self) -> (res: bool)
        ensures
            res == node_well_formed(*self),
        decreases self, 0nat,
    {
        match self {
            ValueSpec::List { spec, range, unique } => {
                spec.is_well_formed() && (!*unique || spec.is_pointer_free())
            },
            ValueSpec::Object { spec, null_by_default } => spec.is_well_formed(),
            ValueSpec::Union { tag, variants, default } => {
                let mut j: usize = 0;
                while j < variants.len()
                    invariant
                        j <= variants.len(),
                        forall|k: int|
                            0 <= k < j ==> spec_well_formed(#[trigger] variants[k].1) && !has_field(
                                variants[k].1,
                                tag@,
                            ),
                    decreases variants.len() - j,
                {
                    if !variants[j].1.is_well_formed() || variants[j].1.declares(tag.as_str()) {
                        return false;
                    }
                    j += 1;
                }
                true
            },
            ValueSpec::Mapping { tag, spec } => spec.is_well_formed() && !spec.declares(
                tag.as_str(),
            ),
            ValueSpec::Nullable(inner) => inner.is_well_formed(),
            _ => true,
        }
    }
}

} // verus!
