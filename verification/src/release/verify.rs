//! Verification: does the object store show what a release asks for?

use crate::identifier::{Identifier, IdentifierView};
use crate::json::{
    items_view, lookup, members_view, Members, Value, ValueView,
};
use crate::k8s::api_resource::ApiResource;
use crate::k8s::labels::{Labels, ListParams};
use crate::k8s::{ObjectType, ReleaseName};
use crate::objects::{DynamicObject, Object, ObjectView, Objects};
use crate::sorted_map::{as_map, lemma_entry, position, Duplicate, SortedMap};
use crate::text::{decimal, decimal_string};
use std::collections::VecDeque;
use vstd::prelude::*;

verus! {

/// Where a document first departs from what is asked of it: the path of
/// keys and indices down to that place, or nothing where it meets the
/// demand.
///
/// Scalars must be equal. Lists must have the same length and meet the
/// demand item by item. An object must have every member that is asked for,
/// with a value that meets the demand on that member; what else it has
/// does not count. Values of different kinds never match.
pub open spec fn divergence(spec: ValueView, instance: ValueView) -> Option<Seq<Seq<char>>>
    decreases spec, 0nat,
{
    match (spec, instance) {
        (ValueView::Null, ValueView::Null) => None,
        (ValueView::Bool(a), ValueView::Bool(b)) => if a == b {
            None
        } else {
            Some(Seq::empty())
        },
        (ValueView::Number(a), ValueView::Number(b)) => if a.same(b) {
            None
        } else {
            Some(Seq::empty())
        },
        (ValueView::String(a), ValueView::String(b)) => if a == b {
            None
        } else {
            Some(Seq::empty())
        },
        (ValueView::Array(a), ValueView::Array(b)) => if a.len() == b.len() {
            items_divergence(a, b, 0)
        } else {
            Some(Seq::empty())
        },
        (ValueView::Object(a), ValueView::Object(b)) => members_divergence(a, b, 0),
        _ => Some(Seq::empty()),
    }
}

/// The first divergence among the items from `from` on, under the index of
/// its item.
pub open spec fn items_divergence(spec: Seq<ValueView>, instance: Seq<ValueView>, from: nat) -> Option<
    Seq<Seq<char>>,
>
    decreases spec, spec.len() - from,
{
    if from >= spec.len() || from >= instance.len() {
        None
    } else {
        match divergence(spec[from as int], instance[from as int]) {
            Some(rest) => Some(seq![decimal(from)] + rest),
            None => items_divergence(spec, instance, from + 1),
        }
    }
}

/// The first divergence among the members asked for from `from` on, under
/// the key of its member. A member that is missing diverges at its key.
pub open spec fn members_divergence(spec: Members, instance: Members, from: nat) -> Option<
    Seq<Seq<char>>,
>
    decreases spec, spec.len() - from,
{
    if from >= spec.len() {
        None
    } else {
        let key = spec[from as int].0;
        match lookup(instance, key) {
            None => Some(seq![key]),
            Some(found) => match divergence(spec[from as int].1, found) {
                Some(rest) => Some(seq![key] + rest),
                None => members_divergence(spec, instance, from + 1),
            },
        }
    }
}

/// The document meets the demand.
pub open spec fn matches_spec(spec: ValueView, instance: ValueView) -> bool {
    divergence(spec, instance) is None
}

/// The document meets the demand, said without regard to where it fails:
/// equal scalars, lists of one length that match item by item, and objects
/// that hold a matching value under every key that is asked for.
pub open spec fn conforms(spec: ValueView, instance: ValueView) -> bool
    decreases spec,
{
    match (spec, instance) {
        (ValueView::Null, ValueView::Null) => true,
        (ValueView::Bool(a), ValueView::Bool(b)) => a == b,
        (ValueView::Number(a), ValueView::Number(b)) => a.same(b),
        (ValueView::String(a), ValueView::String(b)) => a == b,
        (ValueView::Array(a), ValueView::Array(b)) => {
            &&& a.len() == b.len()
            &&& forall|i: int| 0 <= i < a.len() ==> conforms(#[trigger] a[i], b[i])
        },
        (ValueView::Object(a), ValueView::Object(b)) => forall|i: int|
            0 <= i < a.len() ==> {
                &&& lookup(b, (#[trigger] a[i]).0) is Some
                &&& conforms(a[i].1, lookup(b, a[i].0)->Some_0)
            },
        _ => false,
    }
}

/// A document has no divergence exactly when it conforms.
pub proof fn lemma_divergence_conforms(spec: ValueView, instance: ValueView)
    ensures
        divergence(spec, instance) is None <==> conforms(spec, instance),
    decreases spec, 0nat,
{
    match (spec, instance) {
        (ValueView::Array(a), ValueView::Array(b)) => {
            if a.len() == b.len() {
                lemma_items_conform(a, b, 0);
            }
        },
        (ValueView::Object(a), ValueView::Object(b)) => {
            lemma_members_conform(a, b, 0);
        },
        _ => {},
    }
}

proof fn lemma_items_conform(a: Seq<ValueView>, b: Seq<ValueView>, from: nat)
    requires
        a.len() == b.len(),
    ensures
        items_divergence(a, b, from) is None <==> (forall|i: int|
            from <= i < a.len() ==> conforms(#[trigger] a[i], b[i])),
    decreases a, a.len() - from,
{
    if from < a.len() {
        lemma_divergence_conforms(a[from as int], b[from as int]);
        lemma_items_conform(a, b, from + 1);
        if items_divergence(a, b, from) is None {
            assert forall|i: int| from <= i < a.len() implies conforms(#[trigger] a[i], b[i]) by {
                if i > from {
                    assert(from + 1 <= i);
                }
            }
        }
    }
}

proof fn lemma_members_conform(a: Members, b: Members, from: nat)
    ensures
        members_divergence(a, b, from) is None <==> (forall|i: int|
            from <= i < a.len() ==> {
                &&& lookup(b, (#[trigger] a[i]).0) is Some
                &&& conforms(a[i].1, lookup(b, a[i].0)->Some_0)
            }),
    decreases a, a.len() - from,
{
    if from < a.len() {
        let key = a[from as int].0;
        if lookup(b, key) is Some {
            lemma_divergence_conforms(a[from as int].1, lookup(b, key)->Some_0);
        }
        lemma_members_conform(a, b, from + 1);
        if members_divergence(a, b, from) is None {
            assert forall|i: int| from <= i < a.len() implies {
                &&& lookup(b, (#[trigger] a[i]).0) is Some
                &&& conforms(a[i].1, lookup(b, a[i].0)->Some_0)
            } by {
                if i > from {
                    assert(from + 1 <= i);
                }
            }
        }
    }
}

/// Every well-formed document meets its own demand.
pub proof fn lemma_conforms_reflexive(spec: ValueView)
    requires
        spec.wf(),
    ensures
        conforms(spec, spec),
        divergence(spec, spec) is None,
    decreases spec,
{
    match spec {
        ValueView::Array(a) => {
            assert forall|i: int| 0 <= i < a.len() implies conforms(#[trigger] a[i], a[i]) by {
                lemma_conforms_reflexive(a[i]);
            }
        },
        ValueView::Object(a) => {
            assert forall|i: int| 0 <= i < a.len() implies {
                &&& lookup(a, (#[trigger] a[i]).0) is Some
                &&& conforms(a[i].1, lookup(a, a[i].0)->Some_0)
            } by {
                crate::json::lemma_distinct_lookup(a, i);
                lemma_conforms_reflexive(a[i].1);
            }
        },
        _ => {},
    }
    lemma_divergence_conforms(spec, spec);
}

/// One document holds all that another holds: the same scalars, lists of
/// the same length that do so item by item, and objects that hold as much
/// under every key of the other. It may hold more keys.
pub open spec fn holds_all_of(bigger: ValueView, instance: ValueView) -> bool
    decreases instance,
{
    match (instance, bigger) {
        (ValueView::Array(a), ValueView::Array(b)) => {
            &&& a.len() == b.len()
            &&& forall|i: int| 0 <= i < a.len() ==> holds_all_of(b[i], #[trigger] a[i])
        },
        (ValueView::Object(a), ValueView::Object(b)) => forall|i: int|
            0 <= i < a.len() ==> {
                &&& lookup(b, (#[trigger] a[i]).0) is Some
                &&& holds_all_of(lookup(b, a[i].0)->Some_0, a[i].1)
            },
        (ValueView::Array(_), _) => false,
        (ValueView::Object(_), _) => false,
        _ => instance == bigger,
    }
}

/// Keys that a document holds beyond what is asked for do not make it fail:
/// a document that holds all of a conforming document conforms too.
pub proof fn lemma_extra_keys_ignored(spec: ValueView, instance: ValueView, bigger: ValueView)
    requires
        conforms(spec, instance),
        holds_all_of(bigger, instance),
    ensures
        conforms(spec, bigger),
    decreases spec,
{
    match (spec, instance, bigger) {
        (ValueView::Array(s), ValueView::Array(a), ValueView::Array(b)) => {
            assert forall|i: int| 0 <= i < s.len() implies conforms(#[trigger] s[i], b[i]) by {
                assert(conforms(s[i], a[i]));
                assert(holds_all_of(b[i], a[i]));
                lemma_extra_keys_ignored(s[i], a[i], b[i]);
            }
        },
        (ValueView::Object(s), ValueView::Object(a), ValueView::Object(b)) => {
            assert forall|i: int| 0 <= i < s.len() implies {
                &&& lookup(b, (#[trigger] s[i]).0) is Some
                &&& conforms(s[i].1, lookup(b, s[i].0)->Some_0)
            } by {
                let key = s[i].0;
                assert(lookup(a, key) is Some);
                crate::json::lemma_has_key_first(a, key);
                let p = crate::json::index_of(a, key);
                assert(a[p].0 == key);
                assert(lookup(b, a[p].0) is Some);
                lemma_extra_keys_ignored(s[i].1, a[p].1, lookup(b, key)->Some_0);
            }
        },
        _ => {},
    }
}

/// A list of another length than the one asked for fails at once, whatever
/// it holds.
pub proof fn lemma_extra_items_fail(spec: Seq<ValueView>, instance: Seq<ValueView>)
    requires
        spec.len() != instance.len(),
    ensures
        !conforms(ValueView::Array(spec), ValueView::Array(instance)),
        divergence(ValueView::Array(spec), ValueView::Array(instance)) == Some(
            Seq::<Seq<char>>::empty(),
        ),
{
}

/// Finds where a document first departs from what is asked of it.
#[verifier::loop_isolation(false)]
pub fn first_divergence(spec: &Value, instance: &Value) -> (r: Option<VecDeque<String>>)
    ensures
        match divergence(spec@, instance@) {
            None => r is None,
            Some(rest) => r is Some && r->Some_0.deep_view() == rest,
        },
    decreases spec,
{
    let here: VecDeque<String> = VecDeque::new();
    assert(here.deep_view() =~= Seq::<Seq<char>>::empty());
    match (spec, instance) {
        (Value::Null, Value::Null) => None,
        (Value::Bool(a), Value::Bool(b)) => if *a == *b {
            None
        } else {
            Some(here)
        },
        (Value::Number(a), Value::Number(b)) => if a.equals(b) {
            None
        } else {
            Some(here)
        },
        (Value::String(a), Value::String(b)) => if *a == *b {
            None
        } else {
            Some(here)
        },
        (Value::Array(a), Value::Array(b)) => {
            proof {
                Value::lemma_view_array(*a);
                Value::lemma_view_array(*b);
            }
            if a.len() != b.len() {
                return Some(here);
            }
            let ghost sv = items_view(a@);
            let ghost iv = items_view(b@);
            let mut i: usize = 0;
            while i < a.len()
                invariant
                    i <= a.len(),
                    items_divergence(sv, iv, 0) == items_divergence(sv, iv, i as nat),
                decreases a.len() - i,
            {
                assert(decreases_to!(*a => a@[i as int]));
                match first_divergence(&a[i], &b[i]) {
                    Some(rest) => {
                        let mut path = rest;
                        path.push_front(decimal_string(i));
                        assert(path.deep_view() =~= seq![decimal(i as nat)] + rest.deep_view());
                        return Some(path);
                    },
                    None => {},
                }
                i += 1;
            }
            None
        },
        (Value::Object(a), Value::Object(_)) => {
            proof {
                Value::lemma_view_object(*a);
            }
            let ghost sv = members_view(a@);
            let ghost iv = instance@->Object_0;
            let mut i: usize = 0;
            while i < a.len()
                invariant
                    i <= a.len(),
                    members_divergence(sv, iv, 0) == members_divergence(sv, iv, i as nat),
                decreases a.len() - i,
            {
                assert(decreases_to!(*a => a@[i as int]));
                let found = match instance.get(a[i].0.as_str()) {
                    Some(found) => found,
                    None => {
                        let mut path = here;
                        path.push_front(a[i].0.clone());
                        assert(path.deep_view() =~= seq![a@[i as int].0@]);
                        return Some(path);
                    },
                };
                match first_divergence(&a[i].1, found) {
                    Some(rest) => {
                        let mut path = rest;
                        path.push_front(a[i].0.clone());
                        assert(path.deep_view() =~= seq![a@[i as int].0@] + rest.deep_view());
                        return Some(path);
                    },
                    None => {},
                }
                i += 1;
            }
            None
        },
        _ => Some(here),
    }
}

/// Compares a document with what is asked of it. Where the document
/// diverges, the error is `path` followed by the keys and indices down to
/// the first divergence.
pub fn check_value(spec: &Value, instance: &Value, path: VecDeque<String>) -> (r: Result<
    (),
    VecDeque<String>,
>)
    ensures
        match divergence(spec@, instance@) {
            None => r is Ok,
            Some(rest) => r is Err && r->Err_0.deep_view() == path.deep_view() + rest,
        },
{
    match first_divergence(spec, instance) {
        None => Ok(()),
        Some(rest) => {
            let mut path = path;
            let mut rest = rest;
            let ghost head = path.deep_view();
            let ghost tail = rest.deep_view();
            path.append(&mut rest);
            assert(path.deep_view() =~= head + tail);
            Err(path)
        },
    }
}

/// Tells whether every name of `spec` has the same value in `instance`.
pub fn check_mapping(spec: &SortedMap<String, String>, instance: &SortedMap<String, String>) -> (r:
    bool)
    ensures
        r == spec@.submap_of(instance@),
{
    let n = spec.len();
    let ghost entries = spec.entries();
    let mut i: usize = 0;
    while i < n
        invariant
            i <= n,
            n == entries.len(),
            entries == spec.entries(),
            as_map(entries) == spec@,
            crate::sorted_map::ascending::<String, Seq<char>>(entries),
            forall|j: int|
                0 <= j < i ==> instance@.contains_key((#[trigger] entries[j]).0) && instance@[entries[j].0]
                    == entries[j].1,
        decreases n - i,
    {
        proof {
            lemma_entry::<String, Seq<char>>(entries, i as int);
        }
        let same = match instance.get(spec.key_at(i)) {
            Some(value) => *value == *spec.value_at(i),
            None => false,
        };
        if !same {
            return false;
        }
        i += 1;
    }
    assert forall|k: Seq<char>| spec@.contains_key(k) implies instance@.contains_key(k)
        && spec@[k] == instance@[k] by {
        let p = position(entries, k);
        lemma_entry::<String, Seq<char>>(entries, p);
    }
    true
}

/// What selects the objects of a release in the store: the label that says
/// they are managed, and the label of the release.
pub open spec fn release_labels(release_name: Seq<char>) -> Map<Seq<char>, Seq<char>> {
    Map::<Seq<char>, Seq<char>>::empty().insert(
        crate::k8s::TYPE_KEY@,
        ObjectType::Managed.text(),
    ).insert(crate::k8s::RELEASE_KEY@, release_name)
}

/// The parameters of a list of the objects of a release.
pub fn release_list_params(release_name: String) -> (r: ListParams)
    ensures
        r.timeout is None,
        r.label_selector is Some,
        r.label_selector->Some_0@ == crate::k8s::labels::selector_of(
            crate::sorted_map::sorted_entries::<String, Seq<char>>(release_labels(release_name@)),
        ),
{
    Labels::from(ObjectType::Managed).add(ReleaseName(release_name)).to_listparams()
}

/// The content of what was listed for some resource types.
pub open spec fn listed_view(listed: Seq<(ApiResource, Vec<DynamicObject>)>) -> Seq<
    (crate::k8s::api_resource::ApiResourceView, Seq<crate::objects::DynamicObjectView>),
> {
    Seq::new(listed.len(), |i: int| (listed[i].0@, crate::objects::documents_view(listed[i].1@)))
}

/// The collection with a listed body of a resource type put in: under the
/// identifier of its name, over what was there; a body without a name is
/// left out.
pub open spec fn collected(
    objects: Map<IdentifierView, ObjectView>,
    api_resource: crate::k8s::api_resource::ApiResourceView,
    item: crate::objects::DynamicObjectView,
) -> Map<IdentifierView, ObjectView> {
    match item.metadata.name {
        Some(name) => objects.insert(
            crate::identifier::identifier_of(name, api_resource),
            ObjectView { api_resource, dyn_object: item },
        ),
        None => objects,
    }
}

/// The collection with the first `upto` bodies of a resource type put in.
pub open spec fn collected_items(
    objects: Map<IdentifierView, ObjectView>,
    api_resource: crate::k8s::api_resource::ApiResourceView,
    items: Seq<crate::objects::DynamicObjectView>,
    upto: nat,
) -> Map<IdentifierView, ObjectView>
    decreases upto,
{
    if upto == 0 || upto > items.len() {
        objects
    } else {
        collected(
            collected_items(objects, api_resource, items, (upto - 1) as nat),
            api_resource,
            items[upto - 1],
        )
    }
}

/// The collection with what was listed for the first `upto` resource types
/// put in.
pub open spec fn collected_all(
    listed: Seq<(crate::k8s::api_resource::ApiResourceView, Seq<crate::objects::DynamicObjectView>)>,
    upto: nat,
) -> Map<IdentifierView, ObjectView>
    decreases upto,
{
    if upto == 0 || upto > listed.len() {
        Map::empty()
    } else {
        collected_items(
            collected_all(listed, (upto - 1) as nat),
            listed[upto - 1].0,
            listed[upto - 1].1,
            listed[upto - 1].1.len(),
        )
    }
}

/// Collects what the store listed with the marks of a release, resource
/// type by resource type, into one set of objects under their identifiers.
pub fn find_release_objects(listed: &Vec<(ApiResource, Vec<DynamicObject>)>) -> (r: Objects)
    ensures
        r@ == collected_all(listed_view(listed@), listed@.len()),
{
    let ghost all = listed_view(listed@);
    let mut objects = Objects::empty();
    let mut i: usize = 0;
    while i < listed.len()
        invariant
            i <= listed.len(),
            all == listed_view(listed@),
            objects@ == collected_all(all, i as nat),
        decreases listed.len() - i,
    {
        let resource = &listed[i].0;
        let items = &listed[i].1;
        let ghost views = crate::objects::documents_view(items@);
        let ghost start = objects@;
        let mut j: usize = 0;
        while j < items.len()
            invariant
                j <= items.len(),
                views == crate::objects::documents_view(items@),
                objects@ == collected_items(start, resource@, views, j as nat),
            decreases items.len() - j,
        {
            match &items[j].metadata.name {
                Some(name) => {
                    let identifier = Identifier::from_api_resource(name.clone(), resource);
                    objects.insert(
                        identifier,
                        Object { api_resource: resource.duplicate(), dyn_object: items[j].duplicate() },
                    );
                },
                None => {},
            }
            j += 1;
        }
        i += 1;
    }
    objects
}

} // verus!
