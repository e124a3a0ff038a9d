//! Identifiers: the stable key of an object within a namespace.

use crate::k8s::api_resource::{ApiResource, ApiResourceView, TryToApiResource};
use crate::sorted_map::{Duplicate, Key};
use crate::text::{
    compare_text, lemma_text_before_asymmetric, lemma_text_before_total,
    lemma_text_before_transitive, text_before, Order,
};
use vstd::prelude::*;

verus! {

/// Group, version and kind of a resource type.
#[derive(Debug)]
pub struct GroupVersionKind {
    pub group: String,
    pub version: String,
    pub kind: String,
}

/// Identifies an object within a namespace by the group, version and kind of
/// its type and by its name. Two identifiers are the same only if all four
/// are.
#[derive(Debug)]
pub struct Identifier {
    gvk: GroupVersionKind,
    name: String,
}

/// The content of an [`Identifier`].
pub struct IdentifierView {
    pub group: Seq<char>,
    pub version: Seq<char>,
    pub kind: Seq<char>,
    pub name: Seq<char>,
}

impl View for Identifier {
    type V = IdentifierView;

    closed spec fn view(&self) -> IdentifierView {
        IdentifierView {
            group: self.gvk.group@,
            version: self.gvk.version@,
            kind: self.gvk.kind@,
            name: self.name@,
        }
    }
}

/// The identifier of a name under a resource descriptor.
pub open spec fn identifier_of(name: Seq<char>, api_resource: ApiResourceView) -> IdentifierView {
    IdentifierView {
        group: api_resource.group,
        version: api_resource.version,
        kind: api_resource.kind,
        name,
    }
}

/// A value that may have a name.
pub trait Named {
    /// The name of the value, where it has one.
    spec fn name_spec(&self) -> Option<Seq<char>>;

    fn name(&self) -> (r: Option<&String>)
        ensures
            match self.name_spec() {
                Some(n) => r is Some && r->Some_0@ == n,
                None => r is None,
            },
    ;
}

/// The identifier of a value that may have a name and a descriptor: it has
/// one where it has both.
pub open spec fn identifier_of_resource(
    name: Option<Seq<char>>,
    api_resource: Option<ApiResourceView>,
) -> Option<IdentifierView> {
    match (name, api_resource) {
        (Some(n), Some(a)) => Some(identifier_of(n, a)),
        _ => None,
    }
}

impl Identifier {
    /// The identifier of an object, where it has a name and a resource
    /// descriptor.
    pub fn from_resource<R: Named + TryToApiResource>(object: &R) -> (r: Option<Identifier>)
        ensures
            match identifier_of_resource(object.name_spec(), object.try_api_resource_spec()) {
                Some(id) => r is Some && r->Some_0@ == id,
                None => r is None,
            },
    {
        let name = match object.name() {
            Some(name) => name.clone(),
            None => {
                return None;
            },
        };
        match object.try_to_api_resource() {
            Some(api_resource) => Some(Identifier::from_api_resource(name, &api_resource)),
            None => None,
        }
    }

    /// The identifier of a name under a resource descriptor.
    pub fn from_api_resource(name: String, api_resource: &ApiResource) -> (r: Identifier)
        ensures
            r@ == identifier_of(name@, api_resource@),
    {
        let gvk = GroupVersionKind {
            group: api_resource.group.clone(),
            kind: api_resource.kind.clone(),
            version: api_resource.version.clone(),
        };
        Identifier { gvk, name }
    }

    /// The group of the object's type.
    pub fn group(&self) -> (r: &String)
        ensures
            r@ == self@.group,
    {
        &self.gvk.group
    }

    /// The version of the object's type.
    pub fn version(&self) -> (r: &String)
        ensures
            r@ == self@.version,
    {
        &self.gvk.version
    }

    /// The kind of the object's type.
    pub fn kind(&self) -> (r: &String)
        ensures
            r@ == self@.kind,
    {
        &self.gvk.kind
    }

    /// The name of the object.
    pub fn name(&self) -> (r: &String)
        ensures
            r@ == self@.name,
    {
        &self.name
    }

    /// Tells whether two identifiers are the same.
    pub fn equals(&self, other: &Identifier) -> (r: bool)
        ensures
            r == (self@ == other@),
    {
        self.gvk.group == other.gvk.group && self.gvk.version == other.gvk.version
            && self.gvk.kind == other.gvk.kind && self.name == other.name
    }
}

/// Identifiers are ordered by group, then version, then kind, then name.
pub open spec fn identifier_before(a: IdentifierView, b: IdentifierView) -> bool {
    ||| text_before(a.group, b.group)
    ||| a.group == b.group && text_before(a.version, b.version)
    ||| a.group == b.group && a.version == b.version && text_before(a.kind, b.kind)
    ||| a.group == b.group && a.version == b.version && a.kind == b.kind && text_before(
        a.name,
        b.name,
    )
}

impl Key for Identifier {
    open spec fn before(a: IdentifierView, b: IdentifierView) -> bool {
        identifier_before(a, b)
    }

    proof fn lemma_strict(a: IdentifierView, b: IdentifierView) {
        lemma_text_before_asymmetric(a.group, b.group);
        lemma_text_before_asymmetric(a.version, b.version);
        lemma_text_before_asymmetric(a.kind, b.kind);
        lemma_text_before_asymmetric(a.name, b.name);
        lemma_text_before_asymmetric(b.group, a.group);
        lemma_text_before_asymmetric(b.version, a.version);
        lemma_text_before_asymmetric(b.kind, a.kind);
        lemma_text_before_asymmetric(b.name, a.name);
    }

    proof fn lemma_transitive(a: IdentifierView, b: IdentifierView, c: IdentifierView) {
        if text_before(a.group, b.group) && text_before(b.group, c.group) {
            lemma_text_before_transitive(a.group, b.group, c.group);
        }
        if text_before(a.version, b.version) && text_before(b.version, c.version) {
            lemma_text_before_transitive(a.version, b.version, c.version);
        }
        if text_before(a.kind, b.kind) && text_before(b.kind, c.kind) {
            lemma_text_before_transitive(a.kind, b.kind, c.kind);
        }
        if text_before(a.name, b.name) && text_before(b.name, c.name) {
            lemma_text_before_transitive(a.name, b.name, c.name);
        }
    }

    proof fn lemma_total(a: IdentifierView, b: IdentifierView) {
        lemma_text_before_total(a.group, b.group);
        lemma_text_before_total(a.version, b.version);
        lemma_text_before_total(a.kind, b.kind);
        lemma_text_before_total(a.name, b.name);
    }

    fn compare(&self, other: &Identifier) -> (r: Order) {
        proof {
            Identifier::lemma_strict(self@, other@);
            Identifier::lemma_strict(other@, self@);
        }
        match compare_text(self.gvk.group.as_str(), other.gvk.group.as_str()) {
            Order::Same => {},
            decided => {
                return decided;
            },
        }
        match compare_text(self.gvk.version.as_str(), other.gvk.version.as_str()) {
            Order::Same => {},
            decided => {
                return decided;
            },
        }
        match compare_text(self.gvk.kind.as_str(), other.gvk.kind.as_str()) {
            Order::Same => {},
            decided => {
                return decided;
            },
        }
        compare_text(self.name.as_str(), other.name.as_str())
    }
}

impl Duplicate for Identifier {
    fn duplicate(&self) -> (r: Identifier) {
        Identifier {
            gvk: GroupVersionKind {
                group: self.gvk.group.clone(),
                version: self.gvk.version.clone(),
                kind: self.gvk.kind.clone(),
            },
            name: self.name.clone(),
        }
    }
}

impl Clone for Identifier {
    fn clone(&self) -> (r: Identifier)
        ensures
            r@ == self@,
    {
        self.duplicate()
    }
}

} // verus!
