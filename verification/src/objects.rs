//! Deployable objects and collections of them.

use crate::identifier::{identifier_of, Identifier, IdentifierView, Named};
use crate::json::{Value, ValueView};
use crate::k8s::api_resource::{
    api_resource_of, ApiResource, ApiResourceView, ToApiResource, TryToApiResource, TypeMeta,
    TypeMetaView,
};
use crate::sorted_map::{as_map, ascending, sorted_entries, Duplicate, SortedMap};
use vstd::prelude::*;

verus! {

/// The content of a string that may be absent.
pub open spec fn text_of(o: Option<String>) -> Option<Seq<char>> {
    match o {
        Some(s) => Some(s@),
        None => None,
    }
}

/// Copies a string that may be absent.
pub fn duplicate_text(o: &Option<String>) -> (r: Option<String>)
    ensures
        text_of(r) == text_of(*o),
{
    match o {
        Some(s) => Some(s.clone()),
        None => None,
    }
}

/// The metadata of an object, as far as the tool reads and writes it.
#[derive(Debug)]
pub struct ObjectMeta {
    pub name: Option<String>,
    pub namespace: Option<String>,
    pub labels: SortedMap<String, String>,
    pub annotations: SortedMap<String, String>,
    /// Every other field of the metadata, carried through as it came.
    pub other: Value,
}

/// The content of an [`ObjectMeta`].
pub struct ObjectMetaView {
    pub name: Option<Seq<char>>,
    pub namespace: Option<Seq<char>>,
    pub labels: Map<Seq<char>, Seq<char>>,
    pub annotations: Map<Seq<char>, Seq<char>>,
    pub other: ValueView,
}

impl View for ObjectMeta {
    type V = ObjectMetaView;

    open spec fn view(&self) -> ObjectMetaView {
        ObjectMetaView {
            name: text_of(self.name),
            namespace: text_of(self.namespace),
            labels: self.labels@,
            annotations: self.annotations@,
            other: self.other@,
        }
    }
}

impl ObjectMeta {
    /// Metadata without a name, labels or annotations.
    pub fn new() -> (r: ObjectMeta)
        ensures
            r@ == (ObjectMetaView {
                name: None,
                namespace: None,
                labels: Map::empty(),
                annotations: Map::empty(),
                other: ValueView::Null,
            }),
    {
        ObjectMeta {
            name: None,
            namespace: None,
            labels: SortedMap::new(),
            annotations: SortedMap::new(),
            other: Value::Null,
        }
    }
}

impl Duplicate for ObjectMeta {
    fn duplicate(&self) -> (r: ObjectMeta) {
        ObjectMeta {
            name: duplicate_text(&self.name),
            namespace: duplicate_text(&self.namespace),
            labels: self.labels.duplicate(),
            annotations: self.annotations.duplicate(),
            other: self.other.clone(),
        }
    }
}

impl Clone for ObjectMeta {
    fn clone(&self) -> (r: ObjectMeta)
        ensures
            r@ == self@,
    {
        self.duplicate()
    }
}

/// A value of the object store that carries metadata.
pub trait Resource: View + Sized {
    /// The metadata within the content of the value.
    spec fn meta_of(v: Self::V) -> ObjectMetaView;

    /// The content of the value with other metadata.
    spec fn with_meta(v: Self::V, meta: ObjectMetaView) -> Self::V;

    fn meta(&self) -> (r: &ObjectMeta)
        ensures
            r@ == Self::meta_of(self@),
    ;

    /// Replaces the metadata and leaves the rest of the value as it is.
    fn set_meta(&mut self, meta: ObjectMeta)
        ensures
            final(self)@ == Self::with_meta(old(self)@, meta@),
            Self::meta_of(final(self)@) == meta@,
    ;
}

/// An object whose type is known only at run time: type information where
/// it has any, metadata, and every other field as a document.
#[derive(Debug)]
pub struct DynamicObject {
    pub types: Option<TypeMeta>,
    pub metadata: ObjectMeta,
    pub data: Value,
}

/// The content of a [`DynamicObject`].
pub struct DynamicObjectView {
    pub types: Option<TypeMetaView>,
    pub metadata: ObjectMetaView,
    pub data: ValueView,
}

/// The content of type information that may be absent.
pub open spec fn types_of(o: Option<TypeMeta>) -> Option<TypeMetaView> {
    match o {
        Some(t) => Some(t@),
        None => None,
    }
}

impl View for DynamicObject {
    type V = DynamicObjectView;

    open spec fn view(&self) -> DynamicObjectView {
        DynamicObjectView {
            types: types_of(self.types),
            metadata: self.metadata@,
            data: self.data@,
        }
    }
}

impl Duplicate for DynamicObject {
    fn duplicate(&self) -> (r: DynamicObject) {
        let types = match &self.types {
            Some(t) => Some(t.duplicate()),
            None => None,
        };
        DynamicObject { types, metadata: self.metadata.duplicate(), data: self.data.clone() }
    }
}

impl Clone for DynamicObject {
    fn clone(&self) -> (r: DynamicObject)
        ensures
            r@ == self@,
    {
        self.duplicate()
    }
}

impl Resource for DynamicObject {
    open spec fn meta_of(v: DynamicObjectView) -> ObjectMetaView {
        v.metadata
    }

    open spec fn with_meta(v: DynamicObjectView, meta: ObjectMetaView) -> DynamicObjectView {
        DynamicObjectView { metadata: meta, ..v }
    }

    fn meta(&self) -> (r: &ObjectMeta) {
        &self.metadata
    }

    fn set_meta(&mut self, meta: ObjectMeta) {
        self.metadata = meta;
    }
}

impl Named for DynamicObject {
    open spec fn name_spec(&self) -> Option<Seq<char>> {
        self@.metadata.name
    }

    fn name(&self) -> (r: Option<&String>) {
        self.metadata.name.as_ref()
    }
}

impl TryToApiResource for DynamicObject {
    open spec fn try_api_resource_spec(&self) -> Option<ApiResourceView> {
        match self@.types {
            Some(t) => Some(api_resource_of(t)),
            None => None,
        }
    }

    fn try_to_api_resource(&self) -> (r: Option<ApiResource>) {
        match &self.types {
            Some(types) => Some(types.to_api_resource()),
            None => None,
        }
    }
}

/// A deployable object: a body together with the descriptor of the resource
/// type it belongs to.
#[derive(Debug)]
pub struct Object {
    pub api_resource: ApiResource,
    pub dyn_object: DynamicObject,
}

/// The content of an [`Object`].
pub struct ObjectView {
    pub api_resource: ApiResourceView,
    pub dyn_object: DynamicObjectView,
}

impl View for Object {
    type V = ObjectView;

    open spec fn view(&self) -> ObjectView {
        ObjectView { api_resource: self.api_resource@, dyn_object: self.dyn_object@ }
    }
}

impl ObjectView {
    /// The identifier of the object, where it has a name.
    pub open spec fn identifier(self) -> Option<IdentifierView> {
        match self.dyn_object.metadata.name {
            Some(name) => Some(identifier_of(name, self.api_resource)),
            None => None,
        }
    }
}

/// The object that a body makes: it takes its descriptor from the body's
/// type information and is nothing without.
pub open spec fn object_of(dyn_object: DynamicObjectView) -> Option<ObjectView> {
    match dyn_object.types {
        Some(t) => Some(ObjectView { api_resource: api_resource_of(t), dyn_object }),
        None => None,
    }
}

impl Object {
    /// Makes an object of a body that says what type it is of.
    pub fn try_from_dynamic_object(dyn_object: DynamicObject) -> (r: Option<Object>)
        ensures
            match object_of(dyn_object@) {
                Some(v) => r is Some && r->Some_0@ == v,
                None => r is None,
            },
    {
        match dyn_object.try_to_api_resource() {
            Some(api_resource) => Some(Object { api_resource, dyn_object }),
            None => None,
        }
    }

    /// Makes an object of a body, or says why it cannot.
    pub fn try_from(dyn_object: DynamicObject) -> (r: Result<Object, String>)
        ensures
            match object_of(dyn_object@) {
                Some(v) => r is Ok && r->Ok_0@ == v,
                None => r is Err && r->Err_0@ == MISSING_TYPE_INFO@,
            },
    {
        match Object::try_from_dynamic_object(dyn_object) {
            Some(object) => Ok(object),
            None => Err(MISSING_TYPE_INFO.to_owned()),
        }
    }

    /// The name of the object.
    pub fn name(&self) -> (r: Option<&String>)
        ensures
            match self@.dyn_object.metadata.name {
                Some(n) => r is Some && r->Some_0@ == n,
                None => r is None,
            },
    {
        self.dyn_object.metadata.name.as_ref()
    }
}

/// What is said of a body that does not tell its type.
pub const MISSING_TYPE_INFO: &'static str = "Unable to extract ApiResource from DynamicObject";

impl Duplicate for Object {
    fn duplicate(&self) -> (r: Object) {
        Object {
            api_resource: self.api_resource.duplicate(),
            dyn_object: self.dyn_object.duplicate(),
        }
    }
}

impl Clone for Object {
    fn clone(&self) -> (r: Object)
        ensures
            r@ == self@,
    {
        self.duplicate()
    }
}

impl Resource for Object {
    open spec fn meta_of(v: ObjectView) -> ObjectMetaView {
        v.dyn_object.metadata
    }

    open spec fn with_meta(v: ObjectView, meta: ObjectMetaView) -> ObjectView {
        ObjectView { dyn_object: DynamicObjectView { metadata: meta, ..v.dyn_object }, ..v }
    }

    fn meta(&self) -> (r: &ObjectMeta) {
        &self.dyn_object.metadata
    }

    fn set_meta(&mut self, meta: ObjectMeta) {
        self.dyn_object.metadata = meta;
    }
}

impl Named for Object {
    open spec fn name_spec(&self) -> Option<Seq<char>> {
        self@.dyn_object.metadata.name
    }

    fn name(&self) -> (r: Option<&String>) {
        self.dyn_object.metadata.name.as_ref()
    }
}

impl ToApiResource for Object {
    open spec fn api_resource_spec(&self) -> ApiResourceView {
        self@.api_resource
    }

    fn to_api_resource(&self) -> (r: ApiResource) {
        self.api_resource.duplicate()
    }
}

impl TryToApiResource for Object {
    open spec fn try_api_resource_spec(&self) -> Option<ApiResourceView> {
        Some(self@.api_resource)
    }

    fn try_to_api_resource(&self) -> (r: Option<ApiResource>) {
        Some(self.api_resource.duplicate())
    }
}

/// A configuration object of the store: metadata and a map of texts. The
/// tool keeps its locks and the states of its releases in such objects.
#[derive(Debug)]
pub struct ConfigMap {
    pub metadata: ObjectMeta,
    pub data: SortedMap<String, String>,
}

/// The content of a [`ConfigMap`].
pub struct ConfigMapView {
    pub metadata: ObjectMetaView,
    pub data: Map<Seq<char>, Seq<char>>,
}

impl View for ConfigMap {
    type V = ConfigMapView;

    open spec fn view(&self) -> ConfigMapView {
        ConfigMapView { metadata: self.metadata@, data: self.data@ }
    }
}

/// The configuration object without a name and without anything in it.
pub open spec fn empty_config_map() -> ConfigMapView {
    ConfigMapView {
        metadata: ObjectMetaView {
            name: None,
            namespace: None,
            labels: Map::empty(),
            annotations: Map::empty(),
            other: ValueView::Null,
        },
        data: Map::empty(),
    }
}

impl Default for ConfigMap {
    fn default() -> (r: ConfigMap)
        ensures
            r@ == empty_config_map(),
    {
        ConfigMap { metadata: ObjectMeta::new(), data: SortedMap::new() }
    }
}

impl Duplicate for ConfigMap {
    fn duplicate(&self) -> (r: ConfigMap) {
        ConfigMap { metadata: self.metadata.duplicate(), data: self.data.duplicate() }
    }
}

impl Clone for ConfigMap {
    fn clone(&self) -> (r: ConfigMap)
        ensures
            r@ == self@,
    {
        self.duplicate()
    }
}

impl Resource for ConfigMap {
    open spec fn meta_of(v: ConfigMapView) -> ObjectMetaView {
        v.metadata
    }

    open spec fn with_meta(v: ConfigMapView, meta: ObjectMetaView) -> ConfigMapView {
        ConfigMapView { metadata: meta, ..v }
    }

    fn meta(&self) -> (r: &ObjectMeta) {
        &self.metadata
    }

    fn set_meta(&mut self, meta: ObjectMeta) {
        self.metadata = meta;
    }
}

impl Named for ConfigMap {
    open spec fn name_spec(&self) -> Option<Seq<char>> {
        self@.metadata.name
    }

    fn name(&self) -> (r: Option<&String>) {
        self.metadata.name.as_ref()
    }
}

/// The content of a list of bodies.
pub open spec fn documents_view(documents: Seq<DynamicObject>) -> Seq<DynamicObjectView> {
    Seq::new(documents.len(), |i: int| documents[i]@)
}

/// A deployable collection of objects, each under its identifier. No
/// identifier occurs twice, and the objects are walked in ascending order of
/// their identifiers, whatever the order in which they were put in.
#[derive(Debug)]
pub struct Objects {
    inner: SortedMap<Identifier, Object>,
}

impl View for Objects {
    type V = Map<IdentifierView, ObjectView>;

    closed spec fn view(&self) -> Map<IdentifierView, ObjectView> {
        self.inner@
    }
}

impl Objects {
    /// The objects in the order in which they are walked.
    pub open spec fn entries(&self) -> Seq<(IdentifierView, ObjectView)> {
        sorted_entries::<Identifier, ObjectView>(self@)
    }

    /// Constructs an empty collection of objects.
    pub fn empty() -> (r: Objects)
        ensures
            r@ == Map::<IdentifierView, ObjectView>::empty(),
    {
        Objects { inner: SortedMap::new() }
    }

    /// Is there an object associated with the given identifier?
    pub fn contains(&self, ident: &Identifier) -> (r: bool)
        ensures
            r == self@.contains_key(ident@),
    {
        self.inner.contains_key(ident)
    }

    /// Finds the object associated with the given identifier.
    pub fn get(&self, key: &Identifier) -> (r: Option<&Object>)
        ensures
            match r {
                Some(object) => self@.contains_key(key@) && object@ == self@[key@],
                None => !self@.contains_key(key@),
            },
    {
        self.inner.get(key)
    }

    /// Puts an object under an identifier and hands back the object that
    /// was there.
    pub fn insert(&mut self, key: Identifier, object: Object) -> (r: Option<Object>)
        ensures
            final(self)@ == old(self)@.insert(key@, object@),
            match r {
                Some(previous) => old(self)@.contains_key(key@) && previous@ == old(self)@[key@],
                None => !old(self)@.contains_key(key@),
            },
    {
        self.inner.insert(key, object)
    }

    /// The number of objects.
    pub fn len(&self) -> (n: usize)
        ensures
            n == self.entries().len(),
            ascending::<Identifier, ObjectView>(self.entries()),
            as_map(self.entries()) == self@,
            self@.dom().finite(),
    {
        self.inner.len()
    }

    /// The identifier of the `i`-th object.
    pub fn identifier_at(&self, i: usize) -> (r: &Identifier)
        requires
            i < self.entries().len(),
        ensures
            r@ == self.entries()[i as int].0,
    {
        self.inner.key_at(i)
    }

    /// The `i`-th object.
    pub fn object_at(&self, i: usize) -> (r: &Object)
        requires
            i < self.entries().len(),
        ensures
            r@ == self.entries()[i as int].1,
    {
        self.inner.value_at(i)
    }

    /// The objects with their identifiers, in ascending order of the
    /// identifiers.
    pub fn iter(&self) -> (r: Vec<(&Identifier, &Object)>)
        ensures
            r.len() == self.entries().len(),
            forall|i: int|
                0 <= i < r.len() ==> (#[trigger] r[i]).0@ == self.entries()[i].0 && r[i].1@
                    == self.entries()[i].1,
    {
        let mut r: Vec<(&Identifier, &Object)> = Vec::new();
        let n = self.len();
        let mut i: usize = 0;
        while i < n
            invariant
                i <= n,
                n == self.entries().len(),
                r.len() == i,
                forall|j: int|
                    0 <= j < i ==> (#[trigger] r[j]).0@ == self.entries()[j].0 && r[j].1@
                        == self.entries()[j].1,
            decreases n - i,
        {
            r.push((self.identifier_at(i), self.object_at(i)));
            i += 1;
        }
        r
    }
}

/// Every object of the set stands under its own identifier.
pub open spec fn keyed(objects: Map<IdentifierView, ObjectView>) -> bool {
    forall|k: IdentifierView| #[trigger]
        objects.contains_key(k) ==> objects[k].identifier() == Some(k)
}

/// A set of objects that stand under their own identifiers still does,
/// whatever body is offered to it.
pub proof fn lemma_added_keyed(
    objects: Map<IdentifierView, ObjectView>,
    dyn_object: DynamicObjectView,
)
    requires
        keyed(objects),
    ensures
        keyed(added(objects, dyn_object)),
{
}

impl Objects {
    /// Tells whether every object stands under its own identifier.
    pub fn is_keyed(&self) -> (r: bool)
        ensures
            r == keyed(self@),
    {
        let n = self.len();
        let ghost entries = self.entries();
        let mut i: usize = 0;
        while i < n
            invariant
                i <= n,
                n == entries.len(),
                entries == self.entries(),
                ascending::<Identifier, ObjectView>(entries),
                as_map(entries) == self@,
                forall|j: int| 0 <= j < i ==> (#[trigger] entries[j]).1.identifier() == Some(entries[j].0),
            decreases n - i,
        {
            proof {
                crate::sorted_map::lemma_entry::<Identifier, ObjectView>(entries, i as int);
            }
            let object = self.object_at(i);
            let own = match object.name() {
                Some(name) => Identifier::from_api_resource(
                    name.clone(),
                    &object.api_resource,
                ).equals(self.identifier_at(i)),
                None => false,
            };
            if !own {
                return false;
            }
            i += 1;
        }
        assert forall|k: IdentifierView| #[trigger] self@.contains_key(k) implies self@[k].identifier()
            == Some(k) by {
            let p = crate::sorted_map::position(entries, k);
            crate::sorted_map::lemma_entry::<Identifier, ObjectView>(entries, p);
        }
        true
    }
}

impl Default for Objects {
    fn default() -> (r: Objects)
        ensures
            r@ == Map::<IdentifierView, ObjectView>::empty(),
    {
        Objects::empty()
    }
}

impl Duplicate for Objects {
    fn duplicate(&self) -> (r: Objects) {
        Objects { inner: self.inner.duplicate() }
    }
}

impl Clone for Objects {
    fn clone(&self) -> (r: Objects)
        ensures
            r@ == self@,
    {
        self.duplicate()
    }
}

/// An error that may occur while building a collection of deployable objects.
#[derive(Debug)]
pub enum BuilderError {
    /// Encountered at least 2 objects which shared the same identifier.
    DuplicateObject { identifier: Identifier },
    /// One object did not have a name in the metadata section.
    ObjectWithoutName { object: Box<Object> },
    /// Encountered a body that does not tell its type.
    BadDynamicObject { error: String },
    /// Failed to list the contents of a directory.
    ListFilesError { path: String, error: String },
    /// File could not be opened for reading.
    OpenFileError { path: String, error: String },
    /// Object made of faulty YAML.
    DeserializeError { error: String },
}

/// The content of a [`BuilderError`].
pub enum BuilderErrorView {
    DuplicateObject { identifier: IdentifierView },
    ObjectWithoutName { object: ObjectView },
    BadDynamicObject { error: Seq<char> },
    ListFilesError { path: Seq<char>, error: Seq<char> },
    OpenFileError { path: Seq<char>, error: Seq<char> },
    DeserializeError { error: Seq<char> },
}

impl View for BuilderError {
    type V = BuilderErrorView;

    open spec fn view(&self) -> BuilderErrorView {
        match self {
            BuilderError::DuplicateObject { identifier } => BuilderErrorView::DuplicateObject {
                identifier: identifier@,
            },
            BuilderError::ObjectWithoutName { object } => BuilderErrorView::ObjectWithoutName {
                object: object@,
            },
            BuilderError::BadDynamicObject { error } => BuilderErrorView::BadDynamicObject {
                error: error@,
            },
            BuilderError::ListFilesError { path, error } => BuilderErrorView::ListFilesError {
                path: path@,
                error: error@,
            },
            BuilderError::OpenFileError { path, error } => BuilderErrorView::OpenFileError {
                path: path@,
                error: error@,
            },
            BuilderError::DeserializeError { error } => BuilderErrorView::DeserializeError {
                error: error@,
            },
        }
    }
}

/// Why a body cannot be added to a collection, if it cannot: it does not
/// tell its type, it has no name, or its identifier is taken.
pub open spec fn add_error(
    objects: Map<IdentifierView, ObjectView>,
    dyn_object: DynamicObjectView,
) -> Option<BuilderErrorView> {
    match object_of(dyn_object) {
        None => Some(BuilderErrorView::BadDynamicObject { error: MISSING_TYPE_INFO@ }),
        Some(object) => match object.identifier() {
            None => Some(BuilderErrorView::ObjectWithoutName { object }),
            Some(identifier) => if objects.contains_key(identifier) {
                Some(BuilderErrorView::DuplicateObject { identifier })
            } else {
                None
            },
        },
    }
}

/// The collection after a body was offered to it: an object with an
/// identifier is put in, also over another of the same identifier.
pub open spec fn added(
    objects: Map<IdentifierView, ObjectView>,
    dyn_object: DynamicObjectView,
) -> Map<IdentifierView, ObjectView> {
    match object_of(dyn_object) {
        None => objects,
        Some(object) => match object.identifier() {
            None => objects,
            Some(identifier) => objects.insert(identifier, object),
        },
    }
}

/// The collection after the bodies from `from` on were offered in turn, up
/// to the first that cannot be added, and the error of that one.
pub open spec fn added_all(
    objects: Map<IdentifierView, ObjectView>,
    documents: Seq<DynamicObjectView>,
    from: int,
) -> (Map<IdentifierView, ObjectView>, Option<BuilderErrorView>)
    decreases documents.len() - from,
{
    if from < 0 || from >= documents.len() {
        (objects, None)
    } else if add_error(objects, documents[from]) is Some {
        (added(objects, documents[from]), add_error(objects, documents[from]))
    } else {
        added_all(added(objects, documents[from]), documents, from + 1)
    }
}

/// Builder for Objects.
#[derive(Debug)]
pub struct Builder {
    objects: SortedMap<Identifier, Object>,
}

impl View for Builder {
    type V = Map<IdentifierView, ObjectView>;

    closed spec fn view(&self) -> Map<IdentifierView, ObjectView> {
        self.objects@
    }
}

impl Builder {
    #[verifier::type_invariant]
    spec fn own_identifiers(&self) -> bool {
        keyed(self.objects@)
    }

    /// Create a new empty builder.
    pub fn new() -> (r: Builder)
        ensures
            r@ == Map::<IdentifierView, ObjectView>::empty(),
    {
        Builder { objects: SortedMap::new() }
    }

    /// Add a body.
    pub fn add_dynamic_object(&mut self, dyn_object: DynamicObject) -> (r: Result<
        (),
        BuilderError,
    >)
        ensures
            final(self)@ == added(old(self)@, dyn_object@),
            match add_error(old(self)@, dyn_object@) {
                Some(e) => r is Err && r->Err_0@ == e,
                None => r is Ok,
            },
    {
        let object = match Object::try_from(dyn_object) {
            Ok(object) => object,
            Err(error) => {
                return Err(BuilderError::BadDynamicObject { error });
            },
        };
        let name = match object.name() {
            Some(name) => name.clone(),
            None => {
                return Err(BuilderError::ObjectWithoutName { object: Box::new(object) });
            },
        };
        let identifier = Identifier::from_api_resource(name, &object.api_resource);
        proof {
            use_type_invariant(&*self);
            lemma_added_keyed(self@, dyn_object@);
        }
        let mut objects: SortedMap<Identifier, Object> = SortedMap::new();
        core::mem::swap(&mut self.objects, &mut objects);
        let taken = objects.insert(identifier.duplicate(), object).is_some();
        core::mem::swap(&mut self.objects, &mut objects);
        if taken {
            return Err(BuilderError::DuplicateObject { identifier });
        }
        Ok(())
    }

    /// Add the bodies of a stream of documents in turn; the first that
    /// cannot be added ends it.
    #[verifier::loop_isolation(false)]
    pub fn read_objects(&mut self, documents: Vec<DynamicObject>) -> (r: Result<(), BuilderError>)
        ensures
            final(self)@ == added_all(old(self)@, documents_view(documents@), 0).0,
            match added_all(old(self)@, documents_view(documents@), 0).1 {
                Some(e) => r is Err && r->Err_0@ == e,
                None => r is Ok,
            },
    {
        let ghost all = documents_view(documents@);
        let mut documents = documents;
        let n = documents.len();
        let mut i: usize = 0;
        while i < n
            invariant
                i <= n,
                documents.len() == n - i,
                all.len() == n,
                forall|j: int| 0 <= j < n - i ==> (#[trigger] documents@[j])@ == all[i + j],
                added_all(old(self)@, all, 0) == added_all(self@, all, i as int),
            decreases n - i,
        {
            let document = documents.remove(0);
            assert(document@ == all[i as int]);
            let ghost before = self@;
            assert(added_all(before, all, i as int) == if add_error(before, all[i as int])
                is Some {
                (added(before, all[i as int]), add_error(before, all[i as int]))
            } else {
                added_all(added(before, all[i as int]), all, i + 1)
            });
            match self.add_dynamic_object(document) {
                Ok(()) => {},
                Err(error) => {
                    return Err(error);
                },
            }
            i += 1;
        }
        Ok(())
    }

    /// Finalize the building process. Every object of the collection
    /// stands under its own identifier.
    pub fn finish(self) -> (r: Objects)
        ensures
            r@ == self@,
            keyed(r@),
            r@.dom().finite(),
    {
        proof {
            use_type_invariant(&self);
        }
        let r = Objects { inner: self.objects };
        let _ = r.len();
        r
    }
}

impl Default for Builder {
    fn default() -> (r: Builder)
        ensures
            r@ == Map::<IdentifierView, ObjectView>::empty(),
    {
        Builder::new()
    }
}

} // verus!
