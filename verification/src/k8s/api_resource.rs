//! Resource descriptors: which endpoint of the object store an object
//! belongs to.

use crate::json::same_text;
use crate::sorted_map::Duplicate;
use vstd::prelude::*;
use vstd::string::*;

verus! {

/// What is needed to address one resource type of the object store.
#[derive(Debug)]
pub struct ApiResource {
    /// Resource group, empty for the core group.
    pub group: String,
    /// Version within the group.
    pub version: String,
    /// `version` for the core group, `group/version` for any other.
    pub api_version: String,
    /// Singular name of the resource type.
    pub kind: String,
    /// Plural name of the resource type.
    pub plural: String,
}

/// The content of an [`ApiResource`].
pub struct ApiResourceView {
    pub group: Seq<char>,
    pub version: Seq<char>,
    pub api_version: Seq<char>,
    pub kind: Seq<char>,
    pub plural: Seq<char>,
}

impl View for ApiResource {
    type V = ApiResourceView;

    open spec fn view(&self) -> ApiResourceView {
        ApiResourceView {
            group: self.group@,
            version: self.version@,
            api_version: self.api_version@,
            kind: self.kind@,
            plural: self.plural@,
        }
    }
}

impl Duplicate for ApiResource {
    fn duplicate(&self) -> (r: ApiResource) {
        ApiResource {
            group: self.group.clone(),
            version: self.version.clone(),
            api_version: self.api_version.clone(),
            kind: self.kind.clone(),
            plural: self.plural.clone(),
        }
    }
}

impl Clone for ApiResource {
    fn clone(&self) -> (r: ApiResource)
        ensures
            r@ == self@,
    {
        self.duplicate()
    }
}

impl ApiResource {
    /// Tells whether two descriptors have the same content.
    pub fn equals(&self, other: &ApiResource) -> (r: bool)
        ensures
            r == (self@ == other@),
    {
        self.group == other.group && self.version == other.version && self.api_version
            == other.api_version && self.kind == other.kind && self.plural == other.plural
    }

    /// The descriptor of a group, version and kind with a known plural.
    pub fn from_gvk_with_plural(group: &str, version: &str, kind: &str, plural: &str) -> (r:
        ApiResource)
        ensures
            r@ == (ApiResourceView {
                group: group@,
                version: version@,
                api_version: api_version_of(group@, version@),
                kind: kind@,
                plural: plural@,
            }),
    {
        let api_version = if group.unicode_len() == 0 {
            version.to_owned()
        } else {
            let mut joined = group.to_owned();
            proof {
                reveal_strlit("/");
            }
            joined.append("/");
            joined.append(version);
            assert(joined@ =~= api_version_of(group@, version@));
            joined
        };
        ApiResource {
            group: group.to_owned(),
            version: version.to_owned(),
            api_version,
            kind: kind.to_owned(),
            plural: plural.to_owned(),
        }
    }

    /// The descriptor of a group, version and kind, with the plural that is
    /// usual for the kind.
    pub fn from_gvk(group: &str, version: &str, kind: &str) -> (r: ApiResource)
        ensures
            r@ == (ApiResourceView {
                group: group@,
                version: version@,
                api_version: api_version_of(group@, version@),
                kind: kind@,
                plural: plural_of(kind@),
            }),
    {
        proof {
            reveal_strlit("y");
            reveal_strlit("Y");
            reveal_strlit("ys");
            assert("y"@ =~= seq!['y']);
            assert("Y"@ =~= seq!['Y']);
            assert("ys"@ =~= seq!['y', 's']);
        }
        if same_text(kind, "y") || same_text(kind, "Y") {
            ApiResource::from_gvk_with_plural(group, version, kind, "ys")
        } else {
            guess_api_resource(group, version, kind)
        }
    }
}

/// The `apiVersion` of a group and a version.
pub open spec fn api_version_of(group: Seq<char>, version: Seq<char>) -> Seq<char> {
    if group.len() == 0 {
        version
    } else {
        group + seq!['/'] + version
    }
}

/// The kind is the single letter `y`, in either case.
pub open spec fn is_lone_y(kind: Seq<char>) -> bool {
    kind == seq!['y'] || kind == seq!['Y']
}

/// The plural that `kube` guesses for a kind.
pub uninterp spec fn guessed_plural(kind: Seq<char>) -> Seq<char>;

/// The plural under which a kind is addressed when none was discovered: the
/// guess of `kube`, and `ys` for the single letter `y`, on which `kube` may
/// not be asked.
pub open spec fn plural_of(kind: Seq<char>) -> Seq<char> {
    if is_lone_y(kind) {
        seq!['y', 's']
    } else {
        guessed_plural(kind)
    }
}

/// `kube::core::ApiResource::from_gvk`: the descriptor of a group, version
/// and kind. It keeps the three as given, joins group and version to the
/// `apiVersion` (the version alone where the group is empty) and guesses the
/// plural from the kind alone; that guess is named, not stated. The kind of
/// the single letter `y` is left out, because the guess subtracts two from
/// its length.
#[verifier::external_body]
fn guess_api_resource(group: &str, version: &str, kind: &str) -> (r: ApiResource)
    requires
        !is_lone_y(kind@),
    ensures
        r@ == (ApiResourceView {
            group: group@,
            version: version@,
            api_version: api_version_of(group@, version@),
            kind: kind@,
            plural: guessed_plural(kind@),
        }),
{
    let gvk = kube::core::GroupVersionKind {
        group: group.to_string(),
        version: version.to_string(),
        kind: kind.to_string(),
    };
    let found = kube::core::ApiResource::from_gvk(&gvk);
    ApiResource {
        group: found.group,
        version: found.version,
        api_version: found.api_version,
        kind: found.kind,
        plural: found.plural,
    }
}

/// The first `/` of the text is at `i`.
pub open spec fn first_slash_at(s: Seq<char>, i: int) -> bool {
    &&& 0 <= i < s.len()
    &&& s[i] == '/'
    &&& forall|j: int| 0 <= j < i ==> s[j] != '/'
}

/// Group and version of an `apiVersion`: what stands before and after its
/// first `/`, or no group and the whole text where it has none.
pub open spec fn split_api_version_spec(s: Seq<char>) -> (Seq<char>, Seq<char>) {
    if exists|i: int| first_slash_at(s, i) {
        let i = choose|i: int| first_slash_at(s, i);
        (s.subrange(0, i), s.subrange(i + 1, s.len() as int))
    } else {
        (Seq::empty(), s)
    }
}

/// Splits an `apiVersion` into group and version.
pub fn split_api_version(api_version: &str) -> (r: (&str, &str))
    ensures
        (r.0@, r.1@) == split_api_version_spec(api_version@),
{
    let n = api_version.unicode_len();
    let mut i: usize = 0;
    while i < n
        invariant
            i <= n,
            n == api_version@.len(),
            forall|j: int| 0 <= j < i ==> api_version@[j] != '/',
        decreases n - i,
    {
        if api_version.get_char(i) == '/' {
            assert(first_slash_at(api_version@, i as int));
            let ghost k = choose|k: int| first_slash_at(api_version@, k);
            assert(k == i) by {
                if k < i {
                    assert(api_version@[k] != '/');
                }
            }
            return (api_version.substring_char(0, i), api_version.substring_char(i + 1, n));
        }
        i += 1;
    }
    proof {
        reveal_strlit("");
        assert(""@ =~= Seq::<char>::empty());
        assert(!exists|k: int| first_slash_at(api_version@, k));
    }
    ("", api_version)
}

/// Type information as it stands in an object: `apiVersion` and `kind`.
#[derive(Debug)]
pub struct TypeMeta {
    pub api_version: String,
    pub kind: String,
}

/// The content of a [`TypeMeta`].
pub struct TypeMetaView {
    pub api_version: Seq<char>,
    pub kind: Seq<char>,
}

impl View for TypeMeta {
    type V = TypeMetaView;

    open spec fn view(&self) -> TypeMetaView {
        TypeMetaView { api_version: self.api_version@, kind: self.kind@ }
    }
}

impl Duplicate for TypeMeta {
    fn duplicate(&self) -> (r: TypeMeta) {
        TypeMeta { api_version: self.api_version.clone(), kind: self.kind.clone() }
    }
}

impl Clone for TypeMeta {
    fn clone(&self) -> (r: TypeMeta)
        ensures
            r@ == self@,
    {
        self.duplicate()
    }
}

/// The descriptor that type information stands for.
pub open spec fn api_resource_of(types: TypeMetaView) -> ApiResourceView {
    let (group, version) = split_api_version_spec(types.api_version);
    ApiResourceView {
        group,
        version,
        api_version: api_version_of(group, version),
        kind: types.kind,
        plural: plural_of(types.kind),
    }
}

/// A value that always knows its resource descriptor.
pub trait ToApiResource {
    /// The descriptor of the value.
    spec fn api_resource_spec(&self) -> ApiResourceView;

    fn to_api_resource(&self) -> (r: ApiResource)
        ensures
            r@ == self.api_resource_spec(),
    ;
}

impl ToApiResource for ApiResource {
    open spec fn api_resource_spec(&self) -> ApiResourceView {
        self@
    }

    fn to_api_resource(&self) -> (r: ApiResource) {
        self.duplicate()
    }
}

impl ToApiResource for TypeMeta {
    open spec fn api_resource_spec(&self) -> ApiResourceView {
        api_resource_of(self@)
    }

    fn to_api_resource(&self) -> (r: ApiResource) {
        let (group, version) = split_api_version(self.api_version.as_str());
        ApiResource::from_gvk(group, version, self.kind.as_str())
    }
}

/// A value that may know its resource descriptor.
pub trait TryToApiResource {
    /// The descriptor of the value, where it has one.
    spec fn try_api_resource_spec(&self) -> Option<ApiResourceView>;

    fn try_to_api_resource(&self) -> (r: Option<ApiResource>)
        ensures
            match self.try_api_resource_spec() {
                Some(v) => r is Some && r->Some_0@ == v,
                None => r is None,
            },
    ;
}

impl TryToApiResource for ApiResource {
    open spec fn try_api_resource_spec(&self) -> Option<ApiResourceView> {
        Some(self@)
    }

    fn try_to_api_resource(&self) -> (r: Option<ApiResource>) {
        Some(self.to_api_resource())
    }
}

impl TryToApiResource for TypeMeta {
    open spec fn try_api_resource_spec(&self) -> Option<ApiResourceView> {
        Some(api_resource_of(self@))
    }

    fn try_to_api_resource(&self) -> (r: Option<ApiResource>) {
        Some(self.to_api_resource())
    }
}

/// A resource type as the discovery of the object store tells it.
#[derive(Debug)]
pub struct APIResource {
    /// The plural name of the resource type.
    pub name: String,
    pub kind: String,
    /// The group, where it is not that of the list it stands in.
    pub group: Option<String>,
    /// The version, where it is not that of the list it stands in.
    pub version: Option<String>,
    /// What can be done with objects of the type.
    pub verbs: Vec<String>,
}

/// The content of an [`APIResource`].
pub struct APIResourceView {
    pub name: Seq<char>,
    pub kind: Seq<char>,
    pub group: Option<Seq<char>>,
    pub version: Option<Seq<char>>,
    pub verbs: Seq<Seq<char>>,
}

impl View for APIResource {
    type V = APIResourceView;

    open spec fn view(&self) -> APIResourceView {
        APIResourceView {
            name: self.name@,
            kind: self.kind@,
            group: match self.group {
                Some(g) => Some(g@),
                None => None,
            },
            version: match self.version {
                Some(v) => Some(v@),
                None => None,
            },
            verbs: Seq::new(self.verbs@.len(), |i: int| self.verbs@[i]@),
        }
    }
}

/// The content of a list of discovered resource types.
pub open spec fn resources_view(resources: Seq<APIResource>) -> Seq<APIResourceView> {
    Seq::new(resources.len(), |i: int| resources[i]@)
}

/// The content of a list of descriptors.
pub open spec fn descriptors_view(found: Seq<ApiResource>) -> Seq<ApiResourceView> {
    Seq::new(found.len(), |i: int| found[i]@)
}

/// Tells whether a verb is among the verbs of a resource type.
pub fn has_verb(resource: &APIResource, verb: &str) -> (r: bool)
    ensures
        r == resource@.verbs.contains(verb@),
{
    let mut i: usize = 0;
    while i < resource.verbs.len()
        invariant
            i <= resource.verbs.len(),
            forall|j: int| 0 <= j < i ==> resource@.verbs[j] != verb@,
        decreases resource.verbs.len() - i,
    {
        if same_text(resource.verbs[i].as_str(), verb) {
            assert(resource@.verbs[i as int] == verb@);
            return true;
        }
        i += 1;
    }
    false
}

/// The objects of the resource type can be read one by one and listed.
pub open spec fn listable(resource: APIResourceView) -> bool {
    resource.verbs.contains("get"@) && resource.verbs.contains("list"@)
}

/// The descriptor of a discovered resource type that stands in the list of
/// a group and a version: it is of the group and the version that it
/// names itself, and of those of the list where it names none.
pub open spec fn described(
    group: Seq<char>,
    version: Seq<char>,
    resource: APIResourceView,
) -> ApiResourceView {
    let group = match resource.group {
        Some(g) => g,
        None => group,
    };
    let version = match resource.version {
        Some(v) => v,
        None => version,
    };
    ApiResourceView {
        group,
        version,
        api_version: api_version_of(group, version),
        kind: resource.kind,
        plural: resource.name,
    }
}

/// The descriptor of a resource type of the core group, whose group is
/// always the empty one.
pub open spec fn described_core(version: Seq<char>, resource: APIResourceView) -> ApiResourceView {
    described(Seq::empty(), version, APIResourceView { group: None, ..resource })
}

/// The descriptor of a discovered resource type in the list of a group and
/// a version.
pub fn describe(group: &str, version: &str, resource: &APIResource) -> (r: ApiResource)
    ensures
        r@ == described(group@, version@, resource@),
{
    let group = match &resource.group {
        Some(g) => g.as_str(),
        None => group,
    };
    let version = match &resource.version {
        Some(v) => v.as_str(),
        None => version,
    };
    ApiResource::from_gvk_with_plural(
        group,
        version,
        resource.kind.as_str(),
        resource.name.as_str(),
    )
}

/// No descriptor is twice in the list.
pub open spec fn distinct(found: Seq<ApiResourceView>) -> bool {
    forall|i: int, j: int| 0 <= i < j < found.len() ==> found[i] != found[j]
}

/// The descriptor is that of a listable resource type among the first
/// `upto` of a list of the discovery.
pub open spec fn listed_among(
    group: Seq<char>,
    version: Seq<char>,
    core: bool,
    resources: Seq<APIResourceView>,
    upto: int,
    a: ApiResourceView,
) -> bool {
    exists|j: int|
        0 <= j < upto && j < resources.len() && listable(#[trigger] resources[j]) && a
            == listed_descriptor(group, version, resources[j], core)
}

/// Adds to the descriptors found so far those of the listable resource
/// types of one list of the discovery, each once.
pub fn add_listable(
    found: &mut Vec<ApiResource>,
    group: &str,
    version: &str,
    resources: &Vec<APIResource>,
    core: bool,
)
    ensures
        distinct(descriptors_view(old(found)@)) ==> distinct(descriptors_view(final(found)@)),
        forall|a: ApiResourceView| #[trigger]
            descriptors_view(final(found)@).contains(a) <==> descriptors_view(
                old(found)@,
            ).contains(a) || listed_among(
                group@,
                version@,
                core,
                resources_view(resources@),
                resources@.len() as int,
                a,
            ),
{
    let ghost before = descriptors_view(found@);
    let ghost views = resources_view(resources@);
    let mut i: usize = 0;
    while i < resources.len()
        invariant
            i <= resources.len(),
            views == resources_view(resources@),
            distinct(before) ==> distinct(descriptors_view(found@)),
            forall|a: ApiResourceView| #[trigger]
                descriptors_view(found@).contains(a) <==> before.contains(a) || listed_among(
                    group@,
                    version@,
                    core,
                    views,
                    i as int,
                    a,
                ),
        decreases resources.len() - i,
    {
        let resource = &resources[i];
        proof {
            reveal_strlit("");
            assert(""@ =~= Seq::<char>::empty());
        }
        let ghost held = descriptors_view(found@);
        let ghost d = listed_descriptor(group@, version@, views[i as int], core);
        if has_verb(resource, "get") && has_verb(resource, "list") {
            let descriptor = if core {
                ApiResource::from_gvk_with_plural(
                    "",
                    match &resource.version {
                        Some(v) => v.as_str(),
                        None => version,
                    },
                    resource.kind.as_str(),
                    resource.name.as_str(),
                )
            } else {
                describe(group, version, resource)
            };
            assert(descriptor@ == d);
            if !contains_descriptor(found, &descriptor) {
                found.push(descriptor);
                assert(descriptors_view(found@) =~= held.push(d));
                assert forall|a: ApiResourceView| held.push(d).contains(a) <==> held.contains(a)
                    || a == d by {
                    if held.contains(a) {
                        let w = choose|w: int| 0 <= w < held.len() && held[w] == a;
                        assert(held.push(d)[w] == a);
                    }
                    if a == d {
                        assert(held.push(d)[held.len() as int] == a);
                    }
                }
            }
            assert forall|a: ApiResourceView| descriptors_view(found@).contains(a)
                <==> held.contains(a) || a == d by {}
        }
        assert forall|a: ApiResourceView| #[trigger]
            descriptors_view(found@).contains(a) <==> before.contains(a) || listed_among(
                group@,
                version@,
                core,
                views,
                i as int + 1,
                a,
            ) by {
            let earlier = listed_among(group@, version@, core, views, i as int, a);
            let now = listed_among(group@, version@, core, views, i as int + 1, a);
            assert(held.contains(a) <==> before.contains(a) || earlier);
            if earlier {
                let j = choose|j: int|
                    0 <= j < i && j < views.len() && listable(#[trigger] views[j]) && a
                        == listed_descriptor(group@, version@, views[j], core);
                assert(0 <= j < i + 1 && listable(views[j]));
            }
            if listable(views[i as int]) && a == d {
                assert(now);
            }
            if now && !earlier {
                let j = choose|j: int|
                    0 <= j < i + 1 && j < views.len() && listable(#[trigger] views[j]) && a
                        == listed_descriptor(group@, version@, views[j], core);
                if j < i {
                    assert(listable(views[j]));
                    assert(earlier);
                }
                assert(j == i);
            }
        }
        i += 1;
    }
}

/// The descriptor of a discovered resource type, in a list of the core
/// group or in that of another group.
pub open spec fn listed_descriptor(
    group: Seq<char>,
    version: Seq<char>,
    resource: APIResourceView,
    core: bool,
) -> ApiResourceView {
    if core {
        described_core(version, resource)
    } else {
        described(group, version, resource)
    }
}

/// Tells whether a descriptor is in the list.
pub fn contains_descriptor(found: &Vec<ApiResource>, descriptor: &ApiResource) -> (r: bool)
    ensures
        r == descriptors_view(found@).contains(descriptor@),
{
    let mut i: usize = 0;
    while i < found.len()
        invariant
            i <= found.len(),
            forall|j: int| 0 <= j < i ==> descriptors_view(found@)[j] != descriptor@,
        decreases found.len() - i,
    {
        if found[i].equals(descriptor) {
            assert(descriptors_view(found@)[i as int] == descriptor@);
            return true;
        }
        i += 1;
    }
    false
}

/// One list of the discovery: the resource types of a version of a group.
#[derive(Debug)]
pub struct DiscoveredList {
    /// The name of the group; empty for the core group.
    pub group: String,
    pub version: String,
    pub resources: Vec<APIResource>,
    /// The list is of the core group.
    pub core: bool,
}

/// The descriptor is that of a listable resource type of one of the first
/// `upto` lists.
pub open spec fn found_in(lists: Seq<DiscoveredList>, upto: int, a: ApiResourceView) -> bool {
    exists|i: int|
        0 <= i < upto && i < lists.len() && #[trigger] listed_among(
            lists[i].group@,
            lists[i].version@,
            lists[i].core,
            resources_view(lists[i].resources@),
            lists[i].resources@.len() as int,
            a,
        )
}

/// The descriptors of all resource types that the discovery has told and
/// whose objects can be read and listed: each once.
pub fn find_api_resources(lists: &Vec<DiscoveredList>) -> (r: Vec<ApiResource>)
    ensures
        distinct(descriptors_view(r@)),
        forall|a: ApiResourceView| #[trigger]
            descriptors_view(r@).contains(a) <==> found_in(lists@, lists@.len() as int, a),
{
    let mut found: Vec<ApiResource> = Vec::new();
    let mut i: usize = 0;
    while i < lists.len()
        invariant
            i <= lists.len(),
            distinct(descriptors_view(found@)),
            forall|a: ApiResourceView| #[trigger]
                descriptors_view(found@).contains(a) <==> found_in(lists@, i as int, a),
        decreases lists.len() - i,
    {
        let list = &lists[i];
        let ghost before = descriptors_view(found@);
        add_listable(
            &mut found,
            list.group.as_str(),
            list.version.as_str(),
            &list.resources,
            list.core,
        );
        assert forall|a: ApiResourceView| #[trigger]
            descriptors_view(found@).contains(a) <==> found_in(lists@, i as int + 1, a) by {
            let here = listed_among(
                list.group@,
                list.version@,
                list.core,
                resources_view(list.resources@),
                list.resources@.len() as int,
                a,
            );
            assert(before.contains(a) <==> found_in(lists@, i as int, a));
            if found_in(lists@, i as int + 1, a) {
                let p = choose|p: int|
                    0 <= p < i + 1 && p < lists@.len() && #[trigger] listed_among(
                        lists@[p].group@,
                        lists@[p].version@,
                        lists@[p].core,
                        resources_view(lists@[p].resources@),
                        lists@[p].resources@.len() as int,
                        a,
                    );
                if p < i {
                    assert(found_in(lists@, i as int, a));
                }
            }
            if found_in(lists@, i as int, a) {
                let p = choose|p: int|
                    0 <= p < i && p < lists@.len() && #[trigger] listed_among(
                        lists@[p].group@,
                        lists@[p].version@,
                        lists@[p].core,
                        resources_view(lists@[p].resources@),
                        lists@[p].resources@.len() as int,
                        a,
                    );
                assert(0 <= p < i + 1);
            }
            if here {
                assert(lists@[i as int] == *list);
            }
        }
        i += 1;
    }
    found
}

} // verus!
