//! The resource types that objects can be deployed to: those on which the
//! store lets everything be done that a deployment does.

use crate::k8s::api_resource::{
    describe, described, descriptors_view, has_verb, resources_view, APIResource,
    APIResourceView, ApiResource, ApiResourceView,
};
use vstd::prelude::*;

verus! {

/// Objects of the resource type can be created, listed, read, patched and
/// deleted.
pub open spec fn eligible(resource: APIResourceView) -> bool {
    &&& resource.verbs.contains("create"@)
    &&& resource.verbs.contains("list"@)
    &&& resource.verbs.contains("get"@)
    &&& resource.verbs.contains("patch"@)
    &&& resource.verbs.contains("delete"@)
}

/// Tells whether everything that a deployment does can be done with the
/// objects of a resource type.
pub fn is_eligible_api_resource(resource: &APIResource) -> (r: bool)
    ensures
        r == eligible(resource@),
{
    let can_create = has_verb(resource, "create");
    let can_list = has_verb(resource, "list");
    let can_get = has_verb(resource, "get");
    let can_patch = has_verb(resource, "patch");
    let can_delete = has_verb(resource, "delete");
    can_create && can_list && can_get && can_patch && can_delete
}

/// The descriptor of a discovered resource type in the list of a group and
/// a version.
pub fn to_api_resource(group: &String, core_version: &String, resource: &APIResource) -> (r:
    ApiResource)
    ensures
        r@ == described(group@, core_version@, resource@),
{
    describe(group.as_str(), core_version.as_str(), resource)
}

/// The descriptors of the eligible among the first `upto` resource types of
/// a list, in their order.
pub open spec fn eligible_of(
    group: Seq<char>,
    version: Seq<char>,
    resources: Seq<APIResourceView>,
    upto: nat,
) -> Seq<ApiResourceView>
    decreases upto,
{
    if upto == 0 || upto > resources.len() {
        Seq::empty()
    } else {
        let front = eligible_of(group, version, resources, (upto - 1) as nat);
        if eligible(resources[upto - 1]) {
            front.push(described(group, version, resources[upto - 1]))
        } else {
            front
        }
    }
}

/// Adds the descriptors of the eligible resource types of a list.
pub fn add_eligible(
    found: &mut Vec<ApiResource>,
    group: &String,
    version: &String,
    resources: &Vec<APIResource>,
)
    ensures
        descriptors_view(final(found)@) == descriptors_view(old(found)@) + eligible_of(
            group@,
            version@,
            resources_view(resources@),
            resources@.len(),
        ),
{
    let ghost before = descriptors_view(found@);
    let ghost views = resources_view(resources@);
    let mut i: usize = 0;
    assert(descriptors_view(found@) =~= before + eligible_of(group@, version@, views, 0));
    while i < resources.len()
        invariant
            i <= resources.len(),
            views == resources_view(resources@),
            descriptors_view(found@) == before + eligible_of(group@, version@, views, i as nat),
        decreases resources.len() - i,
    {
        let ghost held = descriptors_view(found@);
        if is_eligible_api_resource(&resources[i]) {
            let descriptor = to_api_resource(group, version, &resources[i]);
            found.push(descriptor);
            assert(descriptors_view(found@) =~= held.push(descriptor@));
        }
        assert(descriptors_view(found@) =~= before + eligible_of(
            group@,
            version@,
            views,
            (i + 1) as nat,
        ));
        i += 1;
    }
}

/// The resource types of one version of the core group.
#[derive(Debug)]
pub struct CoreVersion {
    pub version: String,
    pub resources: Vec<APIResource>,
}

/// The descriptors of the eligible resource types of the first `upto`
/// versions of the core group.
pub open spec fn core_resources_of(versions: Seq<CoreVersion>, upto: nat) -> Seq<ApiResourceView>
    decreases upto,
{
    if upto == 0 || upto > versions.len() {
        Seq::empty()
    } else {
        core_resources_of(versions, (upto - 1) as nat) + eligible_of(
            Seq::empty(),
            versions[upto - 1].version@,
            resources_view(versions[upto - 1].resources@),
            versions[upto - 1].resources@.len(),
        )
    }
}

/// The descriptors of the resource types of the core group that objects
/// can be deployed to.
pub fn get_core_api_resources(versions: &Vec<CoreVersion>) -> (r: Vec<ApiResource>)
    ensures
        descriptors_view(r@) == core_resources_of(versions@, versions@.len()),
{
    let mut all_resources: Vec<ApiResource> = Vec::new();
    let empty = String::new();
    let mut i: usize = 0;
    assert(descriptors_view(all_resources@) =~= core_resources_of(versions@, 0));
    while i < versions.len()
        invariant
            i <= versions.len(),
            empty@ == Seq::<char>::empty(),
            descriptors_view(all_resources@) == core_resources_of(versions@, i as nat),
        decreases versions.len() - i,
    {
        add_eligible(&mut all_resources, &empty, &versions[i].version, &versions[i].resources);
        i += 1;
    }
    all_resources
}

/// The resource types of one version of a group.
#[derive(Debug)]
pub struct GroupVersion {
    /// Group and version as one text, as the discovery is asked for them.
    pub group_version: String,
    pub version: String,
    pub resources: Vec<APIResource>,
}

/// A group of the object store with its versions.
#[derive(Debug)]
pub struct APIGroup {
    pub name: String,
    /// The version that the store prefers, where it says so.
    pub preferred_version: Option<GroupVersion>,
    pub versions: Vec<GroupVersion>,
}

/// The descriptors of the eligible resource types of the first `upto`
/// versions of a group.
pub open spec fn versions_resources_of(group: Seq<char>, versions: Seq<GroupVersion>, upto: nat) -> Seq<
    ApiResourceView,
>
    decreases upto,
{
    if upto == 0 || upto > versions.len() {
        Seq::empty()
    } else {
        versions_resources_of(group, versions, (upto - 1) as nat) + eligible_of(
            group,
            versions[upto - 1].version@,
            resources_view(versions[upto - 1].resources@),
            versions[upto - 1].resources@.len(),
        )
    }
}

/// The descriptors of the eligible resource types of a group: those of its
/// preferred version where it has one, else those of all its versions.
pub open spec fn group_resources(group: APIGroup) -> Seq<ApiResourceView> {
    match group.preferred_version {
        Some(ideal) => eligible_of(
            group.name@,
            ideal.version@,
            resources_view(ideal.resources@),
            ideal.resources@.len(),
        ),
        None => versions_resources_of(group.name@, group.versions@, group.versions@.len()),
    }
}

/// The descriptors of the eligible resource types of the first `upto`
/// groups.
pub open spec fn group_resources_of(groups: Seq<APIGroup>, upto: nat) -> Seq<ApiResourceView>
    decreases upto,
{
    if upto == 0 || upto > groups.len() {
        Seq::empty()
    } else {
        group_resources_of(groups, (upto - 1) as nat) + group_resources(groups[upto - 1])
    }
}

/// The descriptors of the resource types of all groups but the core group
/// that objects can be deployed to.
pub fn get_api_resources(groups: &Vec<APIGroup>) -> (r: Vec<ApiResource>)
    ensures
        descriptors_view(r@) == group_resources_of(groups@, groups@.len()),
{
    let mut all_resources: Vec<ApiResource> = Vec::new();
    let mut i: usize = 0;
    assert(descriptors_view(all_resources@) =~= group_resources_of(groups@, 0));
    while i < groups.len()
        invariant
            i <= groups.len(),
            descriptors_view(all_resources@) == group_resources_of(groups@, i as nat),
        decreases groups.len() - i,
    {
        let group = &groups[i];
        let ghost start = descriptors_view(all_resources@);
        match &group.preferred_version {
            Some(ideal) => {
                add_eligible(&mut all_resources, &group.name, &ideal.version, &ideal.resources);
            },
            None => {
                let mut j: usize = 0;
                assert(descriptors_view(all_resources@) =~= start + versions_resources_of(
                    group.name@,
                    group.versions@,
                    0,
                ));
                while j < group.versions.len()
                    invariant
                        j <= group.versions.len(),
                        descriptors_view(all_resources@) == start + versions_resources_of(
                            group.name@,
                            group.versions@,
                            j as nat,
                        ),
                    decreases group.versions.len() - j,
                {
                    let ghost held = descriptors_view(all_resources@);
                    add_eligible(
                        &mut all_resources,
                        &group.name,
                        &group.versions[j].version,
                        &group.versions[j].resources,
                    );
                    assert(descriptors_view(all_resources@) =~= start + versions_resources_of(
                        group.name@,
                        group.versions@,
                        (j + 1) as nat,
                    ));
                    j += 1;
                }
            },
        }
        i += 1;
    }
    all_resources
}

/// What is known of the resource types of the object store.
#[derive(Debug)]
pub struct ApiKnowledge {
    api_resources: Vec<ApiResource>,
}

impl ApiKnowledge {
    /// The descriptors that are known.
    pub closed spec fn known(&self) -> Seq<ApiResourceView> {
        descriptors_view(self.api_resources@)
    }

    /// What the discovery tells of the resource types that objects can be
    /// deployed to: those of the core group, then those of the other
    /// groups.
    pub fn new(versions: &Vec<CoreVersion>, groups: &Vec<APIGroup>) -> (r: ApiKnowledge)
        ensures
            r.known() == core_resources_of(versions@, versions@.len()) + group_resources_of(
                groups@,
                groups@.len(),
            ),
    {
        let mut api_resources = get_core_api_resources(versions);
        let mut more = get_api_resources(groups);
        let ghost first = descriptors_view(api_resources@);
        let ghost second = descriptors_view(more@);
        api_resources.append(&mut more);
        assert(descriptors_view(api_resources@) =~= first + second);
        ApiKnowledge { api_resources }
    }

    /// The descriptors that are known.
    pub fn api_resources(&self) -> (r: &Vec<ApiResource>)
        ensures
            descriptors_view(r@) == self.known(),
    {
        &self.api_resources
    }
}

} // verus!
