//! Releases: named sets of objects that are deployed as one.

pub mod plan;
pub mod rollback;
pub mod verify;

use crate::hash::{fnv1a, identifier_bytes, object_bytes, text_bytes, Hasher};
use crate::identifier::{Identifier, IdentifierView};
use crate::k8s::lock::{lock_object, Lock, LockView};
use crate::k8s::transaction;
use crate::objects::{empty_config_map, ObjectView, Objects};
use crate::release::plan::{plan_of, ReleasePlan};
use crate::sorted_map::{sorted_entries, Duplicate};
use vstd::prelude::*;
use vstd::string::*;

verus! {

/// How the execution of a plan failed.
#[derive(Debug)]
#[allow(inconsistent_fields)]
pub enum Error {
    /// A step failed, and so did taking back the steps before it. The
    /// object store may be left between the two sets of objects.
    RollbackError { error: rollback::Error, cause: transaction::Error },
    /// A step failed, and the steps before it were taken back.
    ReleaseError { error: transaction::Error },
}

/// The content of an [`Error`].
#[allow(inconsistent_fields)]
pub enum ErrorView {
    RollbackError { error: rollback::ErrorView, cause: transaction::ErrorView },
    ReleaseError { error: transaction::ErrorView },
}

impl View for Error {
    type V = ErrorView;

    open spec fn view(&self) -> ErrorView {
        match self {
            Error::RollbackError { error, cause } => ErrorView::RollbackError {
                error: error@,
                cause: cause@,
            },
            Error::ReleaseError { error } => ErrorView::ReleaseError { error: error@ },
        }
    }
}

impl Duplicate for Error {
    fn duplicate(&self) -> (r: Error) {
        match self {
            Error::RollbackError { error, cause } => Error::RollbackError {
                error: error.duplicate(),
                cause: cause.duplicate(),
            },
            Error::ReleaseError { error } => Error::ReleaseError { error: error.duplicate() },
        }
    }
}

/// The content of how an execution ended, where it has.
pub open spec fn result_view(result: Option<Result<(), Error>>) -> Option<Result<(), ErrorView>> {
    match result {
        Some(Ok(())) => Some(Ok(())),
        Some(Err(e)) => Some(Err(e@)),
        None => None,
    }
}

/// A named set of objects that is deployed as one.
#[derive(Debug)]
pub struct Release {
    name: String,
    objects: Objects,
}

/// The content of a [`Release`].
pub struct ReleaseView {
    pub name: Seq<char>,
    pub objects: Map<IdentifierView, ObjectView>,
}

impl View for Release {
    type V = ReleaseView;

    closed spec fn view(&self) -> ReleaseView {
        ReleaseView { name: self.name@, objects: self.objects@ }
    }
}

/// The first `upto` entries of a set of objects, one after the other, each
/// its identifier and then its object.
pub open spec fn entries_bytes(entries: Seq<(IdentifierView, ObjectView)>, upto: nat) -> Seq<u8>
    decreases upto,
{
    if upto == 0 || upto > entries.len() {
        Seq::empty()
    } else {
        entries_bytes(entries, (upto - 1) as nat) + identifier_bytes(entries[upto - 1].0)
            + object_bytes(entries[upto - 1].1)
    }
}

/// The bytes that the content hash of a release is taken of: its name, then
/// its objects in ascending order of their identifiers.
pub open spec fn release_bytes(release: ReleaseView) -> Seq<u8> {
    let entries = sorted_entries::<Identifier, ObjectView>(release.objects);
    text_bytes(release.name) + entries_bytes(entries, entries.len())
}

/// The content hash of a release.
pub open spec fn hash_of(release: ReleaseView) -> u64 {
    fnv1a(release_bytes(release))
}

/// The name of the lock of a release.
pub open spec fn lock_name_of(name: Seq<char>) -> Seq<char> {
    name + "-lock"@
}

/// Two releases of the same name that hold the same objects under the same
/// identifiers have the same hash.
pub proof fn lemma_hash_stable(a: ReleaseView, b: ReleaseView)
    requires
        a.name == b.name,
        a.objects =~= b.objects,
    ensures
        hash_of(a) == hash_of(b),
{
}

/// The hash of a release does not depend on the order in which its objects
/// were put in.
pub proof fn lemma_hash_insertion_order(
    name: Seq<char>,
    objects: Map<IdentifierView, ObjectView>,
    first: (IdentifierView, ObjectView),
    second: (IdentifierView, ObjectView),
)
    requires
        first.0 != second.0,
    ensures
        hash_of(
            ReleaseView { name, objects: objects.insert(first.0, first.1).insert(second.0, second.1) },
        ) == hash_of(
            ReleaseView { name, objects: objects.insert(second.0, second.1).insert(first.0, first.1) },
        ),
{
    assert(objects.insert(first.0, first.1).insert(second.0, second.1) =~= objects.insert(
        second.0,
        second.1,
    ).insert(first.0, first.1));
}

impl Release {
    /// The release of a name with its objects.
    pub fn from_objects(name: String, objects: Objects) -> (r: Release)
        ensures
            r@ == (ReleaseView { name: name@, objects: objects@ }),
    {
        Release { name, objects }
    }

    /// The name of the release.
    pub fn name(&self) -> (r: &String)
        ensures
            r@ == self@.name,
    {
        &self.name
    }

    /// The objects of the release.
    pub fn objects(&self) -> (r: &Objects)
        ensures
            r@ == self@.objects,
    {
        &self.objects
    }

    /// The name of the lock that serializes work on the release.
    pub fn lock_name(&self) -> (r: String)
        ensures
            r@ == lock_name_of(self@.name),
    {
        let mut r = self.name.clone();
        r.append("-lock");
        r
    }

    /// A handle on the lock of the release, about to try for it.
    pub fn lock(&self) -> (r: Lock)
        ensures
            r@ == LockView::Creating,
            r.name_spec() == lock_name_of(self@.name),
            r.object_spec() == lock_object(lock_name_of(self@.name), empty_config_map()),
    {
        Lock::new(self.lock_name())
    }

    /// The content hash of the release. Two releases with the same hash are
    /// taken to be unchanged.
    pub fn hash_value(&self) -> (r: u64)
        ensures
            r == hash_of(self@),
    {
        let n = self.objects.len();
        let ghost entries = self.objects.entries();
        let ghost start = text_bytes(self.name@);
        let mut h = Hasher::new().write_str(self.name.as_str());
        let mut i: usize = 0;
        assert(h.fed() =~= start + entries_bytes(entries, 0));
        while i < n
            invariant
                i <= n,
                n == entries.len(),
                entries == self.objects.entries(),
                h.fed() == start + entries_bytes(entries, i as nat),
            decreases n - i,
        {
            h = h.write_identifier(self.objects.identifier_at(i)).write_object(
                self.objects.object_at(i),
            );
            assert(h.fed() =~= start + entries_bytes(entries, (i + 1) as nat));
            i += 1;
        }
        h.finish()
    }

    /// The plan that brings the object store from an older release to this
    /// one.
    pub fn upgrade(&self, old: &Release) -> (r: ReleasePlan)
        ensures
            r@ == plan_of(self@.name, self@.objects, old@.objects),
    {
        ReleasePlan::new(&self.name, &self.objects, &old.objects)
    }

    /// The plan that installs this release where nothing of it is there.
    pub fn install(&self) -> (r: ReleasePlan)
        ensures
            r@ == plan_of(self@.name, self@.objects, Map::empty()),
    {
        ReleasePlan::new(&self.name, &self.objects, &Objects::empty())
    }

    /// The plan that removes every object of this release.
    pub fn uninstall(&self) -> (r: ReleasePlan)
        ensures
            r@ == plan_of(self@.name, Map::empty(), self@.objects),
    {
        ReleasePlan::new(&self.name, &Objects::empty(), &self.objects)
    }
}

impl Duplicate for Release {
    fn duplicate(&self) -> (r: Release) {
        Release { name: self.name.clone(), objects: self.objects.duplicate() }
    }
}

impl Clone for Release {
    fn clone(&self) -> (r: Release)
        ensures
            r@ == self@,
    {
        self.duplicate()
    }
}

} // verus!
