//! Plans: what has to be created, upgraded and deleted to get from one set
//! of objects to another.

use crate::identifier::{Identifier, IdentifierView};
use crate::k8s::annotations::WithAnnotations;
use crate::k8s::labels::WithLabels;
use crate::k8s::{lemma_keys_differ, CrateVersion, ObjectType, ReleaseName, RELEASE_KEY, TYPE_KEY, VERSION_KEY};
use crate::meta::CRATE_VERSION;
use crate::k8s::transaction::{
    self, outcome_view, request_object, request_of, Action, KubeError, KubeErrorView, Request,
    RequestView,
};
use crate::objects::{
    keyed, DynamicObjectView, Object, ObjectMetaView, ObjectView, Objects,
};
use crate::release;
use crate::release::rollback::{
    self, each, empty_plan, objects_view, registered, run_at, run_pending, run_report,
    steps_view, Rollbackable, RunView,
};
use crate::sorted_map::{
    as_map, ascending, kept, lemma_entry, lemma_kept, lemma_sorted_exists, sorted_entries,
    Duplicate,
};
use vstd::prelude::*;

verus! {

/// The creation of an object.
#[derive(Debug)]
pub struct Create {
    pub new: Object,
}

/// The replacement of an object by a newer one.
#[derive(Debug)]
pub struct Upgrade {
    pub new: Object,
    pub old: Object,
}

/// The deletion of an object.
#[derive(Debug)]
pub struct Delete {
    pub old: Object,
}

/// What has to be done to the object store to bring a release from one set
/// of objects to another. Every object in it carries the marks of the tool.
#[derive(Debug)]
pub struct ReleasePlan {
    pub creations: Vec<Create>,
    pub upgrades: Vec<Upgrade>,
    pub deletions: Vec<Delete>,
}

/// The content of a [`ReleasePlan`]: the objects to create, the pairs of new
/// and old object to upgrade, and the objects to delete.
pub struct ReleasePlanView {
    pub creations: Seq<ObjectView>,
    pub upgrades: Seq<(ObjectView, ObjectView)>,
    pub deletions: Seq<ObjectView>,
}

/// The objects of a list of creations.
pub open spec fn creations_view(creations: Seq<Create>) -> Seq<ObjectView> {
    Seq::new(creations.len(), |i: int| creations[i].new@)
}

/// The new and old objects of a list of upgrades.
pub open spec fn upgrades_view(upgrades: Seq<Upgrade>) -> Seq<(ObjectView, ObjectView)> {
    Seq::new(upgrades.len(), |i: int| (upgrades[i].new@, upgrades[i].old@))
}

/// The objects of a list of deletions.
pub open spec fn deletions_view(deletions: Seq<Delete>) -> Seq<ObjectView> {
    Seq::new(deletions.len(), |i: int| deletions[i].old@)
}

impl View for ReleasePlan {
    type V = ReleasePlanView;

    open spec fn view(&self) -> ReleasePlanView {
        ReleasePlanView {
            creations: creations_view(self.creations@),
            upgrades: upgrades_view(self.upgrades@),
            deletions: deletions_view(self.deletions@),
        }
    }
}

/// The object with the marks of the tool: the labels that say it is managed
/// and which release it belongs to, and the annotation of the tool's
/// version. Nothing else of it changes.
pub open spec fn tagged(release_name: Seq<char>, object: ObjectView) -> ObjectView {
    let meta = object.dyn_object.metadata;
    ObjectView {
        dyn_object: DynamicObjectView {
            metadata: ObjectMetaView {
                labels: meta.labels.insert(TYPE_KEY@, ObjectType::Managed.text()).insert(
                    RELEASE_KEY@,
                    release_name,
                ),
                annotations: meta.annotations.insert(VERSION_KEY@, CRATE_VERSION@),
                ..meta
            },
            ..object.dyn_object
        },
        ..object
    }
}

/// The object carries the marks of the tool for the release.
pub open spec fn is_tagged(release_name: Seq<char>, object: ObjectView) -> bool {
    let meta = object.dyn_object.metadata;
    &&& meta.labels.contains_pair(TYPE_KEY@, ObjectType::Managed.text())
    &&& meta.labels.contains_pair(RELEASE_KEY@, release_name)
    &&& meta.annotations.contains_pair(VERSION_KEY@, CRATE_VERSION@)
}

/// The identifiers that are not among those of a set of objects.
pub open spec fn outside(objects: Map<IdentifierView, ObjectView>) -> Set<IdentifierView> {
    Set::new(|k: IdentifierView| !objects.contains_key(k))
}

/// The tagged objects of some entries, in their order.
pub open spec fn tagged_objects(
    release_name: Seq<char>,
    entries: Seq<(IdentifierView, ObjectView)>,
) -> Seq<ObjectView> {
    Seq::new(entries.len(), |i: int| tagged(release_name, entries[i].1))
}

/// For each entry, the tagged object with the tagged object that `old` has
/// under the same identifier.
pub open spec fn tagged_pairs(
    release_name: Seq<char>,
    entries: Seq<(IdentifierView, ObjectView)>,
    old: Map<IdentifierView, ObjectView>,
) -> Seq<(ObjectView, ObjectView)> {
    Seq::new(
        entries.len(),
        |i: int| (tagged(release_name, entries[i].1), tagged(release_name, old[entries[i].0])),
    )
}

/// The entries of the objects to create: those of `desired` whose
/// identifier `previous` does not have, in ascending order.
pub open spec fn creation_entries(
    desired: Map<IdentifierView, ObjectView>,
    previous: Map<IdentifierView, ObjectView>,
) -> Seq<(IdentifierView, ObjectView)> {
    sorted_entries::<Identifier, ObjectView>(desired.restrict(outside(previous)))
}

/// The entries of the objects to upgrade: those of `desired` whose
/// identifier `previous` has too, in ascending order.
pub open spec fn upgrade_entries(
    desired: Map<IdentifierView, ObjectView>,
    previous: Map<IdentifierView, ObjectView>,
) -> Seq<(IdentifierView, ObjectView)> {
    sorted_entries::<Identifier, ObjectView>(desired.restrict(previous.dom()))
}

/// The entries of the objects to delete: those of `previous` whose
/// identifier `desired` does not have, in ascending order.
pub open spec fn deletion_entries(
    desired: Map<IdentifierView, ObjectView>,
    previous: Map<IdentifierView, ObjectView>,
) -> Seq<(IdentifierView, ObjectView)> {
    sorted_entries::<Identifier, ObjectView>(previous.restrict(outside(desired)))
}

/// The plan that leads from `previous` to `desired`.
pub open spec fn plan_of(
    release_name: Seq<char>,
    desired: Map<IdentifierView, ObjectView>,
    previous: Map<IdentifierView, ObjectView>,
) -> ReleasePlanView {
    ReleasePlanView {
        creations: tagged_objects(release_name, creation_entries(desired, previous)),
        upgrades: tagged_pairs(release_name, upgrade_entries(desired, previous), previous),
        deletions: tagged_objects(release_name, deletion_entries(desired, previous)),
    }
}

/// The plan that takes back what a plan does: it deletes what was created,
/// creates what was deleted and upgrades back to what was there.
pub open spec fn undo_of(plan: ReleasePlanView) -> ReleasePlanView {
    ReleasePlanView {
        creations: plan.deletions,
        upgrades: Seq::new(plan.upgrades.len(), |i: int| (plan.upgrades[i].1, plan.upgrades[i].0)),
        deletions: plan.creations,
    }
}

/// To undo the undoing of a plan is the plan.
pub proof fn lemma_undo_involution(plan: ReleasePlanView)
    ensures
        undo_of(undo_of(plan)) == plan,
{
    assert(undo_of(undo_of(plan)).upgrades =~= plan.upgrades);
}

/// A tagged object carries the marks, and is otherwise the object it was
/// made of: same descriptor, same name, same body.
pub proof fn lemma_tagged(release_name: Seq<char>, object: ObjectView)
    ensures
        is_tagged(release_name, tagged(release_name, object)),
        tagged(release_name, object).identifier() == object.identifier(),
        tagged(release_name, object).api_resource == object.api_resource,
        tagged(release_name, object).dyn_object.data == object.dyn_object.data,
        tagged(release_name, object).dyn_object.types == object.dyn_object.types,
{
    lemma_keys_differ();
}

/// Every object inside every action of a plan carries the marks of the
/// tool for the release.
pub proof fn lemma_plan_tagged(
    release_name: Seq<char>,
    desired: Map<IdentifierView, ObjectView>,
    previous: Map<IdentifierView, ObjectView>,
)
    ensures
        ({
            let plan = plan_of(release_name, desired, previous);
            &&& forall|i: int|
                0 <= i < plan.creations.len() ==> is_tagged(
                    release_name,
                    #[trigger] plan.creations[i],
                )
            &&& forall|i: int|
                0 <= i < plan.upgrades.len() ==> is_tagged(
                    release_name,
                    (#[trigger] plan.upgrades[i]).0,
                ) && is_tagged(release_name, plan.upgrades[i].1)
            &&& forall|i: int|
                0 <= i < plan.deletions.len() ==> is_tagged(
                    release_name,
                    #[trigger] plan.deletions[i],
                )
        }),
{
    let plan = plan_of(release_name, desired, previous);
    let c = creation_entries(desired, previous);
    let u = upgrade_entries(desired, previous);
    let d = deletion_entries(desired, previous);
    assert forall|i: int| 0 <= i < plan.creations.len() implies is_tagged(
        release_name,
        #[trigger] plan.creations[i],
    ) by {
        lemma_tagged(release_name, c[i].1);
    }
    assert forall|i: int| 0 <= i < plan.upgrades.len() implies is_tagged(
        release_name,
        (#[trigger] plan.upgrades[i]).0,
    ) && is_tagged(release_name, plan.upgrades[i].1) by {
        lemma_tagged(release_name, u[i].1);
        lemma_tagged(release_name, previous[u[i].0]);
    }
    assert forall|i: int| 0 <= i < plan.deletions.len() implies is_tagged(
        release_name,
        #[trigger] plan.deletions[i],
    ) by {
        lemma_tagged(release_name, d[i].1);
    }
}

/// The three lists of a plan divide the identifiers of the two sets of
/// objects among them. What is created and what is upgraded is together
/// what `desired` holds; what is deleted and what is upgraded is together
/// what `previous` holds; no identifier is in two lists, nor twice in one.
/// Each action carries the tagged object of its identifier.
pub proof fn lemma_plan_partition(
    release_name: Seq<char>,
    desired: Map<IdentifierView, ObjectView>,
    previous: Map<IdentifierView, ObjectView>,
)
    requires
        desired.dom().finite(),
        previous.dom().finite(),
    ensures
        ({
            let plan = plan_of(release_name, desired, previous);
            let c = creation_entries(desired, previous);
            let u = upgrade_entries(desired, previous);
            let d = deletion_entries(desired, previous);
            &&& ascending::<Identifier, ObjectView>(c)
            &&& ascending::<Identifier, ObjectView>(u)
            &&& ascending::<Identifier, ObjectView>(d)
            &&& as_map(c).dom() == desired.dom().difference(previous.dom())
            &&& as_map(u).dom() == desired.dom().intersect(previous.dom())
            &&& as_map(d).dom() == previous.dom().difference(desired.dom())
            &&& as_map(c).dom().union(as_map(u).dom()) == desired.dom()
            &&& as_map(d).dom().union(as_map(u).dom()) == previous.dom()
            &&& as_map(c).dom().disjoint(as_map(u).dom())
            &&& as_map(c).dom().disjoint(as_map(d).dom())
            &&& as_map(u).dom().disjoint(as_map(d).dom())
            &&& plan.creations.len() == c.len()
            &&& plan.upgrades.len() == u.len()
            &&& plan.deletions.len() == d.len()
            &&& forall|i: int|
                0 <= i < c.len() ==> desired.contains_key((#[trigger] c[i]).0)
                    && plan.creations[i] == tagged(release_name, desired[c[i].0])
            &&& forall|i: int|
                0 <= i < u.len() ==> desired.contains_key((#[trigger] u[i]).0)
                    && previous.contains_key(u[i].0) && plan.upgrades[i] == (
                    tagged(release_name, desired[u[i].0]),
                    tagged(release_name, previous[u[i].0]),
                )
            &&& forall|i: int|
                0 <= i < d.len() ==> previous.contains_key((#[trigger] d[i]).0)
                    && plan.deletions[i] == tagged(release_name, previous[d[i].0])
        }),
{
    let plan = plan_of(release_name, desired, previous);
    let c = creation_entries(desired, previous);
    let u = upgrade_entries(desired, previous);
    let d = deletion_entries(desired, previous);
    let mc = desired.restrict(outside(previous));
    let mu = desired.restrict(previous.dom());
    let md = previous.restrict(outside(desired));
    assert(mc.dom() =~= desired.dom().difference(previous.dom()));
    assert(mu.dom() =~= desired.dom().intersect(previous.dom()));
    assert(md.dom() =~= previous.dom().difference(desired.dom()));
    vstd::set_lib::lemma_len_difference(desired.dom(), previous.dom());
    vstd::set_lib::lemma_len_intersect(desired.dom(), previous.dom());
    vstd::set_lib::lemma_len_difference(previous.dom(), desired.dom());
    lemma_sorted_exists::<Identifier, ObjectView>(mc);
    lemma_sorted_exists::<Identifier, ObjectView>(mu);
    lemma_sorted_exists::<Identifier, ObjectView>(md);
    assert(mc.dom().union(mu.dom()) =~= desired.dom());
    assert(md.dom().union(mu.dom()) =~= previous.dom());
    assert forall|i: int| 0 <= i < c.len() implies desired.contains_key((#[trigger] c[i]).0)
        && plan.creations[i] == tagged(release_name, desired[c[i].0]) by {
        lemma_entry::<Identifier, ObjectView>(c, i);
    }
    assert forall|i: int| 0 <= i < u.len() implies desired.contains_key((#[trigger] u[i]).0)
        && previous.contains_key(u[i].0) && plan.upgrades[i] == (
        tagged(release_name, desired[u[i].0]),
        tagged(release_name, previous[u[i].0]),
    ) by {
        lemma_entry::<Identifier, ObjectView>(u, i);
    }
    assert forall|i: int| 0 <= i < d.len() implies previous.contains_key((#[trigger] d[i]).0)
        && plan.deletions[i] == tagged(release_name, previous[d[i].0]) by {
        lemma_entry::<Identifier, ObjectView>(d, i);
    }
}

/// Where the objects of both sets stand under their own identifiers, each
/// action of the plan carries an object of the identifier it is listed
/// under.
pub proof fn lemma_plan_identifiers(
    release_name: Seq<char>,
    desired: Map<IdentifierView, ObjectView>,
    previous: Map<IdentifierView, ObjectView>,
)
    requires
        desired.dom().finite(),
        previous.dom().finite(),
        keyed(desired),
        keyed(previous),
    ensures
        ({
            let plan = plan_of(release_name, desired, previous);
            let c = creation_entries(desired, previous);
            let u = upgrade_entries(desired, previous);
            let d = deletion_entries(desired, previous);
            &&& forall|i: int|
                0 <= i < c.len() ==> (#[trigger] plan.creations[i]).identifier() == Some(c[i].0)
            &&& forall|i: int|
                0 <= i < u.len() ==> (#[trigger] plan.upgrades[i]).0.identifier() == Some(u[i].0)
                    && plan.upgrades[i].1.identifier() == Some(u[i].0)
            &&& forall|i: int|
                0 <= i < d.len() ==> (#[trigger] plan.deletions[i]).identifier() == Some(d[i].0)
        }),
{
    let plan = plan_of(release_name, desired, previous);
    let c = creation_entries(desired, previous);
    let u = upgrade_entries(desired, previous);
    let d = deletion_entries(desired, previous);
    lemma_plan_partition(release_name, desired, previous);
    assert forall|i: int| 0 <= i < c.len() implies (#[trigger] plan.creations[i]).identifier()
        == Some(c[i].0) by {
        assert(desired.contains_key(c[i].0));
        lemma_tagged(release_name, desired[c[i].0]);
    }
    assert forall|i: int| 0 <= i < u.len() implies (#[trigger] plan.upgrades[i]).0.identifier()
        == Some(u[i].0) && plan.upgrades[i].1.identifier() == Some(u[i].0) by {
        assert(desired.contains_key(u[i].0));
        assert(previous.contains_key(u[i].0));
        lemma_tagged(release_name, desired[u[i].0]);
        lemma_tagged(release_name, previous[u[i].0]);
    }
    assert forall|i: int| 0 <= i < d.len() implies (#[trigger] plan.deletions[i]).identifier()
        == Some(d[i].0) by {
        assert(previous.contains_key(d[i].0));
        lemma_tagged(release_name, previous[d[i].0]);
    }
}

impl ReleasePlan {
    /// Marks an object as managed by the tool for a release.
    pub fn tag_object(release_name: String, object: Object) -> (r: Object)
        ensures
            r@ == tagged(release_name@, object@),
            is_tagged(release_name@, r@),
    {
        proof {
            lemma_keys_differ();
        }
        let ghost meta = object@.dyn_object.metadata;
        let r = object.with_label(&ObjectType::Managed).with_label(
            &ReleaseName(release_name),
        ).with_annotation(&CrateVersion);
        assert(r@.dyn_object.metadata.labels =~= meta.labels.insert(
            TYPE_KEY@,
            ObjectType::Managed.text(),
        ).insert(RELEASE_KEY@, release_name@));
        assert(r@.dyn_object.metadata.annotations =~= meta.annotations.insert(
            VERSION_KEY@,
            CRATE_VERSION@,
        ));
        r
    }

    /// Computes what leads from `old_objects` to `new_objects`: objects that
    /// only the new set has are created, objects that both have are
    /// upgraded, objects that only the old set has are deleted. Each list
    /// ascends by identifier, and every object in it is a tagged copy.
    pub fn new(release_name: &String, new_objects: &Objects, old_objects: &Objects) -> (r:
        ReleasePlan)
        ensures
            r@ == plan_of(release_name@, new_objects@, old_objects@),
    {
        let ghost name = release_name@;
        let ghost desired = new_objects@;
        let ghost previous = old_objects@;
        let ghost fresh = outside(previous);
        let ghost gone = outside(desired);
        let mut creations: Vec<Create> = Vec::new();
        let mut upgrades: Vec<Upgrade> = Vec::new();
        let mut deletions: Vec<Delete> = Vec::new();

        let n = new_objects.len();
        let ghost entries = new_objects.entries();
        let mut i: usize = 0;
        while i < n
            invariant
                i <= n,
                n == entries.len(),
                entries == new_objects.entries(),
                name == release_name@,
                previous == old_objects@,
                fresh == outside(previous),
                creations_view(creations@) == tagged_objects(
                    name,
                    kept(entries.subrange(0, i as int), fresh),
                ),
                upgrades_view(upgrades@) == tagged_pairs(
                    name,
                    kept(entries.subrange(0, i as int), previous.dom()),
                    previous,
                ),
            decreases n - i,
        {
            let ghost before = entries.subrange(0, i as int);
            let ghost after = entries.subrange(0, i as int + 1);
            assert(after.drop_last() =~= before);
            assert(after.last() == entries[i as int]);
            let key = new_objects.identifier_at(i);
            let new = ReleasePlan::tag_object(release_name.clone(), new_objects.object_at(i).duplicate());
            match old_objects.get(key) {
                Some(old) => {
                    let old = ReleasePlan::tag_object(release_name.clone(), old.duplicate());
                    let ghost done = upgrades@;
                    upgrades.push(Upgrade { new, old });
                    assert forall|k: int| 0 <= k < done.len() implies upgrades_view(upgrades@)[k]
                        == upgrades_view(done)[k] by {}
                    assert(kept(after, previous.dom()) == kept(before, previous.dom()).push(
                        entries[i as int],
                    ));
                    assert(kept(after, fresh) == kept(before, fresh));
                    let ghost tb = tagged_pairs(name, kept(before, previous.dom()), previous);
                    let ghost ta = tagged_pairs(name, kept(after, previous.dom()), previous);
                    assert(upgrades_view(done) == tb);
                    assert(ta.len() == tb.len() + 1);
                    assert forall|k: int| 0 <= k < tb.len() implies ta[k] == tb[k] by {}
                    assert(ta[tb.len() as int] == (new@, old@));
                    assert(upgrades_view(upgrades@).len() == ta.len());
                    assert(upgrades_view(upgrades@)[tb.len() as int] == (new@, old@));
                    assert(upgrades_view(upgrades@) =~= ta);
                },
                None => {
                    let ghost done = creations@;
                    creations.push(Create { new });
                    assert forall|k: int| 0 <= k < done.len() implies creations_view(creations@)[k]
                        == creations_view(done)[k] by {}
                    assert(kept(after, fresh) == kept(before, fresh).push(entries[i as int]));
                    assert(kept(after, previous.dom()) == kept(before, previous.dom()));
                    let ghost tb = tagged_objects(name, kept(before, fresh));
                    let ghost ta = tagged_objects(name, kept(after, fresh));
                    assert(creations_view(done) == tb);
                    assert forall|k: int| 0 <= k < tb.len() implies ta[k] == tb[k] by {}
                    assert(ta[tb.len() as int] == new@);
                    assert(creations_view(creations@)[tb.len() as int] == new@);
                    assert(creations_view(creations@) =~= ta);
                },
            }
            i += 1;
        }
        proof {
            assert(entries.subrange(0, n as int) =~= entries);
            lemma_kept::<Identifier, ObjectView>(entries, fresh);
            lemma_kept::<Identifier, ObjectView>(entries, previous.dom());
        }

        let m = old_objects.len();
        let ghost old_entries = old_objects.entries();
        let mut j: usize = 0;
        while j < m
            invariant
                j <= m,
                m == old_entries.len(),
                old_entries == old_objects.entries(),
                name == release_name@,
                desired == new_objects@,
                gone == outside(desired),
                deletions_view(deletions@) == tagged_objects(
                    name,
                    kept(old_entries.subrange(0, j as int), gone),
                ),
            decreases m - j,
        {
            let ghost before = old_entries.subrange(0, j as int);
            let ghost after = old_entries.subrange(0, j as int + 1);
            assert(after.drop_last() =~= before);
            assert(after.last() == old_entries[j as int]);
            if !new_objects.contains(old_objects.identifier_at(j)) {
                let old = ReleasePlan::tag_object(
                    release_name.clone(),
                    old_objects.object_at(j).duplicate(),
                );
                let ghost done = deletions@;
                deletions.push(Delete { old });
                assert forall|k: int| 0 <= k < done.len() implies deletions_view(deletions@)[k]
                    == deletions_view(done)[k] by {}
                assert(kept(after, gone) == kept(before, gone).push(old_entries[j as int]));
                let ghost tb = tagged_objects(name, kept(before, gone));
                let ghost ta = tagged_objects(name, kept(after, gone));
                assert(deletions_view(done) == tb);
                assert forall|k: int| 0 <= k < tb.len() implies ta[k] == tb[k] by {}
                assert(ta[tb.len() as int] == old@);
                assert(deletions_view(deletions@)[tb.len() as int] == old@);
                assert(deletions_view(deletions@) =~= ta);
            } else {
                assert(kept(after, gone) == kept(before, gone));
            }
            j += 1;
        }
        proof {
            assert(old_entries.subrange(0, m as int) =~= old_entries);
            lemma_kept::<Identifier, ObjectView>(old_entries, gone);
        }
        ReleasePlan { creations, upgrades, deletions }
    }

    /// The plan that takes back what this plan does.
    pub fn undo(&self) -> (r: ReleasePlan)
        ensures
            r@ == undo_of(self@),
    {
        let mut creations: Vec<Create> = Vec::new();
        let mut i: usize = 0;
        while i < self.deletions.len()
            invariant
                i <= self.deletions.len(),
                creations.len() == i,
                forall|k: int| 0 <= k < i ==> (#[trigger] creations@[k]).new@ == self.deletions@[k].old@,
            decreases self.deletions.len() - i,
        {
            creations.push(Create { new: self.deletions[i].old.duplicate() });
            i += 1;
        }
        let mut upgrades: Vec<Upgrade> = Vec::new();
        let mut i: usize = 0;
        while i < self.upgrades.len()
            invariant
                i <= self.upgrades.len(),
                upgrades.len() == i,
                forall|k: int|
                    0 <= k < i ==> (#[trigger] upgrades@[k]).new@ == self.upgrades@[k].old@
                        && upgrades@[k].old@ == self.upgrades@[k].new@,
            decreases self.upgrades.len() - i,
        {
            upgrades.push(
                Upgrade {
                    new: self.upgrades[i].old.duplicate(),
                    old: self.upgrades[i].new.duplicate(),
                },
            );
            i += 1;
        }
        let mut deletions: Vec<Delete> = Vec::new();
        let mut i: usize = 0;
        while i < self.creations.len()
            invariant
                i <= self.creations.len(),
                deletions.len() == i,
                forall|k: int| 0 <= k < i ==> (#[trigger] deletions@[k]).old@ == self.creations@[k].new@,
            decreases self.creations.len() - i,
        {
            deletions.push(Delete { old: self.creations[i].new.duplicate() });
            i += 1;
        }
        let r = ReleasePlan { creations, upgrades, deletions };
        assert(r@.creations =~= undo_of(self@).creations);
        assert(r@.upgrades =~= undo_of(self@).upgrades);
        assert(r@.deletions =~= undo_of(self@).deletions);
        r
    }
}

impl Rollbackable for Create {
    open spec fn rollback_spec(&self) -> (Action, ObjectView) {
        (Action::Delete, self.new@)
    }

    fn to_rollback(&self) -> (r: (Action, &Object)) {
        (Action::Delete, &self.new)
    }
}

impl Rollbackable for Upgrade {
    open spec fn rollback_spec(&self) -> (Action, ObjectView) {
        (Action::Apply, self.old@)
    }

    fn to_rollback(&self) -> (r: (Action, &Object)) {
        (Action::Apply, &self.old)
    }
}

impl Rollbackable for Delete {
    open spec fn rollback_spec(&self) -> (Action, ObjectView) {
        (Action::Create, self.old@)
    }

    fn to_rollback(&self) -> (r: (Action, &Object)) {
        (Action::Create, &self.old)
    }
}

/// The new object of each upgrade.
pub open spec fn upgrade_targets(upgrades: Seq<(ObjectView, ObjectView)>) -> Seq<ObjectView> {
    Seq::new(upgrades.len(), |i: int| upgrades[i].0)
}

/// The steps of a plan in the order in which they are made: every
/// creation, then every upgrade as an apply of the new object, then every
/// deletion.
pub open spec fn steps_of(plan: ReleasePlanView) -> Seq<(Action, ObjectView)> {
    each(Action::Create, plan.creations) + each(Action::Apply, upgrade_targets(plan.upgrades))
        + each(Action::Delete, plan.deletions)
}

/// What takes back step `k` of a plan: the deletion of what it created, the
/// apply of what it upgraded from, or the creation of what it deleted.
pub open spec fn inverse_of(plan: ReleasePlanView, k: int) -> (Action, ObjectView) {
    let c = plan.creations.len();
    let u = plan.upgrades.len();
    if k < c {
        (Action::Delete, plan.creations[k])
    } else if k < c + u {
        (Action::Apply, plan.upgrades[k - c].1)
    } else {
        (Action::Create, plan.deletions[k - c - u])
    }
}

/// The ledger after the first `done` steps of a plan were made: what takes
/// back each of them, registered in the order of the steps.
pub open spec fn ledger_of(plan: ReleasePlanView, done: nat) -> rollback::PlanView
    decreases done,
{
    if done == 0 {
        empty_plan()
    } else {
        registered(ledger_of(plan, (done - 1) as nat), inverse_of(plan, done - 1))
    }
}

/// The state of the execution of a plan: how many steps were made, the
/// failure and the run that takes the steps back once a step has failed,
/// and how it ended once it has.
pub struct ExecutionView {
    pub plan: ReleasePlanView,
    pub done: nat,
    pub rollback: Option<(transaction::ErrorView, RunView)>,
    pub result: Option<Result<(), release::ErrorView>>,
}

/// The execution that has made `done` steps and looks at the next: it has
/// ended well when there is none, and the next fails at once when it is on
/// an object without a name.
pub open spec fn forward_at(plan: ReleasePlanView, done: nat) -> ExecutionView {
    let steps = steps_of(plan);
    if done >= steps.len() {
        ExecutionView { plan, done, rollback: None, result: Some(Ok(())) }
    } else if steps[done as int].1.dyn_object.metadata.name is None {
        failed_at(
            plan,
            done,
            transaction::ErrorView::NeedName { object: steps[done as int].1.dyn_object },
        )
    } else {
        ExecutionView { plan, done, rollback: None, result: None }
    }
}

/// The execution whose step `done` has failed: it starts to take back the
/// steps that were made, in the order of the ledger.
pub open spec fn failed_at(
    plan: ReleasePlanView,
    done: nat,
    cause: transaction::ErrorView,
) -> ExecutionView {
    rolling(plan, done, cause, run_at(rollback::steps_of(ledger_of(plan, done)), 0))
}

/// The execution that takes steps back: it ends when the run has. A run
/// that ended well leaves the failure of the step; one that failed leaves
/// both failures.
pub open spec fn rolling(
    plan: ReleasePlanView,
    done: nat,
    cause: transaction::ErrorView,
    run: RunView,
) -> ExecutionView {
    ExecutionView {
        plan,
        done,
        rollback: Some((cause, run)),
        result: match run.result {
            None => None,
            Some(Ok(())) => Some(Err(release::ErrorView::ReleaseError { error: cause })),
            Some(Err(error)) => Some(Err(release::ErrorView::RollbackError { error, cause })),
        },
    }
}

/// What a failed step ends in once the steps before it were taken back, or
/// could not be: the failure of the step alone, or both failures.
pub open spec fn failure_of(
    cause: transaction::ErrorView,
    rollback: Result<(), rollback::ErrorView>,
) -> release::ErrorView {
    match rollback {
        Ok(()) => release::ErrorView::ReleaseError { error: cause },
        Err(error) => release::ErrorView::RollbackError { error, cause },
    }
}

/// Makes of the failure of a step and of how the rollback went the failure
/// of the execution.
pub fn on_err_rollback(cause: transaction::Error, rollback: Result<(), rollback::Error>) -> (r:
    release::Error)
    ensures
        r@ == failure_of(
            cause@,
            match rollback {
                Ok(()) => Ok(()),
                Err(e) => Err(e@),
            },
        ),
{
    match rollback {
        Ok(()) => release::Error::ReleaseError { error: cause },
        Err(error) => release::Error::RollbackError { error, cause },
    }
}

/// The request that an execution waits for, while it has not ended.
pub open spec fn pending_of(state: ExecutionView) -> Option<RequestView> {
    if state.result is Some {
        None
    } else {
        match state.rollback {
            Some((_, run)) => run_pending(run),
            None => if state.done < steps_of(state.plan).len() {
                let step = steps_of(state.plan)[state.done as int];
                request_of(step.0, step.1.api_resource, step.1.dyn_object)
            } else {
                None
            },
        }
    }
}

/// The execution after the answer to its request. A step that was made is
/// followed by the next; a step that failed starts the rollback; while
/// steps are taken back the answer goes to that run. An execution that has
/// ended stays as it is.
pub open spec fn reported(state: ExecutionView, outcome: Result<(), KubeErrorView>) -> ExecutionView {
    if state.result is Some {
        state
    } else {
        match state.rollback {
            Some((cause, run)) => rolling(state.plan, state.done, cause, run_report(run, outcome)),
            None => if state.done >= steps_of(state.plan).len() {
                state
            } else {
                let step = steps_of(state.plan)[state.done as int];
                match outcome {
                    Ok(()) => forward_at(state.plan, state.done + 1),
                    Err(kube_error) => failed_at(
                        state.plan,
                        state.done,
                        transaction::ErrorView::KubeError {
                            kube_error,
                            action: step.0,
                            object_name: match step.1.dyn_object.metadata.name {
                                Some(name) => name,
                                None => Seq::empty(),
                            },
                        },
                    ),
                }
            },
        }
    }
}

/// While the execution has not ended it waits for a request.
pub open spec fn waits(state: ExecutionView) -> bool {
    &&& state.result is None ==> pending_of(state) is Some
    &&& state.rollback matches Some((_, run)) ==> rollback::run_waits(run)
}

/// An execution always either has ended or waits for a request: it does
/// when it starts, and still does after every answer. So whoever makes its
/// requests until none is pending finds it ended.
pub proof fn lemma_waits(
    plan: ReleasePlanView,
    done: nat,
    state: ExecutionView,
    outcome: Result<(), KubeErrorView>,
)
    requires
        waits(state),
    ensures
        waits(forward_at(plan, done)),
        waits(reported(state, outcome)),
{
    match state.rollback {
        Some((_, run)) => {
            rollback::lemma_run_waits(Seq::empty(), 0, run, outcome);
        },
        None => {},
    }
}

/// The execution of a plan: it hands out one request at a time, in the
/// order creations, upgrades, deletions, keeps the ledger of what takes the
/// made steps back, and at the first failure runs that ledger.
#[derive(Debug)]
pub struct Execution {
    plan: ReleasePlan,
    steps: Vec<(Action, Object)>,
    inverses: Vec<(Action, Object)>,
    done: usize,
    ledger: rollback::Plan,
    rollback: Option<(transaction::Error, rollback::Run)>,
    result: Option<Result<(), release::Error>>,
}

/// The content of a failure with the run that follows it.
pub open spec fn rollback_view(rollback: Option<(transaction::Error, rollback::Run)>) -> Option<
    (transaction::ErrorView, RunView),
> {
    match rollback {
        Some((cause, run)) => Some((cause@, run@)),
        None => None,
    }
}

impl View for Execution {
    type V = ExecutionView;

    closed spec fn view(&self) -> ExecutionView {
        ExecutionView {
            plan: self.plan@,
            done: self.done as nat,
            rollback: rollback_view(self.rollback),
            result: release::result_view(self.result),
        }
    }
}

/// The old object of each upgrade.
pub open spec fn upgrade_sources(upgrades: Seq<(ObjectView, ObjectView)>) -> Seq<ObjectView> {
    Seq::new(upgrades.len(), |i: int| upgrades[i].1)
}

/// What takes back each step of a plan, in the order of the steps.
pub open spec fn inverses_of(plan: ReleasePlanView) -> Seq<(Action, ObjectView)> {
    each(Action::Delete, plan.creations) + each(Action::Apply, upgrade_sources(plan.upgrades))
        + each(Action::Create, plan.deletions)
}

impl Duplicate for ReleasePlan {
    fn duplicate(&self) -> (r: ReleasePlan) {
        let mut creations: Vec<Create> = Vec::new();
        let mut i: usize = 0;
        while i < self.creations.len()
            invariant
                i <= self.creations.len(),
                creations.len() == i,
                forall|k: int| 0 <= k < i ==> (#[trigger] creations@[k]).new@ == self.creations@[k].new@,
            decreases self.creations.len() - i,
        {
            creations.push(Create { new: self.creations[i].new.duplicate() });
            i += 1;
        }
        let mut upgrades: Vec<Upgrade> = Vec::new();
        let mut i: usize = 0;
        while i < self.upgrades.len()
            invariant
                i <= self.upgrades.len(),
                upgrades.len() == i,
                forall|k: int|
                    0 <= k < i ==> (#[trigger] upgrades@[k]).new@ == self.upgrades@[k].new@
                        && upgrades@[k].old@ == self.upgrades@[k].old@,
            decreases self.upgrades.len() - i,
        {
            upgrades.push(
                Upgrade {
                    new: self.upgrades[i].new.duplicate(),
                    old: self.upgrades[i].old.duplicate(),
                },
            );
            i += 1;
        }
        let mut deletions: Vec<Delete> = Vec::new();
        let mut i: usize = 0;
        while i < self.deletions.len()
            invariant
                i <= self.deletions.len(),
                deletions.len() == i,
                forall|k: int| 0 <= k < i ==> (#[trigger] deletions@[k]).old@ == self.deletions@[k].old@,
            decreases self.deletions.len() - i,
        {
            deletions.push(Delete { old: self.deletions[i].old.duplicate() });
            i += 1;
        }
        let r = ReleasePlan { creations, upgrades, deletions };
        assert(r@.creations =~= self@.creations);
        assert(r@.upgrades =~= self@.upgrades);
        assert(r@.deletions =~= self@.deletions);
        r
    }
}

impl Clone for ReleasePlan {
    fn clone(&self) -> (r: ReleasePlan)
        ensures
            r@ == self@,
    {
        self.duplicate()
    }
}

impl ReleasePlan {
    /// The objects to create.
    fn created(&self) -> (r: Vec<Object>)
        ensures
            objects_view(r@) == self@.creations,
    {
        let mut r: Vec<Object> = Vec::new();
        let mut i: usize = 0;
        while i < self.creations.len()
            invariant
                i <= self.creations.len(),
                r.len() == i,
                forall|k: int| 0 <= k < i ==> (#[trigger] r@[k])@ == self.creations@[k].new@,
            decreases self.creations.len() - i,
        {
            r.push(self.creations[i].new.duplicate());
            i += 1;
        }
        assert(objects_view(r@) =~= self@.creations);
        r
    }

    /// The objects to delete.
    fn deleted(&self) -> (r: Vec<Object>)
        ensures
            objects_view(r@) == self@.deletions,
    {
        let mut r: Vec<Object> = Vec::new();
        let mut i: usize = 0;
        while i < self.deletions.len()
            invariant
                i <= self.deletions.len(),
                r.len() == i,
                forall|k: int| 0 <= k < i ==> (#[trigger] r@[k])@ == self.deletions@[k].old@,
            decreases self.deletions.len() - i,
        {
            r.push(self.deletions[i].old.duplicate());
            i += 1;
        }
        assert(objects_view(r@) =~= self@.deletions);
        r
    }

    /// The objects to upgrade to, and those to upgrade from.
    fn upgraded(&self) -> (r: (Vec<Object>, Vec<Object>))
        ensures
            objects_view(r.0@) == upgrade_targets(self@.upgrades),
            objects_view(r.1@) == upgrade_sources(self@.upgrades),
    {
        let mut news: Vec<Object> = Vec::new();
        let mut olds: Vec<Object> = Vec::new();
        let mut i: usize = 0;
        while i < self.upgrades.len()
            invariant
                i <= self.upgrades.len(),
                news.len() == i,
                olds.len() == i,
                forall|k: int| 0 <= k < i ==> (#[trigger] news@[k])@ == self.upgrades@[k].new@,
                forall|k: int| 0 <= k < i ==> (#[trigger] olds@[k])@ == self.upgrades@[k].old@,
            decreases self.upgrades.len() - i,
        {
            news.push(self.upgrades[i].new.duplicate());
            olds.push(self.upgrades[i].old.duplicate());
            i += 1;
        }
        assert(objects_view(news@) =~= upgrade_targets(self@.upgrades));
        assert(objects_view(olds@) =~= upgrade_sources(self@.upgrades));
        (news, olds)
    }

    /// The steps of the plan in the order in which they are made.
    pub fn steps(&self) -> (r: Vec<(Action, Object)>)
        ensures
            steps_view(r@) == steps_of(self@),
    {
        let created = self.created();
        let (news, _) = self.upgraded();
        let deleted = self.deleted();
        let mut steps: Vec<(Action, Object)> = Vec::new();
        assert(steps_view(steps@) =~= Seq::empty());
        rollback::Plan::extend(&mut steps, Action::Create, &created);
        rollback::Plan::extend(&mut steps, Action::Apply, &news);
        rollback::Plan::extend(&mut steps, Action::Delete, &deleted);
        assert(steps_view(steps@) =~= steps_of(self@));
        steps
    }

    /// What takes back each step of the plan, in the order of the steps.
    pub fn inverses(&self) -> (r: Vec<(Action, Object)>)
        ensures
            steps_view(r@) == inverses_of(self@),
    {
        let created = self.created();
        let (_, olds) = self.upgraded();
        let deleted = self.deleted();
        let mut steps: Vec<(Action, Object)> = Vec::new();
        assert(steps_view(steps@) =~= Seq::empty());
        rollback::Plan::extend(&mut steps, Action::Delete, &created);
        rollback::Plan::extend(&mut steps, Action::Apply, &olds);
        rollback::Plan::extend(&mut steps, Action::Create, &deleted);
        assert(steps_view(steps@) =~= inverses_of(self@));
        steps
    }

    /// Starts the execution of the plan.
    pub fn execute(&self) -> (r: Execution)
        ensures
            r@ == forward_at(self@, 0),
    {
        Execution::forward(
            self.duplicate(),
            self.steps(),
            self.inverses(),
            0,
            rollback::Plan::new(),
        )
    }
}

impl Execution {
    #[verifier::type_invariant]
    spec fn ledger_kept(&self) -> bool {
        Execution::kept(self.plan, self.steps, self.inverses, self.done, self.ledger)
    }

    /// The lists are those of the plan, and the ledger is that of the steps
    /// made.
    spec fn kept(
        plan: ReleasePlan,
        steps: Vec<(Action, Object)>,
        inverses: Vec<(Action, Object)>,
        done: usize,
        ledger: rollback::Plan,
    ) -> bool {
        &&& steps_view(steps@) == steps_of(plan@)
        &&& steps_view(inverses@) == inverses_of(plan@)
        &&& ledger@ == ledger_of(plan@, done as nat)
        &&& done <= steps@.len()
    }

    /// The execution that has made `done` steps.
    fn forward(
        plan: ReleasePlan,
        steps: Vec<(Action, Object)>,
        inverses: Vec<(Action, Object)>,
        done: usize,
        ledger: rollback::Plan,
    ) -> (r: Execution)
        requires
            Execution::kept(plan, steps, inverses, done, ledger),
        ensures
            r@ == forward_at(plan@, done as nat),
    {
        if done >= steps.len() {
            return Execution {
                plan,
                steps,
                inverses,
                done,
                ledger,
                rollback: None,
                result: Some(Ok(())),
            };
        }
        match request_object(steps[done].0, &steps[done].1) {
            Ok(_) => Execution { plan, steps, inverses, done, ledger, rollback: None, result: None },
            Err(cause) => Execution::failed(plan, steps, inverses, done, ledger, cause),
        }
    }

    /// The execution whose step `done` has failed.
    fn failed(
        plan: ReleasePlan,
        steps: Vec<(Action, Object)>,
        inverses: Vec<(Action, Object)>,
        done: usize,
        ledger: rollback::Plan,
        cause: transaction::Error,
    ) -> (r: Execution)
        requires
            Execution::kept(plan, steps, inverses, done, ledger),
        ensures
            r@ == failed_at(plan@, done as nat, cause@),
    {
        let run = ledger.execute();
        Execution::rollback(plan, steps, inverses, done, ledger, cause, run)
    }

    /// The execution that takes steps back.
    fn rollback(
        plan: ReleasePlan,
        steps: Vec<(Action, Object)>,
        inverses: Vec<(Action, Object)>,
        done: usize,
        ledger: rollback::Plan,
        cause: transaction::Error,
        run: rollback::Run,
    ) -> (r: Execution)
        requires
            Execution::kept(plan, steps, inverses, done, ledger),
        ensures
            r@ == rolling(plan@, done as nat, cause@, run@),
    {
        let result = match run.result() {
            None => None,
            Some(ended) => Some(Err(on_err_rollback(cause.duplicate(), ended))),
        };
        Execution { plan, steps, inverses, done, ledger, rollback: Some((cause, run)), result }
    }

    /// The request that the execution waits for; none once it has ended.
    pub fn pending(&self) -> (r: Option<Request>)
        ensures
            match pending_of(self@) {
                Some(v) => r is Some && r->Some_0@ == v,
                None => r is None,
            },
    {
        proof {
            use_type_invariant(self);
        }
        if self.result.is_some() {
            return None;
        }
        match &self.rollback {
            Some((_, run)) => run.pending(),
            None => if self.done < self.steps.len() {
                match request_object(self.steps[self.done].0, &self.steps[self.done].1) {
                    Ok(request) => Some(request),
                    Err(_) => None,
                }
            } else {
                None
            },
        }
    }

    /// Takes the answer to the pending request.
    pub fn report(self, outcome: Result<(), KubeError>) -> (r: Execution)
        ensures
            r@ == reported(self@, outcome_view(outcome)),
    {
        proof {
            use_type_invariant(&self);
        }
        if self.result.is_some() {
            return self;
        }
        let Execution { plan, steps, inverses, done, ledger, rollback, result } = self;
        match rollback {
            Some((cause, run)) => {
                let run = run.report(outcome);
                Execution::rollback(plan, steps, inverses, done, ledger, cause, run)
            },
            None => {
                if done >= steps.len() {
                    return Execution { plan, steps, inverses, done, ledger, rollback: None, result };
                }
                match outcome {
                    Ok(()) => {
                        let mut ledger = ledger;
                        proof {
                            lemma_inverse_at(plan@, done as int);
                        }
                        ledger.register(&inverses[done]);
                        Execution::forward(plan, steps, inverses, done + 1, ledger)
                    },
                    Err(kube_error) => {
                        let action = steps[done].0;
                        let object_name = match &steps[done].1.dyn_object.metadata.name {
                            Some(name) => name.clone(),
                            None => String::new(),
                        };
                        Execution::failed(
                            plan,
                            steps,
                            inverses,
                            done,
                            ledger,
                            transaction::Error::KubeError { kube_error, action, object_name },
                        )
                    },
                }
            },
        }
    }

    /// How the execution ended, once it has.
    pub fn result(&self) -> (r: Option<Result<(), release::Error>>)
        ensures
            release::result_view(r) == self@.result,
    {
        match &self.result {
            Some(Ok(())) => Some(Ok(())),
            Some(Err(e)) => Some(Err(e.duplicate())),
            None => None,
        }
    }

    /// The plan that is executed.
    pub fn plan(&self) -> (r: ReleasePlan)
        ensures
            r@ == self@.plan,
    {
        self.plan.duplicate()
    }

    /// The number of steps of the plan that were made.
    pub fn done(&self) -> (r: usize)
        ensures
            r == self@.done,
    {
        self.done
    }
}

/// The list of what takes the steps back holds, at each place, what takes
/// back the step of that place; and it is as long as the list of steps.
pub proof fn lemma_inverse_at(plan: ReleasePlanView, k: int)
    ensures
        inverses_of(plan).len() == steps_of(plan).len(),
        0 <= k < steps_of(plan).len() ==> inverses_of(plan)[k] == inverse_of(plan, k),
{
}

} // verus!
