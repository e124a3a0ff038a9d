//! A model of the object store, to say what the steps of a plan and of its
//! rollback do to it.

use crate::identifier::{Identifier, IdentifierView};
use crate::k8s::transaction::Action;
use crate::objects::{keyed, ObjectView};
use crate::release::plan::{
    creation_entries, deletion_entries, inverse_of, inverses_of, ledger_of,
    lemma_plan_identifiers, lemma_plan_partition, plan_of, steps_of, upgrade_entries,
    upgrade_sources, ReleasePlanView,
};
use crate::release::rollback::{self, each, registered};
use crate::sorted_map::{as_map, ascending, lemma_entry, Key};
use vstd::prelude::*;

verus! {

/// The objects that the store holds, each under its identifier.
pub type Store = Map<IdentifierView, ObjectView>;

/// What the store holds under an identifier, if anything.
pub open spec fn held(store: Store, id: IdentifierView) -> Option<ObjectView> {
    if store.contains_key(id) {
        Some(store[id])
    } else {
        None
    }
}

/// What a step leaves under the identifier of its object: the object after
/// a creation or an apply, nothing after a deletion.
pub open spec fn effect(step: (Action, ObjectView)) -> Option<ObjectView> {
    match step.0 {
        Action::Create => Some(step.1),
        Action::Apply => Some(step.1),
        Action::Delete => None,
    }
}

/// The store after a step was made on it. A step on an object without a
/// name cannot be made and leaves the store as it is.
pub open spec fn performed(store: Store, step: (Action, ObjectView)) -> Store {
    match step.1.identifier() {
        None => store,
        Some(id) => match effect(step) {
            Some(object) => store.insert(id, object),
            None => store.remove(id),
        },
    }
}

/// The store after some steps were made on it, one after the other.
pub open spec fn ran(store: Store, steps: Seq<(Action, ObjectView)>) -> Store
    decreases steps.len(),
{
    if steps.len() == 0 {
        store
    } else {
        performed(ran(store, steps.drop_last()), steps.last())
    }
}

/// Every step is on an object with a name, and no two steps are on objects
/// of one identifier.
pub open spec fn separate(steps: Seq<(Action, ObjectView)>) -> bool {
    &&& forall|i: int| 0 <= i < steps.len() ==> (#[trigger] steps[i]).1.identifier() is Some
    &&& forall|i: int, j: int|
        0 <= i < j < steps.len() ==> (#[trigger] steps[i]).1.identifier() != (
        #[trigger] steps[j]).1.identifier()
}

/// Some step is on the object of the identifier.
pub open spec fn touches(steps: Seq<(Action, ObjectView)>, id: IdentifierView) -> bool {
    exists|i: int| 0 <= i < steps.len() && (#[trigger] steps[i]).1.identifier() == Some(id)
}

/// After steps on separate objects, the store holds under an identifier
/// what the step on it left, and what it held before where no step was on
/// it.
pub proof fn lemma_ran_held(store: Store, steps: Seq<(Action, ObjectView)>, id: IdentifierView)
    requires
        separate(steps),
    ensures
        !touches(steps, id) ==> held(ran(store, steps), id) == held(store, id),
        forall|i: int|
            0 <= i < steps.len() && (#[trigger] steps[i]).1.identifier() == Some(id) ==> held(
                ran(store, steps),
                id,
            ) == effect(steps[i]),
    decreases steps.len(),
{
    if steps.len() > 0 {
        let front = steps.drop_last();
        let n = steps.len() - 1;
        assert forall|i: int| 0 <= i < front.len() implies (#[trigger] front[i]).1.identifier()
            is Some by {
            assert(front[i] == steps[i]);
        }
        assert forall|i: int, j: int| 0 <= i < j < front.len() implies (
        #[trigger] front[i]).1.identifier() != (#[trigger] front[j]).1.identifier() by {
            assert(front[i] == steps[i]);
            assert(front[j] == steps[j]);
        }
        lemma_ran_held(store, front, id);
        if touches(front, id) {
            let w = choose|i: int|
                0 <= i < front.len() && (#[trigger] front[i]).1.identifier() == Some(id);
            assert(steps[w] == front[w]);
        }
        assert forall|i: int|
            0 <= i < steps.len() && (#[trigger] steps[i]).1.identifier() == Some(
                id,
            ) implies held(ran(store, steps), id) == effect(steps[i]) by {
            if i < n {
                assert(front[i] == steps[i]);
                assert(steps[i].1.identifier() != steps[n].1.identifier());
            }
        }
        if !touches(steps, id) {
            assert(steps[n].1.identifier() != Some(id));
            if touches(front, id) {
                let w = choose|i: int|
                    0 <= i < front.len() && (#[trigger] front[i]).1.identifier() == Some(id);
                assert(steps[w] == front[w]);
            }
        }
    }
}

/// Two stores that hold the same under every identifier are the same.
pub proof fn lemma_same_store(a: Store, b: Store)
    requires
        forall|id: IdentifierView| held(a, id) == held(b, id),
    ensures
        a == b,
{
    assert forall|id: IdentifierView| a.contains_key(id) == b.contains_key(id) by {
        assert(held(a, id) == held(b, id));
    }
    assert forall|id: IdentifierView| a.contains_key(id) implies a[id] == b[id] by {
        assert(held(a, id) == held(b, id));
    }
    assert(a =~= b);
}

/// How many of the first `k` steps fall before place `from` and on the
/// `len` places from there on: the part of a list that `k` steps reach.
pub open spec fn reach(k: int, from: int, len: int) -> int {
    if k <= from {
        0
    } else if k >= from + len {
        len
    } else {
        k - from
    }
}

/// The ledger after `k` steps of a plan holds what takes back the creations,
/// the upgrades and the deletions among them, each list as far as the steps
/// reached it.
pub proof fn lemma_ledger(plan: ReleasePlanView, k: nat)
    requires
        k <= steps_of(plan).len(),
    ensures
        ({
            let c = plan.creations.len() as int;
            let u = plan.upgrades.len() as int;
            let d = plan.deletions.len() as int;
            ledger_of(plan, k) == (rollback::PlanView {
                creations: plan.deletions.take(reach(k as int, c + u, d)),
                upgrades: upgrade_sources(plan.upgrades).take(reach(k as int, c, u)),
                deletions: plan.creations.take(reach(k as int, 0, c)),
            })
        }),
    decreases k,
{
    let c = plan.creations.len() as int;
    let u = plan.upgrades.len() as int;
    let d = plan.deletions.len() as int;
    let want = rollback::PlanView {
        creations: plan.deletions.take(reach(k as int, c + u, d)),
        upgrades: upgrade_sources(plan.upgrades).take(reach(k as int, c, u)),
        deletions: plan.creations.take(reach(k as int, 0, c)),
    };
    if k == 0 {
        assert(want.creations =~= Seq::empty());
        assert(want.upgrades =~= Seq::empty());
        assert(want.deletions =~= Seq::empty());
    } else {
        let j = (k - 1) as nat;
        lemma_ledger(plan, j);
        let before = ledger_of(plan, j);
        let got = registered(before, inverse_of(plan, j as int));
        assert(got.creations =~= want.creations);
        assert(got.upgrades =~= want.upgrades);
        assert(got.deletions =~= want.deletions);
    }
}

/// The store holds what `previous` holds, tagged, and nothing under the
/// identifiers that only `desired` has: the state that a plan from
/// `previous` to `desired` starts from.
pub open spec fn starts_from(
    store: Store,
    release_name: Seq<char>,
    desired: Map<IdentifierView, ObjectView>,
    previous: Map<IdentifierView, ObjectView>,
) -> bool {
    &&& forall|id: IdentifierView| #[trigger]
        previous.contains_key(id) ==> held(store, id) == Some(
            crate::release::plan::tagged(release_name, previous[id]),
        )
    &&& forall|id: IdentifierView|
        #[trigger] desired.contains_key(id) && !previous.contains_key(id) ==> held(store, id)
            is None
}

/// The steps that the execution of a plan has made when step `k` fails,
/// followed by the steps of its ledger, leave the store as it was: a
/// rollback that does not fail itself restores the state before the first
/// step.
pub proof fn lemma_rollback_restores(
    release_name: Seq<char>,
    desired: Map<IdentifierView, ObjectView>,
    previous: Map<IdentifierView, ObjectView>,
    store: Store,
    k: nat,
)
    requires
        desired.dom().finite(),
        previous.dom().finite(),
        keyed(desired),
        keyed(previous),
        starts_from(store, release_name, desired, previous),
        k <= steps_of(plan_of(release_name, desired, previous)).len(),
    ensures
        ({
            let plan = plan_of(release_name, desired, previous);
            let made = ran(store, steps_of(plan).take(k as int));
            ran(made, rollback::steps_of(ledger_of(plan, k))) == store
        }),
{
    let plan = plan_of(release_name, desired, previous);
    let ce = creation_entries(desired, previous);
    let ue = upgrade_entries(desired, previous);
    let de = deletion_entries(desired, previous);
    let c = plan.creations.len() as int;
    let u = plan.upgrades.len() as int;
    let d = plan.deletions.len() as int;
    let forward = steps_of(plan).take(k as int);
    let made = ran(store, forward);
    let ledger = ledger_of(plan, k);
    let back = rollback::steps_of(ledger);
    let last = ran(made, back);
    lemma_plan_partition(release_name, desired, previous);
    lemma_plan_identifiers(release_name, desired, previous);
    lemma_ledger(plan, k);
    let rc = reach(k as int, c + u, d);
    let ru = reach(k as int, c, u);
    let rd = reach(k as int, 0, c);

    let key = |i: int| key_at(ce, ue, de, i);
    assert forall|i: int| 0 <= i < c + u + d implies (#[trigger] steps_of(plan)[i]).1.identifier()
        == Some(key(i)) by {
        if i < c {
            assert(plan.creations[i].identifier() == Some(ce[i].0));
        } else if i < c + u {
            assert(plan.upgrades[i - c].0.identifier() == Some(ue[i - c].0));
        } else {
            assert(plan.deletions[i - c - u].identifier() == Some(de[i - c - u].0));
        }
    }
    assert forall|i: int, j: int| 0 <= i < j < c + u + d implies #[trigger] key_at(ce, ue, de, i)
        != #[trigger] key_at(ce, ue, de, j) by {
        lemma_keys_apart(ce, ue, de, i, j);
    }
    assert(separate(forward)) by {
        assert forall|i: int| 0 <= i < forward.len() implies (
        #[trigger] forward[i]).1.identifier() is Some by {
            assert(forward[i] == steps_of(plan)[i]);
        }
        assert forall|i: int, j: int| 0 <= i < j < forward.len() implies (
        #[trigger] forward[i]).1.identifier() != (#[trigger] forward[j]).1.identifier() by {
            assert(forward[i] == steps_of(plan)[i]);
            assert(forward[j] == steps_of(plan)[j]);
            assert(key(i) != key(j));
        }
    }
    // The place in the plan of the step that each step of the ledger takes
    // back.
    let origin = |i: int| origin_at(c, u, rc, ru, i);
    assert(back.len() == rc + ru + rd);
    assert forall|i: int| 0 <= i < back.len() implies 0 <= origin(i) < k && (#[trigger] back[i])
        == inverses_of(plan)[origin(i)] by {
        if i < rc {
            assert(back[i] == (Action::Create, plan.deletions[i]));
        } else if i < rc + ru {
            assert(back[i] == (Action::Apply, upgrade_sources(plan.upgrades)[i - rc]));
        } else {
            assert(back[i] == (Action::Delete, plan.creations[i - rc - ru]));
        }
    }
    assert forall|i: int| 0 <= i < c + u + d implies (#[trigger] inverses_of(
        plan,
    )[i]).1.identifier() == Some(key(i)) by {
        if i < c {
            assert(plan.creations[i].identifier() == Some(ce[i].0));
        } else if i < c + u {
            assert(plan.upgrades[i - c].1.identifier() == Some(ue[i - c].0));
        } else {
            assert(plan.deletions[i - c - u].identifier() == Some(de[i - c - u].0));
        }
    }
    assert(separate(back)) by {
        assert forall|i: int| 0 <= i < back.len() implies (#[trigger] back[i]).1.identifier()
            is Some by {
            assert(back[i] == inverses_of(plan)[origin(i)]);
        }
        assert forall|i: int, j: int| 0 <= i < j < back.len() implies (
        #[trigger] back[i]).1.identifier() != (#[trigger] back[j]).1.identifier() by {
            assert(back[i] == inverses_of(plan)[origin(i)]);
            assert(back[j] == inverses_of(plan)[origin(j)]);
            assert(origin(i) != origin(j));
            if origin(i) < origin(j) {
                assert(key(origin(i)) != key(origin(j)));
            } else {
                assert(key(origin(j)) != key(origin(i)));
            }
        }
    }
    assert forall|id: IdentifierView| held(last, id) == held(store, id) by {
        lemma_ran_held(store, forward, id);
        lemma_ran_held(made, back, id);
        if touches(back, id) {
            let i = choose|i: int|
                0 <= i < back.len() && (#[trigger] back[i]).1.identifier() == Some(id);
            let p = origin(i);
            assert(back[i] == inverses_of(plan)[p]);
            assert(inverses_of(plan)[p].1.identifier() == Some(key(p)));
            assert(key(p) == id);
            assert(held(last, id) == effect(back[i]));
            if p < c {
                lemma_entry::<Identifier, ObjectView>(ce, p);
                assert(desired.contains_key(id) && !previous.contains_key(id));
            } else if p < c + u {
                lemma_entry::<Identifier, ObjectView>(ue, p - c);
                assert(previous.contains_key(id));
            } else {
                lemma_entry::<Identifier, ObjectView>(de, p - c - u);
                assert(previous.contains_key(id));
            }
        } else {
            if touches(forward, id) {
                let i = choose|i: int|
                    0 <= i < forward.len() && (#[trigger] forward[i]).1.identifier() == Some(id);
                assert(forward[i] == steps_of(plan)[i]);
                assert(key(i) == id);
                // The step at place `i` was made, so the ledger takes it back.
                let b = if i < c {
                    rc + ru + i
                } else if i < c + u {
                    rc + (i - c)
                } else {
                    i - c - u
                };
                assert(0 <= b < back.len());
                assert(origin(b) == i);
                assert(back[b] == inverses_of(plan)[i]);
                assert(back[b].1.identifier() == Some(id));
                assert(false);
            }
        }
    }
    lemma_same_store(last, store);
}

/// The identifier at place `i` of the entries to create, to upgrade and to
/// delete, taken as one list.
pub open spec fn key_at(
    ce: Seq<(IdentifierView, ObjectView)>,
    ue: Seq<(IdentifierView, ObjectView)>,
    de: Seq<(IdentifierView, ObjectView)>,
    i: int,
) -> IdentifierView {
    if i < ce.len() {
        ce[i].0
    } else if i < ce.len() + ue.len() {
        ue[i - ce.len()].0
    } else {
        de[i - ce.len() - ue.len()].0
    }
}

/// The place in a plan of `c` creations and `u` upgrades of the step that
/// step `i` of its ledger takes back, where the ledger holds `rc` creations
/// and `ru` applies.
pub open spec fn origin_at(c: int, u: int, rc: int, ru: int, i: int) -> int {
    if i < rc {
        c + u + i
    } else if i < rc + ru {
        c + (i - rc)
    } else {
        i - rc - ru
    }
}

/// The identifiers of the entries to create, to upgrade and to delete are
/// all different from each other.
proof fn lemma_keys_apart(
    ce: Seq<(IdentifierView, ObjectView)>,
    ue: Seq<(IdentifierView, ObjectView)>,
    de: Seq<(IdentifierView, ObjectView)>,
    i: int,
    j: int,
)
    requires
        ascending::<Identifier, ObjectView>(ce),
        ascending::<Identifier, ObjectView>(ue),
        ascending::<Identifier, ObjectView>(de),
        as_map(ce).dom().disjoint(as_map(ue).dom()),
        as_map(ce).dom().disjoint(as_map(de).dom()),
        as_map(ue).dom().disjoint(as_map(de).dom()),
        0 <= i < j < ce.len() + ue.len() + de.len(),
    ensures
        key_at(ce, ue, de, i) != key_at(ce, ue, de, j),
{
    let c = ce.len() as int;
    let u = ue.len() as int;
    if i < c {
        lemma_entry::<Identifier, ObjectView>(ce, i);
    } else if i < c + u {
        lemma_entry::<Identifier, ObjectView>(ue, i - c);
    } else {
        lemma_entry::<Identifier, ObjectView>(de, i - c - u);
    }
    if j < c {
        lemma_entry::<Identifier, ObjectView>(ce, j);
        Identifier::lemma_strict(ce[i].0, ce[j].0);
    } else if j < c + u {
        lemma_entry::<Identifier, ObjectView>(ue, j - c);
        if i >= c {
            Identifier::lemma_strict(ue[i - c].0, ue[j - c].0);
        }
    } else {
        lemma_entry::<Identifier, ObjectView>(de, j - c - u);
        if i >= c + u {
            Identifier::lemma_strict(de[i - c - u].0, de[j - c - u].0);
        }
    }
}

} // verus!
