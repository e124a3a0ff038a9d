//! Rollback: taking back the steps of a plan that were made before one
//! failed.

use crate::k8s::transaction::{
    self, outcome_view, request_object, request_of, Action, KubeError, KubeErrorView, Request,
    RequestView,
};
use crate::objects::{Object, ObjectView};
use crate::sorted_map::Duplicate;
use vstd::prelude::*;

verus! {

/// A step of a plan that knows how it is taken back.
pub trait Rollbackable {
    /// The action that takes the step back, and the object it is made on.
    spec fn rollback_spec(&self) -> (Action, ObjectView);

    fn to_rollback(&self) -> (r: (Action, &Object))
        ensures
            r.0 == self.rollback_spec().0,
            r.1@ == self.rollback_spec().1,
    ;
}

impl Rollbackable for (Action, Object) {
    open spec fn rollback_spec(&self) -> (Action, ObjectView) {
        (self.0, self.1@)
    }

    fn to_rollback(&self) -> (r: (Action, &Object)) {
        (self.0, &self.1)
    }
}

/// A failure while rolling back: what failed, on which object, and how.
#[derive(Debug)]
pub struct Error {
    pub error: transaction::Error,
    pub action: Action,
    pub object: Object,
}

/// The content of an [`Error`].
pub struct ErrorView {
    pub error: transaction::ErrorView,
    pub action: Action,
    pub object: ObjectView,
}

impl View for Error {
    type V = ErrorView;

    open spec fn view(&self) -> ErrorView {
        ErrorView { error: self.error@, action: self.action, object: self.object@ }
    }
}

impl Duplicate for Error {
    fn duplicate(&self) -> (r: Error) {
        Error {
            error: self.error.duplicate(),
            action: self.action,
            object: self.object.duplicate(),
        }
    }
}

/// The ledger of what has to be done to take back the steps made so far:
/// objects to create, to apply and to delete, each in the order in which
/// they were registered.
#[derive(Debug)]
pub struct Plan {
    creations: Vec<Object>,
    upgrades: Vec<Object>,
    deletions: Vec<Object>,
}

/// The content of a [`Plan`].
pub struct PlanView {
    pub creations: Seq<ObjectView>,
    pub upgrades: Seq<ObjectView>,
    pub deletions: Seq<ObjectView>,
}

/// The content of a list of objects.
pub open spec fn objects_view(objects: Seq<Object>) -> Seq<ObjectView> {
    Seq::new(objects.len(), |i: int| objects[i]@)
}

impl View for Plan {
    type V = PlanView;

    closed spec fn view(&self) -> PlanView {
        PlanView {
            creations: objects_view(self.creations@),
            upgrades: objects_view(self.upgrades@),
            deletions: objects_view(self.deletions@),
        }
    }
}

/// The ledger without anything in it.
pub open spec fn empty_plan() -> PlanView {
    PlanView { creations: Seq::empty(), upgrades: Seq::empty(), deletions: Seq::empty() }
}

/// The ledger with one more step, at the end of the list of its action.
pub open spec fn registered(plan: PlanView, step: (Action, ObjectView)) -> PlanView {
    match step.0 {
        Action::Create => PlanView { creations: plan.creations.push(step.1), ..plan },
        Action::Apply => PlanView { upgrades: plan.upgrades.push(step.1), ..plan },
        Action::Delete => PlanView { deletions: plan.deletions.push(step.1), ..plan },
    }
}

/// The steps of a ledger in the order in which they are made: creations,
/// then applies, then deletions.
pub open spec fn steps_of(plan: PlanView) -> Seq<(Action, ObjectView)> {
    each(Action::Create, plan.creations) + each(Action::Apply, plan.upgrades) + each(
        Action::Delete,
        plan.deletions,
    )
}

/// One action on each of some objects, in their order.
pub open spec fn each(action: Action, objects: Seq<ObjectView>) -> Seq<(Action, ObjectView)> {
    Seq::new(objects.len(), |i: int| (action, objects[i]))
}

/// The state of a run through some steps: how many were made, and how it
/// ended once it has.
pub struct RunView {
    pub steps: Seq<(Action, ObjectView)>,
    pub at: nat,
    pub result: Option<Result<(), ErrorView>>,
}

/// The run that has made `at` steps and looks at the next: it has ended
/// well when there is none, and has failed when the next is on an object
/// without a name.
pub open spec fn run_at(steps: Seq<(Action, ObjectView)>, at: nat) -> RunView {
    if at >= steps.len() {
        RunView { steps, at, result: Some(Ok(())) }
    } else if steps[at as int].1.dyn_object.metadata.name is None {
        RunView {
            steps,
            at,
            result: Some(
                Err(
                    ErrorView {
                        error: transaction::ErrorView::NeedName {
                            object: steps[at as int].1.dyn_object,
                        },
                        action: steps[at as int].0,
                        object: steps[at as int].1,
                    },
                ),
            ),
        }
    } else {
        RunView { steps, at, result: None }
    }
}

/// The request that a run waits for, while it has not ended.
pub open spec fn run_pending(run: RunView) -> Option<RequestView> {
    if run.result is None && run.at < run.steps.len() {
        let step = run.steps[run.at as int];
        request_of(step.0, step.1.api_resource, step.1.dyn_object)
    } else {
        None
    }
}

/// The run after the answer to its request: it goes on to the next step,
/// or ends with the failure, told with the action and the object. A run
/// that has ended stays as it is.
pub open spec fn run_report(run: RunView, outcome: Result<(), KubeErrorView>) -> RunView {
    if run.result is Some || run.at >= run.steps.len() {
        run
    } else {
        let step = run.steps[run.at as int];
        match outcome {
            Ok(()) => run_at(run.steps, run.at + 1),
            Err(kube_error) => RunView {
                result: Some(
                    Err(
                        ErrorView {
                            error: transaction::ErrorView::KubeError {
                                kube_error,
                                action: step.0,
                                object_name: match step.1.dyn_object.metadata.name {
                                    Some(name) => name,
                                    None => Seq::empty(),
                                },
                            },
                            action: step.0,
                            object: step.1,
                        },
                    ),
                ),
                ..run
            },
        }
    }
}

/// While the run has not ended it waits for a request.
pub open spec fn run_waits(run: RunView) -> bool {
    run.result is None ==> run_pending(run) is Some
}

/// A run always either has ended or waits for a request: it does when it
/// starts, and still does after every answer.
pub proof fn lemma_run_waits(
    steps: Seq<(Action, ObjectView)>,
    at: nat,
    run: RunView,
    outcome: Result<(), KubeErrorView>,
)
    requires
        run_waits(run),
    ensures
        run_waits(run_at(steps, at)),
        run_waits(run_report(run, outcome)),
{
}

/// A run through the steps of a ledger: it hands out one request at a time
/// and stops at the first that fails.
#[derive(Debug)]
pub struct Run {
    steps: Vec<(Action, Object)>,
    at: usize,
    result: Option<Result<(), Error>>,
}

/// The content of a list of steps.
pub open spec fn steps_view(steps: Seq<(Action, Object)>) -> Seq<(Action, ObjectView)> {
    Seq::new(steps.len(), |i: int| (steps[i].0, steps[i].1@))
}

/// The content of how a run ended.
pub open spec fn result_view(result: Option<Result<(), Error>>) -> Option<Result<(), ErrorView>> {
    match result {
        Some(Ok(())) => Some(Ok(())),
        Some(Err(e)) => Some(Err(e@)),
        None => None,
    }
}

impl View for Run {
    type V = RunView;

    closed spec fn view(&self) -> RunView {
        RunView {
            steps: steps_view(self.steps@),
            at: self.at as nat,
            result: result_view(self.result),
        }
    }
}

impl Plan {
    /// A ledger without anything in it.
    pub fn new() -> (r: Plan)
        ensures
            r@ == empty_plan(),
    {
        let r = Plan { creations: Vec::new(), upgrades: Vec::new(), deletions: Vec::new() };
        assert(r@.creations =~= Seq::empty());
        assert(r@.upgrades =~= Seq::empty());
        assert(r@.deletions =~= Seq::empty());
        r
    }

    /// Registers how a step that was made is taken back.
    pub fn register<T: Rollbackable>(&mut self, action: &T)
        ensures
            final(self)@ == registered(old(self)@, action.rollback_spec()),
    {
        let (kind, object) = action.to_rollback();
        match kind {
            Action::Create => {
                self.creations.push(object.duplicate());
                assert(objects_view(self.creations@) =~= objects_view(old(self).creations@).push(
                    object@,
                ));
            },
            Action::Apply => {
                self.upgrades.push(object.duplicate());
                assert(objects_view(self.upgrades@) =~= objects_view(old(self).upgrades@).push(
                    object@,
                ));
            },
            Action::Delete => {
                self.deletions.push(object.duplicate());
                assert(objects_view(self.deletions@) =~= objects_view(old(self).deletions@).push(
                    object@,
                ));
            },
        }
    }

    /// Adds one action on each of some objects to a list of steps.
    pub fn extend(steps: &mut Vec<(Action, Object)>, action: Action, objects: &Vec<Object>)
        ensures
            steps_view(final(steps)@) == steps_view(old(steps)@) + each(
                action,
                objects_view(objects@),
            ),
    {
        let ghost before = steps_view(steps@);
        let ghost all = objects_view(objects@);
        let mut i: usize = 0;
        assert(steps_view(steps@) =~= before + each(action, all.take(0)));
        while i < objects.len()
            invariant
                i <= objects.len(),
                all == objects_view(objects@),
                steps_view(steps@) == before + each(action, all.take(i as int)),
            decreases objects.len() - i,
        {
            let ghost done = steps@;
            steps.push((action, objects[i].duplicate()));
            assert forall|k: int| 0 <= k < done.len() implies steps_view(steps@)[k] == steps_view(
                done,
            )[k] by {}
            let ghost tb = before + each(action, all.take(i as int));
            let ghost ta = before + each(action, all.take(i as int + 1));
            assert(steps_view(done) == tb);
            assert(ta.len() == tb.len() + 1);
            assert forall|k: int| 0 <= k < tb.len() implies ta[k] == tb[k] by {
                if k >= before.len() {
                    assert(all.take(i as int + 1)[k - before.len()] == all.take(i as int)[k
                        - before.len()]);
                }
            }
            assert(ta[tb.len() as int] == (action, all[i as int]));
            assert(steps_view(steps@)[tb.len() as int] == (action, all[i as int]));
            assert(steps_view(steps@) =~= ta);
            i += 1;
        }
        assert(all.take(i as int) =~= all);
    }

    /// Starts a run through the ledger: creations, then applies, then
    /// deletions.
    pub fn execute(&self) -> (r: Run)
        ensures
            r@ == run_at(steps_of(self@), 0),
    {
        let mut steps: Vec<(Action, Object)> = Vec::new();
        Plan::extend(&mut steps, Action::Create, &self.creations);
        Plan::extend(&mut steps, Action::Apply, &self.upgrades);
        Plan::extend(&mut steps, Action::Delete, &self.deletions);
        assert(steps_view(steps@) =~= steps_of(self@));
        Run::start(steps)
    }
}

impl Default for Plan {
    fn default() -> (r: Plan)
        ensures
            r@ == empty_plan(),
    {
        Plan::new()
    }
}

impl Run {
    /// The run that looks at step `at` of the steps.
    fn settle(steps: Vec<(Action, Object)>, at: usize) -> (r: Run)
        ensures
            r@ == run_at(steps_view(steps@), at as nat),
    {
        if at >= steps.len() {
            return Run { steps, at, result: Some(Ok(())) };
        }
        match request_object(steps[at].0, &steps[at].1) {
            Ok(_) => Run { steps, at, result: None },
            Err(error) => {
                let error = Error { error, action: steps[at].0, object: steps[at].1.duplicate() };
                Run { steps, at, result: Some(Err(error)) }
            },
        }
    }

    /// Starts a run through the steps.
    pub fn start(steps: Vec<(Action, Object)>) -> (r: Run)
        ensures
            r@ == run_at(steps_view(steps@), 0),
    {
        Run::settle(steps, 0)
    }

    /// The request that the run waits for; none once it has ended.
    pub fn pending(&self) -> (r: Option<Request>)
        ensures
            match run_pending(self@) {
                Some(v) => r is Some && r->Some_0@ == v,
                None => r is None,
            },
    {
        if self.result.is_none() && self.at < self.steps.len() {
            match request_object(self.steps[self.at].0, &self.steps[self.at].1) {
                Ok(request) => Some(request),
                Err(_) => None,
            }
        } else {
            None
        }
    }

    /// Takes the answer to the pending request.
    pub fn report(self, outcome: Result<(), KubeError>) -> (r: Run)
        ensures
            r@ == run_report(self@, outcome_view(outcome)),
    {
        if self.result.is_some() || self.at >= self.steps.len() {
            return self;
        }
        match outcome {
            Ok(()) => Run::settle(self.steps, self.at + 1),
            Err(kube_error) => {
                let object_name = match &self.steps[self.at].1.dyn_object.metadata.name {
                    Some(name) => name.clone(),
                    None => String::new(),
                };
                let error = Error {
                    error: transaction::Error::KubeError {
                        kube_error,
                        action: self.steps[self.at].0,
                        object_name,
                    },
                    action: self.steps[self.at].0,
                    object: self.steps[self.at].1.duplicate(),
                };
                Run { steps: self.steps, at: self.at, result: Some(Err(error)) }
            },
        }
    }

    /// How the run ended, once it has.
    pub fn result(&self) -> (r: Option<Result<(), Error>>)
        ensures
            result_view(r) == self@.result,
    {
        match &self.result {
            Some(Ok(())) => Some(Ok(())),
            Some(Err(e)) => Some(Err(e.duplicate())),
            None => None,
        }
    }
}

} // verus!
