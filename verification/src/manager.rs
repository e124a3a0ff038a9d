//! The manager: what ties lock, persisted state, plan and execution
//! together into the deployment, the deletion and the verification of a
//! release.

use crate::identifier::{Identifier, IdentifierView};
use crate::k8s::annotations::WithAnnotations;
use crate::k8s::labels::WithLabels;
use crate::k8s::transaction::{self, outcome_view, KubeError, KubeErrorView, Request, RequestView};
use crate::k8s::{CrateVersion, ObjectType, ReleaseName, RELEASE_KEY, TYPE_KEY, VERSION_KEY};
use crate::meta::CRATE_VERSION;
use crate::objects::{
    empty_config_map, ConfigMap, ConfigMapView, ObjectMetaView, ObjectView, Objects,
};
use crate::release::plan::{
    forward_at, pending_of, plan_of, reported, tagged, undo_of, Execution, ExecutionView,
    ReleasePlan, ReleasePlanView,
};
use crate::release::verify::{check_mapping, divergence, first_divergence};
use crate::release::{self, hash_of, lock_name_of, Release, ReleaseView};
use crate::sorted_map::{ascending, sorted_entries, Duplicate, SortedMap};
use std::collections::VecDeque;
use vstd::prelude::*;

verus! {

/// The key under which the state of a release stands in its record.
pub const STATE_KEY: &'static str = "release_state";

/// Which namespace of the object store to work in.
#[derive(Debug)]
pub enum NamespaceMode {
    /// The namespace that the transport is set up for.
    Default,
    /// This namespace.
    Specific(String),
}

impl NamespaceMode {
    /// The mode for a namespace that may have been given.
    pub fn new(namespace: Option<String>) -> (r: NamespaceMode)
        ensures
            match namespace {
                Some(given) => r matches NamespaceMode::Specific(ns) && ns@ == given@,
                None => r is Default,
            },
    {
        match namespace {
            Some(ns) => NamespaceMode::Specific(ns),
            None => NamespaceMode::Default,
        }
    }
}

impl Clone for NamespaceMode {
    fn clone(&self) -> (r: NamespaceMode)
        ensures
            match self {
                NamespaceMode::Specific(given) => r matches NamespaceMode::Specific(ns) && ns@
                    == given@,
                NamespaceMode::Default => r is Default,
            },
    {
        match self {
            NamespaceMode::Specific(ns) => NamespaceMode::Specific(ns.clone()),
            NamespaceMode::Default => NamespaceMode::Default,
        }
    }
}

/// A set of objects as the state of a release records it.
#[derive(Debug)]
pub struct ReleaseStateObjects(pub Objects);

impl View for ReleaseStateObjects {
    type V = Map<IdentifierView, ObjectView>;

    open spec fn view(&self) -> Map<IdentifierView, ObjectView> {
        self.0@
    }
}

impl Duplicate for ReleaseStateObjects {
    fn duplicate(&self) -> (r: ReleaseStateObjects) {
        ReleaseStateObjects(self.0.duplicate())
    }
}

impl Clone for ReleaseStateObjects {
    fn clone(&self) -> (r: ReleaseStateObjects)
        ensures
            r@ == self@,
    {
        self.duplicate()
    }
}

/// The persisted state of a release: the objects it holds now, and those
/// it held before, the latest first.
#[derive(Debug)]
pub struct ReleaseState {
    pub current: ReleaseStateObjects,
    pub history: Vec<ReleaseStateObjects>,
}

/// The content of a [`ReleaseState`].
pub struct ReleaseStateView {
    pub current: Map<IdentifierView, ObjectView>,
    pub history: Seq<Map<IdentifierView, ObjectView>>,
}

/// The content of a history.
pub open spec fn history_view(history: Seq<ReleaseStateObjects>) -> Seq<
    Map<IdentifierView, ObjectView>,
> {
    Seq::new(history.len(), |i: int| history[i]@)
}

impl View for ReleaseState {
    type V = ReleaseStateView;

    open spec fn view(&self) -> ReleaseStateView {
        ReleaseStateView { current: self.current@, history: history_view(self.history@) }
    }
}

/// The state of a release that was just installed: its objects, and no
/// history.
pub open spec fn installed_state(objects: Map<IdentifierView, ObjectView>) -> ReleaseStateView {
    ReleaseStateView { current: objects, history: Seq::empty() }
}

/// The state of a release after an upgrade: the new objects, and the old
/// ones at the head of the history.
pub open spec fn upgraded_state(
    state: ReleaseStateView,
    objects: Map<IdentifierView, ObjectView>,
) -> ReleaseStateView {
    ReleaseStateView { current: objects, history: seq![state.current] + state.history }
}

impl Duplicate for ReleaseState {
    fn duplicate(&self) -> (r: ReleaseState) {
        let mut history: Vec<ReleaseStateObjects> = Vec::new();
        let mut i: usize = 0;
        while i < self.history.len()
            invariant
                i <= self.history.len(),
                history.len() == i,
                forall|k: int| 0 <= k < i ==> (#[trigger] history@[k])@ == self.history@[k]@,
            decreases self.history.len() - i,
        {
            history.push(self.history[i].duplicate());
            i += 1;
        }
        assert(history_view(history@) =~= history_view(self.history@));
        ReleaseState { current: self.current.duplicate(), history }
    }
}

impl Clone for ReleaseState {
    fn clone(&self) -> (r: ReleaseState)
        ensures
            r@ == self@,
    {
        self.duplicate()
    }
}

/// How reading or writing the state of a release failed.
#[derive(Debug)]
pub enum ReleaseStateError {
    /// The record is there, but the state is not in it.
    CorruptReleaseState(ConfigMap),
    /// The state cannot be encoded.
    JSONError(String),
    /// The record could not be written.
    UpdateError(transaction::Error),
    /// The record could not be read.
    KubeError(KubeError),
}

/// The content of a [`ReleaseStateError`].
pub enum ReleaseStateErrorView {
    CorruptReleaseState(ConfigMapView),
    JSONError(Seq<char>),
    UpdateError(transaction::ErrorView),
    KubeError(KubeErrorView),
}

impl View for ReleaseStateError {
    type V = ReleaseStateErrorView;

    open spec fn view(&self) -> ReleaseStateErrorView {
        match self {
            ReleaseStateError::CorruptReleaseState(c) => ReleaseStateErrorView::CorruptReleaseState(
                c@,
            ),
            ReleaseStateError::JSONError(e) => ReleaseStateErrorView::JSONError(e@),
            ReleaseStateError::UpdateError(e) => ReleaseStateErrorView::UpdateError(e@),
            ReleaseStateError::KubeError(e) => ReleaseStateErrorView::KubeError(e@),
        }
    }
}

impl Duplicate for ReleaseStateError {
    fn duplicate(&self) -> (r: ReleaseStateError) {
        match self {
            ReleaseStateError::CorruptReleaseState(c) => ReleaseStateError::CorruptReleaseState(
                c.duplicate(),
            ),
            ReleaseStateError::JSONError(e) => ReleaseStateError::JSONError(e.clone()),
            ReleaseStateError::UpdateError(e) => ReleaseStateError::UpdateError(e.duplicate()),
            ReleaseStateError::KubeError(e) => ReleaseStateError::KubeError(e.duplicate()),
        }
    }
}

/// The record of a state: a configuration object that says it is the state
/// of the release, written by this version of the tool, with the encoded
/// state in it.
pub open spec fn state_record(name: Option<Seq<char>>, release: Seq<char>, encoded: Seq<char>) -> ConfigMapView {
    ConfigMapView {
        metadata: ObjectMetaView {
            name,
            labels: Map::<Seq<char>, Seq<char>>::empty().insert(
                TYPE_KEY@,
                ObjectType::ReleaseState.text(),
            ).insert(RELEASE_KEY@, release),
            annotations: Map::<Seq<char>, Seq<char>>::empty().insert(
                VERSION_KEY@,
                CRATE_VERSION@,
            ),
            ..empty_config_map().metadata
        },
        data: Map::<Seq<char>, Seq<char>>::empty().insert(STATE_KEY@, encoded),
    }
}

/// What reading the record of a release gives: nothing where the store has
/// no such record, the encoded state where the record holds it, and a
/// failure where the record is corrupt or the store fails otherwise.
pub open spec fn loaded(fetched: Result<ConfigMapView, KubeErrorView>) -> Result<
    Option<Seq<char>>,
    ReleaseStateErrorView,
> {
    match fetched {
        Err(e) => if e.is_not_found() {
            Ok(None)
        } else {
            Err(ReleaseStateErrorView::KubeError(e))
        },
        Ok(record) => if record.data.contains_key(STATE_KEY@) {
            Ok(Some(record.data[STATE_KEY@]))
        } else {
            Err(ReleaseStateErrorView::CorruptReleaseState(record))
        },
    }
}

/// The content of what the store gave for a record.
pub open spec fn fetched_view(fetched: Result<ConfigMap, KubeError>) -> Result<
    ConfigMapView,
    KubeErrorView,
> {
    match fetched {
        Ok(c) => Ok(c@),
        Err(e) => Err(e@),
    }
}

impl ReleaseState {
    /// The state of a release that was just installed.
    pub fn new(objects: Objects) -> (r: ReleaseState)
        ensures
            r@ == installed_state(objects@),
    {
        let r = ReleaseState { current: ReleaseStateObjects(objects), history: Vec::new() };
        assert(r@.history =~= Seq::empty());
        r
    }

    /// The state after an upgrade to other objects.
    pub fn upgraded(self, objects: Objects) -> (r: ReleaseState)
        ensures
            r@ == upgraded_state(self@, objects@),
    {
        let mut history = self.history;
        history.insert(0, self.current);
        let r = ReleaseState { current: ReleaseStateObjects(objects), history };
        assert(r@.history =~= seq![self@.current] + self@.history);
        r
    }

    /// The encoded state in a record.
    pub fn from_config_map(config_map: &ConfigMap) -> (r: Result<String, ReleaseStateError>)
        ensures
            match loaded(Ok(config_map@)) {
                Ok(Some(encoded)) => r is Ok && r->Ok_0@ == encoded,
                Ok(None) => false,
                Err(e) => r is Err && r->Err_0@ == e,
            },
    {
        match config_map.data.get(&STATE_KEY.to_owned()) {
            Some(encoded) => Ok(encoded.clone()),
            None => Err(ReleaseStateError::CorruptReleaseState(config_map.duplicate())),
        }
    }

    /// The record of an encoded state, without a name yet.
    pub fn to_config_map(release: &str, encoded: String) -> (r: ConfigMap)
        ensures
            r@ == state_record(None, release@, encoded@),
    {
        let mut config_map = ConfigMap::default().with_label(&ObjectType::ReleaseState).with_label(
            &ReleaseName(release.to_owned()),
        ).with_annotation(&CrateVersion);
        config_map.data.insert(STATE_KEY.to_owned(), encoded);
        assert(config_map@.metadata.labels =~= state_record(
            None,
            release@,
            encoded@,
        ).metadata.labels);
        assert(config_map@.metadata.annotations =~= state_record(
            None,
            release@,
            encoded@,
        ).metadata.annotations);
        config_map
    }

    /// Makes of what the store gave for the record of a release the encoded
    /// state, if there is one.
    pub fn get(fetched: Result<ConfigMap, KubeError>) -> (r: Result<
        Option<String>,
        ReleaseStateError,
    >)
        ensures
            match loaded(fetched_view(fetched)) {
                Ok(Some(encoded)) => r matches Ok(Some(text)) && text@ == encoded,
                Ok(None) => r matches Ok(None),
                Err(e) => r is Err && r->Err_0@ == e,
            },
    {
        match fetched {
            Err(e) => if e.is_not_found() {
                Ok(None)
            } else {
                Err(ReleaseStateError::KubeError(e))
            },
            Ok(config_map) => match ReleaseState::from_config_map(&config_map) {
                Ok(encoded) => Ok(Some(encoded)),
                Err(e) => Err(e),
            },
        }
    }

    /// How the record of a state is patched in: under the name of the tool,
    /// with force.
    pub fn patch_params() -> (r: transaction::PatchParams)
        ensures
            r.field_manager@ == crate::meta::CRATE_NAME@,
            r.force,
    {
        transaction::PatchParams { field_manager: crate::meta::CRATE_NAME, force: true }
    }

    /// Makes of a record and of what decoding the state in it gave the state
    /// of the release: a record whose state cannot be decoded is corrupt.
    pub fn decoded(record: ConfigMap, decoded: Option<ReleaseState>) -> (r: Result<
        ReleaseState,
        ReleaseStateError,
    >)
        ensures
            match decoded {
                Some(state) => r is Ok && r->Ok_0@ == state@,
                None => r is Err && r->Err_0@ == ReleaseStateErrorView::CorruptReleaseState(
                    record@,
                ),
            },
    {
        match decoded {
            Some(state) => Ok(state),
            None => Err(ReleaseStateError::CorruptReleaseState(record)),
        }
    }

    /// The record to apply for the encoded state of a release: it has the
    /// name of the release.
    pub fn apply(name: &str, encoded: String) -> (r: ConfigMap)
        ensures
            r@ == state_record(Some(name@), name@, encoded@),
    {
        let mut config_map = ReleaseState::to_config_map(name, encoded);
        config_map.metadata.name = Some(name.to_owned());
        config_map
    }
}

/// How the deployment or the deletion of a release failed.
#[derive(Debug)]
pub enum Error {
    /// The object store failed on the lock or on the record.
    KubeError(KubeError),
    /// The state of the release could not be read or written.
    ReleaseStateError(Box<ReleaseStateError>),
    /// The plan failed; `state` is the state that was worked on.
    ReleaseError { state: ReleaseState, error: Box<release::Error> },
    /// The plan was through, but `state` could not be written, which is
    /// `cause`; undoing the plan then failed too, which is `error`. The
    /// object store may be left as the plan made it.
    UndoError { cause: Box<ReleaseStateError>, state: ReleaseState, error: Box<release::Error> },
}

/// The content of an [`Error`].
pub enum ErrorView {
    KubeError(KubeErrorView),
    ReleaseStateError(ReleaseStateErrorView),
    ReleaseError { state: ReleaseStateView, error: release::ErrorView },
    UndoError { cause: ReleaseStateErrorView, state: ReleaseStateView, error: release::ErrorView },
}

impl ErrorView {
    /// The failure to read or write the state that the error tells of, if
    /// it tells of one.
    pub open spec fn state_failure(self) -> Option<ReleaseStateErrorView> {
        match self {
            ErrorView::ReleaseStateError(cause) => Some(cause),
            ErrorView::UndoError { cause, .. } => Some(cause),
            _ => None,
        }
    }

    /// The failure of a plan that the error tells of, if it tells of one.
    pub open spec fn plan_failure(self) -> Option<release::ErrorView> {
        match self {
            ErrorView::ReleaseError { error, .. } => Some(error),
            ErrorView::UndoError { error, .. } => Some(error),
            _ => None,
        }
    }
}

impl View for Error {
    type V = ErrorView;

    open spec fn view(&self) -> ErrorView {
        match self {
            Error::KubeError(e) => ErrorView::KubeError(e@),
            Error::ReleaseStateError(e) => ErrorView::ReleaseStateError(e@),
            Error::ReleaseError { state, error } => ErrorView::ReleaseError {
                state: state@,
                error: error@,
            },
            Error::UndoError { cause, state, error } => ErrorView::UndoError {
                cause: cause@,
                state: state@,
                error: error@,
            },
        }
    }
}

impl Duplicate for Error {
    fn duplicate(&self) -> (r: Error) {
        match self {
            Error::KubeError(e) => Error::KubeError(e.duplicate()),
            Error::ReleaseStateError(e) => Error::ReleaseStateError(Box::new(e.duplicate())),
            Error::ReleaseError { state, error } => Error::ReleaseError {
                state: state.duplicate(),
                error: Box::new(error.duplicate()),
            },
            Error::UndoError { cause, state, error } => Error::UndoError {
                cause: Box::new(cause.duplicate()),
                state: state.duplicate(),
                error: Box::new(error.duplicate()),
            },
        }
    }
}

/// What a deployment did.
#[derive(Debug)]
pub enum DeployResult {
    /// The release is deployed as it is; nothing was done.
    Unchanged,
    /// The release was not there and was installed by the plan.
    Installed { plan: ReleasePlan },
    /// The release was there and was upgraded by the plan.
    Upgraded { plan: ReleasePlan },
}

/// The content of a [`DeployResult`].
pub enum DeployResultView {
    Unchanged,
    Installed { plan: ReleasePlanView },
    Upgraded { plan: ReleasePlanView },
}

impl View for DeployResult {
    type V = DeployResultView;

    open spec fn view(&self) -> DeployResultView {
        match self {
            DeployResult::Unchanged => DeployResultView::Unchanged,
            DeployResult::Installed { plan } => DeployResultView::Installed { plan: plan@ },
            DeployResult::Upgraded { plan } => DeployResultView::Upgraded { plan: plan@ },
        }
    }
}

impl Duplicate for DeployResult {
    fn duplicate(&self) -> (r: DeployResult) {
        match self {
            DeployResult::Unchanged => DeployResult::Unchanged,
            DeployResult::Installed { plan } => DeployResult::Installed { plan: plan.duplicate() },
            DeployResult::Upgraded { plan } => DeployResult::Upgraded { plan: plan.duplicate() },
        }
    }
}

impl Clone for DeployResult {
    fn clone(&self) -> (r: DeployResult)
        ensures
            r@ == self@,
    {
        self.duplicate()
    }
}

/// Why the object store does not show what a release asks for.
#[derive(Debug)]
pub enum VerificationError {
    /// The state of the release could not be read.
    ReleaseStateError(ReleaseStateError),
    /// The object store failed.
    KubeError(KubeError),
    /// No release of that name is deployed.
    NoDeployedRelease,
    /// The store has no object of this identifier with the marks of the
    /// release.
    MissingObject(Identifier),
    /// The object lacks a label that is asked for, or has another value
    /// for it.
    MismatchingLabels {
        identifier: Identifier,
        desired: SortedMap<String, String>,
        reality: SortedMap<String, String>,
    },
    /// The object lacks an annotation that is asked for, or has another
    /// value for it.
    MismatchingAnnotations {
        identifier: Identifier,
        desired: SortedMap<String, String>,
        reality: SortedMap<String, String>,
    },
    /// The data of an object departs from what is asked for at this path.
    MismatchingData { path: VecDeque<String> },
}

/// The content of a [`VerificationError`].
pub enum VerificationErrorView {
    ReleaseStateError(ReleaseStateErrorView),
    KubeError(KubeErrorView),
    NoDeployedRelease,
    MissingObject(IdentifierView),
    MismatchingLabels {
        identifier: IdentifierView,
        desired: Map<Seq<char>, Seq<char>>,
        reality: Map<Seq<char>, Seq<char>>,
    },
    MismatchingAnnotations {
        identifier: IdentifierView,
        desired: Map<Seq<char>, Seq<char>>,
        reality: Map<Seq<char>, Seq<char>>,
    },
    MismatchingData { path: Seq<Seq<char>> },
}

impl View for VerificationError {
    type V = VerificationErrorView;

    open spec fn view(&self) -> VerificationErrorView {
        match self {
            VerificationError::ReleaseStateError(e) => VerificationErrorView::ReleaseStateError(e@),
            VerificationError::KubeError(e) => VerificationErrorView::KubeError(e@),
            VerificationError::NoDeployedRelease => VerificationErrorView::NoDeployedRelease,
            VerificationError::MissingObject(i) => VerificationErrorView::MissingObject(i@),
            VerificationError::MismatchingLabels {
                identifier,
                desired,
                reality,
            } => VerificationErrorView::MismatchingLabels {
                identifier: identifier@,
                desired: desired@,
                reality: reality@,
            },
            VerificationError::MismatchingAnnotations {
                identifier,
                desired,
                reality,
            } => VerificationErrorView::MismatchingAnnotations {
                identifier: identifier@,
                desired: desired@,
                reality: reality@,
            },
            VerificationError::MismatchingData { path } => VerificationErrorView::MismatchingData {
                path: path.deep_view(),
            },
        }
    }
}

/// What is wrong with the object that the store shows for a desired
/// object, if anything: it is missing, a label or an annotation of the
/// tagged desired object is not on it, or its data departs from the data
/// asked for.
pub open spec fn object_error(
    release_name: Seq<char>,
    identifier: IdentifierView,
    desired: ObjectView,
    live: Map<IdentifierView, ObjectView>,
) -> Option<VerificationErrorView> {
    let wanted = tagged(release_name, desired).dyn_object;
    if !live.contains_key(identifier) {
        Some(VerificationErrorView::MissingObject(identifier))
    } else {
        let reality = live[identifier].dyn_object;
        if !wanted.metadata.labels.submap_of(reality.metadata.labels) {
            Some(
                VerificationErrorView::MismatchingLabels {
                    identifier,
                    desired: wanted.metadata.labels,
                    reality: reality.metadata.labels,
                },
            )
        } else if !wanted.metadata.annotations.submap_of(reality.metadata.annotations) {
            Some(
                VerificationErrorView::MismatchingAnnotations {
                    identifier,
                    desired: wanted.metadata.annotations,
                    reality: reality.metadata.annotations,
                },
            )
        } else {
            match divergence(wanted.data, reality.data) {
                Some(path) => Some(VerificationErrorView::MismatchingData { path }),
                None => None,
            }
        }
    }
}

/// What is wrong with the first desired object from `from` on that the
/// store does not show as asked.
pub open spec fn first_error(
    release_name: Seq<char>,
    entries: Seq<(IdentifierView, ObjectView)>,
    live: Map<IdentifierView, ObjectView>,
    from: nat,
) -> Option<VerificationErrorView>
    decreases entries.len() - from,
{
    if from >= entries.len() {
        None
    } else {
        match object_error(release_name, entries[from as int].0, entries[from as int].1, live) {
            Some(e) => Some(e),
            None => first_error(release_name, entries, live, from + 1),
        }
    }
}

/// Why the store does not show what the state of a release asks for, if it
/// does not: no release is deployed, or the first of its objects, in
/// ascending order of the identifiers, that is not shown as asked.
pub open spec fn verification_of(
    release_name: Seq<char>,
    state: Option<ReleaseStateView>,
    live: Map<IdentifierView, ObjectView>,
) -> Option<VerificationErrorView> {
    match state {
        None => Some(VerificationErrorView::NoDeployedRelease),
        Some(state) => first_error(
            release_name,
            sorted_entries::<Identifier, ObjectView>(state.current),
            live,
            0,
        ),
    }
}

/// The content of a state that may be absent.
pub open spec fn state_view(state: Option<ReleaseState>) -> Option<ReleaseStateView> {
    match state {
        Some(s) => Some(s@),
        None => None,
    }
}

/// The manager of the releases of one namespace.
#[derive(Debug)]
pub struct Manager {
    namespace: NamespaceMode,
}

impl Manager {
    /// The manager for a namespace.
    pub fn new(ns_mode: NamespaceMode) -> (r: Manager)
        ensures
            r.namespace() == ns_mode,
    {
        Manager { namespace: ns_mode }
    }

    /// The namespace that the manager works in.
    pub closed spec fn namespace(&self) -> NamespaceMode {
        self.namespace
    }

    /// The namespace to work in, if it is not that of the transport.
    pub fn specific_namespace(&self) -> (r: Option<&String>)
        ensures
            match self.namespace() {
                NamespaceMode::Specific(ns) => r is Some && r->Some_0@ == ns@,
                NamespaceMode::Default => r is None,
            },
    {
        match &self.namespace {
            NamespaceMode::Specific(ns) => Some(ns),
            NamespaceMode::Default => None,
        }
    }

    /// Checks the objects that the store shows with the marks of a release
    /// against the state of the release.
    #[verifier::loop_isolation(false)]
    pub fn verify(
        &self,
        release_name: String,
        state: Option<ReleaseState>,
        real_objects: &Objects,
    ) -> (r: Result<(), VerificationError>)
        ensures
            match verification_of(release_name@, state_view(state), real_objects@) {
                Some(e) => r is Err && r->Err_0@ == e,
                None => r is Ok,
            },
    {
        let state = match state {
            Some(state) => state,
            None => {
                return Err(VerificationError::NoDeployedRelease);
            },
        };
        let desired_objects = &state.current.0;
        let n = desired_objects.len();
        let ghost entries = desired_objects.entries();
        let ghost name = release_name@;
        let ghost shown = real_objects@;
        let mut i: usize = 0;
        while i < n
            invariant
                i <= n,
                n == entries.len(),
                first_error(name, entries, shown, 0) == first_error(name, entries, shown, i as nat),
            decreases n - i,
        {
            let identifier = desired_objects.identifier_at(i);
            let desired = ReleasePlan::tag_object(
                release_name.clone(),
                desired_objects.object_at(i).duplicate(),
            );
            let reality = match real_objects.get(identifier) {
                Some(reality) => reality,
                None => {
                    return Err(VerificationError::MissingObject(identifier.duplicate()));
                },
            };
            if !check_mapping(
                &desired.dyn_object.metadata.labels,
                &reality.dyn_object.metadata.labels,
            ) {
                return Err(
                    VerificationError::MismatchingLabels {
                        identifier: identifier.duplicate(),
                        desired: desired.dyn_object.metadata.labels.duplicate(),
                        reality: reality.dyn_object.metadata.labels.duplicate(),
                    },
                );
            }
            if !check_mapping(
                &desired.dyn_object.metadata.annotations,
                &reality.dyn_object.metadata.annotations,
            ) {
                return Err(
                    VerificationError::MismatchingAnnotations {
                        identifier: identifier.duplicate(),
                        desired: desired.dyn_object.metadata.annotations.duplicate(),
                        reality: reality.dyn_object.metadata.annotations.duplicate(),
                    },
                );
            }
            match first_divergence(&desired.dyn_object.data, &reality.dyn_object.data) {
                Some(path) => {
                    return Err(VerificationError::MismatchingData { path });
                },
                None => {},
            }
            i += 1;
        }
        Ok(())
    }
}

/// What a deployment or a deletion asks its caller to do next.
#[derive(Debug)]
pub enum Command {
    /// Acquire the lock of this name.
    Lock { name: String },
    /// Read the state of the release of this name.
    Load { name: String },
    /// Make this request to the object store.
    Perform(Request),
    /// Write this state as the state of the release of this name.
    Persist { name: String, state: ReleaseState },
    /// Delete the record of the release of this name.
    Forget { name: String },
    /// Delete the lock object of this name.
    Unlock { name: String },
    /// Nothing more: the work has ended.
    Done,
}

/// The content of a [`Command`].
pub enum CommandView {
    Lock { name: Seq<char> },
    Load { name: Seq<char> },
    Perform(RequestView),
    Persist { name: Seq<char>, state: ReleaseStateView },
    Forget { name: Seq<char> },
    Unlock { name: Seq<char> },
    Done,
}

impl View for Command {
    type V = CommandView;

    open spec fn view(&self) -> CommandView {
        match self {
            Command::Lock { name } => CommandView::Lock { name: name@ },
            Command::Load { name } => CommandView::Load { name: name@ },
            Command::Perform(request) => CommandView::Perform(request@),
            Command::Persist { name, state } => CommandView::Persist {
                name: name@,
                state: state@,
            },
            Command::Forget { name } => CommandView::Forget { name: name@ },
            Command::Unlock { name } => CommandView::Unlock { name: name@ },
            Command::Done => CommandView::Done,
        }
    }
}

/// What the caller reports back of what it was asked to do.
#[derive(Debug)]
pub enum Event {
    /// The lock was acquired, or could not be.
    Locked(Result<(), KubeError>),
    /// The state was read: there is none, there is this one, or reading
    /// failed.
    Loaded(Result<Option<ReleaseState>, ReleaseStateError>),
    /// The request was answered.
    Performed(Result<(), KubeError>),
    /// The state was written, or could not be.
    Persisted(Result<(), ReleaseStateError>),
    /// The record was deleted, or could not be.
    Forgotten(Result<(), KubeError>),
    /// The lock object was deleted, or could not be.
    Unlocked(Result<(), KubeError>),
}

/// The content of an [`Event`].
pub enum EventView {
    Locked(Result<(), KubeErrorView>),
    Loaded(Result<Option<ReleaseStateView>, ReleaseStateErrorView>),
    Performed(Result<(), KubeErrorView>),
    Persisted(Result<(), ReleaseStateErrorView>),
    Forgotten(Result<(), KubeErrorView>),
    Unlocked(Result<(), KubeErrorView>),
}

impl View for Event {
    type V = EventView;

    open spec fn view(&self) -> EventView {
        match self {
            Event::Locked(o) => EventView::Locked(outcome_view(*o)),
            Event::Loaded(Ok(state)) => EventView::Loaded(Ok(state_view(*state))),
            Event::Loaded(Err(e)) => EventView::Loaded(Err(e@)),
            Event::Performed(o) => EventView::Performed(outcome_view(*o)),
            Event::Persisted(Ok(())) => EventView::Persisted(Ok(())),
            Event::Persisted(Err(e)) => EventView::Persisted(Err(e@)),
            Event::Forgotten(o) => EventView::Forgotten(outcome_view(*o)),
            Event::Unlocked(o) => EventView::Unlocked(outcome_view(*o)),
        }
    }
}

/// The content of how a deployment ended.
pub open spec fn deployed_view(result: Result<DeployResult, Error>) -> Result<
    DeployResultView,
    ErrorView,
> {
    match result {
        Ok(r) => Ok(r@),
        Err(e) => Err(e@),
    }
}

/// Where a deployment stands.
pub enum StageView {
    /// It waits for the lock.
    Locking,
    /// It holds the lock and waits for the state of the release.
    Loading,
    /// It executes the plan. `target` is the state to write when the plan
    /// is through, `shown` the state to tell with a failure.
    Executing {
        execution: ExecutionView,
        target: ReleaseStateView,
        shown: ReleaseStateView,
        upgrade: bool,
    },
    /// The plan is through; it waits for the state to be written.
    Persisting { plan: ReleasePlanView, target: ReleaseStateView, upgrade: bool },
    /// The state could not be written; it executes the plan that undoes
    /// the plan.
    Undoing { execution: ExecutionView, cause: ReleaseStateErrorView, target: ReleaseStateView },
    /// It gives up the lock. Where `strict`, a failure to do so is the
    /// result; where not, the result stands whatever comes of it.
    Unlocking { result: Result<DeployResultView, ErrorView>, strict: bool },
    /// It has ended.
    Finished { result: Result<DeployResultView, ErrorView> },
}

/// The state of a deployment.
pub struct DeploymentView {
    pub release: ReleaseView,
    pub stage: StageView,
}

/// The stage after the execution of the plan has moved: it goes on, the
/// plan is through and the state is to be written, or the plan has failed
/// and the lock is given up.
pub open spec fn executing(
    execution: ExecutionView,
    target: ReleaseStateView,
    shown: ReleaseStateView,
    upgrade: bool,
) -> StageView {
    match execution.result {
        None => StageView::Executing { execution, target, shown, upgrade },
        Some(Ok(())) => StageView::Persisting { plan: execution.plan, target, upgrade },
        Some(Err(error)) => StageView::Unlocking {
            result: Err(ErrorView::ReleaseError { state: shown, error }),
            strict: false,
        },
    }
}

/// The stage after the execution of the undoing plan has moved: it goes
/// on, or the lock is given up with the failure to write the state. Where
/// the undoing failed too, that failure is told beside the failure to
/// write, not in its place.
pub open spec fn undoing(
    execution: ExecutionView,
    cause: ReleaseStateErrorView,
    target: ReleaseStateView,
) -> StageView {
    match execution.result {
        None => StageView::Undoing { execution, cause, target },
        Some(Ok(())) => StageView::Unlocking {
            result: Err(ErrorView::ReleaseStateError(cause)),
            strict: false,
        },
        Some(Err(error)) => StageView::Unlocking {
            result: Err(ErrorView::UndoError { cause, state: target, error }),
            strict: false,
        },
    }
}

/// The stage after the state of the release was read. Without a state the
/// release is installed. With a state whose objects hash as those of the
/// release, nothing is done. With any other state the release is upgraded
/// from the objects of the state.
pub open spec fn decided(release: ReleaseView, state: Option<ReleaseStateView>) -> StageView {
    match state {
        None => executing(
            forward_at(plan_of(release.name, release.objects, Map::empty()), 0),
            installed_state(release.objects),
            installed_state(release.objects),
            false,
        ),
        Some(state) => if hash_of(ReleaseView { name: release.name, objects: state.current })
            == hash_of(release) {
            StageView::Unlocking { result: Ok(DeployResultView::Unchanged), strict: false }
        } else {
            executing(
                forward_at(plan_of(release.name, release.objects, state.current), 0),
                upgraded_state(state, release.objects),
                state,
                true,
            )
        },
    }
}

/// The deployment after an event. An event that the stage does not wait
/// for leaves it as it is.
pub open spec fn deploy_handled(deployment: DeploymentView, event: EventView) -> DeploymentView {
    let release = deployment.release;
    let stage = match (deployment.stage, event) {
        (StageView::Locking, EventView::Locked(Ok(()))) => StageView::Loading,
        (StageView::Locking, EventView::Locked(Err(e))) => StageView::Finished {
            result: Err(ErrorView::KubeError(e)),
        },
        (StageView::Loading, EventView::Loaded(Err(e))) => StageView::Unlocking {
            result: Err(ErrorView::ReleaseStateError(e)),
            strict: false,
        },
        (StageView::Loading, EventView::Loaded(Ok(state))) => decided(release, state),
        (
            StageView::Executing { execution, target, shown, upgrade },
            EventView::Performed(outcome),
        ) => executing(reported(execution, outcome), target, shown, upgrade),
        (StageView::Persisting { plan, target, upgrade }, EventView::Persisted(Ok(()))) => {
            StageView::Unlocking {
                result: Ok(
                    if upgrade {
                        DeployResultView::Upgraded { plan }
                    } else {
                        DeployResultView::Installed { plan }
                    },
                ),
                strict: true,
            }
        },
        (StageView::Persisting { plan, target, upgrade }, EventView::Persisted(Err(cause))) => {
            undoing(forward_at(undo_of(plan), 0), cause, target)
        },
        (StageView::Undoing { execution, cause, target }, EventView::Performed(outcome)) => {
            undoing(reported(execution, outcome), cause, target)
        },
        (StageView::Unlocking { result, strict }, EventView::Unlocked(outcome)) => {
            match outcome {
                Err(e) if strict => StageView::Finished { result: Err(ErrorView::KubeError(e)) },
                _ => StageView::Finished { result },
            }
        },
        (stage, _) => stage,
    };
    DeploymentView { release, stage }
}

/// What a deployment asks for at its stage.
pub open spec fn deploy_command(deployment: DeploymentView) -> CommandView {
    match deployment.stage {
        StageView::Locking => CommandView::Lock { name: lock_name_of(deployment.release.name) },
        StageView::Loading => CommandView::Load { name: deployment.release.name },
        StageView::Executing { execution, .. } => match pending_of(execution) {
            Some(request) => CommandView::Perform(request),
            None => CommandView::Done,
        },
        StageView::Persisting { target, .. } => CommandView::Persist {
            name: deployment.release.name,
            state: target,
        },
        StageView::Undoing { execution, .. } => match pending_of(execution) {
            Some(request) => CommandView::Perform(request),
            None => CommandView::Done,
        },
        StageView::Unlocking { .. } => CommandView::Unlock {
            name: lock_name_of(deployment.release.name),
        },
        StageView::Finished { .. } => CommandView::Done,
    }
}

/// Deploying a release that is deployed as it is does nothing. The state
/// that an installation writes is the objects of the release without
/// history; a deployment of the same release that reads that state goes
/// straight to giving up the lock, asks for no request and no write in
/// between, and ends with `Unchanged`.
pub proof fn lemma_deploy_unchanged(release: ReleaseView, unlocked: Result<(), KubeErrorView>)
    ensures
        ({
            let loading = DeploymentView { release, stage: StageView::Loading };
            let first = deploy_handled(loading, EventView::Loaded(Ok(None)));
            let state = installed_state(release.objects);
            let second = deploy_handled(loading, EventView::Loaded(Ok(Some(state))));
            &&& first.stage matches StageView::Executing { target, .. } ==> target == state
            &&& first.stage matches StageView::Persisting { target, .. } ==> target == state
            &&& second.stage == (StageView::Unlocking {
                result: Ok(DeployResultView::Unchanged),
                strict: false,
            })
            &&& deploy_command(second) == (CommandView::Unlock {
                name: lock_name_of(release.name),
            })
            &&& deploy_handled(second, EventView::Unlocked(unlocked)).stage == (
            StageView::Finished { result: Ok(DeployResultView::Unchanged) })
        }),
{
}

/// What a deployment writes as the state of the release holds the objects
/// of the release as they were given. A deployment that finds no state
/// writes no history; one that finds a state with other objects puts the
/// objects of that state at the head of its history.
pub proof fn lemma_deploy_target(release: ReleaseView, state: Option<ReleaseStateView>)
    ensures
        ({
            let stage = decided(release, state);
            let expected = match state {
                None => installed_state(release.objects),
                Some(found) => upgraded_state(found, release.objects),
            };
            &&& expected.current == release.objects
            &&& stage matches StageView::Executing { target, .. } ==> target == expected
            &&& stage matches StageView::Persisting { target, .. } ==> target == expected
            &&& stage matches StageView::Persisting { target, .. } ==> deploy_command(
                DeploymentView { release, stage },
            ) == (CommandView::Persist { name: release.name, state: expected })
        }),
{
}

/// A deployment asks for the state to be written only once its plan is
/// through: while the plan is executed, has failed or is undone, it asks
/// for requests or for the lock to be given up, never for a write.
pub proof fn lemma_deploy_writes_last(deployment: DeploymentView)
    ensures
        deploy_command(deployment) is Persist <==> deployment.stage is Persisting,
        deployment.stage is Unlocking ==> deploy_command(deployment) is Unlock,
{
}

/// Where the state cannot be written after the plan is through, the plan
/// that undoes it is executed, and the deployment ends with the failure to
/// write: alone where the undoing went well, and with the failure of the
/// undoing beside it where that failed too. Nothing is written.
pub proof fn lemma_write_failure_stays(
    release: ReleaseView,
    plan: ReleasePlanView,
    target: ReleaseStateView,
    upgrade: bool,
    cause: ReleaseStateErrorView,
    execution: ExecutionView,
    unlocked: Result<(), KubeErrorView>,
)
    ensures
        deploy_handled(
            DeploymentView { release, stage: StageView::Persisting { plan, target, upgrade } },
            EventView::Persisted(Err(cause)),
        ).stage == undoing(forward_at(undo_of(plan), 0), cause, target),
        ({
            let stage = undoing(execution, cause, target);
            let ended = deploy_handled(
                DeploymentView { release, stage },
                EventView::Unlocked(unlocked),
            ).stage;
            &&& !(deploy_command(DeploymentView { release, stage }) is Persist)
            &&& execution.result is None ==> stage is Undoing
            &&& execution.result == Some(Ok::<(), release::ErrorView>(())) ==> ended == (
            StageView::Finished { result: Err(ErrorView::ReleaseStateError(cause)) })
            &&& execution.result matches Some(Err(error)) ==> ended == (StageView::Finished {
                result: Err(ErrorView::UndoError { cause, state: target, error }),
            })
            &&& ended matches StageView::Finished { result: Err(e) } ==> e.state_failure() == Some(
                cause,
            )
        }),
{
}

/// Where the plan fails, the deployment gives up the lock and ends with
/// the failure of the plan and the state that it worked on. It asks for no
/// write, so the persisted state stays as it was.
pub proof fn lemma_plan_failure_leaves_state(
    release: ReleaseView,
    execution: ExecutionView,
    target: ReleaseStateView,
    shown: ReleaseStateView,
    upgrade: bool,
    error: release::ErrorView,
    unlocked: Result<(), KubeErrorView>,
)
    requires
        execution.result == Some(Err::<(), release::ErrorView>(error)),
    ensures
        ({
            let failed = DeploymentView {
                release,
                stage: executing(execution, target, shown, upgrade),
            };
            &&& failed.stage == (StageView::Unlocking {
                result: Err(ErrorView::ReleaseError { state: shown, error }),
                strict: false,
            })
            &&& deploy_command(failed) == (CommandView::Unlock { name: lock_name_of(release.name) })
            &&& deploy_handled(failed, EventView::Unlocked(unlocked)).stage == (
            StageView::Finished { result: Err(ErrorView::ReleaseError { state: shown, error }) })
        }),
{
}

/// A deployment that finds a state with other objects than those of the
/// release executes the plan from the objects of the state to those of the
/// release. Once the plan is through and the new state is written, it gives
/// up the lock and ends with `Upgraded` and the plan.
pub proof fn lemma_deploy_upgrades(
    release: ReleaseView,
    state: ReleaseStateView,
    unlocked: Result<(), KubeErrorView>,
)
    requires
        hash_of(ReleaseView { name: release.name, objects: state.current }) != hash_of(release),
    ensures
        ({
            let plan = plan_of(release.name, release.objects, state.current);
            let target = upgraded_state(state, release.objects);
            let written = deploy_handled(
                DeploymentView {
                    release,
                    stage: StageView::Persisting { plan, target, upgrade: true },
                },
                EventView::Persisted(Ok(())),
            );
            &&& decided(release, Some(state)) == executing(
                forward_at(plan, 0),
                target,
                state,
                true,
            )
            &&& target.current == release.objects
            &&& target.history == seq![state.current] + state.history
            &&& written.stage == (StageView::Unlocking {
                result: Ok(DeployResultView::Upgraded { plan }),
                strict: true,
            })
            &&& deploy_handled(written, EventView::Unlocked(Ok(()))).stage == (
            StageView::Finished { result: Ok(DeployResultView::Upgraded { plan }) })
        }),
{
}

enum Stage {
    Locking,
    Loading,
    Executing { execution: Execution, target: ReleaseState, shown: ReleaseState, upgrade: bool },
    Persisting { plan: ReleasePlan, target: ReleaseState, upgrade: bool },
    Undoing { execution: Execution, cause: ReleaseStateError, target: ReleaseState },
    Unlocking { result: Result<DeployResult, Error>, strict: bool },
    Finished { result: Result<DeployResult, Error> },
}

impl View for Stage {
    type V = StageView;

    closed spec fn view(&self) -> StageView {
        match self {
            Stage::Locking => StageView::Locking,
            Stage::Loading => StageView::Loading,
            Stage::Executing { execution, target, shown, upgrade } => StageView::Executing {
                execution: execution@,
                target: target@,
                shown: shown@,
                upgrade: *upgrade,
            },
            Stage::Persisting { plan, target, upgrade } => StageView::Persisting {
                plan: plan@,
                target: target@,
                upgrade: *upgrade,
            },
            Stage::Undoing { execution, cause, target } => StageView::Undoing {
                execution: execution@,
                cause: cause@,
                target: target@,
            },
            Stage::Unlocking { result, strict } => StageView::Unlocking {
                result: deployed_view(*result),
                strict: *strict,
            },
            Stage::Finished { result } => StageView::Finished { result: deployed_view(*result) },
        }
    }
}

/// The deployment of a release: lock, read the state, plan, execute, write
/// the state, unlock. It says what to do next and takes what came of it.
pub struct Deployment {
    release: Release,
    stage: Stage,
}

impl View for Deployment {
    type V = DeploymentView;

    closed spec fn view(&self) -> DeploymentView {
        DeploymentView { release: self.release@, stage: self.stage@ }
    }
}

impl Stage {
    fn executing(plan: &ReleasePlan, execution: Execution, target: ReleaseState, shown: ReleaseState, upgrade: bool) -> (r:
        Stage)
        requires
            execution@.plan == plan@,
        ensures
            r@ == executing(execution@, target@, shown@, upgrade),
    {
        match execution.result() {
            None => Stage::Executing { execution, target, shown, upgrade },
            Some(Ok(())) => Stage::Persisting { plan: plan.duplicate(), target, upgrade },
            Some(Err(error)) => Stage::Unlocking {
                result: Err(Error::ReleaseError { state: shown, error: Box::new(error) }),
                strict: false,
            },
        }
    }

    fn undoing(execution: Execution, cause: ReleaseStateError, target: ReleaseState) -> (r: Stage)
        ensures
            r@ == undoing(execution@, cause@, target@),
    {
        match execution.result() {
            None => Stage::Undoing { execution, cause, target },
            Some(Ok(())) => Stage::Unlocking {
                result: Err(Error::ReleaseStateError(Box::new(cause))),
                strict: false,
            },
            Some(Err(error)) => Stage::Unlocking {
                result: Err(
                    Error::UndoError {
                        cause: Box::new(cause),
                        state: target,
                        error: Box::new(error),
                    },
                ),
                strict: false,
            },
        }
    }

    fn decided(release: &Release, state: Option<ReleaseState>) -> (r: Stage)
        ensures
            r@ == decided(release@, state_view(state)),
    {
        match state {
            None => {
                let plan = release.install();
                let execution = plan.execute();
                Stage::executing(
                    &plan,
                    execution,
                    ReleaseState::new(release.objects().duplicate()),
                    ReleaseState::new(release.objects().duplicate()),
                    false,
                )
            },
            Some(state) => {
                let old_release = Release::from_objects(
                    release.name().clone(),
                    state.current.0.duplicate(),
                );
                if old_release.hash_value() == release.hash_value() {
                    return Stage::Unlocking { result: Ok(DeployResult::Unchanged), strict: false };
                }
                let plan = release.upgrade(&old_release);
                let execution = plan.execute();
                let target = state.duplicate().upgraded(release.objects().duplicate());
                Stage::executing(&plan, execution, target, state, true)
            },
        }
    }
}

impl Deployment {
    /// What to do next.
    pub fn command(&self) -> (r: Command)
        ensures
            r@ == deploy_command(self@),
    {
        match &self.stage {
            Stage::Locking => Command::Lock { name: self.release.lock_name() },
            Stage::Loading => Command::Load { name: self.release.name().clone() },
            Stage::Executing { execution, .. } => match execution.pending() {
                Some(request) => Command::Perform(request),
                None => Command::Done,
            },
            Stage::Persisting { target, .. } => Command::Persist {
                name: self.release.name().clone(),
                state: target.duplicate(),
            },
            Stage::Undoing { execution, .. } => match execution.pending() {
                Some(request) => Command::Perform(request),
                None => Command::Done,
            },
            Stage::Unlocking { .. } => Command::Unlock { name: self.release.lock_name() },
            Stage::Finished { .. } => Command::Done,
        }
    }

    /// Takes what came of what was asked for.
    pub fn handle(self, event: Event) -> (r: Deployment)
        ensures
            r@ == deploy_handled(self@, event@),
    {
        let Deployment { release, stage } = self;
        let stage = match (stage, event) {
            (Stage::Locking, Event::Locked(Ok(()))) => Stage::Loading,
            (Stage::Locking, Event::Locked(Err(e))) => Stage::Finished {
                result: Err(Error::KubeError(e)),
            },
            (Stage::Loading, Event::Loaded(Err(e))) => Stage::Unlocking {
                result: Err(Error::ReleaseStateError(Box::new(e))),
                strict: false,
            },
            (Stage::Loading, Event::Loaded(Ok(state))) => Stage::decided(&release, state),
            (Stage::Executing { execution, target, shown, upgrade }, Event::Performed(outcome)) => {
                let plan = execution.plan();
                Stage::executing(&plan, execution.report(outcome), target, shown, upgrade)
            },
            (Stage::Persisting { plan, target, upgrade }, Event::Persisted(Ok(()))) => {
                Stage::Unlocking {
                    result: Ok(
                        if upgrade {
                            DeployResult::Upgraded { plan }
                        } else {
                            DeployResult::Installed { plan }
                        },
                    ),
                    strict: true,
                }
            },
            (Stage::Persisting { plan, target, upgrade }, Event::Persisted(Err(cause))) => {
                Stage::undoing(plan.undo().execute(), cause, target)
            },
            (Stage::Undoing { execution, cause, target }, Event::Performed(outcome)) => {
                Stage::undoing(execution.report(outcome), cause, target)
            },
            (Stage::Unlocking { result, strict }, Event::Unlocked(outcome)) => {
                match outcome {
                    Err(e) => if strict {
                        Stage::Finished { result: Err(Error::KubeError(e)) }
                    } else {
                        Stage::Finished { result }
                    },
                    Ok(()) => Stage::Finished { result },
                }
            },
            (stage, _) => stage,
        };
        Deployment { release, stage }
    }

    /// How the deployment ended, once it has.
    pub fn result(&self) -> (r: Option<Result<DeployResult, Error>>)
        ensures
            match self@.stage {
                StageView::Finished { result } => r is Some && deployed_view(r->Some_0) == result,
                _ => r is None,
            },
    {
        match &self.stage {
            Stage::Finished { result } => Some(
                match result {
                    Ok(r) => Ok(r.duplicate()),
                    Err(e) => Err(e.duplicate()),
                },
            ),
            _ => None,
        }
    }
}

impl Manager {
    /// Starts the deployment of a release.
    pub fn deploy(&self, release: &Release) -> (r: Deployment)
        ensures
            r@ == (DeploymentView { release: release@, stage: StageView::Locking }),
    {
        Deployment { release: release.duplicate(), stage: Stage::Locking }
    }
}

/// The content of how a deletion ended.
pub open spec fn deleted_view(result: Result<Option<ReleasePlan>, Error>) -> Result<
    Option<ReleasePlanView>,
    ErrorView,
> {
    match result {
        Ok(Some(plan)) => Ok(Some(plan@)),
        Ok(None) => Ok(None),
        Err(e) => Err(e@),
    }
}

/// Where a deletion stands.
pub enum DeletionStageView {
    /// It waits for the state of the release.
    Loading,
    /// It executes the plan that deletes every object of the state.
    Executing { execution: ExecutionView, state: ReleaseStateView },
    /// The plan is through; it waits for the record to be deleted.
    Forgetting { plan: ReleasePlanView },
    /// It has ended: with the plan, with nothing where no release of that
    /// name was deployed, or with a failure.
    Finished { result: Result<Option<ReleasePlanView>, ErrorView> },
}

/// The state of a deletion.
pub struct DeletionView {
    pub name: Seq<char>,
    pub stage: DeletionStageView,
}

/// The stage after the execution of the deleting plan has moved.
pub open spec fn deleting(execution: ExecutionView, state: ReleaseStateView) -> DeletionStageView {
    match execution.result {
        None => DeletionStageView::Executing { execution, state },
        Some(Ok(())) => DeletionStageView::Forgetting { plan: execution.plan },
        Some(Err(error)) => DeletionStageView::Finished {
            result: Err(ErrorView::ReleaseError { state, error }),
        },
    }
}

/// The deletion after an event. An event that the stage does not wait for
/// leaves it as it is.
pub open spec fn delete_handled(deletion: DeletionView, event: EventView) -> DeletionView {
    let name = deletion.name;
    let stage = match (deletion.stage, event) {
        (DeletionStageView::Loading, EventView::Loaded(Err(e))) => DeletionStageView::Finished {
            result: Err(ErrorView::ReleaseStateError(e)),
        },
        (DeletionStageView::Loading, EventView::Loaded(Ok(None))) => DeletionStageView::Finished {
            result: Ok(None),
        },
        (DeletionStageView::Loading, EventView::Loaded(Ok(Some(state)))) => deleting(
            forward_at(plan_of(name, Map::empty(), state.current), 0),
            state,
        ),
        (DeletionStageView::Executing { execution, state }, EventView::Performed(outcome)) => {
            deleting(reported(execution, outcome), state)
        },
        (DeletionStageView::Forgetting { plan }, EventView::Forgotten(Ok(()))) => {
            DeletionStageView::Finished { result: Ok(Some(plan)) }
        },
        (DeletionStageView::Forgetting { plan }, EventView::Forgotten(Err(e))) => {
            DeletionStageView::Finished { result: Err(ErrorView::KubeError(e)) }
        },
        (stage, _) => stage,
    };
    DeletionView { name, stage }
}

/// What a deletion asks for at its stage.
pub open spec fn delete_command(deletion: DeletionView) -> CommandView {
    match deletion.stage {
        DeletionStageView::Loading => CommandView::Load { name: deletion.name },
        DeletionStageView::Executing { execution, .. } => match pending_of(execution) {
            Some(request) => CommandView::Perform(request),
            None => CommandView::Done,
        },
        DeletionStageView::Forgetting { .. } => CommandView::Forget { name: deletion.name },
        DeletionStageView::Finished { .. } => CommandView::Done,
    }
}

enum DeletionStage {
    Loading,
    Executing { execution: Execution, state: ReleaseState },
    Forgetting { plan: ReleasePlan },
    Finished { result: Result<Option<ReleasePlan>, Error> },
}

impl View for DeletionStage {
    type V = DeletionStageView;

    closed spec fn view(&self) -> DeletionStageView {
        match self {
            DeletionStage::Loading => DeletionStageView::Loading,
            DeletionStage::Executing { execution, state } => DeletionStageView::Executing {
                execution: execution@,
                state: state@,
            },
            DeletionStage::Forgetting { plan } => DeletionStageView::Forgetting { plan: plan@ },
            DeletionStage::Finished { result } => DeletionStageView::Finished {
                result: deleted_view(*result),
            },
        }
    }
}

/// The deletion of a release: read the state, delete every object of it,
/// delete the record. It says what to do next and takes what came of it.
pub struct Deletion {
    name: String,
    stage: DeletionStage,
}

impl View for Deletion {
    type V = DeletionView;

    closed spec fn view(&self) -> DeletionView {
        DeletionView { name: self.name@, stage: self.stage@ }
    }
}

impl DeletionStage {
    fn deleting(execution: Execution, state: ReleaseState) -> (r: DeletionStage)
        ensures
            r@ == deleting(execution@, state@),
    {
        match execution.result() {
            None => DeletionStage::Executing { execution, state },
            Some(Ok(())) => DeletionStage::Forgetting { plan: execution.plan() },
            Some(Err(error)) => DeletionStage::Finished {
                result: Err(Error::ReleaseError { state, error: Box::new(error) }),
            },
        }
    }
}

impl Deletion {
    /// What to do next.
    pub fn command(&self) -> (r: Command)
        ensures
            r@ == delete_command(self@),
    {
        match &self.stage {
            DeletionStage::Loading => Command::Load { name: self.name.clone() },
            DeletionStage::Executing { execution, .. } => match execution.pending() {
                Some(request) => Command::Perform(request),
                None => Command::Done,
            },
            DeletionStage::Forgetting { .. } => Command::Forget { name: self.name.clone() },
            DeletionStage::Finished { .. } => Command::Done,
        }
    }

    /// Takes what came of what was asked for.
    pub fn handle(self, event: Event) -> (r: Deletion)
        ensures
            r@ == delete_handled(self@, event@),
    {
        let Deletion { name, stage } = self;
        let stage = match (stage, event) {
            (DeletionStage::Loading, Event::Loaded(Err(e))) => DeletionStage::Finished {
                result: Err(Error::ReleaseStateError(Box::new(e))),
            },
            (DeletionStage::Loading, Event::Loaded(Ok(None))) => DeletionStage::Finished {
                result: Ok(None),
            },
            (DeletionStage::Loading, Event::Loaded(Ok(Some(state)))) => {
                let release = Release::from_objects(name.clone(), state.current.0.duplicate());
                let plan = release.uninstall();
                DeletionStage::deleting(plan.execute(), state)
            },
            (DeletionStage::Executing { execution, state }, Event::Performed(outcome)) => {
                DeletionStage::deleting(execution.report(outcome), state)
            },
            (DeletionStage::Forgetting { plan }, Event::Forgotten(Ok(()))) => {
                DeletionStage::Finished { result: Ok(Some(plan)) }
            },
            (DeletionStage::Forgetting { plan }, Event::Forgotten(Err(e))) => {
                DeletionStage::Finished { result: Err(Error::KubeError(e)) }
            },
            (stage, _) => stage,
        };
        Deletion { name, stage }
    }

    /// How the deletion ended, once it has.
    pub fn result(&self) -> (r: Option<Result<Option<ReleasePlan>, Error>>)
        ensures
            match self@.stage {
                DeletionStageView::Finished { result } => r is Some && deleted_view(r->Some_0)
                    == result,
                _ => r is None,
            },
    {
        match &self.stage {
            DeletionStage::Finished { result } => Some(
                match result {
                    Ok(Some(plan)) => Ok(Some(plan.duplicate())),
                    Ok(None) => Ok(None),
                    Err(e) => Err(e.duplicate()),
                },
            ),
            _ => None,
        }
    }
}

impl Manager {
    /// Starts the deletion of the release of a name.
    pub fn delete(&self, name: String) -> (r: Deletion)
        ensures
            r@ == (DeletionView { name: name@, stage: DeletionStageView::Loading }),
    {
        Deletion { name, stage: DeletionStage::Loading }
    }
}

} // verus!
