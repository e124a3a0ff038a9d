//! The lock of a release: a configuration object of a known name, which
//! only one client can create. Who created it holds the lock until it
//! deletes the object again.

use crate::json::same_text;
use crate::k8s::labels::{Labels, ListParams};
use crate::k8s::transaction::{outcome_view, KubeError, KubeErrorView};
use crate::k8s::{ObjectType, TYPE_KEY};
use crate::objects::{ConfigMap, ConfigMapView, ObjectMetaView};
use crate::sorted_map::{sorted_entries, Duplicate};
use vstd::prelude::*;

verus! {

/// The number of seconds after which a watch for the deletion of a lock
/// ends and the lock is tried again.
pub const WATCH_TIMEOUT: u32 = 10;

/// What a watch tells.
#[derive(Debug)]
pub enum WatchEvent {
    /// The object of this name was deleted.
    Deleted(String),
    /// Something else happened to some object.
    Other,
    /// The watch has ended.
    Closed,
    /// The watch has failed.
    Failed(KubeError),
}

/// The content of a [`WatchEvent`].
pub enum WatchEventView {
    Deleted(Seq<char>),
    Other,
    Closed,
    Failed(KubeErrorView),
}

impl View for WatchEvent {
    type V = WatchEventView;

    open spec fn view(&self) -> WatchEventView {
        match self {
            WatchEvent::Deleted(name) => WatchEventView::Deleted(name@),
            WatchEvent::Other => WatchEventView::Other,
            WatchEvent::Closed => WatchEventView::Closed,
            WatchEvent::Failed(e) => WatchEventView::Failed(e@),
        }
    }
}

/// Where a client stands with a lock.
pub enum LockView {
    /// It is about to try to create the lock object.
    Creating,
    /// The lock object was there; it watches for its deletion.
    Watching,
    /// It has created the lock object and holds the lock.
    Held,
    /// It has deleted the lock object.
    Released,
    /// It has given up on a failure.
    Failed(KubeErrorView),
}

/// The client after the store answered its attempt to create the lock
/// object: it holds the lock if the object was created, waits if the object
/// was there already, and gives up on any other failure.
pub open spec fn after_create(state: LockView, outcome: Result<(), KubeErrorView>) -> LockView {
    match state {
        LockView::Creating => match outcome {
            Ok(()) => LockView::Held,
            Err(e) => if e.is_already_exists() {
                LockView::Watching
            } else {
                LockView::Failed(e)
            },
        },
        _ => state,
    }
}

/// The client after its watch told something: it tries again when the lock
/// object of its name was deleted or the watch has ended, goes on watching
/// on anything else, and gives up when the watch fails.
pub open spec fn after_watch(state: LockView, name: Seq<char>, event: WatchEventView) -> LockView {
    match state {
        LockView::Watching => match event {
            WatchEventView::Deleted(deleted) => if deleted == name {
                LockView::Creating
            } else {
                LockView::Watching
            },
            WatchEventView::Other => LockView::Watching,
            WatchEventView::Closed => LockView::Creating,
            WatchEventView::Failed(e) => LockView::Failed(e),
        },
        _ => state,
    }
}

/// The client after the store answered its deletion of the lock object: the
/// lock is released if the object was deleted, and still held if not.
pub open spec fn after_delete(state: LockView, outcome: Result<(), KubeErrorView>) -> LockView {
    match state {
        LockView::Held => match outcome {
            Ok(()) => LockView::Released,
            Err(_) => LockView::Held,
        },
        _ => state,
    }
}

/// The lock object of a name, made of a value to start from: it gets the
/// name and the label that says it is a lock.
pub open spec fn lock_object(name: Seq<char>, lock_value: ConfigMapView) -> ConfigMapView {
    ConfigMapView {
        metadata: ObjectMetaView {
            name: Some(name),
            labels: lock_value.metadata.labels.insert(TYPE_KEY@, ObjectType::Lock.text()),
            ..lock_value.metadata
        },
        ..lock_value
    }
}

/// The selector of the lock objects: the label that says an object is a
/// lock.
pub open spec fn lock_selector() -> Seq<char> {
    crate::k8s::labels::selector_of(
        sorted_entries::<String, Seq<char>>(
            Map::<Seq<char>, Seq<char>>::empty().insert(TYPE_KEY@, ObjectType::Lock.text()),
        ),
    )
}

/// What a client has to ask of the store next.
#[derive(Debug)]
pub enum LockCommand {
    /// Create this object.
    Create(ConfigMap),
    /// Watch the objects that these parameters select, from the start.
    Watch(ListParams),
    /// Nothing: the lock is held, released or given up.
    Nothing,
}

/// A client's handle on the lock of a release. It says what to ask of the
/// store and takes the answers; the lock is held from the answer that the
/// lock object was created until the answer that it was deleted.
#[derive(Debug)]
pub struct Lock {
    name: String,
    lock_value: ConfigMap,
    watching: bool,
    held: bool,
    deleted: bool,
    failure: Option<KubeError>,
}

impl View for Lock {
    type V = LockView;

    closed spec fn view(&self) -> LockView {
        match self.failure {
            Some(e) => LockView::Failed(e@),
            None => if self.deleted {
                LockView::Released
            } else if self.held {
                LockView::Held
            } else if self.watching {
                LockView::Watching
            } else {
                LockView::Creating
            },
        }
    }
}

impl Lock {
    /// The name of the lock object.
    pub closed spec fn name_spec(&self) -> Seq<char> {
        self.name@
    }

    /// The lock object that is created.
    pub closed spec fn object_spec(&self) -> ConfigMapView {
        self.lock_value@
    }

    /// A handle on the lock of a name, about to try for it.
    pub fn new(name: String) -> (r: Lock)
        ensures
            r@ == LockView::Creating,
            r.name_spec() == name@,
            r.object_spec() == lock_object(name@, crate::objects::empty_config_map()),
    {
        Lock::new_with(name, ConfigMap::default())
    }

    /// A handle on the lock of a name whose lock object is made of
    /// `lock_value`.
    pub fn new_with(name: String, lock_value: ConfigMap) -> (r: Lock)
        ensures
            r@ == LockView::Creating,
            r.name_spec() == name@,
            r.object_spec() == lock_object(name@, lock_value@),
    {
        let ghost given = lock_value@;
        let mut lock_value = lock_value;
        lock_value.metadata.name = Some(name.clone());
        Labels::new().add(ObjectType::Lock).apply_to(&mut lock_value);
        assert(lock_value@.metadata.labels =~= lock_object(name@, given).metadata.labels);
        Lock { name, lock_value, watching: false, held: false, deleted: false, failure: None }
    }

    /// The name of the lock object.
    pub fn name(&self) -> (r: &String)
        ensures
            r@ == self.name_spec(),
    {
        &self.name
    }

    /// What selects the lock objects to watch: the label that says an
    /// object is a lock, for ten seconds.
    pub fn watch_params() -> (r: ListParams)
        ensures
            r.timeout == Some(WATCH_TIMEOUT),
            r.label_selector is Some,
            r.label_selector->Some_0@ == lock_selector(),
    {
        Labels::new().add(ObjectType::Lock).to_listparams().timeout(WATCH_TIMEOUT)
    }

    /// What to ask of the store next: to create the lock object, to watch
    /// for its deletion, or nothing.
    pub fn command(&self) -> (r: LockCommand)
        ensures
            match self@ {
                LockView::Creating => r matches LockCommand::Create(object) && object@
                    == self.object_spec(),
                LockView::Watching => r matches LockCommand::Watch(params) && params.timeout
                    == Some(WATCH_TIMEOUT) && params.label_selector is Some
                    && params.label_selector->Some_0@ == lock_selector(),
                _ => r is Nothing,
            },
    {
        if self.failure.is_some() || self.deleted || self.held {
            LockCommand::Nothing
        } else if self.watching {
            LockCommand::Watch(Lock::watch_params())
        } else {
            LockCommand::Create(self.lock_value.duplicate())
        }
    }

    /// Tells whether the lock is held.
    pub fn is_held(&self) -> (r: bool)
        ensures
            r == (self@ is Held),
    {
        self.failure.is_none() && !self.deleted && self.held
    }

    /// The failure on which the client gave up, if it has.
    pub fn failure(&self) -> (r: Option<KubeError>)
        ensures
            match self@ {
                LockView::Failed(e) => r is Some && r->Some_0@ == e,
                _ => r is None,
            },
    {
        match &self.failure {
            Some(e) => Some(e.duplicate()),
            None => None,
        }
    }

    /// Takes the store's answer to the attempt to create the lock object.
    pub fn created(self, outcome: Result<(), KubeError>) -> (r: Lock)
        ensures
            r@ == after_create(self@, outcome_view(outcome)),
            r.name_spec() == self.name_spec(),
            r.object_spec() == self.object_spec(),
    {
        if self.failure.is_some() || self.deleted || self.held || self.watching {
            return self;
        }
        match outcome {
            Ok(()) => Lock { held: true, ..self },
            Err(e) => if e.is_already_exists() {
                Lock { watching: true, ..self }
            } else {
                Lock { failure: Some(e), ..self }
            },
        }
    }

    /// Takes what the watch tells.
    pub fn watched(self, event: WatchEvent) -> (r: Lock)
        ensures
            r@ == after_watch(self@, self.name_spec(), event@),
            r.name_spec() == self.name_spec(),
            r.object_spec() == self.object_spec(),
    {
        if self.failure.is_some() || self.deleted || self.held || !self.watching {
            return self;
        }
        match event {
            WatchEvent::Deleted(deleted) => if same_text(deleted.as_str(), self.name.as_str()) {
                Lock { watching: false, ..self }
            } else {
                self
            },
            WatchEvent::Other => self,
            WatchEvent::Closed => Lock { watching: false, ..self },
            WatchEvent::Failed(e) => Lock { failure: Some(e), ..self },
        }
    }

    /// Takes the store's answer to the deletion of the lock object, and
    /// hands the failure on if it was not deleted.
    pub fn release(self, outcome: Result<(), KubeError>) -> (r: (Lock, Result<(), KubeError>))
        ensures
            r.0@ == after_delete(self@, outcome_view(outcome)),
            r.0.name_spec() == self.name_spec(),
            r.0.object_spec() == self.object_spec(),
            outcome_view(r.1) == outcome_view(outcome),
    {
        if self.failure.is_some() || self.deleted || !self.held {
            return (self, outcome);
        }
        match outcome {
            Ok(()) => (Lock { deleted: true, ..self }, Ok(())),
            Err(e) => (self, Err(e)),
        }
    }

    /// Tells whether the lock object has to be deleted when the handle is
    /// given up: it has, unless it was never created or was deleted
    /// already. A failure of that deletion is not handed on.
    pub fn needs_delete(&self) -> (r: bool)
        ensures
            r == (self@ is Held),
    {
        self.is_held()
    }
}

/// The names of the lock objects that the store holds.
pub type LockStore = Set<Seq<char>>;

/// The answer of a store that lets each name be created only once.
pub open spec fn store_create(store: LockStore, name: Seq<char>) -> (LockStore, Result<
    (),
    KubeErrorView,
>) {
    if store.contains(name) {
        (
            store,
            Err(
                KubeErrorView::Api {
                    code: 409,
                    reason: "AlreadyExists"@,
                    message: Seq::empty(),
                },
            ),
        )
    } else {
        (store.insert(name), Ok(()))
    }
}

/// Two clients that try for the lock of one name, with the store.
pub struct Contest {
    pub name: Seq<char>,
    pub store: LockStore,
    pub first: LockView,
    pub second: LockView,
}

/// One client makes one move: it asks the store to create the lock object,
/// hears something of its watch, or deletes the lock object it holds.
pub open spec fn moved(
    name: Seq<char>,
    store: LockStore,
    client: LockView,
    event: WatchEventView,
) -> (LockStore, LockView) {
    match client {
        LockView::Creating => {
            let (store, outcome) = store_create(store, name);
            (store, after_create(client, outcome))
        },
        LockView::Watching => (store, after_watch(client, name, event)),
        LockView::Held => (store.remove(name), after_delete(client, Ok(()))),
        _ => (store, client),
    }
}

/// A step of the contest: one of the two clients makes a move.
pub open spec fn contest_step(before: Contest, after: Contest) -> bool {
    &&& after.name == before.name
    &&& exists|event: WatchEventView|
        {
            ||| (after.store, after.first) == moved(
                before.name,
                before.store,
                before.first,
                event,
            ) && after.second == before.second
            ||| (after.store, after.second) == moved(
                before.name,
                before.store,
                before.second,
                event,
            ) && after.first == before.first
        }
}

/// The lock object is there exactly while one client holds the lock, and
/// the two never hold it together.
pub open spec fn exclusive(contest: Contest) -> bool {
    &&& !(contest.first is Held && contest.second is Held)
    &&& contest.store.contains(contest.name) <==> (contest.first is Held || contest.second
        is Held)
}

/// Two clients never hold the lock of one name together: where the store
/// has no lock object and both are about to try, that holds, and every
/// move of either client keeps it.
pub proof fn lemma_mutual_exclusion(before: Contest, after: Contest)
    requires
        contest_step(before, after),
        exclusive(before),
    ensures
        exclusive(after),
        !(after.first is Held && after.second is Held),
{
}

/// At the start of the contest nobody holds the lock.
pub proof fn lemma_contest_start(name: Seq<char>, store: LockStore)
    requires
        !store.contains(name),
    ensures
        exclusive(
            Contest { name, store, first: LockView::Creating, second: LockView::Creating },
        ),
{
}

/// While one client holds the lock, the attempt of the other to create the
/// lock object is refused, and it waits; it is not refused once the holder
/// has released.
pub proof fn lemma_second_waits(contest: Contest)
    requires
        exclusive(contest),
        contest.second is Creating,
    ensures
        contest.first is Held ==> moved(
            contest.name,
            contest.store,
            contest.second,
            WatchEventView::Other,
        ).1 is Watching,
        !(contest.first is Held) ==> moved(
            contest.name,
            contest.store,
            contest.second,
            WatchEventView::Other,
        ).1 is Held,
{
}

} // verus!
