use kube_release::identifier::Identifier;
use kube_release::json::Value;
use kube_release::k8s::api_resource::{ApiResource, TypeMeta};
use kube_release::k8s::lock::{Lock, LockCommand, WatchEvent, WATCH_TIMEOUT};
use kube_release::k8s::transaction::{Action, KubeError, Status};
use kube_release::k8s::{RELEASE_KEY, TYPE_KEY, VERSION_KEY};
use kube_release::manager::{
    Command, DeployResult, Deployment, Error, Event, Manager, NamespaceMode, ReleaseState,
    ReleaseStateError, ReleaseStateObjects, VerificationError, STATE_KEY,
};
use kube_release::meta::CRATE_VERSION;
use kube_release::objects::{ConfigMap, DynamicObject, Object, ObjectMeta, Objects};
use kube_release::release::plan::ReleasePlan;
use kube_release::release::verify::{find_release_objects, release_list_params};
use kube_release::release::{Error as ReleaseError, Release};
use std::collections::BTreeSet;

fn man_object(kind: &str, name: &str, image: Option<&str>) -> Object {
    let mut metadata = ObjectMeta::new();
    metadata.name = Some(name.to_string());
    let data = match image {
        Some(image) => Value::Object(vec![(
            "spec".to_string(),
            Value::Object(vec![("image".to_string(), Value::String(image.to_string()))]),
        )]),
        None => Value::Object(vec![]),
    };
    Object::try_from_dynamic_object(DynamicObject {
        types: Some(TypeMeta { api_version: "v1".to_string(), kind: kind.to_string() }),
        metadata,
        data,
    })
    .unwrap()
}

fn man_id(object: &Object) -> Identifier {
    Identifier::from_api_resource(object.name().unwrap().clone(), &object.api_resource)
}

fn man_objects(objects: Vec<Object>) -> Objects {
    let mut set = Objects::empty();
    for object in objects {
        set.insert(man_id(&object), object);
    }
    set
}

fn man_release(name: &str, objects: Vec<Object>) -> Release {
    Release::from_objects(name.to_string(), man_objects(objects))
}

fn man_refusal(code: u16, reason: &str) -> KubeError {
    KubeError::Api(Status { code, reason: reason.to_string(), message: String::new() })
}

fn man_keys(objects: &Objects) -> Vec<String> {
    objects.iter().iter().map(|(id, _)| format!("{}/{}", id.kind(), id.name())).collect()
}

/// Drives a deployment against answers that always succeed, except where told.
struct ManWorld {
    state: Option<ReleaseState>,
    store: BTreeSet<String>,
    log: Vec<String>,
    fail_step: Option<(Action, String)>,
    fail_persist: bool,
    fail_unlock: bool,
}

impl ManWorld {
    fn new() -> Self {
        ManWorld {
            state: None,
            store: BTreeSet::new(),
            log: Vec::new(),
            fail_step: None,
            fail_persist: false,
            fail_unlock: false,
        }
    }

    fn answer(&mut self, command: Command) -> Option<Event> {
        match command {
            Command::Lock { name } => {
                self.log.push(format!("lock {}", name));
                Some(Event::Locked(Ok(())))
            }
            Command::Load { name } => {
                self.log.push(format!("load {}", name));
                Some(Event::Loaded(Ok(self.state.clone())))
            }
            Command::Perform(request) => {
                let key = format!("{}/{}", request.api_resource.kind, request.name);
                self.log.push(format!("{:?} {}", request.action, key));
                if self.fail_step == Some((request.action, key.clone())) {
                    return Some(Event::Performed(Err(KubeError::Other("boom".to_string()))));
                }
                match request.action {
                    Action::Create | Action::Apply => {
                        self.store.insert(key);
                    }
                    Action::Delete => {
                        self.store.remove(&key);
                    }
                }
                Some(Event::Performed(Ok(())))
            }
            Command::Persist { name, state } => {
                self.log.push(format!("persist {}", name));
                if self.fail_persist {
                    return Some(Event::Persisted(Err(ReleaseStateError::JSONError("no".to_string()))));
                }
                self.state = Some(state);
                Some(Event::Persisted(Ok(())))
            }
            Command::Forget { name } => {
                self.log.push(format!("forget {}", name));
                self.state = None;
                Some(Event::Forgotten(Ok(())))
            }
            Command::Unlock { name } => {
                self.log.push(format!("unlock {}", name));
                if self.fail_unlock {
                    return Some(Event::Unlocked(Err(KubeError::Other("stuck".to_string()))));
                }
                Some(Event::Unlocked(Ok(())))
            }
            Command::Done => None,
        }
    }

    fn deploy(&mut self, release: &Release) -> Result<DeployResult, Error> {
        let manager = Manager::new(NamespaceMode::Default);
        let mut deployment: Deployment = manager.deploy(release);
        assert!(deployment.result().is_none());
        while let Some(event) = self.answer(deployment.command()) {
            deployment = deployment.handle(event);
        }
        deployment.result().unwrap()
    }
}

#[test]
fn namespace_mode_follows_the_given_namespace() {
    assert!(matches!(NamespaceMode::new(None), NamespaceMode::Default));
    assert!(matches!(NamespaceMode::new(Some("ns".to_string())), NamespaceMode::Specific(ns) if ns == "ns"));
    assert!(matches!(NamespaceMode::new(Some(String::new())), NamespaceMode::Specific(ns) if ns.is_empty()));
    assert!(matches!(NamespaceMode::new(Some("a".to_string())).clone(), NamespaceMode::Specific(ns) if ns == "a"));
    assert_eq!(Manager::new(NamespaceMode::new(Some("x".to_string()))).specific_namespace(), Some(&"x".to_string()));
    assert_eq!(Manager::new(NamespaceMode::Default).specific_namespace(), None);
}

#[test]
fn lock_is_held_once_the_object_is_created() {
    let lock = Lock::new("r-lock".to_string());
    assert!(!lock.is_held());
    match lock.command() {
        LockCommand::Create(object) => {
            assert_eq!(object.metadata.name, Some("r-lock".to_string()));
            assert_eq!(object.metadata.labels.get(&TYPE_KEY.to_string()), Some(&"lock".to_string()));
            assert_eq!(object.metadata.labels.len(), 1);
            assert_eq!(object.data.len(), 0);
        }
        other => panic!("{:?}", other),
    }
    let lock = lock.created(Ok(()));
    assert!(lock.is_held());
    assert!(lock.needs_delete());
    assert!(matches!(lock.command(), LockCommand::Nothing));
    let (lock, outcome) = lock.release(Err(KubeError::Other("x".to_string())));
    assert!(outcome.is_err());
    assert!(lock.is_held());
    let (lock, outcome) = lock.release(Ok(()));
    assert!(outcome.is_ok());
    assert!(!lock.is_held());
    assert!(!lock.needs_delete());
    assert!(matches!(lock.command(), LockCommand::Nothing));
    assert!(!lock.created(Ok(())).is_held());
}

#[test]
fn lock_waits_for_the_deletion_of_its_name() {
    let mut custom = ConfigMap::default();
    custom.metadata.labels.insert("keep".to_string(), "me".to_string());
    custom.data.insert("k".to_string(), "v".to_string());
    let lock = Lock::new_with("r-lock".to_string(), custom);
    match lock.command() {
        LockCommand::Create(object) => {
            assert_eq!(object.metadata.labels.len(), 2);
            assert_eq!(object.data.len(), 1);
        }
        other => panic!("{:?}", other),
    }
    let lock = lock.created(Err(man_refusal(409, "AlreadyExists")));
    assert!(!lock.is_held());
    assert!(!lock.needs_delete());
    match lock.command() {
        LockCommand::Watch(params) => {
            assert_eq!(params.timeout, Some(WATCH_TIMEOUT));
            assert_eq!(params.timeout, Some(10));
            assert_eq!(params.label_selector, Some("kube-release/type=lock".to_string()));
        }
        other => panic!("{:?}", other),
    }
    let lock = lock.watched(WatchEvent::Other);
    assert!(matches!(lock.command(), LockCommand::Watch(_)));
    let lock = lock.watched(WatchEvent::Deleted("other-lock".to_string()));
    assert!(matches!(lock.command(), LockCommand::Watch(_)));
    let lock = lock.watched(WatchEvent::Deleted("r-lock".to_string()));
    assert!(matches!(lock.command(), LockCommand::Create(_)));
    let lock = lock.created(Err(man_refusal(409, "AlreadyExists")));
    let lock = lock.watched(WatchEvent::Closed);
    assert!(matches!(lock.command(), LockCommand::Create(_)));
    let lock = lock.watched(WatchEvent::Closed);
    assert!(matches!(lock.command(), LockCommand::Create(_)));
    assert!(lock.created(Ok(())).is_held());
}

#[test]
fn lock_gives_up_on_other_failures() {
    let lock = Lock::new("r-lock".to_string()).created(Err(man_refusal(403, "Forbidden")));
    assert!(matches!(lock.command(), LockCommand::Nothing));
    assert!(matches!(lock.failure(), Some(KubeError::Api(status)) if status.code == 403));
    assert!(!lock.needs_delete());
    let lock = Lock::new("r-lock".to_string()).created(Err(man_refusal(409, "Conflict")));
    assert!(lock.failure().is_some());
    let lock = Lock::new("r-lock".to_string())
        .created(Err(man_refusal(409, "AlreadyExists")))
        .watched(WatchEvent::Failed(KubeError::Other("stream broke".to_string())));
    assert!(matches!(lock.failure(), Some(KubeError::Other(message)) if message == "stream broke"));
    assert!(Lock::new("r-lock".to_string()).failure().is_none());
    assert_eq!(Lock::watch_params().timeout, Some(10));
}

#[test]
fn two_clients_never_hold_one_lock() {
    let mut store: BTreeSet<String> = BTreeSet::new();
    let create = |store: &mut BTreeSet<String>, lock: Lock| {
        let outcome = if store.insert(lock.name().clone()) {
            Ok(())
        } else {
            Err(man_refusal(409, "AlreadyExists"))
        };
        lock.created(outcome)
    };
    let first = create(&mut store, Lock::new("r-lock".to_string()));
    let second = create(&mut store, Lock::new("r-lock".to_string()));
    assert!(first.is_held());
    assert!(!second.is_held());
    assert!(matches!(second.command(), LockCommand::Watch(_)));
    let second = second.watched(WatchEvent::Closed);
    let second = create(&mut store, second);
    assert!(!second.is_held());
    store.remove(first.name());
    let (first, _) = first.release(Ok(()));
    let second = second.watched(WatchEvent::Deleted("r-lock".to_string()));
    let second = create(&mut store, second);
    assert!(second.is_held());
    assert!(!first.is_held());
}

#[test]
fn deploy_installs_then_leaves_unchanged() {
    let release = man_release("r1", vec![man_object("Pod", "a", Some("v1")), man_object("Service", "s", None)]);
    let mut world = ManWorld::new();
    match world.deploy(&release) {
        Ok(DeployResult::Installed { plan }) => {
            assert_eq!(plan.creations.len(), 2);
            assert!(plan.upgrades.is_empty() && plan.deletions.is_empty());
        }
        other => panic!("{:?}", other),
    }
    assert_eq!(
        world.log,
        vec!["lock r1-lock", "load r1", "Create Pod/a", "Create Service/s", "persist r1", "unlock r1-lock"]
    );
    let state = world.state.clone().unwrap();
    assert_eq!(man_keys(&state.current.0), vec!["Pod/a", "Service/s"]);
    assert!(state.history.is_empty());
    assert_eq!(format!("{:?}", state.current.0.object_at(0)), format!("{:?}", man_object("Pod", "a", Some("v1"))));

    world.log.clear();
    assert!(matches!(world.deploy(&release), Ok(DeployResult::Unchanged)));
    assert_eq!(world.log, vec!["lock r1-lock", "load r1", "unlock r1-lock"]);
    assert!(world.state.clone().unwrap().history.is_empty());
    assert_eq!(world.store.len(), 2);
}

#[test]
fn deploy_upgrades_and_records_history() {
    let first = man_release("r1", vec![man_object("Pod", "a", Some("v1")), man_object("Service", "s", None)]);
    let second = man_release("r1", vec![man_object("Pod", "a", Some("v2")), man_object("ConfigMap", "c", None)]);
    let mut world = ManWorld::new();
    world.deploy(&first).unwrap();
    world.log.clear();
    match world.deploy(&second) {
        Ok(DeployResult::Upgraded { plan }) => {
            assert_eq!(plan.creations.len(), 1);
            assert_eq!(plan.upgrades.len(), 1);
            assert_eq!(plan.deletions.len(), 1);
        }
        other => panic!("{:?}", other),
    }
    assert_eq!(
        world.log,
        vec![
            "lock r1-lock",
            "load r1",
            "Create ConfigMap/c",
            "Apply Pod/a",
            "Delete Service/s",
            "persist r1",
            "unlock r1-lock"
        ]
    );
    let state = world.state.clone().unwrap();
    assert_eq!(man_keys(&state.current.0), vec!["ConfigMap/c", "Pod/a"]);
    assert_eq!(state.history.len(), 1);
    assert_eq!(man_keys(&state.history[0].0), vec!["Pod/a", "Service/s"]);
    assert_eq!(world.store.iter().cloned().collect::<Vec<_>>(), vec!["ConfigMap/c", "Pod/a"]);

    let third = man_release("r1", vec![man_object("Pod", "a", Some("v3"))]);
    world.deploy(&third).unwrap();
    let state = world.state.clone().unwrap();
    assert_eq!(state.history.len(), 2);
    assert_eq!(man_keys(&state.history[0].0), vec!["ConfigMap/c", "Pod/a"]);
    assert_eq!(man_keys(&state.history[1].0), vec!["Pod/a", "Service/s"]);
}

#[test]
fn deploy_failure_rolls_back_and_keeps_the_state() {
    let first = man_release("r1", vec![man_object("Pod", "a", Some("v1")), man_object("Service", "s", None)]);
    let second = man_release("r1", vec![man_object("Pod", "a", Some("v2")), man_object("ConfigMap", "c", None)]);
    let mut world = ManWorld::new();
    world.deploy(&first).unwrap();
    let before = world.store.clone();
    world.log.clear();
    world.fail_step = Some((Action::Delete, "Service/s".to_string()));
    match world.deploy(&second) {
        Err(Error::ReleaseError { state, error }) => {
            assert_eq!(man_keys(&state.current.0), vec!["Pod/a", "Service/s"]);
            assert!(state.history.is_empty());
            assert!(matches!(*error, ReleaseError::ReleaseError { .. }));
        }
        other => panic!("{:?}", other),
    }
    assert_eq!(
        world.log,
        vec![
            "lock r1-lock",
            "load r1",
            "Create ConfigMap/c",
            "Apply Pod/a",
            "Delete Service/s",
            "Apply Pod/a",
            "Delete ConfigMap/c",
            "unlock r1-lock"
        ]
    );
    assert_eq!(world.store, before);
    assert!(world.state.clone().unwrap().history.is_empty());

    let mut fresh = ManWorld::new();
    fresh.fail_step = Some((Action::Create, "Service/s".to_string()));
    match fresh.deploy(&first) {
        Err(Error::ReleaseError { state, .. }) => {
            assert_eq!(man_keys(&state.current.0), vec!["Pod/a", "Service/s"])
        }
        other => panic!("{:?}", other),
    }
    assert!(fresh.store.is_empty());
    assert!(fresh.state.is_none());
}

#[test]
fn deploy_undoes_the_plan_when_the_state_cannot_be_written() {
    let release = man_release("r1", vec![man_object("Pod", "a", None), man_object("Pod", "b", None)]);
    let mut world = ManWorld::new();
    world.fail_persist = true;
    match world.deploy(&release) {
        Err(Error::ReleaseStateError(error)) => {
            assert!(matches!(*error, ReleaseStateError::JSONError(message) if message == "no"))
        }
        other => panic!("{:?}", other),
    }
    assert_eq!(
        world.log,
        vec![
            "lock r1-lock",
            "load r1",
            "Create Pod/a",
            "Create Pod/b",
            "persist r1",
            "Delete Pod/a",
            "Delete Pod/b",
            "unlock r1-lock"
        ]
    );
    assert!(world.store.is_empty());

    let mut world = ManWorld::new();
    world.fail_persist = true;
    world.fail_step = Some((Action::Delete, "Pod/b".to_string()));
    match world.deploy(&release) {
        Err(Error::UndoError { cause, state, error }) => {
            assert!(matches!(*cause, ReleaseStateError::JSONError(message) if message == "no"));
            assert_eq!(state.current.0.len(), 2);
            assert!(matches!(*error, ReleaseError::ReleaseError { .. }));
        }
        other => panic!("{:?}", other),
    }
    assert_eq!(
        world.log,
        vec![
            "lock r1-lock",
            "load r1",
            "Create Pod/a",
            "Create Pod/b",
            "persist r1",
            "Delete Pod/a",
            "Delete Pod/b",
            "Create Pod/a",
            "unlock r1-lock"
        ]
    );
    assert!(world.state.is_none());
}

#[test]
fn deploy_surfaces_failures_of_lock_state_and_unlock() {
    let release = man_release("r1", vec![man_object("Pod", "a", None)]);
    let manager = Manager::new(NamespaceMode::Default);
    let deployment = manager.deploy(&release).handle(Event::Locked(Err(man_refusal(403, "Forbidden"))));
    assert!(matches!(deployment.command(), Command::Done));
    assert!(matches!(deployment.result(), Some(Err(Error::KubeError(KubeError::Api(status)))) if status.code == 403));

    let deployment = manager
        .deploy(&release)
        .handle(Event::Performed(Ok(())))
        .handle(Event::Locked(Ok(())))
        .handle(Event::Unlocked(Ok(())))
        .handle(Event::Loaded(Err(ReleaseStateError::JSONError("bad".to_string()))));
    assert!(matches!(deployment.command(), Command::Unlock { name } if name == "r1-lock"));
    let deployment = deployment.handle(Event::Unlocked(Err(KubeError::Other("stuck".to_string()))));
    assert!(matches!(
        deployment.result(),
        Some(Err(Error::ReleaseStateError(error))) if matches!(*error, ReleaseStateError::JSONError(_))
    ));

    let mut world = ManWorld::new();
    world.fail_unlock = true;
    assert!(matches!(world.deploy(&release), Err(Error::KubeError(KubeError::Other(message))) if message == "stuck"));
    assert!(world.state.is_some());
    world.log.clear();
    assert!(matches!(world.deploy(&release), Ok(DeployResult::Unchanged)));
}

#[test]
fn delete_removes_every_object_and_the_record() {
    let release = man_release("r1", vec![man_object("Pod", "a", None), man_object("Service", "s", None)]);
    let mut world = ManWorld::new();
    world.deploy(&release).unwrap();
    world.log.clear();
    let manager = Manager::new(NamespaceMode::Default);
    let mut deletion = manager.delete("r1".to_string());
    assert!(deletion.result().is_none());
    while let Some(event) = world.answer(deletion.command()) {
        deletion = deletion.handle(event);
    }
    match deletion.result() {
        Some(Ok(Some(plan))) => {
            assert_eq!(plan.deletions.len(), 2);
            assert!(plan.creations.is_empty() && plan.upgrades.is_empty());
        }
        other => panic!("{:?}", other),
    }
    assert_eq!(world.log, vec!["load r1", "Delete Pod/a", "Delete Service/s", "forget r1"]);
    assert!(world.store.is_empty());
    assert!(world.state.is_none());

    let mut deletion = manager.delete("r1".to_string());
    while let Some(event) = world.answer(deletion.command()) {
        deletion = deletion.handle(event);
    }
    assert!(matches!(deletion.result(), Some(Ok(None))));
}

#[test]
fn delete_surfaces_failures() {
    let release = man_release("r1", vec![man_object("Pod", "a", None), man_object("Service", "s", None)]);
    let mut world = ManWorld::new();
    world.deploy(&release).unwrap();
    world.fail_step = Some((Action::Delete, "Service/s".to_string()));
    let manager = Manager::new(NamespaceMode::Default);
    let mut deletion = manager.delete("r1".to_string());
    while let Some(event) = world.answer(deletion.command()) {
        deletion = deletion.handle(event);
    }
    assert!(matches!(deletion.result(), Some(Err(Error::ReleaseError { .. }))));
    assert_eq!(world.store.len(), 2);
    assert!(world.state.is_some());

    let failed = manager
        .delete("r1".to_string())
        .handle(Event::Loaded(Err(ReleaseStateError::KubeError(KubeError::Other("x".to_string())))));
    assert!(matches!(failed.result(), Some(Err(Error::ReleaseStateError(_)))));
    let empty_state = ReleaseState::new(Objects::empty());
    let deletion = manager.delete("r1".to_string()).handle(Event::Loaded(Ok(Some(empty_state))));
    assert!(matches!(deletion.command(), Command::Forget { name } if name == "r1"));
    let deletion = deletion.handle(Event::Forgotten(Err(man_refusal(500, "InternalError"))));
    assert!(matches!(deletion.result(), Some(Err(Error::KubeError(_)))));
}

#[test]
fn release_state_is_read_from_its_record() {
    let record = ReleaseState::apply("r1", "{\"current\":[]}".to_string());
    assert_eq!(record.metadata.name, Some("r1".to_string()));
    assert_eq!(record.metadata.labels.get(&TYPE_KEY.to_string()), Some(&"release-state".to_string()));
    assert_eq!(record.metadata.labels.get(&RELEASE_KEY.to_string()), Some(&"r1".to_string()));
    assert_eq!(record.metadata.labels.len(), 2);
    assert_eq!(record.metadata.annotations.get(&VERSION_KEY.to_string()), Some(&CRATE_VERSION.to_string()));
    assert_eq!(record.data.get(&STATE_KEY.to_string()), Some(&"{\"current\":[]}".to_string()));
    assert_eq!(STATE_KEY, "release_state");
    assert_eq!(ReleaseState::patch_params().field_manager, "kube-release");
    assert!(ReleaseState::patch_params().force);
    assert_eq!(record.data.len(), 1);
    assert_eq!(ReleaseState::to_config_map("r1", "x".to_string()).metadata.name, None);

    assert_eq!(ReleaseState::from_config_map(&record).unwrap(), "{\"current\":[]}");
    assert!(matches!(ReleaseState::get(Ok(record)), Ok(Some(text)) if text == "{\"current\":[]}"));
    assert!(matches!(ReleaseState::get(Err(man_refusal(404, "NotFound"))), Ok(None)));
    assert!(matches!(
        ReleaseState::get(Err(man_refusal(404, "Gone"))),
        Err(ReleaseStateError::KubeError(_))
    ));
    assert!(matches!(
        ReleaseState::get(Err(man_refusal(500, "NotFound"))),
        Err(ReleaseStateError::KubeError(_))
    ));
    assert!(matches!(
        ReleaseState::get(Err(KubeError::Other("down".to_string()))),
        Err(ReleaseStateError::KubeError(KubeError::Other(_)))
    ));
    let mut corrupt = ConfigMap::default();
    corrupt.data.insert("other".to_string(), "x".to_string());
    assert!(matches!(
        ReleaseState::get(Ok(corrupt.clone())),
        Err(ReleaseStateError::CorruptReleaseState(record)) if record.data.len() == 1
    ));
    assert!(matches!(
        ReleaseState::from_config_map(&corrupt),
        Err(ReleaseStateError::CorruptReleaseState(_))
    ));
    assert!(matches!(
        ReleaseState::decoded(corrupt.clone(), None),
        Err(ReleaseStateError::CorruptReleaseState(record)) if record.data.len() == 1
    ));
    assert!(matches!(
        ReleaseState::decoded(corrupt, Some(ReleaseState::new(Objects::empty()))),
        Ok(state) if state.history.is_empty()
    ));
}

#[test]
fn release_state_keeps_history_latest_first() {
    let state = ReleaseState::new(man_objects(vec![man_object("Pod", "a", None)]));
    assert!(state.history.is_empty());
    let state = state.upgraded(man_objects(vec![man_object("Pod", "b", None)]));
    let state = state.upgraded(man_objects(vec![man_object("Pod", "c", None)]));
    assert_eq!(man_keys(&state.current.0), vec!["Pod/c"]);
    assert_eq!(man_keys(&state.history[0].0), vec!["Pod/b"]);
    assert_eq!(man_keys(&state.history[1].0), vec!["Pod/a"]);
    let copy = state.clone();
    assert_eq!(copy.history.len(), 2);
    assert_eq!(ReleaseStateObjects(Objects::empty()).clone().0.len(), 0);
}

fn man_live(name: &str, objects: Vec<Object>) -> Objects {
    man_objects(objects.into_iter().map(|o| ReleasePlan::tag_object(name.to_string(), o)).collect())
}

#[test]
fn verify_accepts_what_was_deployed() {
    let manager = Manager::new(NamespaceMode::Default);
    let desired = vec![man_object("Pod", "a", Some("v1")), man_object("Service", "s", None)];
    let state = ReleaseState::new(man_objects(desired.clone()));
    let mut live = man_live("r1", desired);
    let mut defaulted = ReleasePlan::tag_object("r1".to_string(), man_object("Pod", "a", Some("v1")));
    defaulted.dyn_object.data = Value::Object(vec![
        ("status".to_string(), Value::String("Running".to_string())),
        (
            "spec".to_string(),
            Value::Object(vec![
                ("image".to_string(), Value::String("v1".to_string())),
                ("restartPolicy".to_string(), Value::String("Always".to_string())),
            ]),
        ),
    ]);
    defaulted.dyn_object.metadata.labels.insert("added".to_string(), "by-cluster".to_string());
    live.insert(man_id(&defaulted), defaulted);
    live.insert(man_id(&man_object("Pod", "extra", None)), man_object("Pod", "extra", None));
    assert!(manager.verify("r1".to_string(), Some(state), &live).is_ok());
    assert!(matches!(
        manager.verify("r1".to_string(), None, &live),
        Err(VerificationError::NoDeployedRelease)
    ));
    assert!(manager.verify("r1".to_string(), Some(ReleaseState::new(Objects::empty())), &Objects::empty()).is_ok());
}

#[test]
fn verify_detects_drift() {
    let manager = Manager::new(NamespaceMode::Default);
    let desired = vec![man_object("Pod", "a", Some("v1")), man_object("Service", "s", None)];
    let state = ReleaseState::new(man_objects(desired.clone()));

    let mut live = man_objects(vec![ReleasePlan::tag_object("r1".to_string(), man_object("Pod", "a", Some("v1")))]);
    let mut drifted = man_object("Service", "s", None);
    drifted.dyn_object.metadata.labels.insert(TYPE_KEY.to_string(), "managed".to_string());
    drifted.dyn_object.metadata.annotations.insert(VERSION_KEY.to_string(), CRATE_VERSION.to_string());
    live.insert(man_id(&drifted), drifted);
    match manager.verify("r1".to_string(), Some(state.clone()), &live) {
        Err(VerificationError::MismatchingLabels { identifier, desired, reality }) => {
            assert_eq!((identifier.kind().as_str(), identifier.name().as_str()), ("Service", "s"));
            assert_eq!(desired.get(&RELEASE_KEY.to_string()), Some(&"r1".to_string()));
            assert_eq!(reality.get(&RELEASE_KEY.to_string()), None);
            assert_eq!(reality.len(), 1);
        }
        other => panic!("{:?}", other),
    }

    let missing = man_live("r1", vec![man_object("Service", "s", None)]);
    assert!(matches!(
        manager.verify("r1".to_string(), Some(state.clone()), &missing),
        Err(VerificationError::MissingObject(id)) if id.kind() == "Pod" && id.name() == "a"
    ));

    let mut unannotated = man_live("r1", desired.clone());
    let mut bare = man_object("Pod", "a", Some("v1"));
    bare.dyn_object.metadata.labels.insert(TYPE_KEY.to_string(), "managed".to_string());
    bare.dyn_object.metadata.labels.insert(RELEASE_KEY.to_string(), "r1".to_string());
    bare.dyn_object.metadata.annotations.insert(VERSION_KEY.to_string(), "0.0.0".to_string());
    unannotated.insert(man_id(&bare), bare);
    match manager.verify("r1".to_string(), Some(state.clone()), &unannotated) {
        Err(VerificationError::MismatchingAnnotations { identifier, desired, reality }) => {
            assert_eq!(identifier.name(), "a");
            assert_eq!(desired.get(&VERSION_KEY.to_string()), Some(&CRATE_VERSION.to_string()));
            assert_eq!(reality.get(&VERSION_KEY.to_string()), Some(&"0.0.0".to_string()));
        }
        other => panic!("{:?}", other),
    }

    let changed = man_live("r1", vec![man_object("Pod", "a", Some("v2")), man_object("Service", "s", None)]);
    match manager.verify("r1".to_string(), Some(state.clone()), &changed) {
        Err(VerificationError::MismatchingData { path }) => {
            assert_eq!(path.into_iter().collect::<Vec<_>>(), vec!["spec", "image"])
        }
        other => panic!("{:?}", other),
    }
    let other_release = man_live("r2", desired);
    assert!(matches!(
        manager.verify("r1".to_string(), Some(state), &other_release),
        Err(VerificationError::MismatchingLabels { .. })
    ));
}

#[test]
fn listed_objects_are_collected_under_their_identifiers() {
    let pods = ApiResource::from_gvk_with_plural("", "v1", "Pod", "pods");
    let services = ApiResource::from_gvk_with_plural("", "v1", "Service", "services");
    let mut nameless = man_object("Pod", "x", None).dyn_object;
    nameless.metadata.name = None;
    let listed = vec![
        (
            pods.clone(),
            vec![
                man_object("Pod", "b", None).dyn_object,
                nameless,
                man_object("Pod", "a", Some("v1")).dyn_object,
                man_object("Pod", "a", Some("v2")).dyn_object,
            ],
        ),
        (services, vec![man_object("Service", "a", None).dyn_object]),
        (pods, vec![]),
    ];
    let found = find_release_objects(&listed);
    assert_eq!(man_keys(&found), vec!["Pod/a", "Pod/b", "Service/a"]);
    assert!(format!("{:?}", found.object_at(0).dyn_object.data).contains("v2"));
    assert_eq!(found.object_at(2).api_resource.plural, "services");
    assert!(found.is_keyed());
    assert_eq!(find_release_objects(&vec![]).len(), 0);
    let params = release_list_params("r1".to_string());
    assert_eq!(
        params.label_selector,
        Some("kube-release/release=r1,kube-release/type=managed".to_string())
    );
    assert_eq!(params.timeout, None);
}
