use kube_release::hash::Hasher;
use kube_release::identifier::Identifier;
use kube_release::json::{Number, Value};
use kube_release::k8s::api_resource::{TypeMeta};
use kube_release::k8s::transaction::{
    apply, apply_object, create, create_object, delete, delete_object, request, settle, Action,
    Error as TransactionError, KubeError, Request, Status,
};
use kube_release::k8s::{RELEASE_KEY, TYPE_KEY, VERSION_KEY};
use kube_release::meta::CRATE_VERSION;
use kube_release::objects::{DynamicObject, Object, ObjectMeta, Objects};
use kube_release::release::plan::{on_err_rollback, Create, Delete, Execution, ReleasePlan, Upgrade};
use kube_release::release::rollback::{Plan, Rollbackable, Run};
use kube_release::release::{Error as ReleaseError, Release};
use std::collections::BTreeMap;

fn rel_object(kind: &str, name: &str, image: Option<&str>) -> Object {
    let mut metadata = ObjectMeta::new();
    metadata.name = Some(name.to_string());
    let data = match image {
        Some(image) => Value::Object(vec![(
            "spec".to_string(),
            Value::Object(vec![("image".to_string(), Value::String(image.to_string()))]),
        )]),
        None => Value::Object(vec![]),
    };
    Object::try_from_dynamic_object(DynamicObject {
        types: Some(TypeMeta { api_version: "v1".to_string(), kind: kind.to_string() }),
        metadata,
        data,
    })
    .unwrap()
}

fn rel_id(object: &Object) -> Identifier {
    Identifier::from_api_resource(object.name().unwrap().clone(), &object.api_resource)
}

fn rel_objects(objects: Vec<Object>) -> Objects {
    let mut set = Objects::empty();
    for object in objects {
        set.insert(rel_id(&object), object);
    }
    set
}

fn rel_names(objects: &[&Object]) -> Vec<String> {
    objects
        .iter()
        .map(|o| format!("{}/{}", o.api_resource.kind, o.name().unwrap()))
        .collect()
}

fn rel_created(plan: &ReleasePlan) -> Vec<String> {
    rel_names(&plan.creations.iter().map(|c| &c.new).collect::<Vec<_>>())
}

fn rel_upgraded(plan: &ReleasePlan) -> Vec<String> {
    rel_names(&plan.upgrades.iter().map(|u| &u.new).collect::<Vec<_>>())
}

fn rel_deleted(plan: &ReleasePlan) -> Vec<String> {
    rel_names(&plan.deletions.iter().map(|d| &d.old).collect::<Vec<_>>())
}

fn rel_is_tagged(object: &Object, release: &str) -> bool {
    let meta = &object.dyn_object.metadata;
    meta.labels.get(&TYPE_KEY.to_string()) == Some(&"managed".to_string())
        && meta.labels.get(&RELEASE_KEY.to_string()) == Some(&release.to_string())
        && meta.annotations.get(&VERSION_KEY.to_string()) == Some(&CRATE_VERSION.to_string())
}

fn rel_refusal(code: u16, reason: &str) -> KubeError {
    KubeError::Api(Status { code, reason: reason.to_string(), message: "refused".to_string() })
}

/// A store of objects by kind and name that fails the requests it is told to fail.
struct RelStore {
    objects: BTreeMap<String, String>,
    fail: Vec<(Action, String)>,
    log: Vec<String>,
}

impl RelStore {
    fn new() -> Self {
        RelStore { objects: BTreeMap::new(), fail: Vec::new(), log: Vec::new() }
    }

    fn perform(&mut self, request: &Request) -> Result<(), KubeError> {
        let key = format!("{}/{}", request.api_resource.kind, request.name);
        self.log.push(format!("{:?} {}", request.action, key));
        if self.fail.iter().any(|(a, n)| *a == request.action && *n == key) {
            return Err(KubeError::Other("boom".to_string()));
        }
        match request.action {
            Action::Create => {
                if self.objects.contains_key(&key) {
                    return Err(rel_refusal(409, "AlreadyExists"));
                }
                self.objects.insert(key, format!("{:?}", request.object));
            }
            Action::Apply => {
                self.objects.insert(key, format!("{:?}", request.object));
            }
            Action::Delete => {
                if self.objects.remove(&key).is_none() {
                    return Err(rel_refusal(404, "NotFound"));
                }
            }
        }
        Ok(())
    }

    fn run(&mut self, mut execution: Execution) -> Execution {
        while let Some(request) = execution.pending() {
            let outcome = self.perform(&request);
            execution = execution.report(outcome);
        }
        execution
    }
}

#[test]
fn fresh_install_creates_everything() {
    let desired = rel_objects(vec![rel_object("Service", "s", None), rel_object("Pod", "a", Some("v1"))]);
    let plan = ReleasePlan::new(&"r1".to_string(), &desired, &Objects::empty());
    assert_eq!(rel_created(&plan), vec!["Pod/a", "Service/s"]);
    assert!(plan.upgrades.is_empty());
    assert!(plan.deletions.is_empty());
    assert!(plan.creations.iter().all(|c| rel_is_tagged(&c.new, "r1")));

    let mut store = RelStore::new();
    let execution = store.run(plan.execute());
    assert!(matches!(execution.result(), Some(Ok(()))));
    assert_eq!(execution.done(), 2);
    assert_eq!(store.log, vec!["Create Pod/a", "Create Service/s"]);
    assert_eq!(store.objects.len(), 2);
    assert!(store.objects["Pod/a"].contains("kube-release/type"));
}

#[test]
fn upgrade_with_removal_sorts_objects_into_three_lists() {
    let previous = rel_objects(vec![rel_object("Pod", "a", Some("v1")), rel_object("Service", "s", None)]);
    let desired = rel_objects(vec![rel_object("Pod", "a", Some("v2")), rel_object("ConfigMap", "c", None)]);
    let plan = ReleasePlan::new(&"r1".to_string(), &desired, &previous);
    assert_eq!(rel_created(&plan), vec!["ConfigMap/c"]);
    assert_eq!(rel_upgraded(&plan), vec!["Pod/a"]);
    assert_eq!(rel_deleted(&plan), vec!["Service/s"]);
    let upgrade = &plan.upgrades[0];
    assert!(format!("{:?}", upgrade.new.dyn_object.data).contains("v2"));
    assert!(format!("{:?}", upgrade.old.dyn_object.data).contains("v1"));
    assert!(rel_is_tagged(&upgrade.new, "r1") && rel_is_tagged(&upgrade.old, "r1"));
    assert!(rel_is_tagged(&plan.deletions[0].old, "r1"));
    assert!(rel_is_tagged(&plan.creations[0].new, "r1"));

    let mut store = RelStore::new();
    store.run(ReleasePlan::new(&"r1".to_string(), &previous, &Objects::empty()).execute());
    store.log.clear();
    let execution = store.run(plan.execute());
    assert!(matches!(execution.result(), Some(Ok(()))));
    assert_eq!(store.log, vec!["Create ConfigMap/c", "Apply Pod/a", "Delete Service/s"]);
    assert_eq!(store.objects.keys().cloned().collect::<Vec<_>>(), vec!["ConfigMap/c", "Pod/a"]);
    assert!(store.objects["Pod/a"].contains("v2"));
}

#[test]
fn plan_divides_the_identifiers_among_its_lists() {
    let previous = rel_objects(vec![
        rel_object("Pod", "a", None),
        rel_object("Pod", "b", None),
        rel_object("Pod", "c", None),
    ]);
    let desired = rel_objects(vec![
        rel_object("Pod", "b", None),
        rel_object("Pod", "c", None),
        rel_object("Pod", "d", None),
        rel_object("Pod", "e", None),
    ]);
    let plan = ReleasePlan::new(&"r".to_string(), &desired, &previous);
    assert_eq!(rel_created(&plan), vec!["Pod/d", "Pod/e"]);
    assert_eq!(rel_upgraded(&plan), vec!["Pod/b", "Pod/c"]);
    assert_eq!(rel_deleted(&plan), vec!["Pod/a"]);
    assert_eq!(plan.creations.len() + plan.upgrades.len(), desired.len());
    assert_eq!(plan.deletions.len() + plan.upgrades.len(), previous.len());
    let empty = ReleasePlan::new(&"r".to_string(), &Objects::empty(), &Objects::empty());
    assert!(empty.creations.is_empty() && empty.upgrades.is_empty() && empty.deletions.is_empty());
    let same = ReleasePlan::new(&"r".to_string(), &desired, &desired);
    assert_eq!(same.upgrades.len(), 4);
    assert!(same.creations.is_empty() && same.deletions.is_empty());
}

#[test]
fn tagging_leaves_the_given_objects_alone() {
    let mut given = rel_object("Pod", "a", Some("v1"));
    given.dyn_object.metadata.labels.insert("app".to_string(), "web".to_string());
    given.dyn_object.metadata.labels.insert(TYPE_KEY.to_string(), "other".to_string());
    let before = format!("{:?}", given);
    let desired = rel_objects(vec![given.clone()]);
    let plan = ReleasePlan::new(&"r1".to_string(), &desired, &Objects::empty());
    assert_eq!(format!("{:?}", desired.object_at(0)), before);
    let tagged = &plan.creations[0].new;
    assert!(rel_is_tagged(tagged, "r1"));
    assert_eq!(tagged.dyn_object.metadata.labels.get(&"app".to_string()), Some(&"web".to_string()));
    assert_eq!(tagged.dyn_object.metadata.labels.len(), 3);
    assert_eq!(tagged.dyn_object.metadata.annotations.len(), 1);
    assert_eq!(format!("{:?}", tagged.dyn_object.data), format!("{:?}", given.dyn_object.data));
    assert_eq!(tagged.name(), given.name());
    let again = ReleasePlan::tag_object("r1".to_string(), tagged.clone());
    assert_eq!(format!("{:?}", again), format!("{:?}", tagged));
    assert!(rel_is_tagged(&ReleasePlan::tag_object("r2".to_string(), given), "r2"));
}

#[test]
fn undo_swaps_creations_and_deletions() {
    let previous = rel_objects(vec![rel_object("Pod", "a", Some("v1")), rel_object("Service", "s", None)]);
    let desired = rel_objects(vec![rel_object("Pod", "a", Some("v2")), rel_object("ConfigMap", "c", None)]);
    let plan = ReleasePlan::new(&"r1".to_string(), &desired, &previous);
    let undo = plan.undo();
    assert_eq!(rel_created(&undo), vec!["Service/s"]);
    assert_eq!(rel_deleted(&undo), vec!["ConfigMap/c"]);
    assert_eq!(rel_upgraded(&undo), vec!["Pod/a"]);
    assert!(format!("{:?}", undo.upgrades[0].new.dyn_object.data).contains("v1"));
    assert!(format!("{:?}", undo.upgrades[0].old.dyn_object.data).contains("v2"));
    assert_eq!(format!("{:?}", undo.undo()), format!("{:?}", plan));
    assert_eq!(format!("{:?}", plan.clone()), format!("{:?}", plan));
}

#[test]
fn steps_run_creations_then_upgrades_then_deletions() {
    let plan = ReleasePlan {
        creations: vec![Create { new: rel_object("Pod", "c1", None) }, Create { new: rel_object("Pod", "c2", None) }],
        upgrades: vec![Upgrade { new: rel_object("Pod", "u", Some("v2")), old: rel_object("Pod", "u", Some("v1")) }],
        deletions: vec![Delete { old: rel_object("Pod", "d", None) }],
    };
    let steps: Vec<String> =
        plan.steps().iter().map(|(a, o)| format!("{:?} {}", a, o.name().unwrap())).collect();
    assert_eq!(steps, vec!["Create c1", "Create c2", "Apply u", "Delete d"]);
    let inverses: Vec<String> =
        plan.inverses().iter().map(|(a, o)| format!("{:?} {}", a, o.name().unwrap())).collect();
    assert_eq!(inverses, vec!["Delete c1", "Delete c2", "Apply u", "Create d"]);
    assert!(format!("{:?}", plan.steps()[2].1.dyn_object.data).contains("v2"));
    assert!(format!("{:?}", plan.inverses()[2].1.dyn_object.data).contains("v1"));
    assert_eq!(plan.creations[0].to_rollback().0, Action::Delete);
    assert_eq!(plan.upgrades[0].to_rollback().0, Action::Apply);
    assert!(format!("{:?}", plan.upgrades[0].to_rollback().1.dyn_object.data).contains("v1"));
    assert_eq!(plan.deletions[0].to_rollback().0, Action::Create);
}

#[test]
fn failure_during_deletions_triggers_rollback() {
    let previous = rel_objects(vec![rel_object("Pod", "a", Some("v1")), rel_object("Service", "s", None)]);
    let desired = rel_objects(vec![rel_object("Pod", "a", Some("v2")), rel_object("ConfigMap", "c", None)]);
    let mut store = RelStore::new();
    store.run(ReleasePlan::new(&"r1".to_string(), &previous, &Objects::empty()).execute());
    let before = store.objects.clone();
    store.log.clear();
    store.fail.push((Action::Delete, "Service/s".to_string()));

    let plan = ReleasePlan::new(&"r1".to_string(), &desired, &previous);
    let execution = store.run(plan.execute());
    assert_eq!(
        store.log,
        vec![
            "Create ConfigMap/c",
            "Apply Pod/a",
            "Delete Service/s",
            "Apply Pod/a",
            "Delete ConfigMap/c"
        ]
    );
    assert_eq!(store.objects, before);
    assert_eq!(execution.done(), 2);
    match execution.result() {
        Some(Err(ReleaseError::ReleaseError {
            error: TransactionError::KubeError { kube_error, action, object_name },
        })) => {
            assert_eq!(action, Action::Delete);
            assert_eq!(object_name, "s");
            assert!(matches!(kube_error, KubeError::Other(message) if message == "boom"));
        }
        other => panic!("{:?}", other),
    }
    assert!(execution.pending().is_none());
    let still = execution.report(Ok(()));
    assert!(matches!(still.result(), Some(Err(ReleaseError::ReleaseError { .. }))));
}

#[test]
fn failure_of_the_first_step_needs_no_rollback() {
    let desired = rel_objects(vec![rel_object("Pod", "a", None), rel_object("Pod", "b", None)]);
    let mut store = RelStore::new();
    store.fail.push((Action::Create, "Pod/a".to_string()));
    let execution = store.run(ReleasePlan::new(&"r".to_string(), &desired, &Objects::empty()).execute());
    assert_eq!(store.log, vec!["Create Pod/a"]);
    assert!(store.objects.is_empty());
    assert!(matches!(execution.result(), Some(Err(ReleaseError::ReleaseError { .. }))));
}

#[test]
fn create_conflict_fails_the_plan() {
    let desired = rel_objects(vec![rel_object("Pod", "a", None), rel_object("Pod", "b", None)]);
    let mut store = RelStore::new();
    store.objects.insert("Pod/b".to_string(), "foreign".to_string());
    let execution = store.run(ReleasePlan::new(&"r".to_string(), &desired, &Objects::empty()).execute());
    assert_eq!(store.log, vec!["Create Pod/a", "Create Pod/b", "Delete Pod/a"]);
    assert_eq!(store.objects.len(), 1);
    match execution.result() {
        Some(Err(ReleaseError::ReleaseError {
            error: TransactionError::KubeError { kube_error, action, object_name },
        })) => {
            assert!(kube_error.is_already_exists());
            assert_eq!((action, object_name.as_str()), (Action::Create, "b"));
        }
        other => panic!("{:?}", other),
    }
}

#[test]
fn failure_of_the_rollback_keeps_both_failures() {
    let previous = rel_objects(vec![rel_object("Pod", "a", Some("v1"))]);
    let desired = rel_objects(vec![rel_object("Pod", "a", Some("v2")), rel_object("ConfigMap", "c", None)]);
    let mut store = RelStore::new();
    store.run(ReleasePlan::new(&"r1".to_string(), &previous, &Objects::empty()).execute());
    store.log.clear();
    let plan = ReleasePlan::new(&"r1".to_string(), &desired, &previous);
    let mut execution = plan.execute();
    let first = execution.pending().unwrap();
    assert_eq!((first.action, first.name.as_str()), (Action::Create, "c"));
    execution = execution.report(Ok(()));
    let second = execution.pending().unwrap();
    assert_eq!((second.action, second.name.as_str()), (Action::Apply, "a"));
    assert!(second.patch_params().unwrap().force);
    assert_eq!(second.patch_params().unwrap().field_manager, "kube-release");
    assert!(first.patch_params().is_none());
    execution = execution.report(Err(KubeError::Other("apply failed".to_string())));
    assert!(execution.result().is_none());
    let undo = execution.pending().unwrap();
    assert_eq!((undo.action, undo.name.as_str()), (Action::Delete, "c"));
    execution = execution.report(Err(rel_refusal(500, "InternalError")));
    assert!(execution.pending().is_none());
    match execution.result() {
        Some(Err(ReleaseError::RollbackError { error, cause })) => {
            assert_eq!(error.action, Action::Delete);
            assert_eq!(error.object.name(), Some(&"c".to_string()));
            assert!(matches!(error.error, TransactionError::KubeError { action: Action::Delete, .. }));
            assert!(matches!(cause, TransactionError::KubeError { action: Action::Apply, .. }));
        }
        other => panic!("{:?}", other),
    }
}

#[test]
fn steps_on_nameless_objects_fail_without_a_request() {
    let mut nameless = rel_object("Pod", "x", None);
    nameless.dyn_object.metadata.name = None;
    let plan = ReleasePlan {
        creations: vec![Create { new: rel_object("Pod", "a", None) }, Create { new: nameless.clone() }],
        upgrades: vec![],
        deletions: vec![],
    };
    let mut store = RelStore::new();
    let execution = store.run(plan.execute());
    assert_eq!(store.log, vec!["Create Pod/a", "Delete Pod/a"]);
    assert!(matches!(
        execution.result(),
        Some(Err(ReleaseError::ReleaseError { error: TransactionError::NeedName { .. } }))
    ));
    match request(Action::Create, &nameless.api_resource, &nameless.dyn_object) {
        Err(TransactionError::NeedName { object }) => {
            assert_eq!(format!("{:?}", object), format!("{:?}", nameless.dyn_object));
            assert_eq!(object.types.unwrap().kind, "Pod");
        }
        other => panic!("{:?}", other),
    }
    assert!(create_object(&nameless).is_err());
    assert!(apply_object(&nameless).is_err());
    assert!(delete_object(&nameless).is_err());
}

#[test]
fn requests_carry_action_descriptor_name_and_body() {
    let object = rel_object("Pod", "a", Some("v1"));
    let created = create_object(&object).unwrap();
    assert_eq!(created.action, Action::Create);
    assert_eq!(created.name, "a");
    assert_eq!(created.api_resource.plural, "pods");
    assert_eq!(format!("{:?}", created.object), format!("{:?}", object.dyn_object));
    assert_eq!(apply(&object.api_resource, &object.dyn_object).unwrap().action, Action::Apply);
    assert_eq!(create(&object.api_resource, &object.dyn_object).unwrap().action, Action::Create);
    assert_eq!(delete(&object.api_resource, &object.dyn_object).unwrap().action, Action::Delete);
    assert_eq!(apply_object(&object).unwrap().action, Action::Apply);
    let deleted = delete_object(&object).unwrap();
    assert!(settle(&deleted, Ok(())).is_ok());
    match settle(&deleted, Err(rel_refusal(404, "NotFound"))) {
        Err(TransactionError::KubeError { kube_error, action, object_name }) => {
            assert!(kube_error.is_not_found());
            assert!(!kube_error.is_already_exists());
            assert_eq!((action, object_name.as_str()), (Action::Delete, "a"));
        }
        other => panic!("{:?}", other),
    }
    assert!(!rel_refusal(404, "Gone").is_not_found());
    assert!(!rel_refusal(409, "Conflict").is_already_exists());
    assert!(!KubeError::Other("x".to_string()).is_not_found());
    assert!(rel_refusal(409, "AlreadyExists").clone().is_already_exists());
    assert_eq!(Action::Create.to_string(), "Create");
    assert_eq!(Action::Apply.to_string(), "Apply");
    assert_eq!(Action::Delete.to_string(), "Delete");
}

#[test]
fn rollback_ledger_runs_in_the_order_of_its_lists() {
    let mut ledger = Plan::new();
    ledger.register(&Create { new: rel_object("Pod", "c", None) });
    ledger.register(&Delete { old: rel_object("Pod", "d", None) });
    ledger.register(&Upgrade { new: rel_object("Pod", "u", Some("v2")), old: rel_object("Pod", "u", Some("v1")) });
    ledger.register(&Delete { old: rel_object("Pod", "e", None) });
    let mut run = ledger.execute();
    let mut seen = Vec::new();
    while let Some(request) = run.pending() {
        seen.push(format!("{:?} {}", request.action, request.name));
        run = run.report(Ok(()));
    }
    assert_eq!(seen, vec!["Create d", "Create e", "Apply u", "Delete c"]);
    assert!(matches!(run.result(), Some(Ok(()))));
    assert!(matches!(Plan::default().execute().result(), Some(Ok(()))));

    let mut run = ledger.execute();
    run = run.report(Ok(()));
    run = run.report(Err(KubeError::Other("no".to_string())));
    assert!(run.pending().is_none());
    match run.result() {
        Some(Err(error)) => {
            assert_eq!(error.action, Action::Create);
            assert_eq!(error.object.name(), Some(&"e".to_string()));
        }
        other => panic!("{:?}", other),
    }
    let run = run.report(Ok(()));
    assert!(matches!(run.result(), Some(Err(_))));
    let started = Run::start(vec![(Action::Delete, rel_object("Pod", "z", None))]);
    assert_eq!(started.pending().unwrap().action, Action::Delete);
}

#[test]
fn rollback_failure_is_told_with_the_cause() {
    let cause = TransactionError::NeedName { object: rel_object("Pod", "x", None).dyn_object };
    assert!(matches!(
        on_err_rollback(cause, Ok(())),
        ReleaseError::ReleaseError { error: TransactionError::NeedName { .. } }
    ));
    let cause = TransactionError::NeedName { object: rel_object("Pod", "x", None).dyn_object };
    let failed = kube_release::release::rollback::Error {
        error: TransactionError::NeedName { object: rel_object("Pod", "y", None).dyn_object },
        action: Action::Apply,
        object: rel_object("Pod", "a", None),
    };
    assert!(matches!(
        on_err_rollback(cause, Err(failed)),
        ReleaseError::RollbackError { error, .. } if error.action == Action::Apply
    ));
}

#[test]
fn hash_does_not_depend_on_insertion_order() {
    let a = rel_object("Pod", "a", Some("v1"));
    let s = rel_object("Service", "s", None);
    let c = rel_object("ConfigMap", "c", None);
    let one = Release::from_objects("r1".to_string(), rel_objects(vec![a.clone(), s.clone(), c.clone()]));
    let two = Release::from_objects("r1".to_string(), rel_objects(vec![c.clone(), a.clone(), s.clone()]));
    assert_eq!(one.hash_value(), two.hash_value());
    assert_eq!(one.hash_value(), one.clone().hash_value());
    let renamed = Release::from_objects("r2".to_string(), rel_objects(vec![a.clone(), s.clone(), c]));
    assert_ne!(one.hash_value(), renamed.hash_value());
    let changed = Release::from_objects(
        "r1".to_string(),
        rel_objects(vec![rel_object("Pod", "a", Some("v2")), s.clone(), rel_object("ConfigMap", "c", None)]),
    );
    assert_ne!(one.hash_value(), changed.hash_value());
    let fewer = Release::from_objects("r1".to_string(), rel_objects(vec![a, s]));
    assert_ne!(one.hash_value(), fewer.hash_value());
    assert_eq!(one.name(), "r1");
    assert_eq!(one.objects().len(), 3);
    assert_eq!(one.lock_name(), "r1-lock");
    assert_eq!(one.lock().name(), "r1-lock");
}

#[test]
fn hash_is_the_fnv_hash_of_the_bytes() {
    assert_eq!(Hasher::new().finish(), 0xcbf2_9ce4_8422_2325);
    assert_eq!(Hasher::new().write(b"a").finish(), 0xaf63_dc4c_8601_ec8c);
    assert_eq!(Hasher::new().write(b"foobar").finish(), 0x8594_4171_f739_67e8);
    assert_eq!(Hasher::new().write_u8(b'a').finish(), Hasher::new().write(b"a").finish());
    assert_eq!(
        Hasher::new().write_u64(0x0102_0304_0506_0708).finish(),
        Hasher::new().write(&[1, 2, 3, 4, 5, 6, 7, 8]).finish()
    );
    assert_eq!(
        Hasher::new().write_str("ab").finish(),
        Hasher::new().write(&[0, 0, 0, 0, 0, 0, 0, 2, b'a', b'b']).finish()
    );
    assert_eq!(
        Hasher::new().write_opt_str(&None).finish(),
        Hasher::new().write(&[0]).finish()
    );
    assert_eq!(
        Hasher::new().write_value(&Value::Array(vec![Value::Bool(true), Value::Null])).finish(),
        Hasher::new().write(&[6, 0, 0, 0, 0, 0, 0, 0, 2, 1, 1, 0]).finish()
    );
    assert_eq!(
        Hasher::new().write_value(&Value::Number(Number::NegInt(-1))).finish(),
        Hasher::new().write(&[3, 255, 255, 255, 255, 255, 255, 255, 255]).finish()
    );
    assert_ne!(
        Hasher::new().write_str("ab").write_str("c").finish(),
        Hasher::new().write_str("a").write_str("bc").finish()
    );
}

#[test]
fn releases_plan_their_installation_upgrade_and_removal() {
    let old = Release::from_objects("r".to_string(), rel_objects(vec![rel_object("Pod", "a", Some("v1"))]));
    let new = Release::from_objects(
        "r".to_string(),
        rel_objects(vec![rel_object("Pod", "a", Some("v2")), rel_object("Pod", "b", None)]),
    );
    assert_eq!(rel_created(&new.install()), vec!["Pod/a", "Pod/b"]);
    assert_eq!(rel_deleted(&new.uninstall()), vec!["Pod/a", "Pod/b"]);
    assert!(new.uninstall().creations.is_empty());
    let upgrade = new.upgrade(&old);
    assert_eq!(rel_created(&upgrade), vec!["Pod/b"]);
    assert_eq!(rel_upgraded(&upgrade), vec!["Pod/a"]);
    assert!(upgrade.deletions.is_empty());
    assert_eq!(format!("{:?}", upgrade.execute().plan()), format!("{:?}", upgrade));
}
