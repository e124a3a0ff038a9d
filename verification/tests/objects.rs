use kube_release::identifier::{Identifier, Named};
use kube_release::json::{Number, Value};
use kube_release::k8s::annotations::{Annotations, ToAnnotation, WithAnnotations};
use kube_release::k8s::api_resource::{
    add_listable, contains_descriptor, describe, find_api_resources, has_verb, split_api_version,
    APIResource, ApiResource, DiscoveredList, ToApiResource, TryToApiResource, TypeMeta,
};
use kube_release::k8s::labels::{Labels, ListParams, ToLabel, WithLabels};
use kube_release::k8s::{CrateVersion, ObjectType, ReleaseName, RELEASE_KEY, TYPE_KEY, VERSION_KEY};
use kube_release::meta::{CRATE_NAME, CRATE_VERSION};
use kube_release::objects::{
    Builder, BuilderError, ConfigMap, DynamicObject, Object, ObjectMeta, Objects,
    MISSING_TYPE_INFO,
};
use kube_release::resources::{
    get_api_resources, get_core_api_resources, is_eligible_api_resource, to_api_resource,
    APIGroup, ApiKnowledge, CoreVersion, GroupVersion,
};
use kube_release::sorted_map::Key;
use kube_release::text::Order;

fn obj_body(api_version: &str, kind: &str, name: Option<&str>) -> DynamicObject {
    let mut metadata = ObjectMeta::new();
    metadata.name = name.map(|n| n.to_string());
    DynamicObject {
        types: Some(TypeMeta { api_version: api_version.to_string(), kind: kind.to_string() }),
        metadata,
        data: Value::Object(vec![]),
    }
}

fn obj_discovered(name: &str, kind: &str, verbs: &[&str]) -> APIResource {
    APIResource {
        name: name.to_string(),
        kind: kind.to_string(),
        group: None,
        version: None,
        verbs: verbs.iter().map(|v| v.to_string()).collect(),
    }
}

fn obj_plurals(found: &[ApiResource]) -> Vec<String> {
    found.iter().map(|a| format!("{}/{}", a.api_version, a.plural)).collect()
}

const ALL_VERBS: [&str; 5] = ["create", "list", "get", "patch", "delete"];

#[test]
fn split_api_version_finds_group_and_version() {
    assert_eq!(split_api_version("apps/v1"), ("apps", "v1"));
    assert_eq!(split_api_version("v1"), ("", "v1"));
    assert_eq!(split_api_version(""), ("", ""));
    assert_eq!(split_api_version("/v1"), ("", "v1"));
    assert_eq!(split_api_version("a/b/c"), ("a", "b/c"));
    assert_eq!(split_api_version("networking.k8s.io/v1beta1"), ("networking.k8s.io", "v1beta1"));
}

#[test]
fn from_gvk_with_plural_joins_group_and_version() {
    let core = ApiResource::from_gvk_with_plural("", "v1", "Pod", "pods");
    assert_eq!(core.group, "");
    assert_eq!(core.version, "v1");
    assert_eq!(core.api_version, "v1");
    assert_eq!(core.kind, "Pod");
    assert_eq!(core.plural, "pods");
    let apps = ApiResource::from_gvk_with_plural("apps", "v1", "Deployment", "deployments");
    assert_eq!(apps.api_version, "apps/v1");
    assert!(apps.equals(&apps.clone()));
    assert!(!apps.equals(&core));
}

#[test]
fn from_gvk_guesses_the_plural_of_the_kind() {
    assert_eq!(ApiResource::from_gvk("", "v1", "Pod").plural, "pods");
    assert_eq!(ApiResource::from_gvk("", "v1", "Service").plural, "services");
    assert_eq!(ApiResource::from_gvk("networking.k8s.io", "v1", "Ingress").plural, "ingresses");
    assert_eq!(
        ApiResource::from_gvk("networking.k8s.io", "v1", "NetworkPolicy").plural,
        "networkpolicies"
    );
    assert_eq!(ApiResource::from_gvk("", "v1", "Endpoints").plural, "endpoints");
    let guessed = ApiResource::from_gvk("apps", "v1", "Deployment");
    assert_eq!(guessed.group, "apps");
    assert_eq!(guessed.version, "v1");
    assert_eq!(guessed.api_version, "apps/v1");
    assert_eq!(guessed.kind, "Deployment");
    assert_eq!(guessed.plural, "deployments");
}

#[test]
fn from_gvk_handles_the_lone_letter_y() {
    assert_eq!(ApiResource::from_gvk("", "v1", "y").plural, "ys");
    assert_eq!(ApiResource::from_gvk("", "v1", "Y").plural, "ys");
    assert_eq!(ApiResource::from_gvk("g", "v1", "Y").api_version, "g/v1");
    assert_eq!(ApiResource::from_gvk("", "v1", "Key").plural, "keys");
    assert_eq!(ApiResource::from_gvk("", "v1", "yy").plural, "yies");
}

#[test]
fn type_information_tells_the_descriptor() {
    let types = TypeMeta { api_version: "apps/v1".to_string(), kind: "StatefulSet".to_string() };
    let descriptor = types.to_api_resource();
    assert_eq!(descriptor.group, "apps");
    assert_eq!(descriptor.version, "v1");
    assert_eq!(descriptor.api_version, "apps/v1");
    assert_eq!(descriptor.kind, "StatefulSet");
    assert_eq!(descriptor.plural, "statefulsets");
    assert!(types.try_to_api_resource().unwrap().equals(&descriptor));
    assert!(descriptor.to_api_resource().equals(&descriptor));
    assert!(descriptor.try_to_api_resource().unwrap().equals(&descriptor));
    let core = TypeMeta { api_version: "v1".to_string(), kind: "ConfigMap".to_string() };
    assert_eq!(core.to_api_resource().group, "");
    assert_eq!(core.clone().kind, "ConfigMap");
}

#[test]
fn objects_need_type_information() {
    let body = obj_body("v1", "Pod", Some("a"));
    let object = Object::try_from_dynamic_object(body.clone()).unwrap();
    assert_eq!(object.api_resource.plural, "pods");
    assert_eq!(object.name(), Some(&"a".to_string()));
    assert_eq!(Named::name(&object), Some(&"a".to_string()));
    assert_eq!(Named::name(&body), Some(&"a".to_string()));
    assert!(object.to_api_resource().equals(&object.api_resource));
    assert!(body.try_to_api_resource().unwrap().equals(&object.api_resource));

    let mut untyped = obj_body("v1", "Pod", Some("a"));
    untyped.types = None;
    assert!(untyped.try_to_api_resource().is_none());
    assert!(Object::try_from_dynamic_object(untyped.clone()).is_none());
    assert_eq!(Object::try_from(untyped).unwrap_err(), MISSING_TYPE_INFO);
    assert!(Object::try_from(body).is_ok());
}

#[test]
fn identifiers_hold_group_version_kind_and_name() {
    let apps = ApiResource::from_gvk_with_plural("apps", "v1", "Deployment", "deployments");
    let id = Identifier::from_api_resource("web".to_string(), &apps);
    assert_eq!(id.group(), "apps");
    assert_eq!(id.version(), "v1");
    assert_eq!(id.kind(), "Deployment");
    assert_eq!(id.name(), "web");
    assert!(id.equals(&id.clone()));
    let beta = ApiResource::from_gvk_with_plural("apps", "v1beta1", "Deployment", "deployments");
    assert!(!id.equals(&Identifier::from_api_resource("web".to_string(), &beta)));
    assert!(!id.equals(&Identifier::from_api_resource("web2".to_string(), &apps)));
}

#[test]
fn identifiers_of_resources_need_name_and_descriptor() {
    let object = Object::try_from_dynamic_object(obj_body("v1", "Pod", Some("a"))).unwrap();
    let id = Identifier::from_resource(&object).unwrap();
    assert_eq!((id.group().as_str(), id.kind().as_str(), id.name().as_str()), ("", "Pod", "a"));
    assert!(Identifier::from_resource(&obj_body("v1", "Pod", None)).is_none());
    let mut untyped = obj_body("v1", "Pod", Some("a"));
    untyped.types = None;
    assert!(Identifier::from_resource(&untyped).is_none());
    assert!(Identifier::from_resource(&obj_body("apps/v1", "Deployment", Some("d"))).is_some());
}

#[test]
fn identifiers_are_ordered_by_group_version_kind_name() {
    let make = |g: &str, v: &str, k: &str, n: &str| {
        Identifier::from_api_resource(n.to_string(), &ApiResource::from_gvk_with_plural(g, v, k, "x"))
    };
    assert_eq!(make("a", "v1", "K", "n").compare(&make("b", "v0", "A", "a")), Order::Before);
    assert_eq!(make("a", "v2", "K", "n").compare(&make("a", "v1", "Z", "z")), Order::After);
    assert_eq!(make("a", "v1", "K", "n").compare(&make("a", "v1", "L", "a")), Order::Before);
    assert_eq!(make("a", "v1", "K", "n").compare(&make("a", "v1", "K", "m")), Order::After);
    assert_eq!(make("a", "v1", "K", "n").compare(&make("a", "v1", "K", "n")), Order::Same);
}

#[test]
fn builder_adds_objects_under_their_identifiers() {
    let mut builder = Builder::new();
    assert!(builder.add_dynamic_object(obj_body("v1", "Service", Some("s"))).is_ok());
    assert!(builder.add_dynamic_object(obj_body("v1", "Pod", Some("a"))).is_ok());
    assert!(builder.add_dynamic_object(obj_body("apps/v1", "Pod", Some("a"))).is_ok());
    let objects = builder.finish();
    assert_eq!(objects.len(), 3);
    assert!(objects.is_keyed());
    let pod = Identifier::from_api_resource("a".to_string(), &ApiResource::from_gvk("", "v1", "Pod"));
    assert!(objects.contains(&pod));
    assert_eq!(objects.get(&pod).unwrap().api_resource.kind, "Pod");
    let missing =
        Identifier::from_api_resource("b".to_string(), &ApiResource::from_gvk("", "v1", "Pod"));
    assert!(!objects.contains(&missing));
    assert!(objects.get(&missing).is_none());
    let kinds: Vec<String> = objects
        .iter()
        .iter()
        .map(|(id, object)| format!("{}/{}/{}", id.group(), id.kind(), object.name().unwrap()))
        .collect();
    assert_eq!(kinds, vec!["/Pod/a", "/Service/s", "apps/Pod/a"]);
    assert_eq!(objects.identifier_at(0).kind(), "Pod");
    assert_eq!(objects.object_at(1).api_resource.kind, "Service");
    assert_eq!(objects.clone().len(), 3);
    assert_eq!(Objects::empty().len(), 0);
    assert_eq!(Objects::default().len(), 0);
    assert_eq!(Builder::default().finish().len(), 0);
}

#[test]
fn builder_rejects_what_cannot_be_deployed() {
    let mut builder = Builder::new();
    let mut untyped = obj_body("v1", "Pod", Some("a"));
    untyped.types = None;
    match builder.add_dynamic_object(untyped) {
        Err(BuilderError::BadDynamicObject { error }) => assert_eq!(error, MISSING_TYPE_INFO),
        other => panic!("{:?}", other),
    }
    match builder.add_dynamic_object(obj_body("v1", "Pod", None)) {
        Err(BuilderError::ObjectWithoutName { object }) => assert_eq!(object.api_resource.kind, "Pod"),
        other => panic!("{:?}", other),
    }
    assert!(builder.add_dynamic_object(obj_body("v1", "Pod", Some("a"))).is_ok());
    match builder.add_dynamic_object(obj_body("v1", "Pod", Some("a"))) {
        Err(BuilderError::DuplicateObject { identifier }) => {
            assert_eq!((identifier.kind().as_str(), identifier.name().as_str()), ("Pod", "a"))
        }
        other => panic!("{:?}", other),
    }
    assert_eq!(builder.finish().len(), 1);
}

#[test]
fn read_objects_stops_at_the_first_error() {
    let mut builder = Builder::new();
    let documents = vec![
        obj_body("v1", "Pod", Some("a")),
        obj_body("v1", "Pod", None),
        obj_body("v1", "Pod", Some("b")),
    ];
    assert!(matches!(
        builder.read_objects(documents),
        Err(BuilderError::ObjectWithoutName { .. })
    ));
    assert_eq!(builder.finish().len(), 1);

    let mut builder = Builder::new();
    let documents = vec![obj_body("v1", "Pod", Some("a")), obj_body("v1", "Pod", Some("b"))];
    assert!(builder.read_objects(documents).is_ok());
    assert!(builder.read_objects(vec![]).is_ok());
    assert_eq!(builder.finish().len(), 2);
}

#[test]
fn objects_can_stand_under_foreign_identifiers() {
    let mut objects = Objects::empty();
    let object = Object::try_from_dynamic_object(obj_body("v1", "Pod", Some("a"))).unwrap();
    let foreign =
        Identifier::from_api_resource("b".to_string(), &ApiResource::from_gvk("", "v1", "Pod"));
    assert!(objects.insert(foreign.clone(), object.clone()).is_none());
    assert!(!objects.is_keyed());
    assert!(objects.insert(foreign, object).is_some());
    assert_eq!(objects.len(), 1);
}

#[test]
fn labels_are_set_and_selected_in_order_of_their_names() {
    let labels = Labels::new().set("b", "2".to_string()).set("a", "1".to_string());
    assert_eq!(labels.to_selector(), "a=1,b=2");
    assert_eq!(labels.clone().set("a", "one".to_string()).to_selector(), "a=one,b=2");
    assert_eq!(Labels::new().to_selector(), "");
    assert_eq!(Labels::default().to_selector(), "");
    assert_eq!(Labels::new().add(("x", "y".to_string())).to_selector(), "x=y");
    assert_eq!(Labels::from(ObjectType::Lock).to_selector(), "kube-release/type=lock");
    let params = Labels::from(ObjectType::Managed)
        .add(ReleaseName("r1".to_string()))
        .to_listparams();
    assert_eq!(
        params.label_selector,
        Some("kube-release/release=r1,kube-release/type=managed".to_string())
    );
    assert_eq!(params.timeout, None);
    let timed = params.timeout(10);
    assert_eq!(timed.timeout, Some(10));
    assert!(timed.label_selector.is_some());
    let fresh = ListParams::default();
    assert_eq!((fresh.label_selector.clone(), fresh.timeout), (None, None));
    assert_eq!(fresh.labels("a=b").label_selector, Some("a=b".to_string()));
}

#[test]
fn well_known_keys_carry_the_name_of_the_tool() {
    assert_eq!(CRATE_NAME, "kube-release");
    assert_eq!(TYPE_KEY, format!("{}/type", CRATE_NAME));
    assert_eq!(RELEASE_KEY, format!("{}/release", CRATE_NAME));
    assert_eq!(VERSION_KEY, format!("{}/version", CRATE_NAME));
    assert_eq!(ObjectType::Lock.to_label(), (TYPE_KEY, "lock".to_string()));
    assert_eq!(ObjectType::ReleaseState.to_label(), (TYPE_KEY, "release-state".to_string()));
    assert_eq!(ObjectType::Managed.to_label(), (TYPE_KEY, "managed".to_string()));
    assert_eq!(ObjectType::Managed.to_string(), "managed");
    assert_eq!(ObjectType::ReleaseState.as_str(), "release-state");
    assert_eq!(ReleaseName("r".to_string()).to_label(), (RELEASE_KEY, "r".to_string()));
    assert_eq!(ReleaseName("r".to_string()).clone().0, "r");
    assert_eq!(CrateVersion.to_annotation(), (VERSION_KEY, CRATE_VERSION.to_string()));
    assert_eq!(("k", "v".to_string()).to_label(), ("k", "v".to_string()));
    assert_eq!(("k", "v".to_string()).to_annotation(), ("k", "v".to_string()));
}

#[test]
fn labels_and_annotations_go_on_objects() {
    let mut body = obj_body("v1", "Pod", Some("a"));
    body.metadata.labels.insert("app".to_string(), "web".to_string());
    body.metadata.labels.insert("tier".to_string(), "old".to_string());
    let labels = Labels::new().set("tier", "front".to_string()).set("env", "prod".to_string());
    let labelled = body.clone().with_labels(&labels);
    assert_eq!(labelled.metadata.labels.len(), 3);
    assert_eq!(labelled.metadata.labels.get(&"app".to_string()), Some(&"web".to_string()));
    assert_eq!(labelled.metadata.labels.get(&"tier".to_string()), Some(&"front".to_string()));
    assert_eq!(labelled.metadata.labels.get(&"env".to_string()), Some(&"prod".to_string()));
    assert_eq!(labelled.metadata.name, Some("a".to_string()));
    assert_eq!(body.metadata.labels.get(&"tier".to_string()), Some(&"old".to_string()));

    let one = body.clone().with_label(&ObjectType::Managed);
    assert_eq!(one.metadata.labels.get(&TYPE_KEY.to_string()), Some(&"managed".to_string()));
    assert_eq!(one.metadata.labels.len(), 3);

    let mut subject = Object::try_from_dynamic_object(body.clone()).unwrap();
    labels.apply_to(&mut subject);
    assert_eq!(subject.dyn_object.metadata.labels.len(), 3);

    let annotations = Annotations::new().set("note", "x".to_string()).add(CrateVersion);
    let annotated = body.clone().with_annotations(&annotations);
    assert_eq!(annotated.metadata.annotations.len(), 2);
    assert_eq!(
        annotated.metadata.annotations.get(&VERSION_KEY.to_string()),
        Some(&CRATE_VERSION.to_string())
    );
    assert_eq!(annotated.metadata.labels.len(), 2);
    let noted = body.clone().with_annotation(&("note", "y".to_string()));
    assert_eq!(noted.metadata.annotations.get(&"note".to_string()), Some(&"y".to_string()));
    let mut config_map = ConfigMap::default();
    Annotations::from(CrateVersion).apply_to(&mut config_map);
    assert_eq!(config_map.metadata.annotations.len(), 1);
    assert_eq!(Annotations::default().clone().set("a", "b".to_string()).clone().set("a", "c".to_string()).add(("d", "e".to_string())).apply_to(&mut config_map), ());
    assert_eq!(config_map.metadata.annotations.get(&"a".to_string()), Some(&"c".to_string()));
    assert_eq!(config_map.clone().metadata.annotations.len(), 3);
}

#[test]
fn discovery_keeps_what_can_be_read_and_listed() {
    let pods = obj_discovered("pods", "Pod", &["get", "list", "watch"]);
    let bindings = obj_discovered("bindings", "Binding", &["create"]);
    let only_get = obj_discovered("componentstatuses", "ComponentStatus", &["get"]);
    assert!(has_verb(&pods, "get"));
    assert!(!has_verb(&pods, "create"));
    let mut deployments = obj_discovered("deployments", "Deployment", &["list", "get"]);
    deployments.version = Some("v1".to_string());
    let mut foreign = obj_discovered("scales", "Scale", &["get", "list"]);
    foreign.group = Some("autoscaling".to_string());
    let lists = vec![
        DiscoveredList {
            group: "".to_string(),
            version: "v1".to_string(),
            resources: vec![pods, bindings, only_get],
            core: true,
        },
        DiscoveredList {
            group: "apps".to_string(),
            version: "v1beta1".to_string(),
            resources: vec![deployments, foreign],
            core: false,
        },
        DiscoveredList {
            group: "".to_string(),
            version: "v1".to_string(),
            resources: vec![obj_discovered("pods", "Pod", &["list", "get"])],
            core: true,
        },
    ];
    let found = find_api_resources(&lists);
    assert_eq!(obj_plurals(&found), vec!["v1/pods", "apps/v1/deployments", "autoscaling/v1beta1/scales"]);
    assert_eq!(found[1].group, "apps");
    assert_eq!(found[2].group, "autoscaling");
    assert!(contains_descriptor(&found, &ApiResource::from_gvk_with_plural("", "v1", "Pod", "pods")));
    assert!(!contains_descriptor(&found, &ApiResource::from_gvk_with_plural("", "v1", "Pod", "pod")));
    assert!(find_api_resources(&vec![]).is_empty());
}

#[test]
fn core_resources_are_always_of_the_empty_group() {
    let mut odd = obj_discovered("pods", "Pod", &["get", "list"]);
    odd.group = Some("ignored".to_string());
    odd.version = Some("v2".to_string());
    let mut found = Vec::new();
    add_listable(&mut found, "also-ignored", "v1", &vec![odd], true);
    assert_eq!(found.len(), 1);
    assert_eq!(found[0].group, "");
    assert_eq!(found[0].version, "v2");
    assert_eq!(found[0].api_version, "v2");
    let plain = obj_discovered("jobs", "Job", &["get", "list"]);
    let described = describe("batch", "v1", &plain);
    assert_eq!((described.group.as_str(), described.api_version.as_str()), ("batch", "batch/v1"));
    assert_eq!(described.plural, "jobs");
}

#[test]
fn deployable_resources_allow_all_five_verbs() {
    let full = obj_discovered("pods", "Pod", &ALL_VERBS);
    let partial = obj_discovered("events", "Event", &["create", "list", "get", "patch"]);
    assert!(is_eligible_api_resource(&full));
    assert!(!is_eligible_api_resource(&partial));
    assert!(!is_eligible_api_resource(&obj_discovered("x", "X", &[])));
    let descriptor = to_api_resource(&"g".to_string(), &"v1".to_string(), &full);
    assert_eq!(descriptor.api_version, "g/v1");

    let versions = vec![
        CoreVersion { version: "v1".to_string(), resources: vec![full, partial] },
        CoreVersion {
            version: "v2".to_string(),
            resources: vec![obj_discovered("pods", "Pod", &ALL_VERBS)],
        },
    ];
    let core = get_core_api_resources(&versions);
    assert_eq!(obj_plurals(&core), vec!["v1/pods", "v2/pods"]);

    let list = |gv: &str, v: &str, plural: &str| GroupVersion {
        group_version: gv.to_string(),
        version: v.to_string(),
        resources: vec![obj_discovered(plural, "K", &ALL_VERBS)],
    };
    let groups = vec![
        APIGroup {
            name: "apps".to_string(),
            preferred_version: Some(list("apps/v1", "v1", "deployments")),
            versions: vec![list("apps/v1", "v1", "deployments"), list("apps/v1beta1", "v1beta1", "deployments")],
        },
        APIGroup {
            name: "batch".to_string(),
            preferred_version: None,
            versions: vec![list("batch/v1", "v1", "jobs"), list("batch/v1beta1", "v1beta1", "cronjobs")],
        },
    ];
    let others = get_api_resources(&groups);
    assert_eq!(
        obj_plurals(&others),
        vec!["apps/v1/deployments", "batch/v1/jobs", "batch/v1beta1/cronjobs"]
    );
    let knowledge = ApiKnowledge::new(&versions, &groups);
    assert_eq!(knowledge.api_resources().len(), 5);
    assert_eq!(obj_plurals(knowledge.api_resources())[2], "apps/v1/deployments");
}

#[test]
fn numbers_in_data_do_not_disturb_objects() {
    let mut body = obj_body("v1", "ConfigMap", Some("c"));
    body.data = Value::Object(vec![("n".to_string(), Value::Number(Number::NegInt(-4)))]);
    let object = Object::try_from_dynamic_object(body).unwrap();
    assert_eq!(format!("{:?}", object.clone()), format!("{:?}", object));
}
