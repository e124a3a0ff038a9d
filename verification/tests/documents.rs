use kube_release::json::{same_text, Number, Value};
use kube_release::release::verify::{check_mapping, check_value, first_divergence};
use kube_release::sorted_map::SortedMap;
use kube_release::text::{compare_text, decimal_string, Order};
use std::collections::VecDeque;

fn doc_text(s: &str) -> Value {
    Value::String(s.to_string())
}

fn doc_int(n: u64) -> Value {
    Value::Number(Number::PosInt(n))
}

fn doc_object(members: Vec<(&str, Value)>) -> Value {
    Value::Object(members.into_iter().map(|(k, v)| (k.to_string(), v)).collect())
}

fn doc_path(parts: &[&str]) -> VecDeque<String> {
    parts.iter().map(|p| p.to_string()).collect()
}

fn doc_map(pairs: &[(&str, &str)]) -> SortedMap<String, String> {
    let mut map = SortedMap::new();
    for (k, v) in pairs {
        map.insert(k.to_string(), v.to_string());
    }
    map
}

#[test]
fn compare_text_orders_by_bytes() {
    assert_eq!(compare_text("a", "b"), Order::Before);
    assert_eq!(compare_text("b", "a"), Order::After);
    assert_eq!(compare_text("abc", "abc"), Order::Same);
    assert_eq!(compare_text("ab", "abc"), Order::Before);
    assert_eq!(compare_text("", ""), Order::Same);
    assert_eq!(compare_text("", "a"), Order::Before);
    assert_eq!(compare_text("Z", "a"), Order::Before);
    assert_eq!(compare_text("é", "z"), Order::After);
}

#[test]
fn decimal_string_writes_numerals() {
    assert_eq!(decimal_string(0), "0");
    assert_eq!(decimal_string(7), "7");
    assert_eq!(decimal_string(10), "10");
    assert_eq!(decimal_string(12345), "12345");
    assert_eq!(decimal_string(usize::MAX), usize::MAX.to_string());
}

#[test]
fn same_text_compares_content() {
    assert!(same_text("pod", "pod"));
    assert!(!same_text("pod", "pods"));
    assert!(!same_text("pod", "Pod"));
}

#[test]
fn numbers_are_equal_as_numbers() {
    assert!(Number::PosInt(3).equals(&Number::PosInt(3)));
    assert!(!Number::PosInt(3).equals(&Number::PosInt(4)));
    assert!(Number::NegInt(-3).equals(&Number::NegInt(-3)));
    assert!(!Number::PosInt(1).equals(&Number::Float(1.0f64.to_bits())));
    assert!(Number::Float(1.5f64.to_bits()).equals(&Number::Float(1.5f64.to_bits())));
    assert!(!Number::Float(1.5f64.to_bits()).equals(&Number::Float(2.5f64.to_bits())));
    assert!(Number::Float(0.0f64.to_bits()).equals(&Number::Float((-0.0f64).to_bits())));
}

#[test]
fn numbers_know_whether_they_are_well_formed() {
    assert!(Number::PosInt(0).is_wf());
    assert!(Number::NegInt(-1).is_wf());
    assert!(!Number::NegInt(1).is_wf());
    assert!(Number::Float(1.5f64.to_bits()).is_wf());
    assert!(!Number::Float(f64::INFINITY.to_bits()).is_wf());
    assert!(!Number::Float(f64::NAN.to_bits()).is_wf());
}

#[test]
fn get_finds_the_first_member() {
    let object = doc_object(vec![("a", doc_int(1)), ("b", doc_int(2)), ("a", doc_int(3))]);
    assert_eq!(format!("{:?}", object.get("a")), format!("{:?}", Some(&doc_int(1))));
    assert_eq!(format!("{:?}", object.get("b")), format!("{:?}", Some(&doc_int(2))));
    assert!(object.get("c").is_none());
    assert!(doc_int(1).get("a").is_none());
    assert_eq!(doc_text("x").as_str(), Some(&"x".to_string()));
    assert_eq!(doc_int(1).as_str(), None);
}

#[test]
fn documents_with_a_key_twice_are_not_well_formed() {
    assert!(doc_object(vec![("a", doc_int(1)), ("b", doc_int(2))]).is_wf());
    assert!(!doc_object(vec![("a", doc_int(1)), ("a", doc_int(2))]).is_wf());
    let nested = Value::Array(vec![doc_object(vec![("a", Value::Null), ("a", Value::Null)])]);
    assert!(!nested.is_wf());
    assert!(!Value::Array(vec![Value::Number(Number::NegInt(5))]).is_wf());
    assert!(Value::Array(vec![Value::Null, Value::Bool(true)]).is_wf());
}

#[test]
fn clone_keeps_the_document() {
    let document = doc_object(vec![
        ("spec", doc_object(vec![("replicas", doc_int(3))])),
        ("items", Value::Array(vec![doc_text("a"), Value::Null, Value::Bool(false)])),
    ]);
    assert_eq!(format!("{:?}", document.clone()), format!("{:?}", document));
}

#[test]
fn check_value_accepts_a_document_against_itself() {
    let spec = doc_object(vec![
        ("image", doc_text("nginx")),
        ("ports", Value::Array(vec![doc_int(80), doc_int(443)])),
        ("limits", doc_object(vec![("cpu", Value::Number(Number::Float(0.5f64.to_bits())))])),
        ("nothing", Value::Null),
        ("ready", Value::Bool(true)),
    ]);
    assert_eq!(check_value(&spec, &spec, VecDeque::new()), Ok(()));
    assert!(first_divergence(&spec, &spec).is_none());
}

#[test]
fn check_value_ignores_extra_keys_of_the_instance() {
    let spec = doc_object(vec![("spec", doc_object(vec![("image", doc_text("v1"))]))]);
    let instance = doc_object(vec![
        ("status", doc_text("Running")),
        ("spec", doc_object(vec![("image", doc_text("v1")), ("pullPolicy", doc_text("Always"))])),
    ]);
    assert_eq!(check_value(&spec, &instance, VecDeque::new()), Ok(()));
    assert_eq!(check_value(&instance, &spec, VecDeque::new()), Err(doc_path(&["status"])));
}

#[test]
fn check_value_rejects_extra_array_elements() {
    let spec = doc_object(vec![("ports", Value::Array(vec![doc_int(80)]))]);
    let instance = doc_object(vec![("ports", Value::Array(vec![doc_int(80), doc_int(81)]))]);
    assert_eq!(check_value(&spec, &instance, VecDeque::new()), Err(doc_path(&["ports"])));
}

#[test]
fn check_value_tells_the_path_of_the_first_divergence() {
    let spec = doc_object(vec![
        ("a", doc_int(1)),
        ("list", Value::Array(vec![doc_int(1), doc_object(vec![("k", doc_text("x"))])])),
        ("z", doc_int(9)),
    ]);
    let instance = doc_object(vec![
        ("a", doc_int(1)),
        ("list", Value::Array(vec![doc_int(1), doc_object(vec![("k", doc_text("y"))])])),
        ("z", doc_int(0)),
    ]);
    assert_eq!(
        check_value(&spec, &instance, VecDeque::new()),
        Err(doc_path(&["list", "1", "k"]))
    );
    assert_eq!(
        check_value(&spec, &instance, doc_path(&["root"])),
        Err(doc_path(&["root", "list", "1", "k"]))
    );
}

#[test]
fn check_value_reports_a_missing_key_at_the_key() {
    let spec = doc_object(vec![("a", doc_object(vec![("b", doc_int(1))]))]);
    let instance = doc_object(vec![("a", doc_object(vec![]))]);
    assert_eq!(check_value(&spec, &instance, VecDeque::new()), Err(doc_path(&["a", "b"])));
}

#[test]
fn check_value_never_matches_values_of_different_kinds() {
    assert_eq!(check_value(&Value::Null, &Value::Bool(false), VecDeque::new()), Err(doc_path(&[])));
    assert_eq!(check_value(&doc_int(1), &doc_text("1"), VecDeque::new()), Err(doc_path(&[])));
    assert_eq!(
        check_value(&doc_int(1), &Value::Number(Number::Float(1.0f64.to_bits())), doc_path(&["n"])),
        Err(doc_path(&["n"]))
    );
    assert_eq!(
        check_value(&Value::Array(vec![]), &doc_object(vec![]), VecDeque::new()),
        Err(doc_path(&[]))
    );
    assert_eq!(check_value(&Value::Bool(true), &Value::Bool(false), VecDeque::new()), Err(doc_path(&[])));
    assert_eq!(check_value(&doc_text("a"), &doc_text("b"), VecDeque::new()), Err(doc_path(&[])));
    assert_eq!(check_value(&Value::Null, &Value::Null, doc_path(&["p"])), Ok(()));
}

#[test]
fn check_mapping_asks_for_every_name_of_the_demand() {
    let spec = doc_map(&[("app", "web"), ("tier", "front")]);
    assert!(check_mapping(&spec, &doc_map(&[("tier", "front"), ("app", "web"), ("more", "x")])));
    assert!(!check_mapping(&spec, &doc_map(&[("app", "web")])));
    assert!(!check_mapping(&spec, &doc_map(&[("app", "web"), ("tier", "back")])));
    assert!(check_mapping(&doc_map(&[]), &doc_map(&[])));
    assert!(check_mapping(&doc_map(&[]), &spec));
    assert!(check_mapping(&spec, &spec));
}

#[test]
fn sorted_map_keeps_its_entries_in_order() {
    let mut map: SortedMap<String, String> = SortedMap::new();
    assert_eq!(map.insert("b".to_string(), "2".to_string()), None);
    assert_eq!(map.insert("a".to_string(), "1".to_string()), None);
    assert_eq!(map.insert("c".to_string(), "3".to_string()), None);
    assert_eq!(map.insert("b".to_string(), "two".to_string()), Some("2".to_string()));
    assert_eq!(map.len(), 3);
    assert_eq!(map.key_at(0), "a");
    assert_eq!(map.key_at(1), "b");
    assert_eq!(map.value_at(1), "two");
    assert_eq!(map.key_at(2), "c");
    assert!(map.contains_key(&"a".to_string()));
    assert!(!map.contains_key(&"d".to_string()));
    assert_eq!(map.get(&"c".to_string()), Some(&"3".to_string()));
    assert_eq!(map.get(&"z".to_string()), None);
    let mut other: SortedMap<String, String> = SortedMap::new();
    other.insert("a".to_string(), "one".to_string());
    other.insert("z".to_string(), "26".to_string());
    map.extend(&other);
    assert_eq!(map.len(), 4);
    assert_eq!(map.get(&"a".to_string()), Some(&"one".to_string()));
    assert_eq!(map.get(&"z".to_string()), Some(&"26".to_string()));
    assert_eq!(map.clone().len(), 4);
}
