use get_docs::model::{FieldDef, RecordDefinition};
use get_docs::registry::Registry;

fn record(name: &str, fields: &[&str]) -> RecordDefinition {
    RecordDefinition::new(
        name.to_string(),
        fields
            .iter()
            .map(|f| FieldDef::new(f.to_string(), "u64".to_string(), vec![]))
            .collect(),
    )
}

#[test]
fn new_registry_is_empty() {
    let registry = Registry::new();
    assert_eq!(registry.len(), 0);
    assert!(!registry.contains("Simple"));
    assert!(registry.get("Simple").is_none());
    assert!(!registry.contains(""));
}

#[test]
fn inserted_records_are_found_by_name() {
    let mut registry = Registry::new();
    registry.insert(record("A", &["x"]));
    registry.insert(record("B", &["y", "z"]));
    assert_eq!(registry.len(), 2);
    assert!(registry.contains("A"));
    assert!(registry.contains("B"));
    assert!(!registry.contains("C"));
    assert!(!registry.contains("a"));
    assert_eq!(registry.get("A"), Some(&record("A", &["x"])));
    assert_eq!(registry.get("B"), Some(&record("B", &["y", "z"])));
    assert_eq!(registry.get("C"), None);
}

#[test]
fn inserting_a_known_name_replaces_the_record() {
    let mut registry = Registry::new();
    registry.insert(record("A", &["x"]));
    registry.insert(record("B", &["y"]));
    registry.insert(record("A", &["p", "q"]));
    assert_eq!(registry.len(), 2);
    assert_eq!(registry.get("A"), Some(&record("A", &["p", "q"])));
    assert_eq!(registry.get("B"), Some(&record("B", &["y"])));
}

#[test]
fn record_parts_are_kept_as_given() {
    let field = FieldDef::new(
        "simple".to_string(),
        "Mapping<String, Simple>".to_string(),
        vec!["first".to_string(), "second".to_string()],
    );
    assert_eq!(field.name, "simple");
    assert_eq!(field.type_signature, "Mapping<String, Simple>");
    assert_eq!(field.doc_lines, vec!["first".to_string(), "second".to_string()]);
    let def = RecordDefinition::new("SimpleMap".to_string(), vec![field.clone()]);
    assert_eq!(def.name, "SimpleMap");
    assert_eq!(def.fields, vec![field]);
}
