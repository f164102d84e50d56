use hgen::lang::loader::SchemaLoader;
use hgen::lang::parser::parse_schema;
use hgen::lang::schema::{MergeError, Model};

// Import merging: the entry file's models come first, the imported
// file's models follow, and lookups see both.
#[test]
fn entry_models_come_before_imported_models() {
    let entry = parse_schema("use shared;\nstruct Own { }").unwrap();
    let shared = parse_schema("struct Shared { }").unwrap();
    let merged = entry.merge(shared).unwrap();
    assert_eq!(merged.models.len(), 2);
    assert_eq!(merged.models.key_at(0).as_str(), "Own");
    assert_eq!(merged.models.key_at(1).as_str(), "Shared");
    assert!(merged.resolve("Own").is_some());
    assert!(merged.resolve("Shared").is_some());
}

#[test]
fn merging_rejects_a_name_defined_in_both_files() {
    let entry = parse_schema("struct A { }").unwrap();
    let other = parse_schema("struct A { }").unwrap();
    let err = entry.merge(other).unwrap_err();
    assert_eq!(err, MergeError::DuplicateModel(String::from("A")));
}

#[test]
fn merging_rejects_a_service_defined_in_both_files() {
    let entry = parse_schema("service S { }").unwrap();
    let other = parse_schema("service S { }").unwrap();
    let err = entry.merge(other).unwrap_err();
    assert_eq!(err, MergeError::DuplicateService(String::from("S")));
}

#[test]
fn loader_walks_imports_depth_first_and_once() {
    let entry = parse_schema("use first;\nuse second;\nstruct Own { }").unwrap();
    let mut loader = SchemaLoader::new(entry);

    // a stack: the most recently discovered import is processed next
    let name = loader.next_import().unwrap();
    assert_eq!(name.as_str(), "second");
    let second = parse_schema("use first;\nstruct FromSecond { }").unwrap();
    loader.add_schema(second).unwrap();

    // `first` was discovered twice but is handed out only once
    let name = loader.next_import().unwrap();
    assert_eq!(name.as_str(), "first");
    let first = parse_schema("struct FromFirst { }").unwrap();
    loader.add_schema(first).unwrap();

    assert!(loader.next_import().is_none());
    let merged = loader.finish();
    assert_eq!(merged.models.len(), 3);
    assert_eq!(merged.models.key_at(0).as_str(), "Own");
    assert_eq!(merged.models.key_at(1).as_str(), "FromSecond");
    assert_eq!(merged.models.key_at(2).as_str(), "FromFirst");
}

#[test]
fn loader_terminates_on_an_import_cycle() {
    let entry = parse_schema("use other;\nstruct A { }").unwrap();
    let mut loader = SchemaLoader::new(entry);
    let name = loader.next_import().unwrap();
    assert_eq!(name.as_str(), "other");
    // `other` imports back; the cycle must not revisit anything
    let other = parse_schema("use other;\nstruct B { }").unwrap();
    loader.add_schema(other).unwrap();
    assert!(loader.next_import().is_none());
    let merged = loader.finish();
    assert!(matches!(merged.resolve("B"), Some(Model::Struct(_))));
}

// Forward references resolve once the whole input is parsed
#[test]
fn forward_references_resolve_after_parsing() {
    let schema = parse_schema("struct A { b: B, } struct B { }").unwrap();
    assert!(schema.resolve("B").is_some());
    let rendered = hgen::emit::rs::emit_schema("demo", &schema).unwrap();
    assert!(rendered.contains("pub b: B,"));
}
