use hgen::lang::map::OrderedHashMap;
use hgen::model::{ModuleDef, ObjectDef, EnumDef, SimpleTypeDef};
use hgen::schema::{CustomShape, Object, Reference, Schema, SimpleShape};

#[test]
fn map_keeps_insertion_order_and_first_position() {
    let mut map: OrderedHashMap<String> = OrderedHashMap::new();
    map.insert(String::from("b"), String::from("one"));
    map.insert(String::from("a"), String::from("two"));
    // updating a present key keeps its position but replaces the value
    map.insert(String::from("b"), String::from("three"));
    assert_eq!(map.len(), 2);
    assert_eq!(map.key_at(0).as_str(), "b");
    assert_eq!(map.key_at(1).as_str(), "a");
    assert_eq!(map.value_at(0).as_str(), "three");
    assert_eq!(map.get("a").unwrap().as_str(), "two");
    assert!(map.get("c").is_none());
    assert!(map.contains_key("b"));
    let entries = map.iter();
    assert_eq!(entries.len(), 2);
    assert_eq!(entries[0].0.as_str(), "b");
    assert_eq!(entries[0].1.as_str(), "three");
}

#[test]
fn simple_type_def_reads_scalars_and_references() {
    assert_eq!(SimpleTypeDef::from_str("Bool"), SimpleTypeDef::Bool);
    assert_eq!(SimpleTypeDef::from_str("Instant"), SimpleTypeDef::Instant);
    assert_eq!(
        SimpleTypeDef::from_str("Widget"),
        SimpleTypeDef::Ref(String::from("Widget"))
    );
}

#[test]
fn module_resolve_finds_objects_and_enums() {
    let module = ModuleDef {
        name: String::from("api"),
        objects: vec![ObjectDef { name: String::from("User"), fields: Vec::new() }],
        enums: vec![EnumDef { name: String::from("Role"), values: Vec::new() }],
    };
    assert_eq!(module.resolve("User"), "User");
    assert_eq!(module.resolve("Role"), "Role");
}

#[test]
fn simple_shape_round_trips_through_names() {
    assert_eq!(SimpleShape::from_str("Int64"), SimpleShape::Int64);
    assert_eq!(SimpleShape::from_str("Int64").to_str(), "Int64");
    let reference = SimpleShape::from_str("Account");
    assert_eq!(reference, SimpleShape::Ref(String::from("Account")));
    assert_eq!(reference.to_str(), "Account");
}

#[test]
fn flat_schema_resolves_objects_then_customs() {
    let schema = Schema {
        name: String::from("api"),
        objects: vec![Object { name: String::from("User"), fields: Vec::new() }],
        custom_shapes: vec![CustomShape { name: String::from("Decimal") }],
    };
    match schema.resolve("User") {
        Some(Reference::Object(o)) => assert_eq!(o.name.as_str(), "User"),
        _ => panic!("expected an object"),
    }
    match schema.resolve("Decimal") {
        Some(found) => assert_eq!(found.name(), "Decimal"),
        None => panic!("expected a custom shape"),
    }
    assert!(schema.resolve("Nope").is_none());
}
