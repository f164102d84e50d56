use hgen::emit::rs::ToSnakeCase;
use hgen::emit::EmitError;
use hgen::lang::parser::parse_schema;
use hgen::strategy::Strategy;

// The systems-language scenario: two fields, both 32-bit integers, in
// declared order, names converted to snake case where needed.
#[test]
fn point_struct_in_the_systems_language() {
    let schema = parse_schema("struct Point { x: Int32, y: Int32, }").unwrap();
    let out = hgen::emit::rs::emit_schema("demo", &schema).unwrap();
    assert_eq!(
        out,
        "use serde::{Serialize, Deserialize};\n\
         #[derive(Debug, Clone, Serialize, Deserialize)]\n\
         pub struct Point {\n    pub x: i32,\n    pub y: i32,\n}\n"
    );
    let x = out.find("pub x: i32").unwrap();
    let y = out.find("pub y: i32").unwrap();
    assert!(x < y);
}

#[test]
fn camel_case_fields_become_snake_case() {
    let schema = parse_schema("struct User { firstName: String, }").unwrap();
    let out = hgen::emit::rs::emit_schema("demo", &schema).unwrap();
    assert!(out.contains("pub first_name: String,"));
}

#[test]
fn camel_to_snake_converts_exactly() {
    assert_eq!(hgen::emit::rs::camel_to_snake("firstName"), "first_name");
    assert_eq!(hgen::emit::rs::camel_to_snake("URL"), "u_r_l");
    assert_eq!(hgen::emit::rs::camel_to_snake("already_snake"), "already_snake");
    assert_eq!(hgen::emit::rs::camel_to_snake("Name"), "name");
}

#[test]
fn to_snake_case_is_offered_on_strings() {
    assert_eq!("myField".to_snake_case(), "my_field");
    assert_eq!(String::from("myField").to_snake_case(), "my_field");
}

// The web-language scenario: three members whose values are their own
// names as string literals.
#[test]
fn color_enum_in_the_web_language() {
    let schema = parse_schema("enum Color { Red, Green, Blue, }").unwrap();
    let out = hgen::emit::ts::emit_schema("demo", &schema).unwrap();
    assert!(out.contains(
        "export enum Color {\n  Red = 'Red',\n  Green = 'Green',\n  Blue = 'Blue',\n}\n"
    ));
}

// The alias scenario: an aliased field type renders as a declared
// alias, never as an unresolved placeholder.
#[test]
fn alias_renders_as_a_declared_alias_everywhere() {
    let source = "alias UserId = String;\nstruct User { id: UserId, }";
    let schema = parse_schema(source).unwrap();

    let rs = hgen::emit::rs::emit_schema("demo", &schema).unwrap();
    assert!(rs.contains("pub type UserId = String;"));
    assert!(rs.contains("pub id: UserId,"));

    let ts = hgen::emit::ts::emit_schema("demo", &schema).unwrap();
    assert!(ts.contains("export type UserId = string;"));
    assert!(ts.contains("  id: UserId;"));

    let dart = hgen::emit::dart::emit_schema("demo", &schema).unwrap();
    assert!(dart.contains("typedef UserId = String;"));
    assert!(dart.contains("  UserId id;"));
}

// The unsupported-construct scenario: the web-language target has no
// set representation and must fail, not emit malformed code.
#[test]
fn set_is_unsupported_in_the_web_language() {
    let schema = parse_schema("struct Bag { tags: Set<String>, }").unwrap();
    let err = hgen::emit::ts::emit_schema("demo", &schema).unwrap_err();
    assert_eq!(err, EmitError::UnsupportedConstruct(String::from("Set")));
}

#[test]
fn int128_is_unsupported_in_the_client_language() {
    let schema = parse_schema("struct Big { n: Int128, }").unwrap();
    let err = hgen::emit::dart::emit_schema("demo", &schema).unwrap_err();
    assert_eq!(err, EmitError::UnsupportedConstruct(String::from("Int128")));
}

#[test]
fn unresolved_references_fail_every_emitter() {
    let schema = parse_schema("struct A { b: Missing, }").unwrap();
    let expected = EmitError::UnresolvedReference(String::from("Missing"));
    assert_eq!(hgen::emit::rs::emit_schema("demo", &schema).unwrap_err(), expected);
    assert_eq!(hgen::emit::ts::emit_schema("demo", &schema).unwrap_err(), expected);
    assert_eq!(hgen::emit::dart::emit_schema("demo", &schema).unwrap_err(), expected);
    assert_eq!(hgen::emit::json::emit_schema("demo", &schema).unwrap_err(), expected);
    assert_eq!(hgen::emit::ron::emit_schema("demo", &schema).unwrap_err(), expected);
}

// Idempotence, exercised: two runs produce byte-identical text; the
// general law is proved in the library.
#[test]
fn emitting_twice_is_byte_identical() {
    let schema = parse_schema(
        "enum Color { Red, Green, }\nstruct Point { x: Int32, }\nservice S { get() -> Point, }",
    )
    .unwrap();
    for strategy in [Strategy::Rust, Strategy::TypeScript, Strategy::Dart, Strategy::JSON] {
        let a = strategy.emit("demo", &schema).unwrap();
        let b = strategy.emit("demo", &schema).unwrap();
        assert_eq!(a, b);
    }
}

// Order preservation in declarations and in (de)serialization code
#[test]
fn field_order_is_kept_everywhere() {
    let schema = parse_schema("struct T { a: Int32, b: Int32, c: Int32, }").unwrap();
    let rs = hgen::emit::rs::emit_schema("demo", &schema).unwrap();
    let (a, b, c) = (
        rs.find("pub a:").unwrap(),
        rs.find("pub b:").unwrap(),
        rs.find("pub c:").unwrap(),
    );
    assert!(a < b && b < c);

    let dart = hgen::emit::dart::emit_schema("demo", &schema).unwrap();
    let enc = dart.find("$TToJson").unwrap();
    let encoder = &dart[enc..];
    let (ea, eb, ec) = (
        encoder.find("'a':").unwrap(),
        encoder.find("'b':").unwrap(),
        encoder.find("'c':").unwrap(),
    );
    assert!(ea < eb && eb < ec);
}

#[test]
fn json_dump_is_exact() {
    let schema = parse_schema("struct Point { x: Int32, }").unwrap();
    let out = hgen::emit::json::emit_schema("demo", &schema).unwrap();
    assert_eq!(
        out,
        "{\"models\":{\"Point\":{\"type\":\"Struct\",\"fields\":{\"x\":{\"type\":\"Int32\"}}}},\"services\":{}}"
    );
}

#[test]
fn ron_dump_is_exact() {
    let schema = parse_schema("alias Id = Int64;").unwrap();
    let out = hgen::emit::ron::emit_schema("demo", &schema).unwrap();
    assert_eq!(
        out,
        "(models:{\"Id\":Alias(Primitive(Int64))},services:{})"
    );
}

#[test]
fn dart_consumer_dispatches_and_decodes() {
    let schema = parse_schema("struct R { } service S { fetch(id: Int32,) -> R, }").unwrap();
    let out = hgen::emit::dart::emit_schema("demo", &schema).unwrap();
    assert!(out.contains("class SConsumer {"));
    assert!(out.contains("Future<R> fetch(int id) async {"));
    assert!(out.contains(
        "var response = await handler.request(name, \"fetch\", <String, dynamic> { \"id\": id });"
    ));
    assert!(out.contains("return $RFromJson(response);"));
}

#[test]
fn ts_consumer_provider_and_reflection() {
    let schema = parse_schema("service S { add(a: Int32, b: Int32,) -> Int32, }").unwrap();
    let out = hgen::emit::ts::emit_schema("demo", &schema).unwrap();
    assert!(out.contains("export class SConsumer {"));
    assert!(out.contains("  add(a: number, b: number): Promise<number> {"));
    assert!(out.contains("    return this.request(\"add\", { a, b });"));
    assert!(out.contains("export interface SProvider {"));
    assert!(out.contains("  add(a: number, b: number): Promise<number>;"));
    assert!(out.contains("export const $schema = "));
    assert!(out.contains("S:{type:'service',methods:{add:{inputs:{"));
}

#[test]
fn strategies_come_from_extensions() {
    assert_eq!(Strategy::from_extension("rs"), Some(Strategy::Rust));
    assert_eq!(Strategy::from_extension("ts"), Some(Strategy::TypeScript));
    assert_eq!(Strategy::from_extension("dart"), Some(Strategy::Dart));
    assert_eq!(Strategy::from_extension("json"), Some(Strategy::JSON));
    assert_eq!(Strategy::from_extension("c"), None);
    assert_eq!(Strategy::parse("rs"), Some(Strategy::Rust));
    assert_eq!(Strategy::Rust.name(), "Rust");
}

#[test]
fn external_models_become_imports() {
    let schema = parse_schema("extern alias Decimal = String;").unwrap();
    let rs = hgen::emit::rs::emit_schema("demo", &schema).unwrap();
    assert!(rs.contains("use external::Decimal;"));
    let ts = hgen::emit::ts::emit_schema("billing", &schema).unwrap();
    assert!(ts.contains("import { Decimal } from './billing.external';"));
}

#[test]
fn dart_struct_declares_fields_constructor_and_codecs() {
    let schema = parse_schema("struct Point { x: Int32, note: String?, }").unwrap();
    let out = hgen::emit::dart::emit_schema("demo", &schema).unwrap();
    assert!(out.contains("class Point {\n  int x;\n  String? note;\n"));
    assert!(out.contains("  Point({\n    required this.x,\n    this.note,\n  });\n"));
    assert!(out.contains("Map<String, dynamic> $PointToJson(Point instance)"));
    assert!(out.contains("Point $PointFromJson(Map<String,dynamic>json)=>Point("));
    assert!(out.contains("x:json['x'] as int"));
}

#[test]
fn dart_enum_codecs_switch_on_variants() {
    let schema = parse_schema("enum Color { Red, Green, }").unwrap();
    let out = hgen::emit::dart::emit_schema("demo", &schema).unwrap();
    assert!(out.contains("dynamic $ColorToJson(Color instance)=>switch(instance){Color.Red=>'Red',Color.Green=>'Green'};"));
    assert!(out.contains("Color $ColorFromJson(String value)=>switch(value){'Red'=>Color.Red,'Green'=>Color.Green,_=>throw'Unknown Color value: $value'};"));
}

#[test]
fn void_returns_emit_no_decode() {
    let schema = parse_schema("service S { fire(), }").unwrap();
    let dart = hgen::emit::dart::emit_schema("demo", &schema).unwrap();
    assert!(dart.contains("Future<void> fire() async {"));
    assert!(!dart.contains("return $"));
    let ts = hgen::emit::ts::emit_schema("demo", &schema).unwrap();
    assert!(ts.contains("  fire(): Promise<void> {"));
}

#[test]
fn wide_integers_map_per_target() {
    let schema = parse_schema("struct N { a: Int64, b: Int128, }").unwrap();
    let ts = hgen::emit::ts::emit_schema("demo", &schema).unwrap();
    assert!(ts.contains("  a: bigint;\n  b: bigint;\n"));
    let rs = hgen::emit::rs::emit_schema("demo", &schema).unwrap();
    assert!(rs.contains("pub a: i64,"));
    assert!(rs.contains("pub b: i128,"));
}

#[test]
fn empty_schema_emits_bare_artifacts() {
    let schema = parse_schema("").unwrap();
    assert_eq!(
        hgen::emit::rs::emit_schema("demo", &schema).unwrap(),
        "use serde::{Serialize, Deserialize};\n"
    );
    assert_eq!(
        hgen::emit::json::emit_schema("demo", &schema).unwrap(),
        "{\"models\":{},\"services\":{}}"
    );
}

#[test]
fn a_declared_unit_output_also_decodes_nothing() {
    let schema = parse_schema("service S { f() -> Unit, }").unwrap();
    let dart = hgen::emit::dart::emit_schema("demo", &schema).unwrap();
    assert!(dart.contains("Future<void> f() async {"));
    assert!(!dart.contains("return "));
}
