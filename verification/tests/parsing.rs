use hgen::lang::lexer::{get_tokens, Keyword, Token};
use hgen::lang::parser::{parse_schema, parse_shape, ParseError, TokenKind};
use hgen::lang::schema::{Model, Primitive, Schema, Shape};

#[test]
fn tokenizes_punctuation_keywords_and_identifiers() {
    let tokens = get_tokens("struct Point { x: Int32, }");
    assert_eq!(
        tokens,
        vec![
            Token::Keyword(Keyword::Struct),
            Token::Identifier(String::from("Point")),
            Token::OpenBrace,
            Token::Identifier(String::from("x")),
            Token::Colon,
            Token::Identifier(String::from("Int32")),
            Token::Comma,
            Token::CloseBrace,
        ]
    );
}

#[test]
fn tokenizes_string_literals_verbatim() {
    let tokens = get_tokens("= \"a b;c\" ;");
    assert_eq!(
        tokens,
        vec![
            Token::Equals,
            Token::StringLiteral(String::from("a b;c")),
            Token::SemiColon,
        ]
    );
}

#[test]
fn unterminated_literal_truncates_the_stream() {
    let tokens = get_tokens("= \"never closed");
    assert_eq!(tokens, vec![Token::Equals]);
}

#[test]
fn token_from_char_maps_punctuation() {
    assert_eq!(Token::from_char(&'{'), Some(Token::OpenBrace));
    assert_eq!(Token::from_char(&'?'), Some(Token::QuestionMark));
    assert_eq!(Token::from_char(&'-'), Some(Token::Dash));
    assert_eq!(Token::from_char(&'x'), None);
}

#[test]
fn keyword_from_str_knows_the_keyword_table() {
    assert_eq!(Keyword::from_str("alias"), Some(Keyword::Alias));
    assert_eq!(Keyword::from_str("service"), Some(Keyword::Service));
    assert_eq!(Keyword::from_str("use"), Some(Keyword::Use));
    assert_eq!(Keyword::from_str("Alias"), None);
}

#[test]
fn parses_a_struct_with_two_fields() {
    let schema = parse_schema("struct Point { x: Int32, y: Int32, }").unwrap();
    assert_eq!(schema.models.len(), 1);
    let model = schema.resolve("Point").unwrap();
    match model {
        Model::Struct(st) => {
            assert_eq!(st.fields.len(), 2);
            assert_eq!(st.fields.key_at(0).as_str(), "x");
            assert_eq!(st.fields.key_at(1).as_str(), "y");
            assert_eq!(st.fields.value_at(0).inner, Shape::Primitive(Primitive::Int32));
        }
        _ => panic!("expected a struct"),
    }
}

// Nullable composition: the `?` wraps the whole map, never a key
#[test]
fn nullable_applies_to_the_whole_container() {
    let shape = parse_shape("Map<String, Int32>?\n").unwrap();
    assert_eq!(
        shape,
        Shape::Nullable(Box::new(Shape::MapOf(
            Box::new(Shape::Primitive(Primitive::String)),
            Box::new(Shape::Primitive(Primitive::Int32)),
        )))
    );
}

#[test]
fn nullable_inside_a_container_stays_inside() {
    let shape = parse_shape("List<Int32?>\n").unwrap();
    assert_eq!(
        shape,
        Shape::List(Box::new(Shape::Nullable(Box::new(Shape::Primitive(
            Primitive::Int32
        )))))
    );
}

#[test]
fn optional_keyword_is_nullable() {
    let shape = parse_shape("Optional<Bool>\n").unwrap();
    assert_eq!(
        shape,
        Shape::Nullable(Box::new(Shape::Primitive(Primitive::Bool)))
    );
}

#[test]
fn parses_enums_aliases_externs_and_uses() {
    let source = "use shared;\n\
                  enum Color { Red, Green, Blue, }\n\
                  alias UserId = String;\n\
                  extern alias Timestamp = Int64;\n";
    let schema = parse_schema(source).unwrap();
    assert_eq!(schema.imports, vec![String::from("shared")]);
    assert_eq!(schema.models.len(), 3);
    match schema.resolve("Color").unwrap() {
        Model::Enum(e) => assert_eq!(
            e.fields,
            vec![
                String::from("Red"),
                String::from("Green"),
                String::from("Blue")
            ]
        ),
        _ => panic!("expected an enum"),
    }
    assert!(matches!(schema.resolve("UserId"), Some(Model::Alias(_))));
    assert!(matches!(schema.resolve("Timestamp"), Some(Model::External(_))));
}

#[test]
fn parses_a_service_with_inputs_and_output() {
    let source = "service Accounts { login(name: String, code: Int32,) -> Bool, ping(), }";
    let schema = parse_schema(source).unwrap();
    let services = &schema.services;
    assert_eq!(services.len(), 1);
    let service = services.get("Accounts").unwrap();
    assert_eq!(service.methods.len(), 2);
    let login = &service.methods.value_at(0).inner;
    assert_eq!(login.inputs.len(), 2);
    assert_eq!(login.inputs.key_at(0).as_str(), "name");
    assert_eq!(
        login.output.as_ref().unwrap().inner,
        Shape::Primitive(Primitive::Bool)
    );
    let ping = &service.methods.value_at(1).inner;
    assert_eq!(ping.inputs.len(), 0);
    assert!(ping.output.is_none());
}

#[test]
fn parses_field_metadata() {
    let schema = parse_schema("struct User { id: String &{ index: primary, }, }").unwrap();
    match schema.resolve("User").unwrap() {
        Model::Struct(st) => {
            let field = st.fields.value_at(0);
            assert_eq!(field.metadata.len(), 1);
            assert_eq!(field.metadata.get("index").unwrap().as_str(), "primary");
            assert_eq!(field.inner, Shape::Primitive(Primitive::String));
        }
        _ => panic!("expected a struct"),
    }
}

#[test]
fn reports_the_unexpected_token() {
    let err = parse_schema("struct Point { x Int32, }").unwrap_err();
    assert_eq!(
        err,
        ParseError::UnexpectedToken {
            at: 4,
            expected: TokenKind::Colon
        }
    );
}

#[test]
fn reports_end_of_input() {
    let err = parse_schema("struct Point {").unwrap_err();
    assert_eq!(err, ParseError::UnexpectedEndOfInput);
}

#[test]
fn reports_a_non_declaration_token() {
    let err = parse_schema("Point { }").unwrap_err();
    assert_eq!(
        err,
        ParseError::UnexpectedToken {
            at: 0,
            expected: TokenKind::Keyword
        }
    );
}

#[test]
fn rejects_duplicate_model_names() {
    let err = parse_schema("struct A { } struct A { }").unwrap_err();
    assert_eq!(err, ParseError::DuplicateDefinition { at: 5 });
}

#[test]
fn rejects_duplicate_field_names() {
    let err = parse_schema("struct A { x: Int32, x: Bool, }").unwrap_err();
    assert_eq!(err, ParseError::DuplicateDefinition { at: 7 });
}

#[test]
fn schema_parse_matches_parse_schema() {
    let a = Schema::parse("enum E { A, }").unwrap();
    let b = parse_schema("enum E { A, }").unwrap();
    assert_eq!(a, b);
}

#[test]
fn map_arity_errors_surface_as_parse_errors() {
    assert!(parse_shape("Map<String>\n").is_err());
    assert!(parse_shape("List<Int32, Bool>\n").is_err());
}

#[test]
fn a_lone_shape_rejects_trailing_input() {
    let err = parse_shape("Int32 Int32\n").unwrap_err();
    assert_eq!(err, ParseError::TrailingInput { at: 1 });
}

#[test]
fn empty_input_is_an_empty_schema() {
    let schema = parse_schema("").unwrap();
    assert_eq!(schema.models.len(), 0);
    assert_eq!(schema.services.len(), 0);
    assert!(schema.imports.is_empty());
}

#[test]
fn method_metadata_is_kept() {
    let schema = parse_schema("service S { ping() &{ retries: three, }, }").unwrap();
    let service = schema.services.get("S").unwrap();
    let method = service.methods.value_at(0);
    assert_eq!(method.metadata.get("retries").unwrap().as_str(), "three");
}
