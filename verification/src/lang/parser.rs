//! The parser: a single-pass recursive-descent reading of the token
//! stream with one token of lookahead, producing a `Schema`.
//!
//! The grammar is specified first as total mathematical functions over
//! `SpecToken` sequences (`spec_parse_*`); the executable parser then
//! carries contracts stating that it returns exactly what those
//! functions describe, errors included.

use crate::lang::lexer::{get_tokens, lex, token_views, Keyword, SpecToken, Token};
use crate::lang::map::{ohm_contains, OrderedHashMap};
use crate::lang::schema::{
    primitive_of_name, Alias, Annotated, Enum, External, Model, Schema, ServiceMethod,
    SpecAlias, SpecAnnotated, SpecEnum, SpecExternal, SpecMethod, SpecModel, SpecSchema,
    SpecService, SpecShape, SpecStruct, Struct,
};
use crate::lang::schema::{Primitive, Service, Shape};
use vstd::prelude::*;

verus! {

broadcast use vstd::seq_lib::group_seq_properties;

/// The kind of a token, without its text: what `expected` in a parse
/// error reports.
#[derive(Debug, PartialEq, Eq, Copy, Clone, Structural)]
pub enum TokenKind {
    Identifier,
    Keyword,
    OpenBrace,
    CloseBrace,
    OpenParen,
    CloseParen,
    Colon,
    SemiColon,
    QuestionMark,
    Ampersand,
    AngleBracketOpen,
    AngleBracketClose,
    Comma,
    Equals,
    Dash,
    Quote,
    StringLiteral,
}

/// Why a source text was rejected: the stream ended where a token was
/// required, the wrong token stood at a required position, or a name
/// was defined twice.  Positions index the token stream.
#[derive(Debug, PartialEq, Eq, Copy, Clone, Structural)]
pub enum ParseError {
    UnexpectedEndOfInput,
    UnexpectedToken { at: usize, expected: TokenKind },
    DuplicateDefinition { at: usize },
    TrailingInput { at: usize },
}

pub open spec fn tok_kind(t: SpecToken) -> TokenKind {
    match t {
        SpecToken::Identifier(_) => TokenKind::Identifier,
        SpecToken::Keyword(_) => TokenKind::Keyword,
        SpecToken::OpenBrace => TokenKind::OpenBrace,
        SpecToken::CloseBrace => TokenKind::CloseBrace,
        SpecToken::OpenParen => TokenKind::OpenParen,
        SpecToken::CloseParen => TokenKind::CloseParen,
        SpecToken::Colon => TokenKind::Colon,
        SpecToken::SemiColon => TokenKind::SemiColon,
        SpecToken::QuestionMark => TokenKind::QuestionMark,
        SpecToken::Ampersand => TokenKind::Ampersand,
        SpecToken::AngleBracketOpen => TokenKind::AngleBracketOpen,
        SpecToken::AngleBracketClose => TokenKind::AngleBracketClose,
        SpecToken::Comma => TokenKind::Comma,
        SpecToken::Equals => TokenKind::Equals,
        SpecToken::Dash => TokenKind::Dash,
        SpecToken::Quote => TokenKind::Quote,
        SpecToken::StringLiteral(_) => TokenKind::StringLiteral,
    }
}

/// Every parsing step leaves the stream strictly after the position it
/// started at and within bounds.  `bump` pins that down for the
/// termination measure of the recursive grammar functions; on every
/// reachable input it simply equals `j`.
pub open spec fn bump(n: int, i: int, j: int) -> int {
    if i < j <= n {
        j
    } else if i + 1 <= n {
        i + 1
    } else {
        n
    }
}

/// Consumes one token of the given kind.
pub open spec fn spec_expect(ts: Seq<SpecToken>, i: int, k: TokenKind) -> Result<
    int,
    ParseError,
> {
    if i >= ts.len() {
        Err(ParseError::UnexpectedEndOfInput)
    } else if tok_kind(ts[i]) == k {
        Ok(i + 1)
    } else {
        Err(ParseError::UnexpectedToken { at: i as usize, expected: k })
    }
}

/// Consumes one identifier, yielding its text.
pub open spec fn spec_read_identifier(ts: Seq<SpecToken>, i: int) -> Result<
    (Seq<char>, int),
    ParseError,
> {
    if i >= ts.len() {
        Err(ParseError::UnexpectedEndOfInput)
    } else {
        match ts[i] {
            SpecToken::Identifier(s) => Ok((s, i + 1)),
            _ => Err(
                ParseError::UnexpectedToken { at: i as usize, expected: TokenKind::Identifier },
            ),
        }
    }
}

/// The metadata entries of a `&{ key: value, ... }` block, after the
/// opening brace: `key: value,` pairs until the closing brace.  Values
/// are bare identifiers or string literals; a repeated key is a
/// duplicate definition.
pub open spec fn spec_parse_metadata_items(
    ts: Seq<SpecToken>,
    i: int,
    acc: Seq<(Seq<char>, Seq<char>)>,
) -> Result<(Seq<(Seq<char>, Seq<char>)>, int), ParseError>
    decreases ts.len() - i,
{
    if i >= ts.len() {
        Err(ParseError::UnexpectedEndOfInput)
    } else if ts[i] == SpecToken::CloseBrace {
        Ok((acc, i + 1))
    } else {
        match spec_read_identifier(ts, i) {
            Err(e) => Err(e),
            Ok((key, j1)) => if ohm_contains(acc, key) {
                Err(ParseError::DuplicateDefinition { at: i as usize })
            } else {
                match spec_expect(ts, j1, TokenKind::Colon) {
                    Err(e) => Err(e),
                    Ok(j2) => if j2 >= ts.len() {
                        Err(ParseError::UnexpectedEndOfInput)
                    } else {
                        let value = match ts[j2] {
                            SpecToken::Identifier(v) => Ok(v),
                            SpecToken::StringLiteral(v) => Ok(v),
                            _ => Err(
                                ParseError::UnexpectedToken {
                                    at: j2 as usize,
                                    expected: TokenKind::Identifier,
                                },
                            ),
                        };
                        match value {
                            Err(e) => Err(e),
                            Ok(v) => match spec_expect(ts, j2 + 1, TokenKind::Comma) {
                                Err(e) => Err(e),
                                Ok(j3) => spec_parse_metadata_items(
                                    ts,
                                    bump(ts.len() as int, i, j3),
                                    acc.push((key, v)),
                                ),
                            },
                        }
                    },
                }
            },
        }
    }
}

/// An optional metadata suffix: nothing unless an `&` stands at `i`.
pub open spec fn spec_parse_metadata(ts: Seq<SpecToken>, i: int) -> Result<
    (Seq<(Seq<char>, Seq<char>)>, int),
    ParseError,
> {
    if i < ts.len() && ts[i] == SpecToken::Ampersand {
        match spec_expect(ts, i + 1, TokenKind::OpenBrace) {
            Err(e) => Err(e),
            Ok(j) => spec_parse_metadata_items(ts, j, Seq::empty()),
        }
    } else {
        Ok((Seq::empty(), i))
    }
}

/// The base of a shape: an identifier, possibly with generic
/// arguments, before any metadata or `?` suffix.
pub open spec fn spec_parse_base(ts: Seq<SpecToken>, i: int) -> Result<
    (SpecShape, int),
    ParseError,
>
    decreases ts.len() - i, 2int,
{
    match spec_read_identifier(ts, i) {
        Err(e) => Err(e),
        Ok((name, j0)) => if name == "List"@ || name == "Set"@ || name == "Optional"@ {
            match spec_parse_one_argument(ts, i) {
                Err(e) => Err(e),
                Ok((arg, j)) => if name == "List"@ {
                    Ok((SpecShape::List(Box::new(arg)), j))
                } else if name == "Set"@ {
                    Ok((SpecShape::SetOf(Box::new(arg)), j))
                } else {
                    Ok((SpecShape::Nullable(Box::new(arg)), j))
                },
            }
        } else if name == "Map"@ {
            spec_parse_two_arguments(ts, i)
        } else {
            match primitive_of_name(name) {
                Some(p) => Ok((SpecShape::Primitive(p), j0)),
                None => Ok((SpecShape::Reference(name), j0)),
            }
        },
    }
}

/// An annotated shape: a base identifier with optional generic
/// arguments, then an optional `&{...}` metadata block, then an
/// optional `?`, which wraps the whole shape in `Nullable` last.
pub open spec fn spec_parse_annotated_shape(ts: Seq<SpecToken>, i: int) -> Result<
    (SpecAnnotated<SpecShape>, int),
    ParseError,
>
    decreases ts.len() - i, 3int,
{
    match spec_parse_base(ts, i) {
        Err(e) => Err(e),
        Ok((shape, j)) => match spec_parse_metadata(ts, bump(ts.len() as int, i, j)) {
            Err(e) => Err(e),
            Ok((metadata, j2)) => if j2 < ts.len() && ts[j2] == SpecToken::QuestionMark {
                Ok(
                    (
                        SpecAnnotated { metadata, inner: SpecShape::Nullable(Box::new(shape)) },
                        j2 + 1,
                    ),
                )
            } else {
                Ok((SpecAnnotated { metadata, inner: shape }, j2))
            },
        },
    }
}

/// `< shape >` after a one-argument container keyword at `i`.
pub open spec fn spec_parse_one_argument(ts: Seq<SpecToken>, i: int) -> Result<
    (SpecShape, int),
    ParseError,
>
    decreases ts.len() - i, 1int,
{
    match spec_expect(ts, i + 1, TokenKind::AngleBracketOpen) {
        Err(e) => Err(e),
        Ok(j1) => match spec_parse_annotated_shape(ts, bump(ts.len() as int, i, j1)) {
            Err(e) => Err(e),
            Ok((a, j2)) => match spec_expect(ts, j2, TokenKind::AngleBracketClose) {
                Err(e) => Err(e),
                Ok(j3) => Ok((a.inner, j3)),
            },
        },
    }
}

/// `< shape , shape >` after `Map` at `i`.
pub open spec fn spec_parse_two_arguments(ts: Seq<SpecToken>, i: int) -> Result<
    (SpecShape, int),
    ParseError,
>
    decreases ts.len() - i, 1int,
{
    match spec_expect(ts, i + 1, TokenKind::AngleBracketOpen) {
        Err(e) => Err(e),
        Ok(j1) => match spec_parse_annotated_shape(ts, bump(ts.len() as int, i, j1)) {
            Err(e) => Err(e),
            Ok((k, j2)) => match spec_expect(ts, j2, TokenKind::Comma) {
                Err(e) => Err(e),
                Ok(j3) => match spec_parse_annotated_shape(ts, bump(ts.len() as int, i, j3)) {
                    Err(e) => Err(e),
                    Ok((v, j4)) => match spec_expect(ts, j4, TokenKind::AngleBracketClose) {
                        Err(e) => Err(e),
                        Ok(j5) => Ok(
                            (SpecShape::MapOf(Box::new(k.inner), Box::new(v.inner)), j5),
                        ),
                    },
                },
            },
        },
    }
}

/// Struct body after the opening brace: `name: shape,` fields until the
/// closing brace; a repeated field name is a duplicate definition.
pub open spec fn spec_parse_struct_fields(
    ts: Seq<SpecToken>,
    i: int,
    acc: Seq<(Seq<char>, SpecAnnotated<SpecShape>)>,
) -> Result<(Seq<(Seq<char>, SpecAnnotated<SpecShape>)>, int), ParseError>
    decreases ts.len() - i,
{
    if i >= ts.len() {
        Err(ParseError::UnexpectedEndOfInput)
    } else if ts[i] == SpecToken::CloseBrace {
        Ok((acc, i + 1))
    } else {
        match spec_read_identifier(ts, i) {
            Err(e) => Err(e),
            Ok((name, j1)) => if ohm_contains(acc, name) {
                Err(ParseError::DuplicateDefinition { at: i as usize })
            } else {
                match spec_expect(ts, j1, TokenKind::Colon) {
                    Err(e) => Err(e),
                    Ok(j2) => match spec_parse_annotated_shape(ts, bump(ts.len() as int, i, j2)) {
                        Err(e) => Err(e),
                        Ok((shape, j3)) => match spec_expect(ts, j3, TokenKind::Comma) {
                            Err(e) => Err(e),
                            Ok(j4) => spec_parse_struct_fields(
                                ts,
                                bump(ts.len() as int, i, j4),
                                acc.push((name, shape)),
                            ),
                        },
                    },
                }
            },
        }
    }
}

/// Enum body after the opening brace: `name,` variants until the
/// closing brace.
pub open spec fn spec_parse_enum_fields(ts: Seq<SpecToken>, i: int, acc: Seq<Seq<char>>) -> Result<
    (Seq<Seq<char>>, int),
    ParseError,
>
    decreases ts.len() - i,
{
    if i >= ts.len() {
        Err(ParseError::UnexpectedEndOfInput)
    } else if ts[i] == SpecToken::CloseBrace {
        Ok((acc, i + 1))
    } else {
        match spec_read_identifier(ts, i) {
            Err(e) => Err(e),
            Ok((name, j1)) => match spec_expect(ts, j1, TokenKind::Comma) {
                Err(e) => Err(e),
                Ok(j2) => spec_parse_enum_fields(ts, bump(ts.len() as int, i, j2), acc.push(name)),
            },
        }
    }
}

/// Method parameters after the opening parenthesis: `name: shape,`
/// until the closing parenthesis; a repeated name is a duplicate.
pub open spec fn spec_parse_parameters(
    ts: Seq<SpecToken>,
    i: int,
    acc: Seq<(Seq<char>, SpecAnnotated<SpecShape>)>,
) -> Result<(Seq<(Seq<char>, SpecAnnotated<SpecShape>)>, int), ParseError>
    decreases ts.len() - i,
{
    if i >= ts.len() {
        Err(ParseError::UnexpectedEndOfInput)
    } else if ts[i] == SpecToken::CloseParen {
        Ok((acc, i + 1))
    } else {
        match spec_read_identifier(ts, i) {
            Err(e) => Err(e),
            Ok((name, j1)) => if ohm_contains(acc, name) {
                Err(ParseError::DuplicateDefinition { at: i as usize })
            } else {
                match spec_expect(ts, j1, TokenKind::Colon) {
                    Err(e) => Err(e),
                    Ok(j2) => match spec_parse_annotated_shape(ts, bump(ts.len() as int, i, j2)) {
                        Err(e) => Err(e),
                        Ok((shape, j3)) => match spec_expect(ts, j3, TokenKind::Comma) {
                            Err(e) => Err(e),
                            Ok(j4) => spec_parse_parameters(
                                ts,
                                bump(ts.len() as int, i, j4),
                                acc.push((name, shape)),
                            ),
                        },
                    },
                }
            },
        }
    }
}

/// One service method: `name ( parameters ) [-> shape] [&{...}] ,`.
/// An absent `->` clause is a void return.
pub open spec fn spec_parse_method(ts: Seq<SpecToken>, i: int) -> Result<
    ((Seq<char>, SpecAnnotated<SpecMethod>), int),
    ParseError,
> {
    match spec_read_identifier(ts, i) {
        Err(e) => Err(e),
        Ok((name, j1)) => match spec_expect(ts, j1, TokenKind::OpenParen) {
            Err(e) => Err(e),
            Ok(j2) => match spec_parse_parameters(ts, j2, Seq::empty()) {
                Err(e) => Err(e),
                Ok((inputs, j3)) => {
                    let out = if j3 < ts.len() && ts[j3] == SpecToken::Dash {
                        match spec_expect(ts, j3 + 1, TokenKind::AngleBracketClose) {
                            Err(e) => Err(e),
                            Ok(j4) => match spec_parse_annotated_shape(ts, j4) {
                                Err(e) => Err(e),
                                Ok((shape, j5)) => Ok((Some(shape), j5)),
                            },
                        }
                    } else {
                        Ok((None, j3))
                    };
                    match out {
                        Err(e) => Err(e),
                        Ok((output, j6)) => match spec_parse_metadata(ts, j6) {
                            Err(e) => Err(e),
                            Ok((metadata, j7)) => match spec_expect(ts, j7, TokenKind::Comma) {
                                Err(e) => Err(e),
                                Ok(j8) => Ok(
                                    (
                                        (
                                            name,
                                            SpecAnnotated {
                                                metadata,
                                                inner: SpecMethod { inputs, output },
                                            },
                                        ),
                                        j8,
                                    ),
                                ),
                            },
                        },
                    }
                },
            },
        },
    }
}

/// Service body after the opening brace: methods until the closing
/// brace; a repeated method name is a duplicate definition.
pub open spec fn spec_parse_methods(
    ts: Seq<SpecToken>,
    i: int,
    acc: Seq<(Seq<char>, SpecAnnotated<SpecMethod>)>,
) -> Result<(Seq<(Seq<char>, SpecAnnotated<SpecMethod>)>, int), ParseError>
    decreases ts.len() - i,
{
    if i >= ts.len() {
        Err(ParseError::UnexpectedEndOfInput)
    } else if ts[i] == SpecToken::CloseBrace {
        Ok((acc, i + 1))
    } else {
        match spec_parse_method(ts, i) {
            Err(e) => Err(e),
            Ok(((name, method), j)) => if ohm_contains(acc, name) {
                Err(ParseError::DuplicateDefinition { at: i as usize })
            } else {
                spec_parse_methods(ts, bump(ts.len() as int, i, j), acc.push((name, method)))
            },
        }
    }
}

/// The empty schema every parse starts from.
pub open spec fn spec_empty_schema() -> SpecSchema {
    SpecSchema { imports: Seq::empty(), models: Seq::empty(), services: Seq::empty() }
}

/// Top-level declarations from position `i` to the end of the stream.
/// Each declaration dispatches on its leading keyword; any other
/// leading token is a fatal parse error.  A model or service name
/// defined twice is a duplicate definition, reported at the name.
pub open spec fn spec_parse_declarations(ts: Seq<SpecToken>, i: int, acc: SpecSchema) -> Result<
    (SpecSchema, int),
    ParseError,
>
    decreases ts.len() - i,
{
    let n = ts.len() as int;
    if i >= n {
        Ok((acc, i))
    } else {
        match ts[i] {
            SpecToken::Keyword(Keyword::Use) => match spec_read_identifier(ts, i + 1) {
                Err(e) => Err(e),
                Ok((name, j1)) => match spec_expect(ts, j1, TokenKind::SemiColon) {
                    Err(e) => Err(e),
                    Ok(j2) => spec_parse_declarations(
                        ts,
                        bump(n, i, j2),
                        SpecSchema { imports: acc.imports.push(name), ..acc },
                    ),
                },
            },
            SpecToken::Keyword(Keyword::Struct) => match spec_read_identifier(ts, i + 1) {
                Err(e) => Err(e),
                Ok((name, j1)) => if ohm_contains(acc.models, name) {
                    Err(ParseError::DuplicateDefinition { at: (i + 1) as usize })
                } else {
                    match spec_expect(ts, j1, TokenKind::OpenBrace) {
                        Err(e) => Err(e),
                        Ok(j2) => match spec_parse_struct_fields(ts, j2, Seq::empty()) {
                            Err(e) => Err(e),
                            Ok((fields, j3)) => spec_parse_declarations(
                                ts,
                                bump(n, i, j3),
                                SpecSchema {
                                    models: acc.models.push(
                                        (name, SpecModel::Struct(SpecStruct { fields })),
                                    ),
                                    ..acc
                                },
                            ),
                        },
                    }
                },
            },
            SpecToken::Keyword(Keyword::Enum) => match spec_read_identifier(ts, i + 1) {
                Err(e) => Err(e),
                Ok((name, j1)) => if ohm_contains(acc.models, name) {
                    Err(ParseError::DuplicateDefinition { at: (i + 1) as usize })
                } else {
                    match spec_expect(ts, j1, TokenKind::OpenBrace) {
                        Err(e) => Err(e),
                        Ok(j2) => match spec_parse_enum_fields(ts, j2, Seq::empty()) {
                            Err(e) => Err(e),
                            Ok((fields, j3)) => spec_parse_declarations(
                                ts,
                                bump(n, i, j3),
                                SpecSchema {
                                    models: acc.models.push(
                                        (name, SpecModel::Enum(SpecEnum { fields })),
                                    ),
                                    ..acc
                                },
                            ),
                        },
                    }
                },
            },
            SpecToken::Keyword(Keyword::Alias) => match spec_parse_alias_tail(ts, i + 1) {
                Err(e) => Err(e),
                Ok(((name, shape), j)) => if ohm_contains(acc.models, name) {
                    Err(ParseError::DuplicateDefinition { at: (i + 1) as usize })
                } else {
                    spec_parse_declarations(
                        ts,
                        bump(n, i, j),
                        SpecSchema {
                            models: acc.models.push(
                                (name, SpecModel::Alias(SpecAlias { shape })),
                            ),
                            ..acc
                        },
                    )
                },
            },
            SpecToken::Keyword(Keyword::Extern) => match spec_expect(
                ts,
                i + 1,
                TokenKind::Keyword,
            ) {
                Err(e) => Err(e),
                Ok(j0) => if ts[i + 1] != SpecToken::Keyword(Keyword::Alias) {
                    Err(
                        ParseError::UnexpectedToken {
                            at: (i + 1) as usize,
                            expected: TokenKind::Keyword,
                        },
                    )
                } else {
                    match spec_parse_alias_tail(ts, j0) {
                        Err(e) => Err(e),
                        Ok(((name, shape), j)) => if ohm_contains(acc.models, name) {
                            Err(ParseError::DuplicateDefinition { at: (i + 2) as usize })
                        } else {
                            spec_parse_declarations(
                                ts,
                                bump(n, i, j),
                                SpecSchema {
                                    models: acc.models.push(
                                        (name, SpecModel::External(SpecExternal { shape })),
                                    ),
                                    ..acc
                                },
                            )
                        },
                    }
                },
            },
            SpecToken::Keyword(Keyword::Service) => match spec_read_identifier(ts, i + 1) {
                Err(e) => Err(e),
                Ok((name, j1)) => if ohm_contains(acc.services, name) {
                    Err(ParseError::DuplicateDefinition { at: (i + 1) as usize })
                } else {
                    match spec_expect(ts, j1, TokenKind::OpenBrace) {
                        Err(e) => Err(e),
                        Ok(j2) => match spec_parse_methods(ts, j2, Seq::empty()) {
                            Err(e) => Err(e),
                            Ok((methods, j3)) => spec_parse_declarations(
                                ts,
                                bump(n, i, j3),
                                SpecSchema {
                                    services: acc.services.push(
                                        (name, SpecService { methods }),
                                    ),
                                    ..acc
                                },
                            ),
                        },
                    }
                },
            },
            _ => Err(ParseError::UnexpectedToken { at: i as usize, expected: TokenKind::Keyword }),
        }
    }
}

/// `name = shape ;` shared by alias and extern-alias declarations,
/// starting at the name.
pub open spec fn spec_parse_alias_tail(ts: Seq<SpecToken>, j0: int) -> Result<
    ((Seq<char>, SpecAnnotated<SpecShape>), int),
    ParseError,
> {
    match spec_read_identifier(ts, j0) {
        Err(e) => Err(e),
        Ok((name, j1)) => match spec_expect(ts, j1, TokenKind::Equals) {
            Err(e) => Err(e),
            Ok(j2) => match spec_parse_annotated_shape(ts, j2) {
                Err(e) => Err(e),
                Ok((shape, j3)) => match spec_expect(ts, j3, TokenKind::SemiColon) {
                    Err(e) => Err(e),
                    Ok(j4) => Ok(((name, shape), j4)),
                },
            },
        },
    }
}

/// A whole token stream as a schema.
pub open spec fn spec_parse_schema_tokens(ts: Seq<SpecToken>) -> Result<SpecSchema, ParseError> {
    match spec_parse_declarations(ts, 0, spec_empty_schema()) {
        Ok((s, _)) => Ok(s),
        Err(e) => Err(e),
    }
}

/// A whole source text as a schema: tokenize, then parse.
pub open spec fn spec_parse_schema(source: Seq<char>) -> Result<SpecSchema, ParseError> {
    spec_parse_schema_tokens(lex(source))
}

/// A source text holding exactly one shape, as that shape: the whole
/// token stream must be consumed.
pub open spec fn spec_parse_shape_source(source: Seq<char>) -> Result<SpecShape, ParseError> {
    match spec_parse_annotated_shape(lex(source), 0) {
        Ok((a, j)) => if j == lex(source).len() {
            Ok(a.inner)
        } else {
            Err(ParseError::TrailingInput { at: j as usize })
        },
        Err(e) => Err(e),
    }
}

/// The kind of an exec token.
fn kind_of(t: &Token) -> (k: TokenKind)
    ensures
        k == tok_kind(t@),
{
    match t {
        Token::Identifier(_) => TokenKind::Identifier,
        Token::Keyword(_) => TokenKind::Keyword,
        Token::OpenBrace => TokenKind::OpenBrace,
        Token::CloseBrace => TokenKind::CloseBrace,
        Token::OpenParen => TokenKind::OpenParen,
        Token::CloseParen => TokenKind::CloseParen,
        Token::Colon => TokenKind::Colon,
        Token::SemiColon => TokenKind::SemiColon,
        Token::QuestionMark => TokenKind::QuestionMark,
        Token::Ampersand => TokenKind::Ampersand,
        Token::AngleBracketOpen => TokenKind::AngleBracketOpen,
        Token::AngleBracketClose => TokenKind::AngleBracketClose,
        Token::Comma => TokenKind::Comma,
        Token::Equals => TokenKind::Equals,
        Token::Dash => TokenKind::Dash,
        Token::Quote => TokenKind::Quote,
        Token::StringLiteral(_) => TokenKind::StringLiteral,
    }
}

/// The parser state: the token stream and the cursor into it.
pub struct SchemaParser {
    pub tokens: Vec<Token>,
    pub pos: usize,
}

impl SchemaParser {
    /// The views of the token stream.
    pub open spec fn toks(&self) -> Seq<SpecToken> {
        token_views(self.tokens@)
    }

    /// The cursor as a mathematical position.
    pub open spec fn cur(&self) -> int {
        self.pos as int
    }

    /// Steps over the token at the cursor.
    fn advance(&mut self)
        requires
            old(self).pos < old(self).tokens@.len(),
        ensures
            final(self).tokens@ == old(self).tokens@,
            final(self).pos == old(self).pos + 1,
    {
        let n = self.tokens.len();
        proof {
            assert(self.pos < n);
        }
        self.pos = self.pos + 1;
    }

    /// Consumes one token of the given kind.
    fn expect(&mut self, k: TokenKind) -> (r: Result<(), ParseError>)
        ensures
            final(self).tokens@ == old(self).tokens@,
            match r {
                Ok(_) => spec_expect(old(self).toks(), old(self).cur(), k) == Ok::<
                    int,
                    ParseError,
                >(final(self).cur()) && final(self).pos == old(self).pos + 1 && final(self).pos
                    <= final(self).tokens@.len(),
                Err(e) => spec_expect(old(self).toks(), old(self).cur(), k) == Err::<
                    int,
                    ParseError,
                >(e) && final(self).pos == old(self).pos,
            },
    {
        if self.pos >= self.tokens.len() {
            return Err(ParseError::UnexpectedEndOfInput);
        }
        let actual = kind_of(&self.tokens[self.pos]);
        if actual == k {
            self.pos += 1;
            Ok(())
        } else {
            Err(ParseError::UnexpectedToken { at: self.pos, expected: k })
        }
    }

    /// Consumes one identifier and yields its text.
    fn read_identifier(&mut self) -> (r: Result<String, ParseError>)
        ensures
            final(self).tokens@ == old(self).tokens@,
            match r {
                Ok(s) => spec_read_identifier(old(self).toks(), old(self).cur()) == Ok::<
                    (Seq<char>, int),
                    ParseError,
                >((s@, final(self).cur())) && final(self).pos == old(self).pos + 1 && final(self).pos <= final(self).tokens@.len(),
                Err(e) => spec_read_identifier(old(self).toks(), old(self).cur()) == Err::<
                    (Seq<char>, int),
                    ParseError,
                >(e) && final(self).pos == old(self).pos,
            },
    {
        if self.pos >= self.tokens.len() {
            return Err(ParseError::UnexpectedEndOfInput);
        }
        match &self.tokens[self.pos] {
            Token::Identifier(s) => {
                let out = s.clone();
                self.pos += 1;
                Ok(out)
            },
            _ => Err(
                ParseError::UnexpectedToken { at: self.pos, expected: TokenKind::Identifier },
            ),
        }
    }

    /// Whether the next token has the given kind (false at end of
    /// input).
    fn peek_is(&self, k: TokenKind) -> (r: bool)
        ensures
            r == (self.cur() < self.toks().len() && tok_kind(self.toks()[self.cur()]) == k),
            r ==> self.pos < self.tokens@.len(),
    {
        if self.pos < self.tokens.len() {
            let actual = kind_of(&self.tokens[self.pos]);
            actual == k
        } else {
            false
        }
    }

    /// An optional `&{ key: value, ... }` metadata block.
    #[verifier::loop_isolation(false)]
    fn parse_metadata(&mut self) -> (r: Result<OrderedHashMap<String>, ParseError>)
        requires
            old(self).pos <= old(self).tokens@.len(),
        ensures
            final(self).tokens@ == old(self).tokens@,
            match r {
                Ok(m) => spec_parse_metadata(old(self).toks(), old(self).cur()) == Ok::<
                    (Seq<(Seq<char>, Seq<char>)>, int),
                    ParseError,
                >((m@, final(self).cur())) && final(self).pos >= old(self).pos && final(self).pos <= final(self).tokens@.len(),
                Err(e) => spec_parse_metadata(old(self).toks(), old(self).cur()) == Err::<
                    (Seq<(Seq<char>, Seq<char>)>, int),
                    ParseError,
                >(e),
            },
    {
        let ghost i0 = self.cur();
        if !self.peek_is(TokenKind::Ampersand) {
            let m = OrderedHashMap::<String>::new();
            return Ok(m);
        }
        proof {
            assert(self.toks()[i0] == SpecToken::Ampersand);
        }
        self.advance();
        match self.expect(TokenKind::OpenBrace) {
            Ok(_) => {},
            Err(e) => {
                return Err(e);
            },
        }
        let ghost jstart = self.cur();
        let ghost target = spec_parse_metadata_items(self.toks(), jstart, Seq::empty());
        proof {
            assert(spec_parse_metadata(old(self).toks(), i0) == target);
        }
        let mut acc = OrderedHashMap::<String>::new();
        loop
            invariant
                self.tokens@ == old(self).tokens@,
                old(self).pos <= self.pos <= self.tokens@.len(),
                spec_parse_metadata_items(self.toks(), self.cur(), acc@) == target,
            decreases self.tokens@.len() - self.pos,
        {
            let ghost i = self.cur();
            let ghost acc0 = acc@;
            if self.pos >= self.tokens.len() {
                return Err(ParseError::UnexpectedEndOfInput);
            }
            if self.peek_is(TokenKind::CloseBrace) {
                proof {
                    assert(self.toks()[i] == SpecToken::CloseBrace);
                }
                self.advance();
                return Ok(acc);
            }
            let key_at = self.pos;
            let key = match self.read_identifier() {
                Ok(v) => v,
                Err(e) => {
                    return Err(e);
                },
            };
            if acc.contains_key(key.as_str()) {
                return Err(ParseError::DuplicateDefinition { at: key_at });
            }
            match self.expect(TokenKind::Colon) {
                Ok(_) => {},
                Err(e) => {
                    return Err(e);
                },
            }
            if self.pos >= self.tokens.len() {
                return Err(ParseError::UnexpectedEndOfInput);
            }
            let ghost j2 = self.cur();
            let value = match &self.tokens[self.pos] {
                Token::Identifier(v) => v.clone(),
                Token::StringLiteral(v) => v.clone(),
                _ => {
                    return Err(
                        ParseError::UnexpectedToken {
                            at: self.pos,
                            expected: TokenKind::Identifier,
                        },
                    );
                },
            };
            self.pos = self.pos + 1;
            match self.expect(TokenKind::Comma) {
                Ok(_) => {},
                Err(e) => {
                    return Err(e);
                },
            }
            acc.insert(key, value);
            proof {
                assert(acc@ =~= acc0.push((key@, value@)));
                assert(bump(self.toks().len() as int, i, self.cur()) == self.cur());
            }
        }
    }

    /// One annotated shape, `Nullable` applied last.
    #[verifier::rlimit(80)]
    fn parse_annotated_shape(&mut self) -> (r: Result<Annotated<Shape>, ParseError>)
        requires
            old(self).pos <= old(self).tokens@.len(),
        ensures
            final(self).tokens@ == old(self).tokens@,
            match r {
                Ok(a) => spec_parse_annotated_shape(old(self).toks(), old(self).cur()) == Ok::<
                    (SpecAnnotated<SpecShape>, int),
                    ParseError,
                >((a@, final(self).cur())) && final(self).pos > old(self).pos && final(self).pos
                    <= final(self).tokens@.len(),
                Err(e) => spec_parse_annotated_shape(old(self).toks(), old(self).cur()) == Err::<
                    (SpecAnnotated<SpecShape>, int),
                    ParseError,
                >(e),
            },
        decreases old(self).tokens@.len() - old(self).pos,
    {
        let ghost i0 = self.cur();
        let name = match self.read_identifier() {
            Ok(v) => v,
            Err(e) => {
                return Err(e);
            },
        };
        let one_arg = crate::text::str_eq(name.as_str(), "List") || crate::text::str_eq(
            name.as_str(),
            "Set",
        ) || crate::text::str_eq(name.as_str(), "Optional");
        let base: Shape;
        if one_arg {
            match self.expect(TokenKind::AngleBracketOpen) {
                Ok(_) => {},
                Err(e) => {
                    return Err(e);
                },
            }
            let arg = match self.parse_annotated_shape() {
                Ok(a) => a,
                Err(e) => {
                    return Err(e);
                },
            };
            match self.expect(TokenKind::AngleBracketClose) {
                Ok(_) => {},
                Err(e) => {
                    return Err(e);
                },
            }
            let ghost argv = arg@;
            proof {
                assert(spec_parse_one_argument(old(self).toks(), i0) == Ok::<
                    (SpecShape, int),
                    ParseError,
                >((argv.inner, self.cur())));
            }
            base = if crate::text::str_eq(name.as_str(), "List") {
                Shape::List(Box::new(arg.inner))
            } else if crate::text::str_eq(name.as_str(), "Set") {
                Shape::SetOf(Box::new(arg.inner))
            } else {
                Shape::Nullable(Box::new(arg.inner))
            };
            proof {
                assert(arg@ == argv);
            }
        } else if crate::text::str_eq(name.as_str(), "Map") {
            match self.expect(TokenKind::AngleBracketOpen) {
                Ok(_) => {},
                Err(e) => {
                    return Err(e);
                },
            }
            let key = match self.parse_annotated_shape() {
                Ok(a) => a,
                Err(e) => {
                    return Err(e);
                },
            };
            match self.expect(TokenKind::Comma) {
                Ok(_) => {},
                Err(e) => {
                    return Err(e);
                },
            }
            let value = match self.parse_annotated_shape() {
                Ok(a) => a,
                Err(e) => {
                    return Err(e);
                },
            };
            match self.expect(TokenKind::AngleBracketClose) {
                Ok(_) => {},
                Err(e) => {
                    return Err(e);
                },
            }
            let ghost keyv = key@;
            let ghost valuev = value@;
            proof {
                assert(spec_parse_two_arguments(old(self).toks(), i0) == Ok::<
                    (SpecShape, int),
                    ParseError,
                >((SpecShape::MapOf(Box::new(keyv.inner), Box::new(valuev.inner)), self.cur())));
            }
            base = Shape::MapOf(Box::new(key.inner), Box::new(value.inner));
            proof {
                assert(base@ == SpecShape::MapOf(Box::new(keyv.inner), Box::new(valuev.inner)));
            }
        } else {
            base = match Primitive::from_name(name.as_str()) {
                Some(p) => Shape::Primitive(p),
                None => Shape::Reference(name),
            };
        }
        let ghost jbase = self.cur();
        let metadata = match self.parse_metadata() {
            Ok(m) => m,
            Err(e) => {
                proof {
                    assert(bump(self.toks().len() as int, i0, jbase) == jbase);
                }
                return Err(e);
            },
        };
        proof {
            assert(bump(self.toks().len() as int, i0, jbase) == jbase);
        }
        if self.peek_is(TokenKind::QuestionMark) {
            proof {
                assert(self.toks()[self.cur()] == SpecToken::QuestionMark);
            }
            self.advance();
            Ok(Annotated { metadata, inner: Shape::Nullable(Box::new(base)) })
        } else {
            Ok(Annotated { metadata, inner: base })
        }
    }

    /// Struct body after the opening brace.
    #[verifier::loop_isolation(false)]
    fn parse_struct_fields(&mut self) -> (r: Result<OrderedHashMap<Annotated<Shape>>, ParseError>)
        requires
            old(self).pos <= old(self).tokens@.len(),
        ensures
            final(self).tokens@ == old(self).tokens@,
            match r {
                Ok(m) => spec_parse_struct_fields(old(self).toks(), old(self).cur(), Seq::empty())
                    == Ok::<(Seq<(Seq<char>, SpecAnnotated<SpecShape>)>, int), ParseError>(
                    (m@, final(self).cur()),
                ) && final(self).pos > old(self).pos && final(self).pos <= final(self).tokens@.len(),
                Err(e) => spec_parse_struct_fields(old(self).toks(), old(self).cur(), Seq::empty())
                    == Err::<(Seq<(Seq<char>, SpecAnnotated<SpecShape>)>, int), ParseError>(e),
            },
    {
        let ghost target = spec_parse_struct_fields(self.toks(), self.cur(), Seq::empty());
        let mut acc = OrderedHashMap::<Annotated<Shape>>::new();
        loop
            invariant
                self.tokens@ == old(self).tokens@,
                old(self).pos <= self.pos <= self.tokens@.len(),
                spec_parse_struct_fields(self.toks(), self.cur(), acc@) == target,
            decreases self.tokens@.len() - self.pos,
        {
            let ghost i = self.cur();
            let ghost acc0 = acc@;
            if self.pos >= self.tokens.len() {
                return Err(ParseError::UnexpectedEndOfInput);
            }
            if self.peek_is(TokenKind::CloseBrace) {
                proof {
                    assert(self.toks()[i] == SpecToken::CloseBrace);
                }
                self.advance();
                return Ok(acc);
            }
            let name_at = self.pos;
            let name = match self.read_identifier() {
                Ok(v) => v,
                Err(e) => {
                    return Err(e);
                },
            };
            if acc.contains_key(name.as_str()) {
                return Err(ParseError::DuplicateDefinition { at: name_at });
            }
            match self.expect(TokenKind::Colon) {
                Ok(_) => {},
                Err(e) => {
                    return Err(e);
                },
            }
            proof {
                assert(bump(self.toks().len() as int, i, self.cur()) == self.cur());
            }
            let shape = match self.parse_annotated_shape() {
                Ok(v) => v,
                Err(e) => {
                    return Err(e);
                },
            };
            match self.expect(TokenKind::Comma) {
                Ok(_) => {},
                Err(e) => {
                    return Err(e);
                },
            }
            let ghost shapev = shape@;
            acc.insert(name, shape);
            proof {
                assert(acc@ =~= acc0.push((name@, shapev)));
                assert(bump(self.toks().len() as int, i, self.cur()) == self.cur());
            }
        }
    }

    /// Enum body after the opening brace.
    #[verifier::loop_isolation(false)]
    fn parse_enum_fields(&mut self) -> (r: Result<Vec<String>, ParseError>)
        requires
            old(self).pos <= old(self).tokens@.len(),
        ensures
            final(self).tokens@ == old(self).tokens@,
            match r {
                Ok(fields) => spec_parse_enum_fields(
                    old(self).toks(),
                    old(self).cur(),
                    Seq::empty(),
                ) == Ok::<(Seq<Seq<char>>, int), ParseError>(
                    (crate::lang::schema::str_views(fields@), final(self).cur()),
                ) && final(self).pos > old(self).pos && final(self).pos <= final(self).tokens@.len(),
                Err(e) => spec_parse_enum_fields(old(self).toks(), old(self).cur(), Seq::empty())
                    == Err::<(Seq<Seq<char>>, int), ParseError>(e),
            },
    {
        let ghost target = spec_parse_enum_fields(self.toks(), self.cur(), Seq::empty());
        let mut acc: Vec<String> = Vec::new();
        proof {
            assert(crate::lang::schema::str_views(acc@) =~= Seq::<Seq<char>>::empty());
        }
        loop
            invariant
                self.tokens@ == old(self).tokens@,
                old(self).pos <= self.pos <= self.tokens@.len(),
                spec_parse_enum_fields(
                    self.toks(),
                    self.cur(),
                    crate::lang::schema::str_views(acc@),
                ) == target,
            decreases self.tokens@.len() - self.pos,
        {
            let ghost i = self.cur();
            let ghost acc0 = crate::lang::schema::str_views(acc@);
            if self.pos >= self.tokens.len() {
                return Err(ParseError::UnexpectedEndOfInput);
            }
            if self.peek_is(TokenKind::CloseBrace) {
                proof {
                    assert(self.toks()[i] == SpecToken::CloseBrace);
                }
                self.advance();
                return Ok(acc);
            }
            let name = match self.read_identifier() {
                Ok(v) => v,
                Err(e) => {
                    return Err(e);
                },
            };
            match self.expect(TokenKind::Comma) {
                Ok(_) => {},
                Err(e) => {
                    return Err(e);
                },
            }
            let ghost namev = name@;
            acc.push(name);
            proof {
                assert(crate::lang::schema::str_views(acc@) =~= acc0.push(namev));
                assert(bump(self.toks().len() as int, i, self.cur()) == self.cur());
            }
        }
    }

    /// Method parameters after the opening parenthesis.
    #[verifier::loop_isolation(false)]
    fn parse_parameters(&mut self) -> (r: Result<OrderedHashMap<Annotated<Shape>>, ParseError>)
        requires
            old(self).pos <= old(self).tokens@.len(),
        ensures
            final(self).tokens@ == old(self).tokens@,
            match r {
                Ok(m) => spec_parse_parameters(old(self).toks(), old(self).cur(), Seq::empty())
                    == Ok::<(Seq<(Seq<char>, SpecAnnotated<SpecShape>)>, int), ParseError>(
                    (m@, final(self).cur()),
                ) && final(self).pos > old(self).pos && final(self).pos <= final(self).tokens@.len(),
                Err(e) => spec_parse_parameters(old(self).toks(), old(self).cur(), Seq::empty())
                    == Err::<(Seq<(Seq<char>, SpecAnnotated<SpecShape>)>, int), ParseError>(e),
            },
    {
        let ghost target = spec_parse_parameters(self.toks(), self.cur(), Seq::empty());
        let mut acc = OrderedHashMap::<Annotated<Shape>>::new();
        loop
            invariant
                self.tokens@ == old(self).tokens@,
                old(self).pos <= self.pos <= self.tokens@.len(),
                spec_parse_parameters(self.toks(), self.cur(), acc@) == target,
            decreases self.tokens@.len() - self.pos,
        {
            let ghost i = self.cur();
            let ghost acc0 = acc@;
            if self.pos >= self.tokens.len() {
                return Err(ParseError::UnexpectedEndOfInput);
            }
            if self.peek_is(TokenKind::CloseParen) {
                proof {
                    assert(self.toks()[i] == SpecToken::CloseParen);
                }
                self.advance();
                return Ok(acc);
            }
            let name_at = self.pos;
            let name = match self.read_identifier() {
                Ok(v) => v,
                Err(e) => {
                    return Err(e);
                },
            };
            if acc.contains_key(name.as_str()) {
                return Err(ParseError::DuplicateDefinition { at: name_at });
            }
            match self.expect(TokenKind::Colon) {
                Ok(_) => {},
                Err(e) => {
                    return Err(e);
                },
            }
            proof {
                assert(bump(self.toks().len() as int, i, self.cur()) == self.cur());
            }
            let shape = match self.parse_annotated_shape() {
                Ok(v) => v,
                Err(e) => {
                    return Err(e);
                },
            };
            match self.expect(TokenKind::Comma) {
                Ok(_) => {},
                Err(e) => {
                    return Err(e);
                },
            }
            let ghost shapev = shape@;
            acc.insert(name, shape);
            proof {
                assert(acc@ =~= acc0.push((name@, shapev)));
                assert(bump(self.toks().len() as int, i, self.cur()) == self.cur());
            }
        }
    }

    /// One service method.
    fn parse_method(&mut self) -> (r: Result<(String, Annotated<ServiceMethod>), ParseError>)
        requires
            old(self).pos <= old(self).tokens@.len(),
        ensures
            final(self).tokens@ == old(self).tokens@,
            match r {
                Ok(m) => spec_parse_method(old(self).toks(), old(self).cur()) == Ok::<
                    ((Seq<char>, SpecAnnotated<SpecMethod>), int),
                    ParseError,
                >(((m.0@, m.1@), final(self).cur())) && final(self).pos > old(self).pos && final(self).pos <= final(self).tokens@.len(),
                Err(e) => spec_parse_method(old(self).toks(), old(self).cur()) == Err::<
                    ((Seq<char>, SpecAnnotated<SpecMethod>), int),
                    ParseError,
                >(e),
            },
    {
        let name = match self.read_identifier() {
            Ok(v) => v,
            Err(e) => {
                return Err(e);
            },
        };
        match self.expect(TokenKind::OpenParen) {
            Ok(_) => {},
            Err(e) => {
                return Err(e);
            },
        }
        let inputs = match self.parse_parameters() {
            Ok(v) => v,
            Err(e) => {
                return Err(e);
            },
        };
        let output: Option<Annotated<Shape>>;
        if self.peek_is(TokenKind::Dash) {
            proof {
                assert(self.toks()[self.cur()] == SpecToken::Dash);
            }
            self.advance();
            match self.expect(TokenKind::AngleBracketClose) {
                Ok(_) => {},
                Err(e) => {
                    return Err(e);
                },
            }
            let shape = match self.parse_annotated_shape() {
                Ok(v) => v,
                Err(e) => {
                    return Err(e);
                },
            };
            output = Some(shape);
        } else {
            output = None;
        }
        let metadata = match self.parse_metadata() {
            Ok(v) => v,
            Err(e) => {
                return Err(e);
            },
        };
        match self.expect(TokenKind::Comma) {
            Ok(_) => {},
            Err(e) => {
                return Err(e);
            },
        }
        Ok((name, Annotated { metadata, inner: ServiceMethod { inputs, output } }))
    }

    /// Service body after the opening brace.
    #[verifier::loop_isolation(false)]
    fn parse_methods(&mut self) -> (r: Result<
        OrderedHashMap<Annotated<ServiceMethod>>,
        ParseError,
    >)
        requires
            old(self).pos <= old(self).tokens@.len(),
        ensures
            final(self).tokens@ == old(self).tokens@,
            match r {
                Ok(m) => spec_parse_methods(old(self).toks(), old(self).cur(), Seq::empty())
                    == Ok::<(Seq<(Seq<char>, SpecAnnotated<SpecMethod>)>, int), ParseError>(
                    (m@, final(self).cur()),
                ) && final(self).pos > old(self).pos && final(self).pos <= final(self).tokens@.len(),
                Err(e) => spec_parse_methods(old(self).toks(), old(self).cur(), Seq::empty())
                    == Err::<(Seq<(Seq<char>, SpecAnnotated<SpecMethod>)>, int), ParseError>(e),
            },
    {
        let ghost target = spec_parse_methods(self.toks(), self.cur(), Seq::empty());
        let mut acc = OrderedHashMap::<Annotated<ServiceMethod>>::new();
        loop
            invariant
                self.tokens@ == old(self).tokens@,
                old(self).pos <= self.pos <= self.tokens@.len(),
                spec_parse_methods(self.toks(), self.cur(), acc@) == target,
            decreases self.tokens@.len() - self.pos,
        {
            let ghost i = self.cur();
            let ghost acc0 = acc@;
            if self.pos >= self.tokens.len() {
                return Err(ParseError::UnexpectedEndOfInput);
            }
            if self.peek_is(TokenKind::CloseBrace) {
                proof {
                    assert(self.toks()[i] == SpecToken::CloseBrace);
                }
                self.advance();
                return Ok(acc);
            }
            let method_at = self.pos;
            let (name, method) = match self.parse_method() {
                Ok(v) => v,
                Err(e) => {
                    return Err(e);
                },
            };
            if acc.contains_key(name.as_str()) {
                return Err(ParseError::DuplicateDefinition { at: method_at });
            }
            let ghost methodv = method@;
            acc.insert(name, method);
            proof {
                assert(acc@ =~= acc0.push((name@, methodv)));
                assert(bump(self.toks().len() as int, i, self.cur()) == self.cur());
            }
        }
    }

    /// `name = shape ;` shared by alias and extern-alias declarations.
    fn parse_alias_tail(&mut self) -> (r: Result<(String, Annotated<Shape>), ParseError>)
        requires
            old(self).pos <= old(self).tokens@.len(),
        ensures
            final(self).tokens@ == old(self).tokens@,
            match r {
                Ok(t) => spec_parse_alias_tail(old(self).toks(), old(self).cur()) == Ok::<
                    ((Seq<char>, SpecAnnotated<SpecShape>), int),
                    ParseError,
                >(((t.0@, t.1@), final(self).cur())) && final(self).pos > old(self).pos && final(self).pos <= final(self).tokens@.len(),
                Err(e) => spec_parse_alias_tail(old(self).toks(), old(self).cur()) == Err::<
                    ((Seq<char>, SpecAnnotated<SpecShape>), int),
                    ParseError,
                >(e),
            },
    {
        let name = match self.read_identifier() {
            Ok(v) => v,
            Err(e) => {
                return Err(e);
            },
        };
        match self.expect(TokenKind::Equals) {
            Ok(_) => {},
            Err(e) => {
                return Err(e);
            },
        }
        let shape = match self.parse_annotated_shape() {
            Ok(v) => v,
            Err(e) => {
                return Err(e);
            },
        };
        match self.expect(TokenKind::SemiColon) {
            Ok(_) => {},
            Err(e) => {
                return Err(e);
            },
        }
        Ok((name, shape))
    }

    /// The next keyword, if a keyword stands at the cursor.
    fn peek_keyword(&self) -> (r: Option<Keyword>)
        ensures
            match r {
                Some(k) => self.cur() < self.toks().len() && self.toks()[self.cur()]
                    == SpecToken::Keyword(k) && self.pos < self.tokens@.len(),
                None => self.cur() >= self.toks().len() || !(self.toks()[self.cur()] is Keyword),
            },
    {
        if self.pos < self.tokens.len() {
            match &self.tokens[self.pos] {
                Token::Keyword(k) => Some(*k),
                _ => None,
            }
        } else {
            None
        }
    }

    /// All top-level declarations, to the end of the token stream.
    #[verifier::loop_isolation(false)]
    #[verifier::rlimit(100)]
    pub fn parse_declarations(&mut self) -> (r: Result<Schema, ParseError>)
        requires
            old(self).pos <= old(self).tokens@.len(),
        ensures
            final(self).tokens@ == old(self).tokens@,
            match r {
                Ok(s) => spec_parse_declarations(
                    old(self).toks(),
                    old(self).cur(),
                    spec_empty_schema(),
                ) == Ok::<(SpecSchema, int), ParseError>((s@, final(self).cur())),
                Err(e) => spec_parse_declarations(
                    old(self).toks(),
                    old(self).cur(),
                    spec_empty_schema(),
                ) == Err::<(SpecSchema, int), ParseError>(e),
            },
    {
        let ghost target = spec_parse_declarations(self.toks(), self.cur(), spec_empty_schema());
        let mut imports: Vec<String> = Vec::new();
        let mut models = OrderedHashMap::<Model>::new();
        let mut services = OrderedHashMap::<Service>::new();
        proof {
            assert(crate::lang::schema::str_views(imports@) =~= Seq::<Seq<char>>::empty());
        }
        loop
            invariant
                self.tokens@ == old(self).tokens@,
                old(self).pos <= self.pos <= self.tokens@.len(),
                spec_parse_declarations(
                    self.toks(),
                    self.cur(),
                    SpecSchema {
                        imports: crate::lang::schema::str_views(imports@),
                        models: models@,
                        services: services@,
                    },
                ) == target,
            decreases self.tokens@.len() - self.pos,
        {
            let ghost i = self.cur();
            let ghost accv = SpecSchema {
                imports: crate::lang::schema::str_views(imports@),
                models: models@,
                services: services@,
            };
            if self.pos >= self.tokens.len() {
                let s = Schema { imports, models, services };
                proof {
                    assert(s@ == accv);
                }
                return Ok(s);
            }
            let keyword = match self.peek_keyword() {
                Some(k) => k,
                None => {
                    return Err(
                        ParseError::UnexpectedToken {
                            at: self.pos,
                            expected: TokenKind::Keyword,
                        },
                    );
                },
            };
            match keyword {
                Keyword::Use => {
                    self.advance();
                    let name = match self.read_identifier() {
                        Ok(v) => v,
                        Err(e) => {
                            return Err(e);
                        },
                    };
                    match self.expect(TokenKind::SemiColon) {
                        Ok(_) => {},
                        Err(e) => {
                            return Err(e);
                        },
                    }
                    let ghost namev = name@;
                    imports.push(name);
                    proof {
                        assert(crate::lang::schema::str_views(imports@) =~= accv.imports.push(
                            namev,
                        ));
                        assert(bump(self.toks().len() as int, i, self.cur()) == self.cur());
                    }
                },
                Keyword::Struct => {
                    self.advance();
                    let name_at = self.pos;
                    let name = match self.read_identifier() {
                        Ok(v) => v,
                        Err(e) => {
                            return Err(e);
                        },
                    };
                    if models.contains_key(name.as_str()) {
                        return Err(ParseError::DuplicateDefinition { at: name_at });
                    }
                    match self.expect(TokenKind::OpenBrace) {
                        Ok(_) => {},
                        Err(e) => {
                            return Err(e);
                        },
                    }
                    let fields = match self.parse_struct_fields() {
                        Ok(v) => v,
                        Err(e) => {
                            return Err(e);
                        },
                    };
                    let ghost fieldsv = fields@;
                    models.insert(name, Model::Struct(Struct { fields }));
                    proof {
                        assert(models@ =~= accv.models.push(
                            (name@, SpecModel::Struct(SpecStruct { fields: fieldsv })),
                        ));
                        assert(bump(self.toks().len() as int, i, self.cur()) == self.cur());
                    }
                },
                Keyword::Enum => {
                    self.advance();
                    let name_at = self.pos;
                    let name = match self.read_identifier() {
                        Ok(v) => v,
                        Err(e) => {
                            return Err(e);
                        },
                    };
                    if models.contains_key(name.as_str()) {
                        return Err(ParseError::DuplicateDefinition { at: name_at });
                    }
                    match self.expect(TokenKind::OpenBrace) {
                        Ok(_) => {},
                        Err(e) => {
                            return Err(e);
                        },
                    }
                    let fields = match self.parse_enum_fields() {
                        Ok(v) => v,
                        Err(e) => {
                            return Err(e);
                        },
                    };
                    let ghost fieldsv = crate::lang::schema::str_views(fields@);
                    models.insert(name, Model::Enum(Enum { fields }));
                    proof {
                        assert(models@ =~= accv.models.push(
                            (name@, SpecModel::Enum(SpecEnum { fields: fieldsv })),
                        ));
                        assert(bump(self.toks().len() as int, i, self.cur()) == self.cur());
                    }
                },
                Keyword::Alias => {
                    self.advance();
                    let name_at = self.pos;
                    let (name, shape) = match self.parse_alias_tail() {
                        Ok(v) => v,
                        Err(e) => {
                            return Err(e);
                        },
                    };
                    if models.contains_key(name.as_str()) {
                        return Err(ParseError::DuplicateDefinition { at: name_at });
                    }
                    let ghost shapev = shape@;
                    models.insert(name, Model::Alias(Alias { shape }));
                    proof {
                        assert(models@ =~= accv.models.push(
                            (name@, SpecModel::Alias(SpecAlias { shape: shapev })),
                        ));
                        assert(bump(self.toks().len() as int, i, self.cur()) == self.cur());
                    }
                },
                Keyword::Extern => {
                    self.advance();
                    if self.pos >= self.tokens.len() {
                        return Err(ParseError::UnexpectedEndOfInput);
                    }
                    match self.peek_keyword() {
                        Some(Keyword::Alias) => {},
                        _ => {
                            return Err(
                                ParseError::UnexpectedToken {
                                    at: self.pos,
                                    expected: TokenKind::Keyword,
                                },
                            );
                        },
                    }
                    self.advance();
                    let name_at = self.pos;
                    let (name, shape) = match self.parse_alias_tail() {
                        Ok(v) => v,
                        Err(e) => {
                            return Err(e);
                        },
                    };
                    if models.contains_key(name.as_str()) {
                        return Err(ParseError::DuplicateDefinition { at: name_at });
                    }
                    let ghost shapev = shape@;
                    models.insert(name, Model::External(External { shape }));
                    proof {
                        assert(models@ =~= accv.models.push(
                            (name@, SpecModel::External(SpecExternal { shape: shapev })),
                        ));
                        assert(bump(self.toks().len() as int, i, self.cur()) == self.cur());
                    }
                },
                Keyword::Service => {
                    self.advance();
                    let name_at = self.pos;
                    let name = match self.read_identifier() {
                        Ok(v) => v,
                        Err(e) => {
                            return Err(e);
                        },
                    };
                    if services.contains_key(name.as_str()) {
                        return Err(ParseError::DuplicateDefinition { at: name_at });
                    }
                    match self.expect(TokenKind::OpenBrace) {
                        Ok(_) => {},
                        Err(e) => {
                            return Err(e);
                        },
                    }
                    let methods = match self.parse_methods() {
                        Ok(v) => v,
                        Err(e) => {
                            return Err(e);
                        },
                    };
                    let ghost methodsv = methods@;
                    services.insert(name, Service { methods });
                    proof {
                        assert(services@ =~= accv.services.push(
                            (name@, SpecService { methods: methodsv }),
                        ));
                        assert(bump(self.toks().len() as int, i, self.cur()) == self.cur());
                    }
                },
            }
        }
    }
}

/// Parses a complete source text into a schema.
pub fn parse_schema(source: &str) -> (r: Result<Schema, ParseError>)
    ensures
        match r {
            Ok(s) => spec_parse_schema(source@) == Ok::<SpecSchema, ParseError>(s@),
            Err(e) => spec_parse_schema(source@) == Err::<SpecSchema, ParseError>(e),
        },
{
    let tokens = get_tokens(source);
    let mut parser = SchemaParser { tokens, pos: 0 };
    parser.parse_declarations()
}

/// Parses a source text holding exactly one shape.
pub fn parse_shape(source: &str) -> (r: Result<Shape, ParseError>)
    ensures
        match r {
            Ok(s) => spec_parse_shape_source(source@) == Ok::<SpecShape, ParseError>(s@),
            Err(e) => spec_parse_shape_source(source@) == Err::<SpecShape, ParseError>(e),
        },
{
    let tokens = get_tokens(source);
    let mut parser = SchemaParser { tokens, pos: 0 };
    let a = match parser.parse_annotated_shape() {
        Ok(v) => v,
        Err(e) => {
            return Err(e);
        },
    };
    if parser.pos == parser.tokens.len() {
        Ok(a.inner)
    } else {
        Err(ParseError::TrailingInput { at: parser.pos })
    }
}

impl Schema {
    /// Parses a complete source text into a schema.
    pub fn parse(source: &str) -> (r: Result<Schema, ParseError>)
        ensures
            match r {
                Ok(s) => spec_parse_schema(source@) == Ok::<SpecSchema, ParseError>(s@),
                Err(e) => spec_parse_schema(source@) == Err::<SpecSchema, ParseError>(e),
            },
    {
        parse_schema(source)
    }
}

} // verus!
