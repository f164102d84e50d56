//! Rendering shapes back into the schema language's own source
//! dialect, and the proof that the grammar is a faithful inverse: a
//! rendered shape parses back to itself.

use crate::lang::lexer::{char_token, flush, is_ident_char, is_space, lex, lex_state, spec_keyword,
    SpecToken};
use crate::lang::parser::{bump, spec_expect, spec_parse_annotated_shape, spec_parse_base,
    spec_parse_metadata, spec_parse_one_argument, spec_parse_shape_source,
    spec_parse_two_arguments, ParseError, TokenKind};
use crate::lang::schema::{primitive_name, primitive_of_name, Primitive, Shape, SpecAnnotated,
    SpecShape};
use vstd::prelude::*;

verus! {

broadcast use vstd::seq_lib::group_seq_properties;

/// The source text of a shape, without a trailing separator.
pub open spec fn spec_render_shape(s: SpecShape) -> Seq<char>
    decreases s,
{
    match s {
        SpecShape::Primitive(p) => primitive_name(p),
        SpecShape::Nullable(t) => spec_render_shape(*t) + "?"@,
        SpecShape::List(t) => "List<"@ + spec_render_shape(*t) + ">"@,
        SpecShape::SetOf(t) => "Set<"@ + spec_render_shape(*t) + ">"@,
        SpecShape::MapOf(k, v) => "Map<"@ + spec_render_shape(*k) + ", "@ + spec_render_shape(*v)
            + ">"@,
        SpecShape::Reference(n) => n,
    }
}

/// The source text of a shape as a complete input: a trailing newline
/// closes a final bare identifier, since only punctuation or
/// whitespace flushes the scanner's buffer.
pub open spec fn spec_render_shape_source(s: SpecShape) -> Seq<char> {
    spec_render_shape(s) + "\n"@
}

/// A reference name that the grammar can read back as a reference: a
/// nonempty run of identifier characters that is not a keyword, not a
/// primitive name, and not a container keyword.
pub open spec fn valid_reference_name(n: Seq<char>) -> bool {
    &&& n.len() > 0
    &&& (forall|i: int| 0 <= i < n.len() ==> is_ident_char(#[trigger] n[i]))
    &&& spec_keyword(n) is None
    &&& primitive_of_name(n) is None
    &&& n != "List"@
    &&& n != "Set"@
    &&& n != "Map"@
    &&& n != "Optional"@
}

/// The shapes whose rendering reads back as written: reference names
/// must be readable as references, and a nullable may not wrap another
/// nullable directly, since `??` does not parse.
pub open spec fn spec_shape_wf(s: SpecShape) -> bool
    decreases s,
{
    match s {
        SpecShape::Primitive(_) => true,
        SpecShape::Nullable(t) => !(*t is Nullable) && spec_shape_wf(*t),
        SpecShape::List(t) => spec_shape_wf(*t),
        SpecShape::SetOf(t) => spec_shape_wf(*t),
        SpecShape::MapOf(k, v) => spec_shape_wf(*k) && spec_shape_wf(*v),
        SpecShape::Reference(n) => valid_reference_name(n),
    }
}

/// Renders a shape in the schema language's own dialect.
fn render_shape(s: &Shape) -> (r: String)
    ensures
        r@ == spec_render_shape(s@),
    decreases *s,
{
    match s {
        Shape::Primitive(p) => String::from_str(p.name()),
        Shape::Nullable(t) => {
            let mut out = render_shape(t);
            out.append("?");
            out
        },
        Shape::List(t) => {
            let mut out = String::from_str("List<");
            let inner = render_shape(t);
            out.append(inner.as_str());
            out.append(">");
            out
        },
        Shape::SetOf(t) => {
            let mut out = String::from_str("Set<");
            let inner = render_shape(t);
            out.append(inner.as_str());
            out.append(">");
            out
        },
        Shape::MapOf(k, v) => {
            let mut out = String::from_str("Map<");
            let key = render_shape(k);
            out.append(key.as_str());
            out.append(", ");
            let value = render_shape(v);
            out.append(value.as_str());
            out.append(">");
            out
        },
        Shape::Reference(n) => n.clone(),
    }
}

/// Renders a shape as a complete source input, closed by a newline.
pub fn render_shape_as_source(s: &Shape) -> (r: String)
    ensures
        r@ == spec_render_shape_source(s@),
{
    let mut out = render_shape(s);
    out.append("\n");
    out
}

/// The token stream a rendered shape scans to.
pub open spec fn shape_tokens(s: SpecShape) -> Seq<SpecToken>
    decreases s,
{
    match s {
        SpecShape::Primitive(p) => seq![SpecToken::Identifier(primitive_name(p))],
        SpecShape::Nullable(t) => shape_tokens(*t) + seq![SpecToken::QuestionMark],
        SpecShape::List(t) => seq![
            SpecToken::Identifier("List"@),
            SpecToken::AngleBracketOpen,
        ] + shape_tokens(*t) + seq![SpecToken::AngleBracketClose],
        SpecShape::SetOf(t) => seq![
            SpecToken::Identifier("Set"@),
            SpecToken::AngleBracketOpen,
        ] + shape_tokens(*t) + seq![SpecToken::AngleBracketClose],
        SpecShape::MapOf(k, v) => seq![
            SpecToken::Identifier("Map"@),
            SpecToken::AngleBracketOpen,
        ] + shape_tokens(*k) + seq![SpecToken::Comma] + shape_tokens(*v) + seq![
            SpecToken::AngleBracketClose,
        ],
        SpecShape::Reference(n) => seq![SpecToken::Identifier(n)],
    }
}

/// A character that cleanly ends a pending identifier: punctuation
/// other than a quote, or whitespace.
pub open spec fn delimits(c: char) -> bool {
    (char_token(c) is Some && c != '"') || is_space(c)
}

/// Scanning a run of identifier characters only extends the pending
/// buffer.
proof fn lemma_lex_accumulate(cs: Seq<char>, rest: Seq<char>, buf: Seq<char>)
    requires
        forall|i: int| 0 <= i < cs.len() ==> is_ident_char(#[trigger] cs[i]),
    ensures
        lex_state(cs + rest, buf) == lex_state(rest, buf + cs),
    decreases cs.len(),
{
    if cs.len() == 0 {
        assert(cs + rest =~= rest);
        assert(buf + cs =~= buf);
    } else {
        let c = cs[0];
        assert((cs + rest)[0] == c);
        assert(is_ident_char(c));
        assert((cs + rest).skip(1) =~= cs.skip(1) + rest);
        lemma_lex_accumulate(cs.skip(1), rest, buf.push(c));
        assert(buf.push(c) + cs.skip(1) =~= buf + cs);
    }
}

/// Scanning an identifier followed by a delimiter yields exactly that
/// identifier token before the rest of the stream.
proof fn lemma_lex_ident_token(name: Seq<char>, rest: Seq<char>)
    requires
        name.len() > 0,
        forall|i: int| 0 <= i < name.len() ==> is_ident_char(#[trigger] name[i]),
        spec_keyword(name) is None,
        rest.len() > 0,
        delimits(rest[0]),
    ensures
        lex_state(name + rest, Seq::empty()) == seq![SpecToken::Identifier(name)] + lex_state(
            rest,
            Seq::empty(),
        ),
{
    lemma_lex_accumulate(name, rest, Seq::empty());
    assert(Seq::<char>::empty() + name =~= name);
    let c = rest[0];
    let after = lex_state(rest.skip(1), Seq::<char>::empty());
    assert(flush(name) == seq![SpecToken::Identifier(name)]);
    assert(flush(Seq::<char>::empty()) =~= Seq::<SpecToken>::empty());
    if is_space(c) {
        assert(lex_state(rest, name) == flush(name) + after);
        assert(lex_state(rest, Seq::empty()) == flush(Seq::<char>::empty()) + after);
        assert(flush(name) + after =~= seq![SpecToken::Identifier(name)] + (flush(Seq::<
            char,
        >::empty()) + after));
    } else {
        let tok = char_token(c).unwrap();
        assert(lex_state(rest, name) == flush(name) + seq![tok] + after);
        assert(lex_state(rest, Seq::empty()) == flush(Seq::<char>::empty()) + seq![tok] + after);
        assert(flush(name) + seq![tok] + after =~= seq![SpecToken::Identifier(name)] + (flush(
            Seq::<char>::empty(),
        ) + seq![tok] + after));
    }
}

/// The spelled-out names of the primitives behave as bare identifiers:
/// nonempty, made of identifier characters, not keywords, not
/// container keywords, and read back as the same primitive.
proof fn lemma_primitive_name_ok(p: Primitive)
    ensures
        primitive_name(p).len() > 0,
        forall|i: int| 0 <= i < primitive_name(p).len() ==> is_ident_char(
            #[trigger] primitive_name(p)[i],
        ),
        spec_keyword(primitive_name(p)) is None,
        primitive_name(p) != "List"@,
        primitive_name(p) != "Set"@,
        primitive_name(p) != "Map"@,
        primitive_name(p) != "Optional"@,
        primitive_of_name(primitive_name(p)) == Some(p),
{
    reveal_strlit("Unit");
    reveal_strlit("Bool");
    reveal_strlit("Int8");
    reveal_strlit("Int16");
    reveal_strlit("Int32");
    reveal_strlit("Int64");
    reveal_strlit("Int128");
    reveal_strlit("Float32");
    reveal_strlit("Float64");
    reveal_strlit("String");
    reveal_strlit("alias");
    reveal_strlit("struct");
    reveal_strlit("enum");
    reveal_strlit("extern");
    reveal_strlit("service");
    reveal_strlit("use");
    reveal_strlit("List");
    reveal_strlit("Set");
    reveal_strlit("Map");
    reveal_strlit("Optional");
    assert("Unit"@[0] == 'U');
    assert("Bool"@[0] == 'B');
    assert("Int8"@[0] == 'I');
    assert("Int16"@[0] == 'I');
    assert("Int32"@[0] == 'I');
    assert("Int64"@[0] == 'I');
    assert("Int128"@[0] == 'I');
    assert("Float32"@[0] == 'F');
    assert("Float64"@[0] == 'F');
    assert("String"@[0] == 'S');
    assert("alias"@[0] == 'a');
    assert("struct"@[0] == 's');
    assert("enum"@[0] == 'e');
    assert("extern"@[0] == 'e');
    assert("service"@[0] == 's');
    assert("use"@[0] == 'u');
    assert("List"@[0] == 'L');
    assert("Set"@[0] == 'S');
    assert("Map"@[0] == 'M');
    assert("Optional"@[0] == 'O');
    assert("Int16"@[3] == '1');
    assert("Int32"@[3] == '3');
    assert("Int64"@[3] == '6');
    assert("Float32"@[5] == '3');
    assert("Float64"@[5] == '6');
    assert("String"@.len() == 6);
    assert("Set"@.len() == 3);
    assert("Optional"@.len() == 8);
}

/// The container keywords behave as bare identifiers and are not
/// language keywords.
proof fn lemma_container_names_ok()
    ensures
        "List"@.len() == 4,
        forall|i: int| 0 <= i < "List"@.len() ==> is_ident_char(#[trigger] "List"@[i]),
        spec_keyword("List"@) is None,
        "Set"@.len() == 3,
        forall|i: int| 0 <= i < "Set"@.len() ==> is_ident_char(#[trigger] "Set"@[i]),
        spec_keyword("Set"@) is None,
        "Map"@.len() == 3,
        forall|i: int| 0 <= i < "Map"@.len() ==> is_ident_char(#[trigger] "Map"@[i]),
        spec_keyword("Map"@) is None,
        "Optional"@.len() == 8,
        "Map"@[0] == 'M',
        "Set"@[0] == 'S',
        "List"@[0] == 'L',
{
    reveal_strlit("Optional");
    reveal_strlit("List");
    reveal_strlit("Set");
    reveal_strlit("Map");
    reveal_strlit("alias");
    reveal_strlit("struct");
    reveal_strlit("enum");
    reveal_strlit("extern");
    reveal_strlit("service");
    reveal_strlit("use");
    assert("List"@[0] == 'L');
    assert("Set"@[0] == 'S');
    assert("Map"@[0] == 'M');
    assert("alias"@[0] == 'a');
    assert("struct"@[0] == 's');
    assert("enum"@[0] == 'e');
    assert("extern"@[0] == 'e');
    assert("service"@[0] == 's');
    assert("use"@[0] == 'u');
}

/// Scanning the rendering of a well-formed shape, followed by a
/// delimiter, yields exactly its token stream.
#[verifier::rlimit(100)]
proof fn lemma_lex_render(s: SpecShape, rest: Seq<char>)
    requires
        spec_shape_wf(s),
        rest.len() > 0,
        delimits(rest[0]),
    ensures
        lex_state(spec_render_shape(s) + rest, Seq::empty()) == shape_tokens(s) + lex_state(
            rest,
            Seq::empty(),
        ),
    decreases s,
{
    let e = Seq::<char>::empty();
    match s {
        SpecShape::Primitive(p) => {
            lemma_primitive_name_ok(p);
            lemma_lex_ident_token(primitive_name(p), rest);
        },
        SpecShape::Reference(n) => {
            lemma_lex_ident_token(n, rest);
        },
        SpecShape::Nullable(t) => {
            reveal_strlit("?");
            let rest1 = "?"@ + rest;
            assert(rest1[0] == '?');
            assert(rest1.skip(1) =~= rest);
            assert(spec_render_shape(s) + rest =~= spec_render_shape(*t) + rest1);
            lemma_lex_render(*t, rest1);
            assert(char_token('?') == Some(SpecToken::QuestionMark));
            assert(lex_state(rest1, e) == flush(e) + seq![SpecToken::QuestionMark] + lex_state(
                rest,
                e,
            ));
            assert(shape_tokens(*t) + (flush(e) + seq![SpecToken::QuestionMark] + lex_state(
                rest,
                e,
            )) =~= (shape_tokens(*t) + seq![SpecToken::QuestionMark]) + lex_state(rest, e));
        },
        SpecShape::List(t) => {
            lemma_container_names_ok();
            reveal_strlit("List<");
            reveal_strlit("List");
            reveal_strlit("<");
            reveal_strlit(">");
            let restv = ">"@ + rest;
            let x = spec_render_shape(*t) + restv;
            assert(restv[0] == '>');
            assert(restv.skip(1) =~= rest);
            assert(spec_render_shape(s) + rest =~= "List"@ + ("<"@ + x));
            lemma_lex_accumulate("List"@, "<"@ + x, e);
            assert(e + "List"@ =~= "List"@);
            assert(("<"@ + x)[0] == '<');
            assert(("<"@ + x).skip(1) =~= x);
            assert(char_token('<') == Some(SpecToken::AngleBracketOpen));
            assert(flush("List"@) == seq![SpecToken::Identifier("List"@)]);
            assert(lex_state("<"@ + x, "List"@) == flush("List"@) + seq![
                SpecToken::AngleBracketOpen,
            ] + lex_state(x, e));
            lemma_lex_render(*t, restv);
            assert(char_token('>') == Some(SpecToken::AngleBracketClose));
            assert(lex_state(restv, e) == flush(e) + seq![SpecToken::AngleBracketClose]
                + lex_state(rest, e));
            assert(flush("List"@) + seq![SpecToken::AngleBracketOpen] + (shape_tokens(*t) + (
            flush(e) + seq![SpecToken::AngleBracketClose] + lex_state(rest, e))) =~= (seq![
                SpecToken::Identifier("List"@),
                SpecToken::AngleBracketOpen,
            ] + shape_tokens(*t) + seq![SpecToken::AngleBracketClose]) + lex_state(rest, e));
        },
        SpecShape::SetOf(t) => {
            lemma_container_names_ok();
            reveal_strlit("Set<");
            reveal_strlit("Set");
            reveal_strlit("<");
            reveal_strlit(">");
            let restv = ">"@ + rest;
            let x = spec_render_shape(*t) + restv;
            assert(restv[0] == '>');
            assert(restv.skip(1) =~= rest);
            assert(spec_render_shape(s) + rest =~= "Set"@ + ("<"@ + x));
            lemma_lex_accumulate("Set"@, "<"@ + x, e);
            assert(e + "Set"@ =~= "Set"@);
            assert(("<"@ + x)[0] == '<');
            assert(("<"@ + x).skip(1) =~= x);
            assert(char_token('<') == Some(SpecToken::AngleBracketOpen));
            assert(flush("Set"@) == seq![SpecToken::Identifier("Set"@)]);
            assert(lex_state("<"@ + x, "Set"@) == flush("Set"@) + seq![
                SpecToken::AngleBracketOpen,
            ] + lex_state(x, e));
            lemma_lex_render(*t, restv);
            assert(char_token('>') == Some(SpecToken::AngleBracketClose));
            assert(lex_state(restv, e) == flush(e) + seq![SpecToken::AngleBracketClose]
                + lex_state(rest, e));
            assert(flush("Set"@) + seq![SpecToken::AngleBracketOpen] + (shape_tokens(*t) + (
            flush(e) + seq![SpecToken::AngleBracketClose] + lex_state(rest, e))) =~= (seq![
                SpecToken::Identifier("Set"@),
                SpecToken::AngleBracketOpen,
            ] + shape_tokens(*t) + seq![SpecToken::AngleBracketClose]) + lex_state(rest, e));
        },
        SpecShape::MapOf(k, v) => {
            lemma_container_names_ok();
            reveal_strlit("Map<");
            reveal_strlit("Map");
            reveal_strlit("<");
            reveal_strlit(">");
            reveal_strlit(", ");
            reveal_strlit("?");
            let restv = ">"@ + rest;
            let yv = spec_render_shape(*v) + restv;
            let restk = ", "@ + yv;
            let x = spec_render_shape(*k) + restk;
            assert(restv[0] == '>');
            assert(restv.skip(1) =~= rest);
            assert(restk[0] == ',');
            assert(spec_render_shape(s) + rest =~= "Map"@ + ("<"@ + x));
            lemma_lex_accumulate("Map"@, "<"@ + x, e);
            assert(e + "Map"@ =~= "Map"@);
            assert(("<"@ + x)[0] == '<');
            assert(("<"@ + x).skip(1) =~= x);
            assert(char_token('<') == Some(SpecToken::AngleBracketOpen));
            assert(flush("Map"@) == seq![SpecToken::Identifier("Map"@)]);
            assert(lex_state("<"@ + x, "Map"@) == flush("Map"@) + seq![
                SpecToken::AngleBracketOpen,
            ] + lex_state(x, e));
            reveal_strlit(" ");
            assert(", "@[0] == ',');
            assert(", "@[1] == ' ');
            assert(", "@.len() == 2);
            assert(" "@[0] == ' ');
            assert(" "@.len() == 1);
            lemma_lex_render(*k, restk);
            // `, ` scans to a comma, then the space separates
            assert(char_token(',') == Some(SpecToken::Comma));
            assert(restk.skip(1) =~= " "@ + yv);
            assert((" "@ + yv)[0] == ' ');
            assert(is_space(' '));
            assert((" "@ + yv).skip(1) =~= yv);
            assert(lex_state(restk, e) == flush(e) + seq![SpecToken::Comma] + lex_state(
                " "@ + yv,
                e,
            ));
            assert(lex_state(" "@ + yv, e) == flush(e) + lex_state(yv, e));
            lemma_lex_render(*v, restv);
            assert(char_token('>') == Some(SpecToken::AngleBracketClose));
            assert(lex_state(restv, e) == flush(e) + seq![SpecToken::AngleBracketClose]
                + lex_state(rest, e));
            assert(flush("Map"@) + seq![SpecToken::AngleBracketOpen] + (shape_tokens(*k) + (
            flush(e) + seq![SpecToken::Comma] + (flush(e) + (shape_tokens(*v) + (flush(e) + seq![
                SpecToken::AngleBracketClose,
            ] + lex_state(rest, e)))))) =~= (seq![
                SpecToken::Identifier("Map"@),
                SpecToken::AngleBracketOpen,
            ] + shape_tokens(*k) + seq![SpecToken::Comma] + shape_tokens(*v) + seq![
                SpecToken::AngleBracketClose,
            ]) + lex_state(rest, e));
        },
    }
}

/// Every shape scans to at least one token.
proof fn lemma_shape_tokens_len(s: SpecShape)
    ensures
        shape_tokens(s).len() >= 1,
{
}

/// Parsing the base tokens of a well-formed, non-nullable shape yields
/// exactly that shape.
#[verifier::rlimit(100)]
proof fn lemma_parse_base(b: SpecShape, ts: Seq<SpecToken>, i: int)
    requires
        spec_shape_wf(b),
        !(b is Nullable),
        0 <= i,
        i + shape_tokens(b).len() <= ts.len(),
        ts.subrange(i, i + shape_tokens(b).len() as int) == shape_tokens(b),
    ensures
        spec_parse_base(ts, i) == Ok::<(SpecShape, int), ParseError>(
            (b, i + shape_tokens(b).len() as int),
        ),
    decreases b, 0int,
{
    let n = ts.len() as int;
    let bt = shape_tokens(b);
    let tl = bt.len() as int;
    let j = i + tl;
    assert(forall|x: int| 0 <= x < tl ==> ts[i + x] == #[trigger] bt[x]);
    match b {
        SpecShape::Primitive(p) => {
            lemma_primitive_name_ok(p);
            lemma_container_names_ok();
            assert(ts[i] == SpecToken::Identifier(primitive_name(p)));
        },
        SpecShape::Reference(nm) => {
            assert(ts[i] == SpecToken::Identifier(nm));
        },
        SpecShape::List(t) => {
            lemma_container_names_ok();
            let tk = shape_tokens(*t);
            let tkl = tk.len() as int;
            assert(bt[0] == SpecToken::Identifier("List"@));
            assert(bt[1] == SpecToken::AngleBracketOpen);
            assert(forall|x: int| 0 <= x < tkl ==> #[trigger] bt[2 + x] == tk[x]);
            assert(bt[2 + tkl] == SpecToken::AngleBracketClose);
            assert(ts[i] == SpecToken::Identifier("List"@));
            assert(ts[i + 1] == SpecToken::AngleBracketOpen);
            assert forall|x: int| 0 <= x < tkl implies ts[i + 2 + x] == tk[x] by {
                assert(bt[2 + x] == tk[x]);
                assert(ts[i + (2 + x)] == bt[2 + x]);
            }
            assert(ts.subrange(i + 2, i + 2 + tkl) =~= tk);
            assert(ts[i + 2 + tkl] == SpecToken::AngleBracketClose);
            lemma_parse_annotated(*t, ts, i + 2);
            assert(spec_expect(ts, i + 1, TokenKind::AngleBracketOpen) == Ok::<int, ParseError>(
                i + 2,
            ));
            assert(bump(n, i, i + 2) == i + 2);
            assert(spec_expect(ts, i + 2 + tkl, TokenKind::AngleBracketClose) == Ok::<
                int,
                ParseError,
            >(j));
            assert(spec_parse_one_argument(ts, i) == Ok::<(SpecShape, int), ParseError>(
                (*t, j),
            ));
            assert(b == SpecShape::List(Box::new(*t)));
        },
        SpecShape::SetOf(t) => {
            lemma_container_names_ok();
            let tk = shape_tokens(*t);
            let tkl = tk.len() as int;
            assert(bt[0] == SpecToken::Identifier("Set"@));
            assert(bt[1] == SpecToken::AngleBracketOpen);
            assert(forall|x: int| 0 <= x < tkl ==> #[trigger] bt[2 + x] == tk[x]);
            assert(bt[2 + tkl] == SpecToken::AngleBracketClose);
            assert(ts[i] == SpecToken::Identifier("Set"@));
            assert(ts[i + 1] == SpecToken::AngleBracketOpen);
            assert forall|x: int| 0 <= x < tkl implies ts[i + 2 + x] == tk[x] by {
                assert(bt[2 + x] == tk[x]);
                assert(ts[i + (2 + x)] == bt[2 + x]);
            }
            assert(ts.subrange(i + 2, i + 2 + tkl) =~= tk);
            assert(ts[i + 2 + tkl] == SpecToken::AngleBracketClose);
            lemma_parse_annotated(*t, ts, i + 2);
            assert(spec_expect(ts, i + 1, TokenKind::AngleBracketOpen) == Ok::<int, ParseError>(
                i + 2,
            ));
            assert(bump(n, i, i + 2) == i + 2);
            assert(spec_expect(ts, i + 2 + tkl, TokenKind::AngleBracketClose) == Ok::<
                int,
                ParseError,
            >(j));
            assert(spec_parse_one_argument(ts, i) == Ok::<(SpecShape, int), ParseError>(
                (*t, j),
            ));
            assert(b == SpecShape::SetOf(Box::new(*t)));
        },
        SpecShape::MapOf(k, v) => {
            lemma_container_names_ok();
            let tk = shape_tokens(*k);
            let tkl = tk.len() as int;
            let tv = shape_tokens(*v);
            let tvl = tv.len() as int;
            assert(bt[0] == SpecToken::Identifier("Map"@));
            assert(bt[1] == SpecToken::AngleBracketOpen);
            assert(forall|x: int| 0 <= x < tkl ==> #[trigger] bt[2 + x] == tk[x]);
            assert(bt[2 + tkl] == SpecToken::Comma);
            assert(forall|x: int| 0 <= x < tvl ==> #[trigger] bt[3 + tkl + x] == tv[x]);
            assert(bt[3 + tkl + tvl] == SpecToken::AngleBracketClose);
            assert(ts[i] == SpecToken::Identifier("Map"@));
            assert(ts[i + 1] == SpecToken::AngleBracketOpen);
            assert forall|x: int| 0 <= x < tkl implies ts[i + 2 + x] == tk[x] by {
                assert(bt[2 + x] == tk[x]);
                assert(ts[i + (2 + x)] == bt[2 + x]);
            }
            assert(ts.subrange(i + 2, i + 2 + tkl) =~= tk);
            assert(ts[i + 2 + tkl] == SpecToken::Comma);
            assert forall|x: int| 0 <= x < tvl implies ts[i + 3 + tkl + x] == tv[x] by {
                assert(bt[3 + tkl + x] == tv[x]);
                assert(ts[i + (3 + tkl + x)] == bt[3 + tkl + x]);
            }
            assert(ts.subrange(i + 3 + tkl, i + 3 + tkl + tvl) =~= tv);
            assert(ts[i + 3 + tkl + tvl] == SpecToken::AngleBracketClose);
            lemma_parse_annotated(*k, ts, i + 2);
            lemma_parse_annotated(*v, ts, i + 3 + tkl);
            assert(spec_expect(ts, i + 1, TokenKind::AngleBracketOpen) == Ok::<int, ParseError>(
                i + 2,
            ));
            assert(bump(n, i, i + 2) == i + 2);
            assert(spec_expect(ts, i + 2 + tkl, TokenKind::Comma) == Ok::<int, ParseError>(
                i + 3 + tkl,
            ));
            assert(bump(n, i, i + 3 + tkl) == i + 3 + tkl);
            assert(spec_expect(ts, i + 3 + tkl + tvl, TokenKind::AngleBracketClose) == Ok::<
                int,
                ParseError,
            >(j));
            assert(spec_parse_two_arguments(ts, i) == Ok::<(SpecShape, int), ParseError>(
                (SpecShape::MapOf(Box::new(*k), Box::new(*v)), j),
            ));
            assert(b == SpecShape::MapOf(Box::new(*k), Box::new(*v)));
        },
        SpecShape::Nullable(_) => {
            assert(false);
        },
    }
}

/// Parsing the tokens of a well-formed shape, not followed by a `?` or
/// `&`, yields exactly that shape with empty metadata.
#[verifier::rlimit(100)]
proof fn lemma_parse_annotated(s: SpecShape, ts: Seq<SpecToken>, i: int)
    requires
        spec_shape_wf(s),
        0 <= i,
        i + shape_tokens(s).len() <= ts.len(),
        ts.subrange(i, i + shape_tokens(s).len() as int) == shape_tokens(s),
        i + shape_tokens(s).len() == ts.len() || (ts[i + shape_tokens(s).len()]
            != SpecToken::QuestionMark && ts[i + shape_tokens(s).len()]
            != SpecToken::Ampersand),
    ensures
        spec_parse_annotated_shape(ts, i) == Ok::<(SpecAnnotated<SpecShape>, int), ParseError>(
            (
                SpecAnnotated { metadata: Seq::empty(), inner: s },
                i + shape_tokens(s).len() as int,
            ),
        ),
    decreases s, 1int,
{
    let n = ts.len() as int;
    let tl = shape_tokens(s).len() as int;
    let j = i + tl;
    assert(forall|x: int| 0 <= x < tl ==> ts[i + x] == #[trigger] shape_tokens(s)[x]);
    match s {
        SpecShape::Nullable(t) => {
            let tk = shape_tokens(*t);
            let tkl = tk.len() as int;
            lemma_shape_tokens_len(*t);
            assert(forall|x: int| 0 <= x < tkl ==> #[trigger] shape_tokens(s)[x] == tk[x]);
            assert(shape_tokens(s)[tkl] == SpecToken::QuestionMark);
            assert forall|x: int| 0 <= x < tkl implies ts[i + x] == tk[x] by {
                assert(shape_tokens(s)[x] == tk[x]);
            }
            assert(ts.subrange(i, i + tkl) =~= tk);
            assert(ts[i + tkl] == SpecToken::QuestionMark);
            lemma_parse_base(*t, ts, i);
            assert(bump(n, i, i + tkl) == i + tkl);
            assert(spec_parse_metadata(ts, i + tkl) == Ok::<
                (Seq<(Seq<char>, Seq<char>)>, int),
                ParseError,
            >((Seq::empty(), i + tkl)));
            assert(s == SpecShape::Nullable(Box::new(*t)));
        },
        _ => {
            lemma_shape_tokens_len(s);
            lemma_parse_base(s, ts, i);
            assert(bump(n, i, j) == j);
            assert(spec_parse_metadata(ts, j) == Ok::<
                (Seq<(Seq<char>, Seq<char>)>, int),
                ParseError,
            >((Seq::empty(), j)));
        },
    }
}

/// The grammar is a faithful inverse of the renderer: rendering any
/// well-formed shape as source and parsing it back yields the same
/// shape.  Well-formedness asks only what the grammar can express at
/// all: reference names readable as references, and no directly
/// doubled `Nullable`, whose `??` spelling does not exist in the
/// language.
pub proof fn lemma_shape_round_trip(s: SpecShape)
    requires
        spec_shape_wf(s),
    ensures
        spec_parse_shape_source(spec_render_shape_source(s)) == Ok::<SpecShape, ParseError>(s),
{
    reveal_strlit("\n");
    let e = Seq::<char>::empty();
    let text = spec_render_shape_source(s);
    assert("\n"@.len() == 1);
    assert("\n"@[0] == '\n');
    assert(is_space('\n'));
    lemma_lex_render(s, "\n"@);
    assert(("\n"@).skip(1) =~= e);
    assert(lex_state("\n"@, e) == flush(e) + lex_state(e, e));
    assert(lex(text) == lex_state(spec_render_shape(s) + "\n"@, e));
    assert(lex(text) =~= shape_tokens(s));
    let ts = shape_tokens(s);
    lemma_shape_tokens_len(s);
    assert(ts.subrange(0, ts.len() as int) =~= ts);
    lemma_parse_annotated(s, ts, 0);
}

} // verus!
