//! The systems-language emitter: renders models as native type
//! declarations (field names converted to snake case), with serde
//! derives on records so the target's own derive machinery supplies
//! the serialization code.

use crate::emit::{EmitError, SpecEmitError};
use crate::lang::map::{ohm_contains, OrderedHashMap};
use crate::lang::schema::{
    Annotated, Model, Primitive, Schema, Shape, SpecAnnotated, SpecModel, SpecShape, SpecStruct,
};
use vstd::prelude::*;

verus! {

broadcast use vstd::seq_lib::group_seq_properties;

/// The lowercase form of an ASCII capital; any other character is
/// unchanged.
pub open spec fn spec_lower_char(c: char) -> char {
    if 'A' <= c && c <= 'Z' {
        (((c as u32) + 32) as u8) as char
    } else {
        c
    }
}

pub open spec fn is_upper(c: char) -> bool {
    'A' <= c && c <= 'Z'
}

/// Snake-case conversion from position `i` on: an underscore goes
/// before every capital that is not the first character, and the
/// capital itself is lowercased; all other characters are unchanged.
pub open spec fn snake_from(s: Seq<char>, i: int) -> Seq<char>
    decreases s.len() - i,
{
    if i < 0 || i >= s.len() {
        Seq::empty()
    } else {
        let c = s[i];
        let head = if is_upper(c) {
            if i > 0 {
                seq!['_', spec_lower_char(c)]
            } else {
                seq![spec_lower_char(c)]
            }
        } else {
            seq![c]
        };
        head + snake_from(s, i + 1)
    }
}

/// The snake-case form of a name.
pub open spec fn snake_of(s: Seq<char>) -> Seq<char> {
    snake_from(s, 0)
}

fn lower_char(c: char) -> (r: char)
    ensures
        r == spec_lower_char(c),
{
    if 'A' <= c && c <= 'Z' {
        (((c as u32) + 32) as u8) as char
    } else {
        c
    }
}

/// Converts a camel-case name to snake case.
#[verifier::loop_isolation(false)]
pub fn camel_to_snake(name: &str) -> (r: String)
    ensures
        r@ == snake_of(name@),
{
    let n = name.unicode_len();
    let mut out = String::new();
    let mut i: usize = 0;
    proof {
        assert(out@ + snake_from(name@, 0) =~= snake_of(name@));
    }
    while i < n
        invariant
            n == name@.len(),
            i <= n,
            snake_of(name@) == out@ + snake_from(name@, i as int),
        decreases n - i,
    {
        let ghost out0 = out@;
        let c = name.get_char(i);
        let low = lower_char(c);
        if 'A' <= c && c <= 'Z' {
            if i > 0 {
                crate::text::push_char(&mut out, '_');
            }
            crate::text::push_char(&mut out, low);
            proof {
                if i > 0 {
                    assert(out@ =~= out0 + seq!['_', spec_lower_char(c)]);
                } else {
                    assert(out@ =~= out0 + seq![spec_lower_char(c)]);
                }
            }
        } else {
            crate::text::push_char(&mut out, c);
            proof {
                assert(out@ =~= out0 + seq![c]);
            }
        }
        proof {
            assert(out0 + (snake_from(name@, i as int)) =~= out@ + snake_from(
                name@,
                i as int + 1,
            ));
        }
        i += 1;
    }
    proof {
        assert(out@ + snake_from(name@, n as int) =~= out@);
    }
    out
}

/// Snake-case conversion offered on string types directly.
pub trait ToSnakeCase {
    spec fn chars_view(&self) -> Seq<char>;

    fn to_snake_case(&self) -> (r: String)
        ensures
            r@ == snake_of(self.chars_view()),
    ;
}

impl ToSnakeCase for str {
    open spec fn chars_view(&self) -> Seq<char> {
        self@
    }

    fn to_snake_case(&self) -> (r: String) {
        camel_to_snake(self)
    }
}

impl ToSnakeCase for String {
    open spec fn chars_view(&self) -> Seq<char> {
        self@
    }

    fn to_snake_case(&self) -> (r: String) {
        camel_to_snake(self.as_str())
    }
}

/// The native scalar a primitive maps to.
pub open spec fn spec_rs_primitive(p: Primitive) -> Seq<char> {
    match p {
        Primitive::Unit => "()"@,
        Primitive::Bool => "bool"@,
        Primitive::Int8 => "i8"@,
        Primitive::Int16 => "i16"@,
        Primitive::Int32 => "i32"@,
        Primitive::Int64 => "i64"@,
        Primitive::Int128 => "i128"@,
        Primitive::Float32 => "f32"@,
        Primitive::Float64 => "f64"@,
        Primitive::String => "String"@,
    }
}

/// The rendered type of a shape; a reference must resolve against the
/// schema's models.
pub open spec fn spec_emit_shape(s: SpecShape, m: Seq<(Seq<char>, SpecModel)>) -> Result<
    Seq<char>,
    SpecEmitError,
>
    decreases s,
{
    match s {
        SpecShape::Primitive(p) => Ok(spec_rs_primitive(p)),
        SpecShape::Nullable(t) => match spec_emit_shape(*t, m) {
            Ok(t) => Ok("Option<"@ + t + ">"@),
            Err(e) => Err(e),
        },
        SpecShape::List(t) => match spec_emit_shape(*t, m) {
            Ok(t) => Ok("Vec<"@ + t + ">"@),
            Err(e) => Err(e),
        },
        SpecShape::SetOf(t) => match spec_emit_shape(*t, m) {
            Ok(t) => Ok("Set<"@ + t + ">"@),
            Err(e) => Err(e),
        },
        SpecShape::MapOf(k, v) => match (spec_emit_shape(*k, m), spec_emit_shape(*v, m)) {
            (Ok(k), Ok(v)) => Ok("Map<"@ + k + ", "@ + v + ">"@),
            (Err(e), _) => Err(e),
            (_, Err(e)) => Err(e),
        },
        SpecShape::Reference(n) => if ohm_contains(m, n) {
            Ok(n)
        } else {
            Err(SpecEmitError::UnresolvedReference(n))
        },
    }
}

/// One field line per field, in declaration order.
pub open spec fn spec_emit_fields(
    fs: Seq<(Seq<char>, SpecAnnotated<SpecShape>)>,
    m: Seq<(Seq<char>, SpecModel)>,
) -> Result<Seq<char>, SpecEmitError>
    decreases fs.len(),
{
    if fs.len() == 0 {
        Ok(Seq::empty())
    } else {
        match spec_emit_shape(fs[0].1.inner, m) {
            Err(e) => Err(e),
            Ok(t) => match spec_emit_fields(fs.skip(1), m) {
                Err(e) => Err(e),
                Ok(r) => Ok("    pub "@ + snake_of(fs[0].0) + ": "@ + t + ",\n"@ + r),
            },
        }
    }
}

pub open spec fn spec_emit_struct(
    name: Seq<char>,
    st: SpecStruct,
    m: Seq<(Seq<char>, SpecModel)>,
) -> Result<Seq<char>, SpecEmitError> {
    match spec_emit_fields(st.fields, m) {
        Err(e) => Err(e),
        Ok(fields) => Ok(
            "#[derive(Debug, Clone, Serialize, Deserialize)]\n"@ + "pub struct "@ + name + " {\n"@
                + fields + "}\n"@,
        ),
    }
}

/// One variant line per variant, in declaration order.
pub open spec fn spec_emit_variants(vs: Seq<Seq<char>>) -> Seq<char>
    decreases vs.len(),
{
    if vs.len() == 0 {
        Seq::empty()
    } else {
        "    "@ + vs[0] + ",\n"@ + spec_emit_variants(vs.skip(1))
    }
}

pub open spec fn spec_emit_enum(name: Seq<char>, fields: Seq<Seq<char>>) -> Seq<char> {
    "#[derive(Debug, Clone, Serialize, Deserialize)]\n"@ + "pub enum "@ + name + " {\n"@
        + spec_emit_variants(fields) + "}\n"@
}

pub open spec fn spec_emit_model(
    name: Seq<char>,
    model: SpecModel,
    m: Seq<(Seq<char>, SpecModel)>,
) -> Result<Seq<char>, SpecEmitError> {
    match model {
        SpecModel::Struct(st) => spec_emit_struct(name, st, m),
        SpecModel::Enum(e) => Ok(spec_emit_enum(name, e.fields)),
        SpecModel::Alias(a) => match spec_emit_shape(a.shape.inner, m) {
            Err(e) => Err(e),
            Ok(t) => Ok("pub type "@ + name + " = "@ + t + ";\n"@),
        },
        SpecModel::External(_) => Ok("use external::"@ + name + ";\n"@),
    }
}

/// The models after the first, each preceded by a blank separator
/// line.
pub open spec fn spec_emit_models_rest(
    ms: Seq<(Seq<char>, SpecModel)>,
    m: Seq<(Seq<char>, SpecModel)>,
) -> Result<Seq<char>, SpecEmitError>
    decreases ms.len(),
{
    if ms.len() == 0 {
        Ok(Seq::empty())
    } else {
        match spec_emit_model(ms[0].0, ms[0].1, m) {
            Err(e) => Err(e),
            Ok(t) => match spec_emit_models_rest(ms.skip(1), m) {
                Err(e) => Err(e),
                Ok(r) => Ok("\n"@ + t + r),
            },
        }
    }
}

/// All models, in declaration order, separated by blank lines.
pub open spec fn spec_emit_models(
    ms: Seq<(Seq<char>, SpecModel)>,
    m: Seq<(Seq<char>, SpecModel)>,
) -> Result<Seq<char>, SpecEmitError> {
    if ms.len() == 0 {
        Ok(Seq::empty())
    } else {
        match spec_emit_model(ms[0].0, ms[0].1, m) {
            Err(e) => Err(e),
            Ok(t) => match spec_emit_models_rest(ms.skip(1), m) {
                Err(e) => Err(e),
                Ok(r) => Ok(t + r),
            },
        }
    }
}

/// The whole artifact: a serde import, then the models.
pub open spec fn spec_emit_schema(name: Seq<char>, s: crate::lang::schema::SpecSchema) -> Result<
    Seq<char>,
    SpecEmitError,
> {
    match spec_emit_models(s.models, s.models) {
        Err(e) => Err(e),
        Ok(t) => Ok("use serde::{Serialize, Deserialize};\n"@ + t),
    }
}

fn rs_primitive(p: Primitive) -> (r: &'static str)
    ensures
        r@ == spec_rs_primitive(p),
{
    match p {
        Primitive::Unit => "()",
        Primitive::Bool => "bool",
        Primitive::Int8 => "i8",
        Primitive::Int16 => "i16",
        Primitive::Int32 => "i32",
        Primitive::Int64 => "i64",
        Primitive::Int128 => "i128",
        Primitive::Float32 => "f32",
        Primitive::Float64 => "f64",
        Primitive::String => "String",
    }
}

/// Renders a shape as a native type, checking that references resolve.
pub fn emit_shape(s: &Shape, schema: &Schema) -> (r: Result<String, EmitError>)
    ensures
        match r {
            Ok(t) => spec_emit_shape(s@, schema@.models) == Ok::<Seq<char>, SpecEmitError>(t@),
            Err(e) => spec_emit_shape(s@, schema@.models) == Err::<Seq<char>, SpecEmitError>(e@),
        },
    decreases *s,
{
    match s {
        Shape::Primitive(p) => Ok(String::from_str(rs_primitive(*p))),
        Shape::Nullable(t) => match emit_shape(t, schema) {
            Ok(t) => {
                let mut out = String::from_str("Option<");
                out.append(t.as_str());
                out.append(">");
                Ok(out)
            },
            Err(e) => Err(e),
        },
        Shape::List(t) => match emit_shape(t, schema) {
            Ok(t) => {
                let mut out = String::from_str("Vec<");
                out.append(t.as_str());
                out.append(">");
                Ok(out)
            },
            Err(e) => Err(e),
        },
        Shape::SetOf(t) => match emit_shape(t, schema) {
            Ok(t) => {
                let mut out = String::from_str("Set<");
                out.append(t.as_str());
                out.append(">");
                Ok(out)
            },
            Err(e) => Err(e),
        },
        Shape::MapOf(k, v) => match emit_shape(k, schema) {
            Err(e) => Err(e),
            Ok(kt) => match emit_shape(v, schema) {
                Err(e) => Err(e),
                Ok(vt) => {
                    let mut out = String::from_str("Map<");
                    out.append(kt.as_str());
                    out.append(", ");
                    out.append(vt.as_str());
                    out.append(">");
                    Ok(out)
                },
            },
        },
        Shape::Reference(n) => {
            if schema.models.contains_key(n.as_str()) {
                Ok(n.clone())
            } else {
                Err(EmitError::UnresolvedReference(n.clone()))
            }
        },
    }
}

/// Renders the field lines of a record, in declaration order.
#[verifier::loop_isolation(false)]
fn emit_fields(fields: &OrderedHashMap<Annotated<Shape>>, schema: &Schema) -> (r: Result<
    String,
    EmitError,
>)
    ensures
        match r {
            Ok(t) => spec_emit_fields(fields@, schema@.models) == Ok::<Seq<char>, SpecEmitError>(
                t@,
            ),
            Err(e) => spec_emit_fields(fields@, schema@.models) == Err::<
                Seq<char>,
                SpecEmitError,
            >(e@),
        },
{
    let ghost m = schema@.models;
    let ghost full = spec_emit_fields(fields@, m);
    let n = fields.len();
    let mut out = String::new();
    let mut i: usize = 0;
    proof {
        assert(fields@.skip(0) =~= fields@);
    }
    while i < n
        invariant
            n == fields@.len(),
            i <= n,
            (spec_emit_fields(fields@.skip(i as int), m) matches Ok(t) ==> full == Ok::<
                Seq<char>,
                SpecEmitError,
            >(out@ + t)),
            (spec_emit_fields(fields@.skip(i as int), m) matches Err(e) ==> full == Err::<
                Seq<char>,
                SpecEmitError,
            >(e)),
        decreases n - i,
    {
        let ghost out0 = out@;
        let ghost rest = fields@.skip(i as int);
        proof {
            assert(rest[0] == fields@[i as int]);
            assert(rest.skip(1) =~= fields@.skip(i as int + 1));
        }
        let name = fields.key_at(i);
        let snake = camel_to_snake(name.as_str());
        let field = fields.value_at(i);
        let shape_text = match emit_shape(&field.inner, schema) {
            Ok(t) => t,
            Err(e) => {
                return Err(e);
            },
        };
        out.append("    pub ");
        out.append(snake.as_str());
        out.append(": ");
        out.append(shape_text.as_str());
        out.append(",\n");
        proof {
            assert(out@ =~= out0 + ("    pub "@ + snake_of(rest[0].0) + ": "@ + shape_text@
                + ",\n"@));
            if spec_emit_fields(rest.skip(1), m) is Ok {
                let t = spec_emit_fields(rest.skip(1), m)->Ok_0;
                assert(out0 + ("    pub "@ + snake_of(rest[0].0) + ": "@ + shape_text@ + ",\n"@
                    + t) =~= out@ + t);
            }
        }
        i += 1;
    }
    proof {
        assert(fields@.skip(n as int) =~= Seq::<(Seq<char>, SpecAnnotated<SpecShape>)>::empty());
        assert(out@ + Seq::<char>::empty() =~= out@);
    }
    Ok(out)
}

/// Renders a record declaration.
fn emit_struct(name: &str, st: &crate::lang::schema::Struct, schema: &Schema) -> (r: Result<
    String,
    EmitError,
>)
    ensures
        match r {
            Ok(t) => spec_emit_struct(name@, st@, schema@.models) == Ok::<
                Seq<char>,
                SpecEmitError,
            >(t@),
            Err(e) => spec_emit_struct(name@, st@, schema@.models) == Err::<
                Seq<char>,
                SpecEmitError,
            >(e@),
        },
{
    let fields = match emit_fields(&st.fields, schema) {
        Ok(t) => t,
        Err(e) => {
            return Err(e);
        },
    };
    let mut out = String::from_str("#[derive(Debug, Clone, Serialize, Deserialize)]\n");
    out.append("pub struct ");
    out.append(name);
    out.append(" {\n");
    out.append(fields.as_str());
    out.append("}\n");
    Ok(out)
}

/// Renders an enumeration declaration.
#[verifier::loop_isolation(false)]
pub fn emit_enum(name: &str, def: &crate::lang::schema::Enum) -> (r: String)
    ensures
        r@ == spec_emit_enum(name@, def@.fields),
{
    let mut out = String::from_str("#[derive(Debug, Clone, Serialize, Deserialize)]\n");
    out.append("pub enum ");
    out.append(name);
    out.append(" {\n");
    let ghost vs = def@.fields;
    let n = def.fields.len();
    let mut i: usize = 0;
    let ghost mid = out@;
    proof {
        assert(vs.skip(0) =~= vs);
    }
    while i < n
        invariant
            n == def.fields@.len(),
            n == vs.len(),
            i <= n,
            out@ + spec_emit_variants(vs.skip(i as int)) == mid + spec_emit_variants(vs),
        decreases n - i,
    {
        let ghost out0 = out@;
        let ghost rest = vs.skip(i as int);
        proof {
            assert(rest[0] == vs[i as int]);
            assert(vs[i as int] == def.fields@[i as int]@);
            assert(rest.skip(1) =~= vs.skip(i as int + 1));
        }
        out.append("    ");
        out.append(def.fields[i].as_str());
        out.append(",\n");
        proof {
            assert(out@ =~= out0 + ("    "@ + rest[0] + ",\n"@));
            assert(out0 + ("    "@ + rest[0] + ",\n"@) + spec_emit_variants(rest.skip(1)) =~=
                out0 + (("    "@ + rest[0] + ",\n"@) + spec_emit_variants(rest.skip(1))));
        }
        i += 1;
    }
    proof {
        assert(spec_emit_variants(vs.skip(n as int)) =~= Seq::<char>::empty());
        assert(out@ + Seq::<char>::empty() =~= out@);
    }
    out.append("}\n");
    out
}

/// Renders one model declaration.
fn emit_model(name: &str, model: &Model, schema: &Schema) -> (r: Result<String, EmitError>)
    ensures
        match r {
            Ok(t) => spec_emit_model(name@, model@, schema@.models) == Ok::<
                Seq<char>,
                SpecEmitError,
            >(t@),
            Err(e) => spec_emit_model(name@, model@, schema@.models) == Err::<
                Seq<char>,
                SpecEmitError,
            >(e@),
        },
{
    match model {
        Model::Struct(st) => emit_struct(name, st, schema),
        Model::Enum(e) => Ok(emit_enum(name, e)),
        Model::Alias(a) => match emit_shape(&a.shape.inner, schema) {
            Err(e) => Err(e),
            Ok(t) => {
                let mut out = String::from_str("pub type ");
                out.append(name);
                out.append(" = ");
                out.append(t.as_str());
                out.append(";\n");
                Ok(out)
            },
        },
        Model::External(_) => {
            let mut out = String::from_str("use external::");
            out.append(name);
            out.append(";\n");
            Ok(out)
        },
    }
}

/// Renders the whole schema as a systems-language source file.
#[verifier::loop_isolation(false)]
pub fn emit_schema(name: &str, schema: &Schema) -> (r: Result<String, EmitError>)
    ensures
        match r {
            Ok(t) => spec_emit_schema(name@, schema@) == Ok::<Seq<char>, SpecEmitError>(t@),
            Err(e) => spec_emit_schema(name@, schema@) == Err::<Seq<char>, SpecEmitError>(e@),
        },
{
    let ghost m = schema@.models;
    let mut out = String::from_str("use serde::{Serialize, Deserialize};\n");
    let n = schema.models.len();
    if n == 0 {
        proof {
            assert(out@ + Seq::<char>::empty() =~= out@);
        }
        return Ok(out);
    }
    let first = match emit_model(
        schema.models.key_at(0).as_str(),
        schema.models.value_at(0),
        schema,
    ) {
        Ok(t) => t,
        Err(e) => {
            return Err(e);
        },
    };
    out.append(first.as_str());
    let ghost full = spec_emit_models(m, m);
    let mut i: usize = 1;
    proof {
        assert(m.skip(0) =~= m);
        assert(m[0] == (schema.models@[0].0, schema.models@[0].1));
    }
    while i < n
        invariant
            n == schema.models@.len(),
            m == schema@.models,
            1 <= i <= n,
            (spec_emit_models_rest(m.skip(i as int), m) matches Ok(t) ==> {
                &&& full is Ok
                &&& "use serde::{Serialize, Deserialize};\n"@ + full->Ok_0 == out@ + t
            }),
            (spec_emit_models_rest(m.skip(i as int), m) matches Err(e) ==> full == Err::<
                Seq<char>,
                SpecEmitError,
            >(e)),
        decreases n - i,
    {
        let ghost out0 = out@;
        let ghost rest = m.skip(i as int);
        proof {
            assert(rest[0] == m[i as int]);
            assert(rest.skip(1) =~= m.skip(i as int + 1));
        }
        let text = match emit_model(
            schema.models.key_at(i).as_str(),
            schema.models.value_at(i),
            schema,
        ) {
            Ok(t) => t,
            Err(e) => {
                return Err(e);
            },
        };
        out.append("\n");
        out.append(text.as_str());
        proof {
            assert(out@ =~= out0 + ("\n"@ + text@));
            if spec_emit_models_rest(rest.skip(1), m) is Ok {
                let t = spec_emit_models_rest(rest.skip(1), m)->Ok_0;
                assert(out0 + ("\n"@ + text@ + t) =~= out@ + t);
            }
        }
        i += 1;
    }
    proof {
        assert(m.skip(n as int) =~= Seq::<(Seq<char>, SpecModel)>::empty());
        assert(out@ + Seq::<char>::empty() =~= out@);
    }
    Ok(out)
}

/// Emission is repeatable: any two texts that the emitter's contract
/// allows for the same name and schema are byte-identical, because the
/// contract pins the text to one rendering function.
pub proof fn lemma_emit_schema_repeatable(
    name: Seq<char>,
    s: crate::lang::schema::SpecSchema,
    t1: Seq<char>,
    t2: Seq<char>,
)
    requires
        spec_emit_schema(name, s) == Ok::<Seq<char>, SpecEmitError>(t1),
        spec_emit_schema(name, s) == Ok::<Seq<char>, SpecEmitError>(t2),
    ensures
        t1 == t2,
{
}

/// Field order is preserved: the rendered record body splits, at every
/// field position, into the lines of the earlier fields, that field's
/// own line, and the lines of the later fields, in declaration order.
pub proof fn lemma_emit_fields_order(
    fs: Seq<(Seq<char>, SpecAnnotated<SpecShape>)>,
    m: Seq<(Seq<char>, SpecModel)>,
    i: int,
)
    requires
        0 <= i < fs.len(),
        spec_emit_fields(fs, m) is Ok,
    ensures
        spec_emit_fields(fs.take(i), m) is Ok,
        spec_emit_shape(fs[i].1.inner, m) is Ok,
        spec_emit_fields(fs.skip(i + 1), m) is Ok,
        spec_emit_fields(fs, m)->Ok_0 == spec_emit_fields(fs.take(i), m)->Ok_0 + ("    pub "@
            + snake_of(fs[i].0) + ": "@ + spec_emit_shape(fs[i].1.inner, m)->Ok_0 + ",\n"@)
            + spec_emit_fields(fs.skip(i + 1), m)->Ok_0,
    decreases i,
{
    if i == 0 {
        assert(fs.take(0) =~= Seq::<(Seq<char>, SpecAnnotated<SpecShape>)>::empty());
        assert(fs.skip(1) =~= fs.skip(0int + 1));
        assert(Seq::<char>::empty() + ("    pub "@ + snake_of(fs[0].0) + ": "@ + spec_emit_shape(
            fs[0].1.inner,
            m,
        )->Ok_0 + ",\n"@) + spec_emit_fields(fs.skip(1), m)->Ok_0 =~= ("    pub "@ + snake_of(
            fs[0].0,
        ) + ": "@ + spec_emit_shape(fs[0].1.inner, m)->Ok_0 + ",\n"@) + spec_emit_fields(
            fs.skip(1),
            m,
        )->Ok_0);
    } else {
        lemma_emit_fields_order(fs.skip(1), m, i - 1);
        assert(fs.skip(1).take(i - 1) =~= fs.take(i).skip(1));
        assert(fs.skip(1)[i - 1] == fs[i]);
        assert(fs.skip(1).skip(i) =~= fs.skip(i + 1));
        assert(fs.take(i)[0] == fs[0]);
        assert(fs.take(i).skip(1) =~= fs.skip(1).take(i - 1));
        let line0 = "    pub "@ + snake_of(fs[0].0) + ": "@ + spec_emit_shape(
            fs[0].1.inner,
            m,
        )->Ok_0 + ",\n"@;
        let linei = "    pub "@ + snake_of(fs[i].0) + ": "@ + spec_emit_shape(
            fs[i].1.inner,
            m,
        )->Ok_0 + ",\n"@;
        assert(line0 + (spec_emit_fields(fs.skip(1).take(i - 1), m)->Ok_0 + linei
            + spec_emit_fields(fs.skip(i + 1), m)->Ok_0) =~= (line0 + spec_emit_fields(
            fs.skip(1).take(i - 1),
            m,
        )->Ok_0) + linei + spec_emit_fields(fs.skip(i + 1), m)->Ok_0);
    }
}

} // verus!
