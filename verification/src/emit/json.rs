//! The interchange emitter: renders the schema tree itself as a JSON
//! document, the simplest machine-readable dump of the data model.

use crate::emit::{EmitError, SpecEmitError};
use crate::lang::map::{ohm_contains, OrderedHashMap};
use crate::lang::schema::{
    Annotated, Model, Schema, ServiceMethod, Service, Shape, SpecAnnotated, SpecMethod,
    SpecModel, SpecService, SpecShape, SpecStruct,
};
use crate::lang::schema::primitive_name;
use vstd::prelude::*;

verus! {

broadcast use vstd::seq_lib::group_seq_properties;

/// The JSON object describing a shape.
pub open spec fn spec_emit_shape(s: SpecShape, m: Seq<(Seq<char>, SpecModel)>) -> Result<
    Seq<char>,
    SpecEmitError,
>
    decreases s,
{
    match s {
        SpecShape::Primitive(p) => Ok("{\"type\":\""@ + primitive_name(p) + "\"}"@),
        SpecShape::Nullable(t) => match spec_emit_shape(*t, m) {
            Ok(t) => Ok("{\"type\":\"Nullable\",\"inner\":"@ + t + "}"@),
            Err(e) => Err(e),
        },
        SpecShape::List(t) => match spec_emit_shape(*t, m) {
            Ok(t) => Ok("{\"type\":\"List\",\"inner\":"@ + t + "}"@),
            Err(e) => Err(e),
        },
        SpecShape::SetOf(t) => match spec_emit_shape(*t, m) {
            Ok(t) => Ok("{\"type\":\"Set\",\"inner\":"@ + t + "}"@),
            Err(e) => Err(e),
        },
        SpecShape::MapOf(k, v) => match (spec_emit_shape(*k, m), spec_emit_shape(*v, m)) {
            (Ok(k), Ok(v)) => Ok(
                "{\"type\":\"Map\",\"key\":"@ + k + ",\"value\":"@ + v + "}"@,
            ),
            (Err(e), _) => Err(e),
            (_, Err(e)) => Err(e),
        },
        SpecShape::Reference(n) => if ohm_contains(m, n) {
            Ok("{\"type\":\"Reference\",\"name\":\""@ + n + "\"}"@)
        } else {
            Err(SpecEmitError::UnresolvedReference(n))
        },
    }
}

/// `"name":SHAPE` members for a field map, comma separated.
pub open spec fn spec_emit_field_members(
    fs: Seq<(Seq<char>, SpecAnnotated<SpecShape>)>,
    m: Seq<(Seq<char>, SpecModel)>,
    first: bool,
) -> Result<Seq<char>, SpecEmitError>
    decreases fs.len(),
{
    if fs.len() == 0 {
        Ok(Seq::empty())
    } else {
        match spec_emit_shape(fs[0].1.inner, m) {
            Err(e) => Err(e),
            Ok(t) => match spec_emit_field_members(fs.skip(1), m, false) {
                Err(e) => Err(e),
                Ok(r) => if first {
                    Ok("\""@ + fs[0].0 + "\":"@ + t + r)
                } else {
                    Ok(",\""@ + fs[0].0 + "\":"@ + t + r)
                },
            },
        }
    }
}

/// `"variant"` strings for an enum's field list, comma separated.
pub open spec fn spec_emit_variant_members(vs: Seq<Seq<char>>, first: bool) -> Seq<char>
    decreases vs.len(),
{
    if vs.len() == 0 {
        Seq::empty()
    } else if first {
        "\""@ + vs[0] + "\""@ + spec_emit_variant_members(vs.skip(1), false)
    } else {
        ",\""@ + vs[0] + "\""@ + spec_emit_variant_members(vs.skip(1), false)
    }
}

pub open spec fn spec_emit_model(
    name: Seq<char>,
    model: SpecModel,
    m: Seq<(Seq<char>, SpecModel)>,
) -> Result<Seq<char>, SpecEmitError> {
    match model {
        SpecModel::Struct(st) => match spec_emit_field_members(st.fields, m, true) {
            Err(e) => Err(e),
            Ok(fields) => Ok(
                "\""@ + name + "\":{\"type\":\"Struct\",\"fields\":{"@ + fields + "}}"@,
            ),
        },
        SpecModel::Enum(e) => Ok(
            "\""@ + name + "\":{\"type\":\"Enum\",\"fields\":["@ + spec_emit_variant_members(
                e.fields,
                true,
            ) + "]}"@,
        ),
        SpecModel::Alias(a) => match spec_emit_shape(a.shape.inner, m) {
            Err(e) => Err(e),
            Ok(t) => Ok("\""@ + name + "\":{\"type\":\"Alias\",\"inner\":"@ + t + "}"@),
        },
        SpecModel::External(x) => match spec_emit_shape(x.shape.inner, m) {
            Err(e) => Err(e),
            Ok(t) => Ok("\""@ + name + "\":{\"type\":\"External\",\"inner\":"@ + t + "}"@),
        },
    }
}

/// One method member: inputs in declaration order, and the output
/// shape or `null` for a void return.
pub open spec fn spec_emit_method(
    name: Seq<char>,
    method: SpecAnnotated<SpecMethod>,
    m: Seq<(Seq<char>, SpecModel)>,
) -> Result<Seq<char>, SpecEmitError> {
    match spec_emit_field_members(method.inner.inputs, m, true) {
        Err(e) => Err(e),
        Ok(inputs) => {
            let out = match method.inner.output {
                Some(a) => spec_emit_shape(a.inner, m),
                None => Ok("null"@),
            };
            match out {
                Err(e) => Err(e),
                Ok(o) => Ok(
                    "\""@ + name + "\":{\"inputs\":{"@ + inputs + "},\"output\":"@ + o + "}"@,
                ),
            }
        },
    }
}

pub open spec fn spec_emit_method_members(
    ms: Seq<(Seq<char>, SpecAnnotated<SpecMethod>)>,
    m: Seq<(Seq<char>, SpecModel)>,
    first: bool,
) -> Result<Seq<char>, SpecEmitError>
    decreases ms.len(),
{
    if ms.len() == 0 {
        Ok(Seq::empty())
    } else {
        match spec_emit_method(ms[0].0, ms[0].1, m) {
            Err(e) => Err(e),
            Ok(t) => match spec_emit_method_members(ms.skip(1), m, false) {
                Err(e) => Err(e),
                Ok(r) => if first {
                    Ok(t + r)
                } else {
                    Ok(","@ + t + r)
                },
            },
        }
    }
}

pub open spec fn spec_emit_service(
    name: Seq<char>,
    service: SpecService,
    m: Seq<(Seq<char>, SpecModel)>,
) -> Result<Seq<char>, SpecEmitError> {
    match spec_emit_method_members(service.methods, m, true) {
        Err(e) => Err(e),
        Ok(methods) => Ok(
            "\""@ + name + "\":{\"type\":\"Service\",\"methods\":{"@ + methods + "}}"@,
        ),
    }
}

pub open spec fn spec_emit_model_members(
    ms: Seq<(Seq<char>, SpecModel)>,
    m: Seq<(Seq<char>, SpecModel)>,
    first: bool,
) -> Result<Seq<char>, SpecEmitError>
    decreases ms.len(),
{
    if ms.len() == 0 {
        Ok(Seq::empty())
    } else {
        match spec_emit_model(ms[0].0, ms[0].1, m) {
            Err(e) => Err(e),
            Ok(t) => match spec_emit_model_members(ms.skip(1), m, false) {
                Err(e) => Err(e),
                Ok(r) => if first {
                    Ok(t + r)
                } else {
                    Ok(","@ + t + r)
                },
            },
        }
    }
}

pub open spec fn spec_emit_service_members(
    ss: Seq<(Seq<char>, SpecService)>,
    m: Seq<(Seq<char>, SpecModel)>,
    first: bool,
) -> Result<Seq<char>, SpecEmitError>
    decreases ss.len(),
{
    if ss.len() == 0 {
        Ok(Seq::empty())
    } else {
        match spec_emit_service(ss[0].0, ss[0].1, m) {
            Err(e) => Err(e),
            Ok(t) => match spec_emit_service_members(ss.skip(1), m, false) {
                Err(e) => Err(e),
                Ok(r) => if first {
                    Ok(t + r)
                } else {
                    Ok(","@ + t + r)
                },
            },
        }
    }
}

/// The whole document: models then services.
pub open spec fn spec_emit_schema(name: Seq<char>, s: crate::lang::schema::SpecSchema) -> Result<
    Seq<char>,
    SpecEmitError,
> {
    match (spec_emit_model_members(s.models, s.models, true), spec_emit_service_members(
        s.services,
        s.models,
        true,
    )) {
        (Ok(ms), Ok(ss)) => Ok(
            "{\"models\":{"@ + ms + "},\"services\":{"@ + ss + "}}"@,
        ),
        (Err(e), _) => Err(e),
        (_, Err(e)) => Err(e),
    }
}

/// Renders a shape as its JSON description.
pub fn emit_shape(s: &Shape, schema: &Schema) -> (r: Result<String, EmitError>)
    ensures
        match r {
            Ok(t) => spec_emit_shape(s@, schema@.models) == Ok::<Seq<char>, SpecEmitError>(t@),
            Err(e) => spec_emit_shape(s@, schema@.models) == Err::<Seq<char>, SpecEmitError>(e@),
        },
    decreases *s,
{
    match s {
        Shape::Primitive(p) => {
            let mut out = String::from_str("{\"type\":\"");
            out.append(p.name());
            out.append("\"}");
            Ok(out)
        },
        Shape::Nullable(t) => match emit_shape(t, schema) {
            Err(e) => Err(e),
            Ok(t) => {
                let mut out = String::from_str("{\"type\":\"Nullable\",\"inner\":");
                out.append(t.as_str());
                out.append("}");
                Ok(out)
            },
        },
        Shape::List(t) => match emit_shape(t, schema) {
            Err(e) => Err(e),
            Ok(t) => {
                let mut out = String::from_str("{\"type\":\"List\",\"inner\":");
                out.append(t.as_str());
                out.append("}");
                Ok(out)
            },
        },
        Shape::SetOf(t) => match emit_shape(t, schema) {
            Err(e) => Err(e),
            Ok(t) => {
                let mut out = String::from_str("{\"type\":\"Set\",\"inner\":");
                out.append(t.as_str());
                out.append("}");
                Ok(out)
            },
        },
        Shape::MapOf(k, v) => match emit_shape(k, schema) {
            Err(e) => Err(e),
            Ok(kt) => match emit_shape(v, schema) {
                Err(e) => Err(e),
                Ok(vt) => {
                    let mut out = String::from_str("{\"type\":\"Map\",\"key\":");
                    out.append(kt.as_str());
                    out.append(",\"value\":");
                    out.append(vt.as_str());
                    out.append("}");
                    Ok(out)
                },
            },
        },
        Shape::Reference(n) => {
            if schema.models.contains_key(n.as_str()) {
                let mut out = String::from_str("{\"type\":\"Reference\",\"name\":\"");
                out.append(n.as_str());
                out.append("\"}");
                Ok(out)
            } else {
                Err(EmitError::UnresolvedReference(n.clone()))
            }
        },
    }
}

/// Renders the members of a field map, comma separated.
#[verifier::loop_isolation(false)]
fn emit_field_members(fields: &OrderedHashMap<Annotated<Shape>>, schema: &Schema) -> (r: Result<
    String,
    EmitError,
>)
    ensures
        match r {
            Ok(t) => spec_emit_field_members(fields@, schema@.models, true) == Ok::<
                Seq<char>,
                SpecEmitError,
            >(t@),
            Err(e) => spec_emit_field_members(fields@, schema@.models, true) == Err::<
                Seq<char>,
                SpecEmitError,
            >(e@),
        },
{
    let ghost m = schema@.models;
    let ghost full = spec_emit_field_members(fields@, m, true);
    let n = fields.len();
    let mut out = String::new();
    let mut i: usize = 0;
    proof {
        assert(fields@.skip(0) =~= fields@);
    }
    while i < n
        invariant
            n == fields@.len(),
            i <= n,
            (spec_emit_field_members(fields@.skip(i as int), m, i == 0) matches Ok(t) ==> full
                == Ok::<Seq<char>, SpecEmitError>(out@ + t)),
            (spec_emit_field_members(fields@.skip(i as int), m, i == 0) matches Err(e) ==> full
                == Err::<Seq<char>, SpecEmitError>(e)),
        decreases n - i,
    {
        let ghost out0 = out@;
        let ghost rest = fields@.skip(i as int);
        proof {
            assert(rest[0] == fields@[i as int]);
            assert(rest.skip(1) =~= fields@.skip(i as int + 1));
        }
        let name = fields.key_at(i);
        let field = fields.value_at(i);
        let shape_text = match emit_shape(&field.inner, schema) {
            Ok(t) => t,
            Err(e) => {
                return Err(e);
            },
        };
        if i == 0 {
            out.append("\"");
        } else {
            out.append(",\"");
        }
        out.append(name.as_str());
        out.append("\":");
        out.append(shape_text.as_str());
        proof {
            if i == 0 {
                assert(out@ =~= out0 + ("\""@ + rest[0].0 + "\":"@ + shape_text@));
            } else {
                assert(out@ =~= out0 + (",\""@ + rest[0].0 + "\":"@ + shape_text@));
            }
            if spec_emit_field_members(rest.skip(1), m, false) is Ok {
                let t = spec_emit_field_members(rest.skip(1), m, false)->Ok_0;
                if i == 0 {
                    assert(out0 + ("\""@ + rest[0].0 + "\":"@ + shape_text@ + t) =~= out@ + t);
                } else {
                    assert(out0 + (",\""@ + rest[0].0 + "\":"@ + shape_text@ + t) =~= out@
                        + t);
                }
            }
        }
        i += 1;
    }
    proof {
        assert(fields@.skip(n as int) =~= Seq::<(Seq<char>, SpecAnnotated<SpecShape>)>::empty());
        assert(out@ + Seq::<char>::empty() =~= out@);
    }
    Ok(out)
}

/// Renders the variant list of an enum, comma separated.
#[verifier::loop_isolation(false)]
fn emit_variant_members(fields: &Vec<String>) -> (r: String)
    ensures
        r@ == spec_emit_variant_members(crate::lang::schema::str_views(fields@), true),
{
    let ghost vs = crate::lang::schema::str_views(fields@);
    let ghost full = spec_emit_variant_members(vs, true);
    let n = fields.len();
    let mut out = String::new();
    let mut i: usize = 0;
    proof {
        assert(vs.skip(0) =~= vs);
    }
    while i < n
        invariant
            n == fields@.len(),
            n == vs.len(),
            i <= n,
            full == out@ + spec_emit_variant_members(vs.skip(i as int), i == 0),
        decreases n - i,
    {
        let ghost out0 = out@;
        let ghost rest = vs.skip(i as int);
        proof {
            assert(rest[0] == vs[i as int]);
            assert(vs[i as int] == fields@[i as int]@);
            assert(rest.skip(1) =~= vs.skip(i as int + 1));
        }
        if i == 0 {
            out.append("\"");
        } else {
            out.append(",\"");
        }
        out.append(fields[i].as_str());
        out.append("\"");
        proof {
            if i == 0 {
                assert(out@ =~= out0 + ("\""@ + rest[0] + "\""@));
                assert(out0 + (("\""@ + rest[0] + "\""@) + spec_emit_variant_members(
                    rest.skip(1),
                    false,
                )) =~= out@ + spec_emit_variant_members(rest.skip(1), false));
            } else {
                assert(out@ =~= out0 + (",\""@ + rest[0] + "\""@));
                assert(out0 + ((",\""@ + rest[0] + "\""@) + spec_emit_variant_members(
                    rest.skip(1),
                    false,
                )) =~= out@ + spec_emit_variant_members(rest.skip(1), false));
            }
        }
        i += 1;
    }
    proof {
        assert(vs.skip(n as int) =~= Seq::<Seq<char>>::empty());
        assert(out@ + Seq::<char>::empty() =~= out@);
    }
    out
}

/// Renders one model member.
fn emit_model(name: &str, model: &Model, schema: &Schema) -> (r: Result<String, EmitError>)
    ensures
        match r {
            Ok(t) => spec_emit_model(name@, model@, schema@.models) == Ok::<
                Seq<char>,
                SpecEmitError,
            >(t@),
            Err(e) => spec_emit_model(name@, model@, schema@.models) == Err::<
                Seq<char>,
                SpecEmitError,
            >(e@),
        },
{
    match model {
        Model::Struct(st) => {
            let fields = match emit_field_members(&st.fields, schema) {
                Ok(t) => t,
                Err(e) => {
                    return Err(e);
                },
            };
            let mut out = String::from_str("\"");
            out.append(name);
            out.append("\":{\"type\":\"Struct\",\"fields\":{");
            out.append(fields.as_str());
            out.append("}}");
            Ok(out)
        },
        Model::Enum(e) => {
            let variants = emit_variant_members(&e.fields);
            let mut out = String::from_str("\"");
            out.append(name);
            out.append("\":{\"type\":\"Enum\",\"fields\":[");
            out.append(variants.as_str());
            out.append("]}");
            Ok(out)
        },
        Model::Alias(a) => {
            let inner = match emit_shape(&a.shape.inner, schema) {
                Ok(t) => t,
                Err(e) => {
                    return Err(e);
                },
            };
            let mut out = String::from_str("\"");
            out.append(name);
            out.append("\":{\"type\":\"Alias\",\"inner\":");
            out.append(inner.as_str());
            out.append("}");
            Ok(out)
        },
        Model::External(x) => {
            let inner = match emit_shape(&x.shape.inner, schema) {
                Ok(t) => t,
                Err(e) => {
                    return Err(e);
                },
            };
            let mut out = String::from_str("\"");
            out.append(name);
            out.append("\":{\"type\":\"External\",\"inner\":");
            out.append(inner.as_str());
            out.append("}");
            Ok(out)
        },
    }
}

/// Renders one method member.
fn emit_method(name: &str, method: &Annotated<ServiceMethod>, schema: &Schema) -> (r: Result<
    String,
    EmitError,
>)
    ensures
        match r {
            Ok(t) => spec_emit_method(name@, method@, schema@.models) == Ok::<
                Seq<char>,
                SpecEmitError,
            >(t@),
            Err(e) => spec_emit_method(name@, method@, schema@.models) == Err::<
                Seq<char>,
                SpecEmitError,
            >(e@),
        },
{
    let inputs = match emit_field_members(&method.inner.inputs, schema) {
        Ok(t) => t,
        Err(e) => {
            return Err(e);
        },
    };
    let output = match &method.inner.output {
        Some(a) => match emit_shape(&a.inner, schema) {
            Ok(t) => t,
            Err(e) => {
                return Err(e);
            },
        },
        None => String::from_str("null"),
    };
    let mut out = String::from_str("\"");
    out.append(name);
    out.append("\":{\"inputs\":{");
    out.append(inputs.as_str());
    out.append("},\"output\":");
    out.append(output.as_str());
    out.append("}");
    Ok(out)
}

/// Renders one service member.
#[verifier::loop_isolation(false)]
fn emit_service(name: &str, service: &Service, schema: &Schema) -> (r: Result<String, EmitError>)
    ensures
        match r {
            Ok(t) => spec_emit_service(name@, service@, schema@.models) == Ok::<
                Seq<char>,
                SpecEmitError,
            >(t@),
            Err(e) => spec_emit_service(name@, service@, schema@.models) == Err::<
                Seq<char>,
                SpecEmitError,
            >(e@),
        },
{
    let ghost m = schema@.models;
    let ghost full = spec_emit_method_members(service@.methods, m, true);
    let n = service.methods.len();
    let mut out = String::new();
    let mut i: usize = 0;
    proof {
        assert(service@.methods.skip(0) =~= service@.methods);
    }
    while i < n
        invariant
            n == service.methods@.len(),
            i <= n,
            (spec_emit_method_members(service@.methods.skip(i as int), m, i == 0) matches Ok(t)
                ==> full == Ok::<Seq<char>, SpecEmitError>(out@ + t)),
            (spec_emit_method_members(service@.methods.skip(i as int), m, i == 0) matches Err(e)
                ==> full == Err::<Seq<char>, SpecEmitError>(e)),
        decreases n - i,
    {
        let ghost out0 = out@;
        let ghost rest = service@.methods.skip(i as int);
        proof {
            assert(rest[0] == service@.methods[i as int]);
            assert(rest.skip(1) =~= service@.methods.skip(i as int + 1));
        }
        let mname = service.methods.key_at(i);
        let method = service.methods.value_at(i);
        let text = match emit_method(mname.as_str(), method, schema) {
            Ok(t) => t,
            Err(e) => {
                return Err(e);
            },
        };
        if i > 0 {
            out.append(",");
        }
        out.append(text.as_str());
        proof {
            if i == 0 {
                assert(out@ =~= out0 + text@);
            } else {
                assert(out@ =~= out0 + (","@ + text@));
            }
            if spec_emit_method_members(rest.skip(1), m, false) is Ok {
                let t = spec_emit_method_members(rest.skip(1), m, false)->Ok_0;
                if i == 0 {
                    assert(out0 + (text@ + t) =~= out@ + t);
                } else {
                    assert(out0 + (","@ + text@ + t) =~= out@ + t);
                }
            }
        }
        i += 1;
    }
    proof {
        assert(service@.methods.skip(n as int) =~= Seq::<
            (Seq<char>, SpecAnnotated<SpecMethod>),
        >::empty());
        assert(out@ + Seq::<char>::empty() =~= out@);
    }
    let mut text = String::from_str("\"");
    text.append(name);
    text.append("\":{\"type\":\"Service\",\"methods\":{");
    text.append(out.as_str());
    text.append("}}");
    Ok(text)
}

/// Renders the whole schema as one JSON document.
#[verifier::loop_isolation(false)]
pub fn emit_schema(name: &str, schema: &Schema) -> (r: Result<String, EmitError>)
    ensures
        match r {
            Ok(t) => spec_emit_schema(name@, schema@) == Ok::<Seq<char>, SpecEmitError>(t@),
            Err(e) => spec_emit_schema(name@, schema@) == Err::<Seq<char>, SpecEmitError>(e@),
        },
{
    let ghost m = schema@.models;
    let ghost fullm = spec_emit_model_members(m, m, true);
    let n = schema.models.len();
    let mut out = String::new();
    let mut i: usize = 0;
    proof {
        assert(m.skip(0) =~= m);
    }
    while i < n
        invariant
            n == schema.models@.len(),
            m == schema@.models,
            i <= n,
            (spec_emit_model_members(m.skip(i as int), m, i == 0) matches Ok(t) ==> fullm
                == Ok::<Seq<char>, SpecEmitError>(out@ + t)),
            (spec_emit_model_members(m.skip(i as int), m, i == 0) matches Err(e) ==> fullm
                == Err::<Seq<char>, SpecEmitError>(e)),
        decreases n - i,
    {
        let ghost out0 = out@;
        let ghost rest = m.skip(i as int);
        proof {
            assert(rest[0] == m[i as int]);
            assert(rest.skip(1) =~= m.skip(i as int + 1));
        }
        let text = match emit_model(
            schema.models.key_at(i).as_str(),
            schema.models.value_at(i),
            schema,
        ) {
            Ok(t) => t,
            Err(e) => {
                return Err(e);
            },
        };
        if i > 0 {
            out.append(",");
        }
        out.append(text.as_str());
        proof {
            if i == 0 {
                assert(out@ =~= out0 + text@);
            } else {
                assert(out@ =~= out0 + (","@ + text@));
            }
            if spec_emit_model_members(rest.skip(1), m, false) is Ok {
                let t = spec_emit_model_members(rest.skip(1), m, false)->Ok_0;
                if i == 0 {
                    assert(out0 + (text@ + t) =~= out@ + t);
                } else {
                    assert(out0 + (","@ + text@ + t) =~= out@ + t);
                }
            }
        }
        i += 1;
    }
    proof {
        assert(m.skip(n as int) =~= Seq::<(Seq<char>, SpecModel)>::empty());
        assert(out@ + Seq::<char>::empty() =~= out@);
    }
    let ghost fulls = spec_emit_service_members(schema@.services, m, true);
    let sn = schema.services.len();
    let mut sout = String::new();
    let mut j: usize = 0;
    proof {
        assert(schema@.services.skip(0) =~= schema@.services);
    }
    while j < sn
        invariant
            sn == schema.services@.len(),
            m == schema@.models,
            j <= sn,
            (spec_emit_service_members(schema@.services.skip(j as int), m, j == 0) matches Ok(t)
                ==> fulls == Ok::<Seq<char>, SpecEmitError>(sout@ + t)),
            (spec_emit_service_members(schema@.services.skip(j as int), m, j == 0) matches Err(
                e,
            ) ==> fulls == Err::<Seq<char>, SpecEmitError>(e)),
        decreases sn - j,
    {
        let ghost out0 = sout@;
        let ghost rest = schema@.services.skip(j as int);
        proof {
            assert(rest[0] == schema@.services[j as int]);
            assert(rest.skip(1) =~= schema@.services.skip(j as int + 1));
        }
        let text = match emit_service(
            schema.services.key_at(j).as_str(),
            schema.services.value_at(j),
            schema,
        ) {
            Ok(t) => t,
            Err(e) => {
                return Err(e);
            },
        };
        if j > 0 {
            sout.append(",");
        }
        sout.append(text.as_str());
        proof {
            if j == 0 {
                assert(sout@ =~= out0 + text@);
            } else {
                assert(sout@ =~= out0 + (","@ + text@));
            }
            if spec_emit_service_members(rest.skip(1), m, false) is Ok {
                let t = spec_emit_service_members(rest.skip(1), m, false)->Ok_0;
                if j == 0 {
                    assert(out0 + (text@ + t) =~= sout@ + t);
                } else {
                    assert(out0 + (","@ + text@ + t) =~= sout@ + t);
                }
            }
        }
        j += 1;
    }
    proof {
        assert(schema@.services.skip(sn as int) =~= Seq::<(Seq<char>, SpecService)>::empty());
        assert(sout@ + Seq::<char>::empty() =~= sout@);
    }
    let mut text = String::from_str("{\"models\":{");
    text.append(out.as_str());
    text.append("},\"services\":{");
    text.append(sout.as_str());
    text.append("}}");
    Ok(text)
}

/// Emission is repeatable: the contract pins the text to one rendering
/// function, so two runs on the same schema agree byte for byte.
pub proof fn lemma_emit_schema_repeatable(
    name: Seq<char>,
    s: crate::lang::schema::SpecSchema,
    t1: Seq<char>,
    t2: Seq<char>,
)
    requires
        spec_emit_schema(name, s) == Ok::<Seq<char>, SpecEmitError>(t1),
        spec_emit_schema(name, s) == Ok::<Seq<char>, SpecEmitError>(t2),
    ensures
        t1 == t2,
{
}

} // verus!
