//! The client-language emitter: renders classes with named-constructor
//! patterns, consumer stubs over a request handler, and paired
//! encode/decode functions per model, so that a record round-trips
//! through the target's map-based interchange values.
//!
//! The target's integers are 64-bit, so `Int128` is rejected as
//! unsupported rather than silently narrowed.

use crate::emit::{EmitError, SpecEmitError};
use crate::lang::map::{ohm_contains, OrderedHashMap};
use crate::lang::schema::{
    Annotated, Model, Primitive, Schema, Service, ServiceMethod, Shape, SpecAnnotated,
    SpecMethod, SpecModel, SpecService, SpecShape, SpecStruct,
};
use vstd::prelude::*;

verus! {

broadcast use vstd::seq_lib::group_seq_properties;

/// The native scalar a primitive maps to; 128-bit integers do not fit
/// this target.
pub open spec fn spec_dart_primitive(p: Primitive) -> Result<Seq<char>, SpecEmitError> {
    match p {
        Primitive::Unit => Ok("void"@),
        Primitive::Bool => Ok("bool"@),
        Primitive::Int8 => Ok("int"@),
        Primitive::Int16 => Ok("int"@),
        Primitive::Int32 => Ok("int"@),
        Primitive::Int64 => Ok("int"@),
        Primitive::Int128 => Err(SpecEmitError::UnsupportedConstruct("Int128"@)),
        Primitive::Float32 => Ok("double"@),
        Primitive::Float64 => Ok("double"@),
        Primitive::String => Ok("String"@),
    }
}

/// The rendered type of a shape.
pub open spec fn spec_emit_shape(s: SpecShape, m: Seq<(Seq<char>, SpecModel)>) -> Result<
    Seq<char>,
    SpecEmitError,
>
    decreases s,
{
    match s {
        SpecShape::Primitive(p) => spec_dart_primitive(p),
        SpecShape::Nullable(t) => match spec_emit_shape(*t, m) {
            Ok(t) => Ok(t + "?"@),
            Err(e) => Err(e),
        },
        SpecShape::List(t) => match spec_emit_shape(*t, m) {
            Ok(t) => Ok("List<"@ + t + ">"@),
            Err(e) => Err(e),
        },
        SpecShape::SetOf(t) => match spec_emit_shape(*t, m) {
            Ok(t) => Ok("Set<"@ + t + ">"@),
            Err(e) => Err(e),
        },
        SpecShape::MapOf(k, v) => match (spec_emit_shape(*k, m), spec_emit_shape(*v, m)) {
            (Ok(k), Ok(v)) => Ok("Map<"@ + k + ", "@ + v + ">"@),
            (Err(e), _) => Err(e),
            (_, Err(e)) => Err(e),
        },
        SpecShape::Reference(n) => if ohm_contains(m, n) {
            Ok(n)
        } else {
            Err(SpecEmitError::UnresolvedReference(n))
        },
    }
}

/// The encode expression for a value named by `name`: nullables test
/// for null, references delegate to the referenced model's encoder,
/// everything else is written directly.
pub open spec fn spec_serialize_shape(
    name: Seq<char>,
    s: SpecShape,
    m: Seq<(Seq<char>, SpecModel)>,
) -> Result<Seq<char>, SpecEmitError>
    decreases s,
{
    match s {
        SpecShape::Nullable(t) => match spec_emit_shape(*t, m) {
            Err(e) => Err(e),
            Ok(ty) => match spec_serialize_shape(name + " as "@ + ty, *t, m) {
                Err(e) => Err(e),
                Ok(inner) => Ok(name + " == null ? null : "@ + inner),
            },
        },
        SpecShape::Reference(n) => if ohm_contains(m, n) {
            Ok("$"@ + n + "ToJson("@ + name + ")"@)
        } else {
            Err(SpecEmitError::UnresolvedReference(n))
        },
        _ => Ok(name),
    }
}

/// The decode expression for the interchange value named by `field`,
/// mirroring the encode expression structurally.
pub open spec fn spec_deserialize_shape(
    field: Seq<char>,
    s: SpecShape,
    m: Seq<(Seq<char>, SpecModel)>,
) -> Result<Seq<char>, SpecEmitError>
    decreases s,
{
    match s {
        SpecShape::Primitive(p) => match spec_dart_primitive(p) {
            Err(e) => Err(e),
            Ok(ty) => Ok(field + " as "@ + ty),
        },
        SpecShape::Nullable(t) => match spec_deserialize_shape(field, *t, m) {
            Err(e) => Err(e),
            Ok(inner) => Ok(field + " == null ? null : "@ + inner),
        },
        SpecShape::List(t) => match spec_deserialize_shape("e"@, *t, m) {
            Err(e) => Err(e),
            Ok(inner) => Ok(
                "("@ + field + " as List<dynamic>).map((e) => "@ + inner + ").toList()"@,
            ),
        },
        SpecShape::SetOf(t) => match spec_deserialize_shape("e"@, *t, m) {
            Err(e) => Err(e),
            Ok(inner) => Ok(
                "("@ + field + " as List<dynamic>).map((e) => "@ + inner + ").toSet()"@,
            ),
        },
        SpecShape::MapOf(k, v) => match (spec_deserialize_shape("k"@, *k, m),
        spec_deserialize_shape("v"@, *v, m)) {
            (Ok(kt), Ok(vt)) => Ok(
                "("@ + field + " as Map<String,dynamic>).map((k,v) => MapEntry("@ + kt + ","@
                    + vt + "))"@,
            ),
            (Err(e), _) => Err(e),
            (_, Err(e)) => Err(e),
        },
        SpecShape::Reference(n) => if ohm_contains(m, n) {
            Ok("$"@ + n + "FromJson("@ + field + ")"@)
        } else {
            Err(SpecEmitError::UnresolvedReference(n))
        },
    }
}

/// Field declarations, one per line, in declaration order.
pub open spec fn spec_emit_fields(
    fs: Seq<(Seq<char>, SpecAnnotated<SpecShape>)>,
    m: Seq<(Seq<char>, SpecModel)>,
) -> Result<Seq<char>, SpecEmitError>
    decreases fs.len(),
{
    if fs.len() == 0 {
        Ok(Seq::empty())
    } else {
        match spec_emit_shape(fs[0].1.inner, m) {
            Err(e) => Err(e),
            Ok(t) => match spec_emit_fields(fs.skip(1), m) {
                Err(e) => Err(e),
                Ok(r) => Ok("  "@ + t + " "@ + fs[0].0 + ";\n"@ + r),
            },
        }
    }
}

/// Named-constructor parameter lines: a nullable field is optional,
/// any other field is required.
pub open spec fn spec_emit_ctor_fields(fs: Seq<(Seq<char>, SpecAnnotated<SpecShape>)>) -> Seq<
    char,
>
    decreases fs.len(),
{
    if fs.len() == 0 {
        Seq::empty()
    } else {
        let line = if fs[0].1.inner is Nullable {
            "    this."@ + fs[0].0 + ",\n"@
        } else {
            "    required this."@ + fs[0].0 + ",\n"@
        };
        line + spec_emit_ctor_fields(fs.skip(1))
    }
}

pub open spec fn spec_emit_struct(
    name: Seq<char>,
    st: SpecStruct,
    m: Seq<(Seq<char>, SpecModel)>,
) -> Result<Seq<char>, SpecEmitError> {
    match spec_emit_fields(st.fields, m) {
        Err(e) => Err(e),
        Ok(fields) => Ok(
            "class "@ + name + " {\n"@ + fields + "\n"@ + "  "@ + name + "({\n"@
                + spec_emit_ctor_fields(st.fields) + "  });\n"@ + "\n"@
                + "  Map<String, dynamic> toJson() => $"@ + name + "ToJson(this);\n"@
                + "  factory "@ + name + ".fromJson(Map<String, dynamic> json) => $"@ + name
                + "FromJson(json);\n"@ + "}\n"@,
        ),
    }
}

/// Variant lines of an enum declaration, comma separated.
pub open spec fn spec_emit_variants(vs: Seq<Seq<char>>, first: bool) -> Seq<char>
    decreases vs.len(),
{
    if vs.len() == 0 {
        Seq::empty()
    } else if first {
        "  "@ + vs[0] + spec_emit_variants(vs.skip(1), false)
    } else {
        ",\n"@ + "  "@ + vs[0] + spec_emit_variants(vs.skip(1), false)
    }
}

pub open spec fn spec_emit_enum(name: Seq<char>, fields: Seq<Seq<char>>) -> Seq<char> {
    "enum "@ + name + " {\n"@ + spec_emit_variants(fields, true) + ";\n"@ + "\n"@
        + "  String toJson() => $"@ + name + "ToJson(this);\n"@ + "  factory "@ + name
        + ".fromJson(String json) => $"@ + name + "FromJson(json);\n"@ + "}\n"@
}

pub open spec fn spec_emit_model(
    name: Seq<char>,
    model: SpecModel,
    m: Seq<(Seq<char>, SpecModel)>,
) -> Result<Seq<char>, SpecEmitError> {
    match model {
        SpecModel::Struct(st) => spec_emit_struct(name, st, m),
        SpecModel::Enum(e) => Ok(spec_emit_enum(name, e.fields)),
        SpecModel::Alias(a) => match spec_emit_shape(a.shape.inner, m) {
            Err(e) => Err(e),
            Ok(t) => Ok("typedef "@ + name + " = "@ + t + ";\n"@),
        },
        // external models are already imported by the header
        SpecModel::External(_) => Ok(Seq::empty()),
    }
}

/// `Type name` parameters, comma separated.
pub open spec fn spec_emit_params(
    fs: Seq<(Seq<char>, SpecAnnotated<SpecShape>)>,
    m: Seq<(Seq<char>, SpecModel)>,
    first: bool,
) -> Result<Seq<char>, SpecEmitError>
    decreases fs.len(),
{
    if fs.len() == 0 {
        Ok(Seq::empty())
    } else {
        match spec_emit_shape(fs[0].1.inner, m) {
            Err(e) => Err(e),
            Ok(t) => match spec_emit_params(fs.skip(1), m, false) {
                Err(e) => Err(e),
                Ok(r) => if first {
                    Ok(t + " "@ + fs[0].0 + r)
                } else {
                    Ok(", "@ + t + " "@ + fs[0].0 + r)
                },
            },
        }
    }
}

/// `"name": name` request-map entries, comma separated.
pub open spec fn spec_emit_args(fs: Seq<(Seq<char>, SpecAnnotated<SpecShape>)>, first: bool) -> Seq<
    char,
>
    decreases fs.len(),
{
    if fs.len() == 0 {
        Seq::empty()
    } else if first {
        "\""@ + fs[0].0 + "\": "@ + fs[0].0 + spec_emit_args(fs.skip(1), false)
    } else {
        ", "@ + "\""@ + fs[0].0 + "\": "@ + fs[0].0 + spec_emit_args(fs.skip(1), false)
    }
}

/// Whether a method's declared output carries a value to return.
pub open spec fn spec_returns_value(output: Option<SpecAnnotated<SpecShape>>) -> bool {
    match output {
        None => false,
        Some(a) => !(a.inner == SpecShape::Primitive(Primitive::Unit)),
    }
}

/// The rendered output type of a method; a void return renders as the
/// unit type.
pub open spec fn spec_emit_output(
    output: Option<SpecAnnotated<SpecShape>>,
    m: Seq<(Seq<char>, SpecModel)>,
) -> Result<Seq<char>, SpecEmitError> {
    match output {
        Some(a) => spec_emit_shape(a.inner, m),
        None => Ok("void"@),
    }
}

/// The decode-and-return line of a consumer method, empty for a void
/// return.
pub open spec fn spec_emit_return(
    output: Option<SpecAnnotated<SpecShape>>,
    m: Seq<(Seq<char>, SpecModel)>,
) -> Result<Seq<char>, SpecEmitError> {
    if spec_returns_value(output) {
        match spec_deserialize_shape("response"@, output->Some_0.inner, m) {
            Err(e) => Err(e),
            Ok(d) => Ok("    return "@ + d + ";\n"@),
        }
    } else {
        Ok(Seq::empty())
    }
}

pub open spec fn spec_emit_consumer_method(
    name: Seq<char>,
    method: SpecMethod,
    m: Seq<(Seq<char>, SpecModel)>,
) -> Result<Seq<char>, SpecEmitError> {
    match (spec_emit_output(method.output, m), (spec_emit_params(method.inputs, m, true),
    spec_emit_return(method.output, m))) {
        (Ok(out), (Ok(params), Ok(ret))) => Ok(
            "  Future<"@ + out + "> "@ + name + "("@ + params + ") async {\n"@
                + "    var response = await handler.request(name, \""@ + name
                + "\", <String, dynamic> { "@ + spec_emit_args(method.inputs, true) + " });\n"@
                + ret + "  }\n"@,
        ),
        (Err(e), _) => Err(e),
        (_, (Err(e), _)) => Err(e),
        (_, (_, Err(e))) => Err(e),
    }
}

/// Consumer methods, separated by blank lines, in declaration order.
pub open spec fn spec_emit_consumer_methods(
    ms: Seq<(Seq<char>, SpecAnnotated<SpecMethod>)>,
    m: Seq<(Seq<char>, SpecModel)>,
    first: bool,
) -> Result<Seq<char>, SpecEmitError>
    decreases ms.len(),
{
    if ms.len() == 0 {
        Ok(Seq::empty())
    } else {
        match spec_emit_consumer_method(ms[0].0, ms[0].1.inner, m) {
            Err(e) => Err(e),
            Ok(t) => match spec_emit_consumer_methods(ms.skip(1), m, false) {
                Err(e) => Err(e),
                Ok(r) => if first {
                    Ok(t + r)
                } else {
                    Ok("\n"@ + t + r)
                },
            },
        }
    }
}

pub open spec fn spec_emit_consumer(
    name: Seq<char>,
    service: SpecService,
    m: Seq<(Seq<char>, SpecModel)>,
) -> Result<Seq<char>, SpecEmitError> {
    match spec_emit_consumer_methods(service.methods, m, true) {
        Err(e) => Err(e),
        Ok(methods) => Ok(
            "class "@ + name + "Consumer {\n\n"@ + "  final RequestHandler handler;\n"@
                + "  final String name = \""@ + name + "\";"@ + "\n\n"@ + "  "@ + name
                + "Consumer(this.handler);\n"@ + "\n"@ + methods + "}\n"@,
        ),
    }
}

/// `'name':ENCODE` members of a record's encoder, comma separated.
pub open spec fn spec_serialize_members(
    fs: Seq<(Seq<char>, SpecAnnotated<SpecShape>)>,
    m: Seq<(Seq<char>, SpecModel)>,
    first: bool,
) -> Result<Seq<char>, SpecEmitError>
    decreases fs.len(),
{
    if fs.len() == 0 {
        Ok(Seq::empty())
    } else {
        match spec_serialize_shape("instance."@ + fs[0].0, fs[0].1.inner, m) {
            Err(e) => Err(e),
            Ok(t) => match spec_serialize_members(fs.skip(1), m, false) {
                Err(e) => Err(e),
                Ok(r) => if first {
                    Ok("'"@ + fs[0].0 + "':"@ + t + r)
                } else {
                    Ok(","@ + "'"@ + fs[0].0 + "':"@ + t + r)
                },
            },
        }
    }
}

pub open spec fn spec_serialize_struct(
    name: Seq<char>,
    st: SpecStruct,
    m: Seq<(Seq<char>, SpecModel)>,
) -> Result<Seq<char>, SpecEmitError> {
    match spec_serialize_members(st.fields, m, true) {
        Err(e) => Err(e),
        Ok(members) => Ok(
            "Map<String, dynamic> $"@ + name + "ToJson("@ + name
                + " instance) => <String, dynamic>{"@ + members + "};"@,
        ),
    }
}

/// `Name.variant=>'variant'` arms of an enum encoder, comma separated.
pub open spec fn spec_serialize_variants(
    name: Seq<char>,
    vs: Seq<Seq<char>>,
    first: bool,
) -> Seq<char>
    decreases vs.len(),
{
    if vs.len() == 0 {
        Seq::empty()
    } else if first {
        name + "."@ + vs[0] + "=>'"@ + vs[0] + "'"@ + spec_serialize_variants(
            name,
            vs.skip(1),
            false,
        )
    } else {
        ","@ + name + "."@ + vs[0] + "=>'"@ + vs[0] + "'"@ + spec_serialize_variants(
            name,
            vs.skip(1),
            false,
        )
    }
}

pub open spec fn spec_serialize_enum(name: Seq<char>, vs: Seq<Seq<char>>) -> Seq<char> {
    "dynamic $"@ + name + "ToJson("@ + name + " instance)=>switch(instance){"@
        + spec_serialize_variants(name, vs, true) + "};"@
}

/// `'variant'=>Name.variant,` arms of an enum decoder.
pub open spec fn spec_deserialize_variants(name: Seq<char>, vs: Seq<Seq<char>>) -> Seq<char>
    decreases vs.len(),
{
    if vs.len() == 0 {
        Seq::empty()
    } else {
        "'"@ + vs[0] + "'=>"@ + name + "."@ + vs[0] + ","@ + spec_deserialize_variants(
            name,
            vs.skip(1),
        )
    }
}

pub open spec fn spec_deserialize_enum(name: Seq<char>, vs: Seq<Seq<char>>) -> Seq<char> {
    name + " $"@ + name + "FromJson(String value)=>switch(value){"@ + spec_deserialize_variants(
        name,
        vs,
    ) + "_=>throw'Unknown "@ + name + " value: $value'"@ + "};"@
}

/// `name:DECODE` members of a record's decoder, comma separated.
pub open spec fn spec_deserialize_members(
    fs: Seq<(Seq<char>, SpecAnnotated<SpecShape>)>,
    m: Seq<(Seq<char>, SpecModel)>,
    first: bool,
) -> Result<Seq<char>, SpecEmitError>
    decreases fs.len(),
{
    if fs.len() == 0 {
        Ok(Seq::empty())
    } else {
        match spec_deserialize_shape("json['"@ + fs[0].0 + "']"@, fs[0].1.inner, m) {
            Err(e) => Err(e),
            Ok(t) => match spec_deserialize_members(fs.skip(1), m, false) {
                Err(e) => Err(e),
                Ok(r) => if first {
                    Ok(fs[0].0 + ":"@ + t + r)
                } else {
                    Ok(","@ + fs[0].0 + ":"@ + t + r)
                },
            },
        }
    }
}

pub open spec fn spec_deserialize_struct(
    name: Seq<char>,
    st: SpecStruct,
    m: Seq<(Seq<char>, SpecModel)>,
) -> Result<Seq<char>, SpecEmitError> {
    match spec_deserialize_members(st.fields, m, true) {
        Err(e) => Err(e),
        Ok(members) => Ok(
            name + " $"@ + name + "FromJson(Map<String,dynamic>json)=>"@ + name + "("@ + members
                + ");"@,
        ),
    }
}

pub open spec fn spec_serialize_alias(
    name: Seq<char>,
    shape: SpecAnnotated<SpecShape>,
    m: Seq<(Seq<char>, SpecModel)>,
) -> Result<Seq<char>, SpecEmitError> {
    match spec_serialize_shape("instance"@, shape.inner, m) {
        Err(e) => Err(e),
        Ok(t) => Ok(
            "dynamic $"@ + name + "ToJson("@ + name + " instance) => "@ + t + ";"@,
        ),
    }
}

pub open spec fn spec_deserialize_alias(
    name: Seq<char>,
    shape: SpecAnnotated<SpecShape>,
    m: Seq<(Seq<char>, SpecModel)>,
) -> Result<Seq<char>, SpecEmitError> {
    match spec_deserialize_shape("json"@, shape.inner, m) {
        Err(e) => Err(e),
        Ok(t) => Ok(
            name + " $"@ + name + "FromJson(dynamic json) => "@ + t + ";"@,
        ),
    }
}

pub open spec fn spec_serialize_model(
    name: Seq<char>,
    model: SpecModel,
    m: Seq<(Seq<char>, SpecModel)>,
) -> Result<Seq<char>, SpecEmitError> {
    match model {
        SpecModel::Struct(st) => spec_serialize_struct(name, st, m),
        SpecModel::Enum(e) => Ok(spec_serialize_enum(name, e.fields)),
        SpecModel::Alias(a) => spec_serialize_alias(name, a.shape, m),
        SpecModel::External(_) => Ok(
            "/* Map<String, dynamic> $"@ + name + "ToJson("@ + name + " instance) => ? */"@,
        ),
    }
}

pub open spec fn spec_deserialize_model(
    name: Seq<char>,
    model: SpecModel,
    m: Seq<(Seq<char>, SpecModel)>,
) -> Result<Seq<char>, SpecEmitError> {
    match model {
        SpecModel::Struct(st) => spec_deserialize_struct(name, st, m),
        SpecModel::Enum(e) => Ok(spec_deserialize_enum(name, e.fields)),
        SpecModel::Alias(a) => spec_deserialize_alias(name, a.shape, m),
        SpecModel::External(_) => Ok(
            "/* "@ + name + " $"@ + name + "FromJson(Map<String, dynamic> json) => ? */"@,
        ),
    }
}

/// All model declarations, separated by blank lines.
pub open spec fn spec_emit_models(
    ms: Seq<(Seq<char>, SpecModel)>,
    m: Seq<(Seq<char>, SpecModel)>,
    first: bool,
) -> Result<Seq<char>, SpecEmitError>
    decreases ms.len(),
{
    if ms.len() == 0 {
        Ok(Seq::empty())
    } else {
        match spec_emit_model(ms[0].0, ms[0].1, m) {
            Err(e) => Err(e),
            Ok(t) => match spec_emit_models(ms.skip(1), m, false) {
                Err(e) => Err(e),
                Ok(r) => if first {
                    Ok(t + r)
                } else {
                    Ok("\n"@ + t + r)
                },
            },
        }
    }
}

/// All consumer classes, separated by blank lines.
pub open spec fn spec_emit_consumers(
    ss: Seq<(Seq<char>, SpecService)>,
    m: Seq<(Seq<char>, SpecModel)>,
    first: bool,
) -> Result<Seq<char>, SpecEmitError>
    decreases ss.len(),
{
    if ss.len() == 0 {
        Ok(Seq::empty())
    } else {
        match spec_emit_consumer(ss[0].0, ss[0].1, m) {
            Err(e) => Err(e),
            Ok(t) => match spec_emit_consumers(ss.skip(1), m, false) {
                Err(e) => Err(e),
                Ok(r) => if first {
                    Ok(t + r)
                } else {
                    Ok("\n"@ + t + r)
                },
            },
        }
    }
}

/// Encoders for all models, separated by blank lines.
pub open spec fn spec_serialize_models(
    ms: Seq<(Seq<char>, SpecModel)>,
    m: Seq<(Seq<char>, SpecModel)>,
    first: bool,
) -> Result<Seq<char>, SpecEmitError>
    decreases ms.len(),
{
    if ms.len() == 0 {
        Ok(Seq::empty())
    } else {
        match spec_serialize_model(ms[0].0, ms[0].1, m) {
            Err(e) => Err(e),
            Ok(t) => match spec_serialize_models(ms.skip(1), m, false) {
                Err(e) => Err(e),
                Ok(r) => if first {
                    Ok(t + r)
                } else {
                    Ok("\n"@ + t + r)
                },
            },
        }
    }
}

/// Decoders for all models, separated by blank lines.
pub open spec fn spec_deserialize_models(
    ms: Seq<(Seq<char>, SpecModel)>,
    m: Seq<(Seq<char>, SpecModel)>,
    first: bool,
) -> Result<Seq<char>, SpecEmitError>
    decreases ms.len(),
{
    if ms.len() == 0 {
        Ok(Seq::empty())
    } else {
        match spec_deserialize_model(ms[0].0, ms[0].1, m) {
            Err(e) => Err(e),
            Ok(t) => match spec_deserialize_models(ms.skip(1), m, false) {
                Err(e) => Err(e),
                Ok(r) => if first {
                    Ok(t + r)
                } else {
                    Ok("\n"@ + t + r)
                },
            },
        }
    }
}

/// The fixed header: the hand-written external module import and the
/// request-handler contract the consumers dispatch through.
pub open spec fn spec_dart_header(module_name: Seq<char>) -> Seq<char> {
    "// AUTOGENERATED FILE - DO NOT EDIT\n\n"@ + "import '"@ + module_name + ".external.dart';\n"@
        + "\n"@ + "abstract class RequestHandler {\n"@
        + "  Future<dynamic> request(String service, String method, Map<String, dynamic> params);\n"@
        + "}\n"@ + "\n"@
}

/// The whole artifact: header, models, consumers, encoders, decoders.
pub open spec fn spec_emit_schema(
    module_name: Seq<char>,
    s: crate::lang::schema::SpecSchema,
) -> Result<Seq<char>, SpecEmitError> {
    match (spec_emit_models(s.models, s.models, true), (spec_emit_consumers(
        s.services,
        s.models,
        true,
    ), (spec_serialize_models(s.models, s.models, true), spec_deserialize_models(
        s.models,
        s.models,
        true,
    )))) {
        (Ok(ms), (Ok(cs), (Ok(enc), Ok(dec)))) => Ok(
            spec_dart_header(module_name) + ms + "\n"@ + cs + "\n"@ + enc + "\n\n"@ + dec
                + "\n\n"@,
        ),
        (Err(e), _) => Err(e),
        (_, (Err(e), _)) => Err(e),
        (_, (_, (Err(e), _))) => Err(e),
        (_, (_, (_, Err(e)))) => Err(e),
    }
}

fn dart_primitive(p: Primitive) -> (r: Result<&'static str, EmitError>)
    ensures
        match r {
            Ok(t) => spec_dart_primitive(p) == Ok::<Seq<char>, SpecEmitError>(t@),
            Err(e) => spec_dart_primitive(p) == Err::<Seq<char>, SpecEmitError>(e@),
        },
{
    match p {
        Primitive::Unit => Ok("void"),
        Primitive::Bool => Ok("bool"),
        Primitive::Int8 => Ok("int"),
        Primitive::Int16 => Ok("int"),
        Primitive::Int32 => Ok("int"),
        Primitive::Int64 => Ok("int"),
        Primitive::Int128 => Err(EmitError::UnsupportedConstruct(String::from_str("Int128"))),
        Primitive::Float32 => Ok("double"),
        Primitive::Float64 => Ok("double"),
        Primitive::String => Ok("String"),
    }
}

/// Renders a shape as a native type.
pub fn emit_shape(s: &Shape, schema: &Schema) -> (r: Result<String, EmitError>)
    ensures
        match r {
            Ok(t) => spec_emit_shape(s@, schema@.models) == Ok::<Seq<char>, SpecEmitError>(t@),
            Err(e) => spec_emit_shape(s@, schema@.models) == Err::<Seq<char>, SpecEmitError>(e@),
        },
    decreases *s,
{
    match s {
        Shape::Primitive(p) => match dart_primitive(*p) {
            Ok(t) => Ok(String::from_str(t)),
            Err(e) => Err(e),
        },
        Shape::Nullable(t) => match emit_shape(t, schema) {
            Err(e) => Err(e),
            Ok(t) => {
                let mut out = t;
                out.append("?");
                Ok(out)
            },
        },
        Shape::List(t) => match emit_shape(t, schema) {
            Err(e) => Err(e),
            Ok(t) => {
                let mut out = String::from_str("List<");
                out.append(t.as_str());
                out.append(">");
                Ok(out)
            },
        },
        Shape::SetOf(t) => match emit_shape(t, schema) {
            Err(e) => Err(e),
            Ok(t) => {
                let mut out = String::from_str("Set<");
                out.append(t.as_str());
                out.append(">");
                Ok(out)
            },
        },
        Shape::MapOf(k, v) => match emit_shape(k, schema) {
            Err(e) => Err(e),
            Ok(kt) => match emit_shape(v, schema) {
                Err(e) => Err(e),
                Ok(vt) => {
                    let mut out = String::from_str("Map<");
                    out.append(kt.as_str());
                    out.append(", ");
                    out.append(vt.as_str());
                    out.append(">");
                    Ok(out)
                },
            },
        },
        Shape::Reference(n) => {
            if schema.models.contains_key(n.as_str()) {
                Ok(n.clone())
            } else {
                Err(EmitError::UnresolvedReference(n.clone()))
            }
        },
    }
}

/// Renders the encode expression for the value named by `name`.
pub fn serialize_shape(name: &str, s: &Shape, schema: &Schema) -> (r: Result<String, EmitError>)
    ensures
        match r {
            Ok(t) => spec_serialize_shape(name@, s@, schema@.models) == Ok::<
                Seq<char>,
                SpecEmitError,
            >(t@),
            Err(e) => spec_serialize_shape(name@, s@, schema@.models) == Err::<
                Seq<char>,
                SpecEmitError,
            >(e@),
        },
    decreases *s,
{
    match s {
        Shape::Nullable(t) => {
            let ty = match emit_shape(t, schema) {
                Ok(t) => t,
                Err(e) => {
                    return Err(e);
                },
            };
            let mut cast = String::from_str(name);
            cast.append(" as ");
            cast.append(ty.as_str());
            let inner = match serialize_shape(cast.as_str(), t, schema) {
                Ok(t) => t,
                Err(e) => {
                    return Err(e);
                },
            };
            let mut out = String::from_str(name);
            out.append(" == null ? null : ");
            out.append(inner.as_str());
            Ok(out)
        },
        Shape::Reference(n) => {
            if schema.models.contains_key(n.as_str()) {
                let mut out = String::from_str("$");
                out.append(n.as_str());
                out.append("ToJson(");
                out.append(name);
                out.append(")");
                Ok(out)
            } else {
                Err(EmitError::UnresolvedReference(n.clone()))
            }
        },
        _ => Ok(String::from_str(name)),
    }
}

/// Renders the decode expression for the interchange value named by
/// `field`.
pub fn deserialize_shape(field: &str, s: &Shape, schema: &Schema) -> (r: Result<
    String,
    EmitError,
>)
    ensures
        match r {
            Ok(t) => spec_deserialize_shape(field@, s@, schema@.models) == Ok::<
                Seq<char>,
                SpecEmitError,
            >(t@),
            Err(e) => spec_deserialize_shape(field@, s@, schema@.models) == Err::<
                Seq<char>,
                SpecEmitError,
            >(e@),
        },
    decreases *s,
{
    match s {
        Shape::Primitive(p) => match dart_primitive(*p) {
            Err(e) => Err(e),
            Ok(ty) => {
                let mut out = String::from_str(field);
                out.append(" as ");
                out.append(ty);
                Ok(out)
            },
        },
        Shape::Nullable(t) => match deserialize_shape(field, t, schema) {
            Err(e) => Err(e),
            Ok(inner) => {
                let mut out = String::from_str(field);
                out.append(" == null ? null : ");
                out.append(inner.as_str());
                Ok(out)
            },
        },
        Shape::List(t) => match deserialize_shape("e", t, schema) {
            Err(e) => Err(e),
            Ok(inner) => {
                let mut out = String::from_str("(");
                out.append(field);
                out.append(" as List<dynamic>).map((e) => ");
                out.append(inner.as_str());
                out.append(").toList()");
                Ok(out)
            },
        },
        Shape::SetOf(t) => match deserialize_shape("e", t, schema) {
            Err(e) => Err(e),
            Ok(inner) => {
                let mut out = String::from_str("(");
                out.append(field);
                out.append(" as List<dynamic>).map((e) => ");
                out.append(inner.as_str());
                out.append(").toSet()");
                Ok(out)
            },
        },
        Shape::MapOf(k, v) => match deserialize_shape("k", k, schema) {
            Err(e) => Err(e),
            Ok(kt) => match deserialize_shape("v", v, schema) {
                Err(e) => Err(e),
                Ok(vt) => {
                    let mut out = String::from_str("(");
                    out.append(field);
                    out.append(" as Map<String,dynamic>).map((k,v) => MapEntry(");
                    out.append(kt.as_str());
                    out.append(",");
                    out.append(vt.as_str());
                    out.append("))");
                    Ok(out)
                },
            },
        },
        Shape::Reference(n) => {
            if schema.models.contains_key(n.as_str()) {
                let mut out = String::from_str("$");
                out.append(n.as_str());
                out.append("FromJson(");
                out.append(field);
                out.append(")");
                Ok(out)
            } else {
                Err(EmitError::UnresolvedReference(n.clone()))
            }
        },
    }
}

/// Renders a record's field lines and, alongside them, its
/// named-constructor parameter lines.
#[verifier::loop_isolation(false)]
fn emit_fields(fields: &OrderedHashMap<Annotated<Shape>>, schema: &Schema) -> (r: Result<
    (String, String),
    EmitError,
>)
    ensures
        match r {
            Ok(t) => spec_emit_fields(fields@, schema@.models) == Ok::<Seq<char>, SpecEmitError>(
                t.0@,
            ) && t.1@ == spec_emit_ctor_fields(fields@),
            Err(e) => spec_emit_fields(fields@, schema@.models) == Err::<
                Seq<char>,
                SpecEmitError,
            >(e@),
        },
{
    let ghost m = schema@.models;
    let ghost full = spec_emit_fields(fields@, m);
    let ghost fullc = spec_emit_ctor_fields(fields@);
    let n = fields.len();
    let mut out = String::new();
    let mut ctor = String::new();
    let mut i: usize = 0;
    proof {
        assert(fields@.skip(0) =~= fields@);
    }
    while i < n
        invariant
            n == fields@.len(),
            i <= n,
            (spec_emit_fields(fields@.skip(i as int), m) matches Ok(t) ==> full == Ok::<
                Seq<char>,
                SpecEmitError,
            >(out@ + t)),
            (spec_emit_fields(fields@.skip(i as int), m) matches Err(e) ==> full == Err::<
                Seq<char>,
                SpecEmitError,
            >(e)),
            fullc == ctor@ + spec_emit_ctor_fields(fields@.skip(i as int)),
        decreases n - i,
    {
        let ghost out0 = out@;
        let ghost ctor0 = ctor@;
        let ghost rest = fields@.skip(i as int);
        proof {
            assert(rest[0] == fields@[i as int]);
            assert(rest.skip(1) =~= fields@.skip(i as int + 1));
        }
        let name = fields.key_at(i);
        let field = fields.value_at(i);
        let shape_text = match emit_shape(&field.inner, schema) {
            Ok(t) => t,
            Err(e) => {
                return Err(e);
            },
        };
        out.append("  ");
        out.append(shape_text.as_str());
        out.append(" ");
        out.append(name.as_str());
        out.append(";\n");
        let optional = match &field.inner {
            Shape::Nullable(_) => true,
            _ => false,
        };
        if optional {
            ctor.append("    this.");
        } else {
            ctor.append("    required this.");
        }
        ctor.append(name.as_str());
        ctor.append(",\n");
        proof {
            assert(out@ =~= out0 + ("  "@ + shape_text@ + " "@ + rest[0].0 + ";\n"@));
            if optional {
                assert(ctor@ =~= ctor0 + ("    this."@ + rest[0].0 + ",\n"@));
                assert(ctor0 + (("    this."@ + rest[0].0 + ",\n"@) + spec_emit_ctor_fields(
                    rest.skip(1),
                )) =~= ctor@ + spec_emit_ctor_fields(rest.skip(1)));
            } else {
                assert(ctor@ =~= ctor0 + ("    required this."@ + rest[0].0 + ",\n"@));
                assert(ctor0 + (("    required this."@ + rest[0].0 + ",\n"@)
                    + spec_emit_ctor_fields(rest.skip(1))) =~= ctor@ + spec_emit_ctor_fields(
                    rest.skip(1),
                ));
            }
            if spec_emit_fields(rest.skip(1), m) is Ok {
                let t = spec_emit_fields(rest.skip(1), m)->Ok_0;
                assert(out0 + ("  "@ + shape_text@ + " "@ + rest[0].0 + ";\n"@ + t) =~= out@
                    + t);
            }
        }
        i += 1;
    }
    proof {
        assert(fields@.skip(n as int) =~= Seq::<(Seq<char>, SpecAnnotated<SpecShape>)>::empty());
        assert(out@ + Seq::<char>::empty() =~= out@);
        assert(ctor@ + Seq::<char>::empty() =~= ctor@);
    }
    Ok((out, ctor))
}

/// Renders a class declaration with its named constructor and the
/// encode/decode method stubs.
fn emit_struct(name: &str, st: &crate::lang::schema::Struct, schema: &Schema) -> (r: Result<
    String,
    EmitError,
>)
    ensures
        match r {
            Ok(t) => spec_emit_struct(name@, st@, schema@.models) == Ok::<
                Seq<char>,
                SpecEmitError,
            >(t@),
            Err(e) => spec_emit_struct(name@, st@, schema@.models) == Err::<
                Seq<char>,
                SpecEmitError,
            >(e@),
        },
{
    let (fields, ctor) = match emit_fields(&st.fields, schema) {
        Ok(t) => t,
        Err(e) => {
            return Err(e);
        },
    };
    let mut out = String::from_str("class ");
    out.append(name);
    out.append(" {\n");
    out.append(fields.as_str());
    out.append("\n");
    out.append("  ");
    out.append(name);
    out.append("({\n");
    out.append(ctor.as_str());
    out.append("  });\n");
    out.append("\n");
    out.append("  Map<String, dynamic> toJson() => $");
    out.append(name);
    out.append("ToJson(this);\n");
    out.append("  factory ");
    out.append(name);
    out.append(".fromJson(Map<String, dynamic> json) => $");
    out.append(name);
    out.append("FromJson(json);\n");
    out.append("}\n");
    Ok(out)
}

/// Renders an enum declaration with its encode/decode method stubs.
#[verifier::loop_isolation(false)]
pub fn emit_enum(name: &str, def: &crate::lang::schema::Enum) -> (r: String)
    ensures
        r@ == spec_emit_enum(name@, def@.fields),
{
    let ghost vs = def@.fields;
    let ghost full = spec_emit_variants(vs, true);
    let n = def.fields.len();
    let mut out = String::new();
    let mut i: usize = 0;
    proof {
        assert(vs.skip(0) =~= vs);
    }
    while i < n
        invariant
            n == def.fields@.len(),
            n == vs.len(),
            i <= n,
            full == out@ + spec_emit_variants(vs.skip(i as int), i == 0),
        decreases n - i,
    {
        let ghost out0 = out@;
        let ghost rest = vs.skip(i as int);
        proof {
            assert(rest[0] == vs[i as int]);
            assert(vs[i as int] == def.fields@[i as int]@);
            assert(rest.skip(1) =~= vs.skip(i as int + 1));
        }
        if i > 0 {
            out.append(",\n");
        }
        out.append("  ");
        out.append(def.fields[i].as_str());
        proof {
            if i == 0 {
                assert(out@ =~= out0 + ("  "@ + rest[0]));
                assert(out0 + (("  "@ + rest[0]) + spec_emit_variants(rest.skip(1), false)) =~=
                    out@ + spec_emit_variants(rest.skip(1), false));
            } else {
                assert(out@ =~= out0 + (",\n"@ + "  "@ + rest[0]));
                assert(out0 + ((",\n"@ + "  "@ + rest[0]) + spec_emit_variants(
                    rest.skip(1),
                    false,
                )) =~= out@ + spec_emit_variants(rest.skip(1), false));
            }
        }
        i += 1;
    }
    proof {
        assert(vs.skip(n as int) =~= Seq::<Seq<char>>::empty());
        assert(out@ + Seq::<char>::empty() =~= out@);
    }
    let mut text = String::from_str("enum ");
    text.append(name);
    text.append(" {\n");
    text.append(out.as_str());
    text.append(";\n");
    text.append("\n");
    text.append("  String toJson() => $");
    text.append(name);
    text.append("ToJson(this);\n");
    text.append("  factory ");
    text.append(name);
    text.append(".fromJson(String json) => $");
    text.append(name);
    text.append("FromJson(json);\n");
    text.append("}\n");
    text
}

/// Renders one model declaration; an external model is already
/// imported by the header and emits nothing.
fn emit_model(name: &str, model: &Model, schema: &Schema) -> (r: Result<String, EmitError>)
    ensures
        match r {
            Ok(t) => spec_emit_model(name@, model@, schema@.models) == Ok::<
                Seq<char>,
                SpecEmitError,
            >(t@),
            Err(e) => spec_emit_model(name@, model@, schema@.models) == Err::<
                Seq<char>,
                SpecEmitError,
            >(e@),
        },
{
    match model {
        Model::Struct(st) => emit_struct(name, st, schema),
        Model::Enum(e) => Ok(emit_enum(name, e)),
        Model::Alias(a) => match emit_shape(&a.shape.inner, schema) {
            Err(e) => Err(e),
            Ok(t) => {
                let mut out = String::from_str("typedef ");
                out.append(name);
                out.append(" = ");
                out.append(t.as_str());
                out.append(";\n");
                Ok(out)
            },
        },
        Model::External(_) => {
            let out = String::new();
            proof {
                assert(out@ =~= Seq::<char>::empty());
            }
            Ok(out)
        },
    }
}

/// Renders a method's parameter list and its request-map entries.
#[verifier::loop_isolation(false)]
fn emit_params(inputs: &OrderedHashMap<Annotated<Shape>>, schema: &Schema) -> (r: Result<
    (String, String),
    EmitError,
>)
    ensures
        match r {
            Ok(t) => spec_emit_params(inputs@, schema@.models, true) == Ok::<
                Seq<char>,
                SpecEmitError,
            >(t.0@) && t.1@ == spec_emit_args(inputs@, true),
            Err(e) => spec_emit_params(inputs@, schema@.models, true) == Err::<
                Seq<char>,
                SpecEmitError,
            >(e@),
        },
{
    let ghost m = schema@.models;
    let ghost full = spec_emit_params(inputs@, m, true);
    let ghost fulla = spec_emit_args(inputs@, true);
    let n = inputs.len();
    let mut out = String::new();
    let mut args = String::new();
    let mut i: usize = 0;
    proof {
        assert(inputs@.skip(0) =~= inputs@);
    }
    while i < n
        invariant
            n == inputs@.len(),
            i <= n,
            (spec_emit_params(inputs@.skip(i as int), m, i == 0) matches Ok(t) ==> full == Ok::<
                Seq<char>,
                SpecEmitError,
            >(out@ + t)),
            (spec_emit_params(inputs@.skip(i as int), m, i == 0) matches Err(e) ==> full
                == Err::<Seq<char>, SpecEmitError>(e)),
            fulla == args@ + spec_emit_args(inputs@.skip(i as int), i == 0),
        decreases n - i,
    {
        let ghost out0 = out@;
        let ghost args0 = args@;
        let ghost rest = inputs@.skip(i as int);
        proof {
            assert(rest[0] == inputs@[i as int]);
            assert(rest.skip(1) =~= inputs@.skip(i as int + 1));
        }
        let name = inputs.key_at(i);
        let input = inputs.value_at(i);
        let shape_text = match emit_shape(&input.inner, schema) {
            Ok(t) => t,
            Err(e) => {
                return Err(e);
            },
        };
        if i > 0 {
            out.append(", ");
            args.append(", ");
        }
        out.append(shape_text.as_str());
        out.append(" ");
        out.append(name.as_str());
        args.append("\"");
        args.append(name.as_str());
        args.append("\": ");
        args.append(name.as_str());
        proof {
            if i == 0 {
                assert(out@ =~= out0 + (shape_text@ + " "@ + rest[0].0));
                assert(args@ =~= args0 + ("\""@ + rest[0].0 + "\": "@ + rest[0].0));
                assert(args0 + (("\""@ + rest[0].0 + "\": "@ + rest[0].0) + spec_emit_args(
                    rest.skip(1),
                    false,
                )) =~= args@ + spec_emit_args(rest.skip(1), false));
            } else {
                assert(out@ =~= out0 + (", "@ + shape_text@ + " "@ + rest[0].0));
                assert(args@ =~= args0 + (", "@ + "\""@ + rest[0].0 + "\": "@ + rest[0].0));
                assert(args0 + ((", "@ + "\""@ + rest[0].0 + "\": "@ + rest[0].0)
                    + spec_emit_args(rest.skip(1), false)) =~= args@ + spec_emit_args(
                    rest.skip(1),
                    false,
                ));
            }
            if spec_emit_params(rest.skip(1), m, false) is Ok {
                let t = spec_emit_params(rest.skip(1), m, false)->Ok_0;
                if i == 0 {
                    assert(out0 + (shape_text@ + " "@ + rest[0].0 + t) =~= out@ + t);
                } else {
                    assert(out0 + (", "@ + shape_text@ + " "@ + rest[0].0 + t) =~= out@ + t);
                }
            }
        }
        i += 1;
    }
    proof {
        assert(inputs@.skip(n as int) =~= Seq::<(Seq<char>, SpecAnnotated<SpecShape>)>::empty());
        assert(out@ + Seq::<char>::empty() =~= out@);
        assert(args@ + Seq::<char>::empty() =~= args@);
    }
    Ok((out, args))
}

/// Renders one consumer method: dispatch the request, then decode the
/// response unless the return is void.
pub fn emit_consumer_method(name: &str, method: &ServiceMethod, schema: &Schema) -> (r: Result<
    String,
    EmitError,
>)
    ensures
        match r {
            Ok(t) => spec_emit_consumer_method(name@, method@, schema@.models) == Ok::<
                Seq<char>,
                SpecEmitError,
            >(t@),
            Err(e) => spec_emit_consumer_method(name@, method@, schema@.models) == Err::<
                Seq<char>,
                SpecEmitError,
            >(e@),
        },
{
    let out_type = match &method.output {
        Some(a) => match emit_shape(&a.inner, schema) {
            Ok(t) => t,
            Err(e) => {
                return Err(e);
            },
        },
        None => String::from_str("void"),
    };
    let (params, args) = match emit_params(&method.inputs, schema) {
        Ok(t) => t,
        Err(e) => {
            return Err(e);
        },
    };
    let return_line = match &method.output {
        None => String::new(),
        Some(a) => {
            let unit_output = match &a.inner {
                Shape::Primitive(Primitive::Unit) => true,
                _ => false,
            };
            if unit_output {
                String::new()
            } else {
                let d = match deserialize_shape("response", &a.inner, schema) {
                    Ok(t) => t,
                    Err(e) => {
                        return Err(e);
                    },
                };
                let mut line = String::from_str("    return ");
                line.append(d.as_str());
                line.append(";\n");
                line
            }
        },
    };
    let mut out = String::from_str("  Future<");
    out.append(out_type.as_str());
    out.append("> ");
    out.append(name);
    out.append("(");
    out.append(params.as_str());
    out.append(") async {\n");
    out.append("    var response = await handler.request(name, \"");
    out.append(name);
    out.append("\", <String, dynamic> { ");
    out.append(args.as_str());
    out.append(" });\n");
    out.append(return_line.as_str());
    out.append("  }\n");
    Ok(out)
}

/// Renders the consumer class for a service.
#[verifier::loop_isolation(false)]
fn emit_consumer(name: &str, service: &Service, schema: &Schema) -> (r: Result<
    String,
    EmitError,
>)
    ensures
        match r {
            Ok(t) => spec_emit_consumer(name@, service@, schema@.models) == Ok::<
                Seq<char>,
                SpecEmitError,
            >(t@),
            Err(e) => spec_emit_consumer(name@, service@, schema@.models) == Err::<
                Seq<char>,
                SpecEmitError,
            >(e@),
        },
{
    let ghost m = schema@.models;
    let ghost full = spec_emit_consumer_methods(service@.methods, m, true);
    let n = service.methods.len();
    let mut out = String::new();
    let mut i: usize = 0;
    proof {
        assert(service@.methods.skip(0) =~= service@.methods);
    }
    while i < n
        invariant
            n == service.methods@.len(),
            i <= n,
            (spec_emit_consumer_methods(service@.methods.skip(i as int), m, i == 0) matches Ok(
                t,
            ) ==> full == Ok::<Seq<char>, SpecEmitError>(out@ + t)),
            (spec_emit_consumer_methods(service@.methods.skip(i as int), m, i == 0) matches Err(
                e,
            ) ==> full == Err::<Seq<char>, SpecEmitError>(e)),
        decreases n - i,
    {
        let ghost out0 = out@;
        let ghost rest = service@.methods.skip(i as int);
        proof {
            assert(rest[0] == service@.methods[i as int]);
            assert(rest.skip(1) =~= service@.methods.skip(i as int + 1));
        }
        let mname = service.methods.key_at(i);
        let method = service.methods.value_at(i);
        let text = match emit_consumer_method(mname.as_str(), &method.inner, schema) {
            Ok(t) => t,
            Err(e) => {
                return Err(e);
            },
        };
        if i > 0 {
            out.append("\n");
        }
        out.append(text.as_str());
        proof {
            if i == 0 {
                assert(out@ =~= out0 + text@);
            } else {
                assert(out@ =~= out0 + ("\n"@ + text@));
            }
            if spec_emit_consumer_methods(rest.skip(1), m, false) is Ok {
                let t = spec_emit_consumer_methods(rest.skip(1), m, false)->Ok_0;
                if i == 0 {
                    assert(out0 + (text@ + t) =~= out@ + t);
                } else {
                    assert(out0 + ("\n"@ + text@ + t) =~= out@ + t);
                }
            }
        }
        i += 1;
    }
    proof {
        assert(service@.methods.skip(n as int) =~= Seq::<
            (Seq<char>, SpecAnnotated<SpecMethod>),
        >::empty());
        assert(out@ + Seq::<char>::empty() =~= out@);
    }
    let mut text = String::from_str("class ");
    text.append(name);
    text.append("Consumer {\n\n");
    text.append("  final RequestHandler handler;\n");
    text.append("  final String name = \"");
    text.append(name);
    text.append("\";");
    text.append("\n\n");
    text.append("  ");
    text.append(name);
    text.append("Consumer(this.handler);\n");
    text.append("\n");
    text.append(out.as_str());
    text.append("}\n");
    Ok(text)
}

/// Renders a record's encoder.
#[verifier::loop_isolation(false)]
fn serialize_struct(name: &str, st: &crate::lang::schema::Struct, schema: &Schema) -> (r: Result<
    String,
    EmitError,
>)
    ensures
        match r {
            Ok(t) => spec_serialize_struct(name@, st@, schema@.models) == Ok::<
                Seq<char>,
                SpecEmitError,
            >(t@),
            Err(e) => spec_serialize_struct(name@, st@, schema@.models) == Err::<
                Seq<char>,
                SpecEmitError,
            >(e@),
        },
{
    let ghost m = schema@.models;
    let ghost full = spec_serialize_members(st@.fields, m, true);
    let fields = &st.fields;
    let n = fields.len();
    let mut out = String::new();
    let mut i: usize = 0;
    proof {
        assert(fields@.skip(0) =~= fields@);
    }
    while i < n
        invariant
            n == fields@.len(),
            fields@ == st@.fields,
            i <= n,
            (spec_serialize_members(fields@.skip(i as int), m, i == 0) matches Ok(t) ==> full
                == Ok::<Seq<char>, SpecEmitError>(out@ + t)),
            (spec_serialize_members(fields@.skip(i as int), m, i == 0) matches Err(e) ==> full
                == Err::<Seq<char>, SpecEmitError>(e)),
        decreases n - i,
    {
        let ghost out0 = out@;
        let ghost rest = fields@.skip(i as int);
        proof {
            assert(rest[0] == fields@[i as int]);
            assert(rest.skip(1) =~= fields@.skip(i as int + 1));
        }
        let fname = fields.key_at(i);
        let field = fields.value_at(i);
        let mut access = String::from_str("instance.");
        access.append(fname.as_str());
        let enc = match serialize_shape(access.as_str(), &field.inner, schema) {
            Ok(t) => t,
            Err(e) => {
                return Err(e);
            },
        };
        if i > 0 {
            out.append(",");
        }
        out.append("'");
        out.append(fname.as_str());
        out.append("':");
        out.append(enc.as_str());
        proof {
            if i == 0 {
                assert(out@ =~= out0 + ("'"@ + rest[0].0 + "':"@ + enc@));
            } else {
                assert(out@ =~= out0 + (","@ + "'"@ + rest[0].0 + "':"@ + enc@));
            }
            if spec_serialize_members(rest.skip(1), m, false) is Ok {
                let t = spec_serialize_members(rest.skip(1), m, false)->Ok_0;
                if i == 0 {
                    assert(out0 + ("'"@ + rest[0].0 + "':"@ + enc@ + t) =~= out@ + t);
                } else {
                    assert(out0 + (","@ + "'"@ + rest[0].0 + "':"@ + enc@ + t) =~= out@ + t);
                }
            }
        }
        i += 1;
    }
    proof {
        assert(fields@.skip(n as int) =~= Seq::<(Seq<char>, SpecAnnotated<SpecShape>)>::empty());
        assert(out@ + Seq::<char>::empty() =~= out@);
    }
    let mut text = String::from_str("Map<String, dynamic> $");
    text.append(name);
    text.append("ToJson(");
    text.append(name);
    text.append(" instance) => <String, dynamic>{");
    text.append(out.as_str());
    text.append("};");
    Ok(text)
}

/// Renders an enum's encoder.
#[verifier::loop_isolation(false)]
pub fn serialize_enum(name: &str, def: &crate::lang::schema::Enum) -> (r: String)
    ensures
        r@ == spec_serialize_enum(name@, def@.fields),
{
    let ghost vs = def@.fields;
    let ghost full = spec_serialize_variants(name@, vs, true);
    let n = def.fields.len();
    let mut out = String::new();
    let mut i: usize = 0;
    proof {
        assert(vs.skip(0) =~= vs);
    }
    while i < n
        invariant
            n == def.fields@.len(),
            n == vs.len(),
            i <= n,
            full == out@ + spec_serialize_variants(name@, vs.skip(i as int), i == 0),
        decreases n - i,
    {
        let ghost out0 = out@;
        let ghost rest = vs.skip(i as int);
        proof {
            assert(rest[0] == vs[i as int]);
            assert(vs[i as int] == def.fields@[i as int]@);
            assert(rest.skip(1) =~= vs.skip(i as int + 1));
        }
        if i > 0 {
            out.append(",");
        }
        out.append(name);
        out.append(".");
        out.append(def.fields[i].as_str());
        out.append("=>'");
        out.append(def.fields[i].as_str());
        out.append("'");
        proof {
            if i == 0 {
                assert(out@ =~= out0 + (name@ + "."@ + rest[0] + "=>'"@ + rest[0] + "'"@));
                assert(out0 + ((name@ + "."@ + rest[0] + "=>'"@ + rest[0] + "'"@)
                    + spec_serialize_variants(name@, rest.skip(1), false)) =~= out@
                    + spec_serialize_variants(name@, rest.skip(1), false));
            } else {
                assert(out@ =~= out0 + (","@ + name@ + "."@ + rest[0] + "=>'"@ + rest[0]
                    + "'"@));
                assert(out0 + ((","@ + name@ + "."@ + rest[0] + "=>'"@ + rest[0] + "'"@)
                    + spec_serialize_variants(name@, rest.skip(1), false)) =~= out@
                    + spec_serialize_variants(name@, rest.skip(1), false));
            }
        }
        i += 1;
    }
    proof {
        assert(vs.skip(n as int) =~= Seq::<Seq<char>>::empty());
        assert(out@ + Seq::<char>::empty() =~= out@);
    }
    let mut text = String::from_str("dynamic $");
    text.append(name);
    text.append("ToJson(");
    text.append(name);
    text.append(" instance)=>switch(instance){");
    text.append(out.as_str());
    text.append("};");
    text
}

/// Renders an enum's decoder.
#[verifier::loop_isolation(false)]
pub fn deserialize_enum(name: &str, def: &crate::lang::schema::Enum) -> (r: String)
    ensures
        r@ == spec_deserialize_enum(name@, def@.fields),
{
    let ghost vs = def@.fields;
    let ghost full = spec_deserialize_variants(name@, vs);
    let n = def.fields.len();
    let mut out = String::new();
    let mut i: usize = 0;
    proof {
        assert(vs.skip(0) =~= vs);
    }
    while i < n
        invariant
            n == def.fields@.len(),
            n == vs.len(),
            i <= n,
            full == out@ + spec_deserialize_variants(name@, vs.skip(i as int)),
        decreases n - i,
    {
        let ghost out0 = out@;
        let ghost rest = vs.skip(i as int);
        proof {
            assert(rest[0] == vs[i as int]);
            assert(vs[i as int] == def.fields@[i as int]@);
            assert(rest.skip(1) =~= vs.skip(i as int + 1));
        }
        out.append("'");
        out.append(def.fields[i].as_str());
        out.append("'=>");
        out.append(name);
        out.append(".");
        out.append(def.fields[i].as_str());
        out.append(",");
        proof {
            assert(out@ =~= out0 + ("'"@ + rest[0] + "'=>"@ + name@ + "."@ + rest[0] + ","@));
            assert(out0 + (("'"@ + rest[0] + "'=>"@ + name@ + "."@ + rest[0] + ","@)
                + spec_deserialize_variants(name@, rest.skip(1))) =~= out@
                + spec_deserialize_variants(name@, rest.skip(1)));
        }
        i += 1;
    }
    proof {
        assert(vs.skip(n as int) =~= Seq::<Seq<char>>::empty());
        assert(out@ + Seq::<char>::empty() =~= out@);
    }
    let mut text = String::from_str(name);
    text.append(" $");
    text.append(name);
    text.append("FromJson(String value)=>switch(value){");
    text.append(out.as_str());
    text.append("_=>throw'Unknown ");
    text.append(name);
    text.append(" value: $value'");
    text.append("};");
    text
}

/// Renders a record's decoder.
#[verifier::loop_isolation(false)]
fn deserialize_struct(name: &str, st: &crate::lang::schema::Struct, schema: &Schema) -> (r:
    Result<String, EmitError>)
    ensures
        match r {
            Ok(t) => spec_deserialize_struct(name@, st@, schema@.models) == Ok::<
                Seq<char>,
                SpecEmitError,
            >(t@),
            Err(e) => spec_deserialize_struct(name@, st@, schema@.models) == Err::<
                Seq<char>,
                SpecEmitError,
            >(e@),
        },
{
    let ghost m = schema@.models;
    let ghost full = spec_deserialize_members(st@.fields, m, true);
    let fields = &st.fields;
    let n = fields.len();
    let mut out = String::new();
    let mut i: usize = 0;
    proof {
        assert(fields@.skip(0) =~= fields@);
    }
    while i < n
        invariant
            n == fields@.len(),
            fields@ == st@.fields,
            i <= n,
            (spec_deserialize_members(fields@.skip(i as int), m, i == 0) matches Ok(t) ==> full
                == Ok::<Seq<char>, SpecEmitError>(out@ + t)),
            (spec_deserialize_members(fields@.skip(i as int), m, i == 0) matches Err(e) ==> full
                == Err::<Seq<char>, SpecEmitError>(e)),
        decreases n - i,
    {
        let ghost out0 = out@;
        let ghost rest = fields@.skip(i as int);
        proof {
            assert(rest[0] == fields@[i as int]);
            assert(rest.skip(1) =~= fields@.skip(i as int + 1));
        }
        let fname = fields.key_at(i);
        let field = fields.value_at(i);
        let mut access = String::from_str("json['");
        access.append(fname.as_str());
        access.append("']");
        let dec = match deserialize_shape(access.as_str(), &field.inner, schema) {
            Ok(t) => t,
            Err(e) => {
                return Err(e);
            },
        };
        if i > 0 {
            out.append(",");
        }
        out.append(fname.as_str());
        out.append(":");
        out.append(dec.as_str());
        proof {
            assert(access@ =~= "json['"@ + rest[0].0 + "']"@);
            if i == 0 {
                assert(out@ =~= out0 + (rest[0].0 + ":"@ + dec@));
            } else {
                assert(out@ =~= out0 + (","@ + rest[0].0 + ":"@ + dec@));
            }
            if spec_deserialize_members(rest.skip(1), m, false) is Ok {
                let t = spec_deserialize_members(rest.skip(1), m, false)->Ok_0;
                if i == 0 {
                    assert(out0 + (rest[0].0 + ":"@ + dec@ + t) =~= out@ + t);
                } else {
                    assert(out0 + (","@ + rest[0].0 + ":"@ + dec@ + t) =~= out@ + t);
                }
            }
        }
        i += 1;
    }
    proof {
        assert(fields@.skip(n as int) =~= Seq::<(Seq<char>, SpecAnnotated<SpecShape>)>::empty());
        assert(out@ + Seq::<char>::empty() =~= out@);
    }
    let mut text = String::from_str(name);
    text.append(" $");
    text.append(name);
    text.append("FromJson(Map<String,dynamic>json)=>");
    text.append(name);
    text.append("(");
    text.append(out.as_str());
    text.append(");");
    Ok(text)
}

/// Renders one model's encoder.
fn serialize_model(name: &str, model: &Model, schema: &Schema) -> (r: Result<String, EmitError>)
    ensures
        match r {
            Ok(t) => spec_serialize_model(name@, model@, schema@.models) == Ok::<
                Seq<char>,
                SpecEmitError,
            >(t@),
            Err(e) => spec_serialize_model(name@, model@, schema@.models) == Err::<
                Seq<char>,
                SpecEmitError,
            >(e@),
        },
{
    match model {
        Model::Struct(st) => serialize_struct(name, st, schema),
        Model::Enum(e) => Ok(serialize_enum(name, e)),
        Model::Alias(a) => match serialize_shape("instance", &a.shape.inner, schema) {
            Err(e) => Err(e),
            Ok(t) => {
                let mut out = String::from_str("dynamic $");
                out.append(name);
                out.append("ToJson(");
                out.append(name);
                out.append(" instance) => ");
                out.append(t.as_str());
                out.append(";");
                Ok(out)
            },
        },
        Model::External(_) => {
            let mut out = String::from_str("/* Map<String, dynamic> $");
            out.append(name);
            out.append("ToJson(");
            out.append(name);
            out.append(" instance) => ? */");
            Ok(out)
        },
    }
}

/// Renders one model's decoder.
fn deserialize_model(name: &str, model: &Model, schema: &Schema) -> (r: Result<
    String,
    EmitError,
>)
    ensures
        match r {
            Ok(t) => spec_deserialize_model(name@, model@, schema@.models) == Ok::<
                Seq<char>,
                SpecEmitError,
            >(t@),
            Err(e) => spec_deserialize_model(name@, model@, schema@.models) == Err::<
                Seq<char>,
                SpecEmitError,
            >(e@),
        },
{
    match model {
        Model::Struct(st) => deserialize_struct(name, st, schema),
        Model::Enum(e) => Ok(deserialize_enum(name, e)),
        Model::Alias(a) => match deserialize_shape("json", &a.shape.inner, schema) {
            Err(e) => Err(e),
            Ok(t) => {
                let mut out = String::from_str(name);
                out.append(" $");
                out.append(name);
                out.append("FromJson(dynamic json) => ");
                out.append(t.as_str());
                out.append(";");
                Ok(out)
            },
        },
        Model::External(_) => {
            let mut out = String::from_str("/* ");
            out.append(name);
            out.append(" $");
            out.append(name);
            out.append("FromJson(Map<String, dynamic> json) => ? */");
            Ok(out)
        },
    }
}

/// Renders all model declarations, separated by blank lines.
#[verifier::loop_isolation(false)]
fn emit_models_text(schema: &Schema) -> (r: Result<String, EmitError>)
    ensures
        match r {
            Ok(t) => spec_emit_models(schema@.models, schema@.models, true) == Ok::<
                Seq<char>,
                SpecEmitError,
            >(t@),
            Err(e) => spec_emit_models(schema@.models, schema@.models, true) == Err::<
                Seq<char>,
                SpecEmitError,
            >(e@),
        },
{
    let ghost m = schema@.models;
    let ghost full = spec_emit_models(m, m, true);
    let n = schema.models.len();
    let mut out = String::new();
    let mut i: usize = 0;
    proof {
        assert(m.skip(0) =~= m);
    }
    while i < n
        invariant
            n == schema.models@.len(),
            m == schema@.models,
            i <= n,
            (spec_emit_models(m.skip(i as int), m, i == 0) matches Ok(t) ==> full == Ok::<
                Seq<char>,
                SpecEmitError,
            >(out@ + t)),
            (spec_emit_models(m.skip(i as int), m, i == 0) matches Err(e) ==> full == Err::<
                Seq<char>,
                SpecEmitError,
            >(e)),
        decreases n - i,
    {
        let ghost out0 = out@;
        let ghost rest = m.skip(i as int);
        proof {
            assert(rest[0] == m[i as int]);
            assert(rest.skip(1) =~= m.skip(i as int + 1));
        }
        let text = match emit_model(
            schema.models.key_at(i).as_str(),
            schema.models.value_at(i),
            schema,
        ) {
            Ok(t) => t,
            Err(e) => {
                return Err(e);
            },
        };
        if i > 0 {
            out.append("\n");
        }
        out.append(text.as_str());
        proof {
            if i == 0 {
                assert(out@ =~= out0 + text@);
            } else {
                assert(out@ =~= out0 + ("\n"@ + text@));
            }
            if spec_emit_models(rest.skip(1), m, false) is Ok {
                let t = spec_emit_models(rest.skip(1), m, false)->Ok_0;
                if i == 0 {
                    assert(out0 + (text@ + t) =~= out@ + t);
                } else {
                    assert(out0 + ("\n"@ + text@ + t) =~= out@ + t);
                }
            }
        }
        i += 1;
    }
    proof {
        assert(m.skip(n as int) =~= Seq::<(Seq<char>, SpecModel)>::empty());
        assert(out@ + Seq::<char>::empty() =~= out@);
    }
    Ok(out)
}

/// Renders all consumer classes, separated by blank lines.
#[verifier::loop_isolation(false)]
fn emit_consumers_text(schema: &Schema) -> (r: Result<String, EmitError>)
    ensures
        match r {
            Ok(t) => spec_emit_consumers(schema@.services, schema@.models, true) == Ok::<
                Seq<char>,
                SpecEmitError,
            >(t@),
            Err(e) => spec_emit_consumers(schema@.services, schema@.models, true) == Err::<
                Seq<char>,
                SpecEmitError,
            >(e@),
        },
{
    let ghost m = schema@.models;
    let ghost full = spec_emit_consumers(schema@.services, m, true);
    let sn = schema.services.len();
    let mut out = String::new();
    let mut j: usize = 0;
    proof {
        assert(schema@.services.skip(0) =~= schema@.services);
    }
    while j < sn
        invariant
            sn == schema.services@.len(),
            m == schema@.models,
            j <= sn,
            (spec_emit_consumers(schema@.services.skip(j as int), m, j == 0) matches Ok(t) ==>
                full == Ok::<Seq<char>, SpecEmitError>(out@ + t)),
            (spec_emit_consumers(schema@.services.skip(j as int), m, j == 0) matches Err(e) ==>
                full == Err::<Seq<char>, SpecEmitError>(e)),
        decreases sn - j,
    {
        let ghost out0 = out@;
        let ghost rest = schema@.services.skip(j as int);
        proof {
            assert(rest[0] == schema@.services[j as int]);
            assert(rest.skip(1) =~= schema@.services.skip(j as int + 1));
        }
        let text = match emit_consumer(
            schema.services.key_at(j).as_str(),
            schema.services.value_at(j),
            schema,
        ) {
            Ok(t) => t,
            Err(e) => {
                return Err(e);
            },
        };
        if j > 0 {
            out.append("\n");
        }
        out.append(text.as_str());
        proof {
            if j == 0 {
                assert(out@ =~= out0 + text@);
            } else {
                assert(out@ =~= out0 + ("\n"@ + text@));
            }
            if spec_emit_consumers(rest.skip(1), m, false) is Ok {
                let t = spec_emit_consumers(rest.skip(1), m, false)->Ok_0;
                if j == 0 {
                    assert(out0 + (text@ + t) =~= out@ + t);
                } else {
                    assert(out0 + ("\n"@ + text@ + t) =~= out@ + t);
                }
            }
        }
        j += 1;
    }
    proof {
        assert(schema@.services.skip(sn as int) =~= Seq::<(Seq<char>, SpecService)>::empty());
        assert(out@ + Seq::<char>::empty() =~= out@);
    }
    Ok(out)
}

/// Renders all model encoders, separated by blank lines.
#[verifier::loop_isolation(false)]
fn serialize_models_text(schema: &Schema) -> (r: Result<String, EmitError>)
    ensures
        match r {
            Ok(t) => spec_serialize_models(schema@.models, schema@.models, true) == Ok::<
                Seq<char>,
                SpecEmitError,
            >(t@),
            Err(e) => spec_serialize_models(schema@.models, schema@.models, true) == Err::<
                Seq<char>,
                SpecEmitError,
            >(e@),
        },
{
    let ghost m = schema@.models;
    let ghost full = spec_serialize_models(m, m, true);
    let n = schema.models.len();
    let mut out = String::new();
    let mut i: usize = 0;
    proof {
        assert(m.skip(0) =~= m);
    }
    while i < n
        invariant
            n == schema.models@.len(),
            m == schema@.models,
            i <= n,
            (spec_serialize_models(m.skip(i as int), m, i == 0) matches Ok(t) ==> full == Ok::<
                Seq<char>,
                SpecEmitError,
            >(out@ + t)),
            (spec_serialize_models(m.skip(i as int), m, i == 0) matches Err(e) ==> full
                == Err::<Seq<char>, SpecEmitError>(e)),
        decreases n - i,
    {
        let ghost out0 = out@;
        let ghost rest = m.skip(i as int);
        proof {
            assert(rest[0] == m[i as int]);
            assert(rest.skip(1) =~= m.skip(i as int + 1));
        }
        let text = match serialize_model(
            schema.models.key_at(i).as_str(),
            schema.models.value_at(i),
            schema,
        ) {
            Ok(t) => t,
            Err(e) => {
                return Err(e);
            },
        };
        if i > 0 {
            out.append("\n");
        }
        out.append(text.as_str());
        proof {
            if i == 0 {
                assert(out@ =~= out0 + text@);
            } else {
                assert(out@ =~= out0 + ("\n"@ + text@));
            }
            if spec_serialize_models(rest.skip(1), m, false) is Ok {
                let t = spec_serialize_models(rest.skip(1), m, false)->Ok_0;
                if i == 0 {
                    assert(out0 + (text@ + t) =~= out@ + t);
                } else {
                    assert(out0 + ("\n"@ + text@ + t) =~= out@ + t);
                }
            }
        }
        i += 1;
    }
    proof {
        assert(m.skip(n as int) =~= Seq::<(Seq<char>, SpecModel)>::empty());
        assert(out@ + Seq::<char>::empty() =~= out@);
    }
    Ok(out)
}

/// Renders all model decoders, separated by blank lines.
#[verifier::loop_isolation(false)]
fn deserialize_models_text(schema: &Schema) -> (r: Result<String, EmitError>)
    ensures
        match r {
            Ok(t) => spec_deserialize_models(schema@.models, schema@.models, true) == Ok::<
                Seq<char>,
                SpecEmitError,
            >(t@),
            Err(e) => spec_deserialize_models(schema@.models, schema@.models, true) == Err::<
                Seq<char>,
                SpecEmitError,
            >(e@),
        },
{
    let ghost m = schema@.models;
    let ghost full = spec_deserialize_models(m, m, true);
    let n = schema.models.len();
    let mut out = String::new();
    let mut i: usize = 0;
    proof {
        assert(m.skip(0) =~= m);
    }
    while i < n
        invariant
            n == schema.models@.len(),
            m == schema@.models,
            i <= n,
            (spec_deserialize_models(m.skip(i as int), m, i == 0) matches Ok(t) ==> full
                == Ok::<Seq<char>, SpecEmitError>(out@ + t)),
            (spec_deserialize_models(m.skip(i as int), m, i == 0) matches Err(e) ==> full
                == Err::<Seq<char>, SpecEmitError>(e)),
        decreases n - i,
    {
        let ghost out0 = out@;
        let ghost rest = m.skip(i as int);
        proof {
            assert(rest[0] == m[i as int]);
            assert(rest.skip(1) =~= m.skip(i as int + 1));
        }
        let text = match deserialize_model(
            schema.models.key_at(i).as_str(),
            schema.models.value_at(i),
            schema,
        ) {
            Ok(t) => t,
            Err(e) => {
                return Err(e);
            },
        };
        if i > 0 {
            out.append("\n");
        }
        out.append(text.as_str());
        proof {
            if i == 0 {
                assert(out@ =~= out0 + text@);
            } else {
                assert(out@ =~= out0 + ("\n"@ + text@));
            }
            if spec_deserialize_models(rest.skip(1), m, false) is Ok {
                let t = spec_deserialize_models(rest.skip(1), m, false)->Ok_0;
                if i == 0 {
                    assert(out0 + (text@ + t) =~= out@ + t);
                } else {
                    assert(out0 + ("\n"@ + text@ + t) =~= out@ + t);
                }
            }
        }
        i += 1;
    }
    proof {
        assert(m.skip(n as int) =~= Seq::<(Seq<char>, SpecModel)>::empty());
        assert(out@ + Seq::<char>::empty() =~= out@);
    }
    Ok(out)
}

/// Renders the whole schema as a client-language source file.
pub fn emit_schema(module_name: &str, schema: &Schema) -> (r: Result<String, EmitError>)
    ensures
        match r {
            Ok(t) => spec_emit_schema(module_name@, schema@) == Ok::<Seq<char>, SpecEmitError>(
                t@,
            ),
            Err(e) => spec_emit_schema(module_name@, schema@) == Err::<
                Seq<char>,
                SpecEmitError,
            >(e@),
        },
{
    let models = match emit_models_text(schema) {
        Ok(t) => t,
        Err(e) => {
            return Err(e);
        },
    };
    let consumers = match emit_consumers_text(schema) {
        Ok(t) => t,
        Err(e) => {
            return Err(e);
        },
    };
    let encoders = match serialize_models_text(schema) {
        Ok(t) => t,
        Err(e) => {
            return Err(e);
        },
    };
    let decoders = match deserialize_models_text(schema) {
        Ok(t) => t,
        Err(e) => {
            return Err(e);
        },
    };
    let mut text = String::from_str("// AUTOGENERATED FILE - DO NOT EDIT\n\n");
    text.append("import '");
    text.append(module_name);
    text.append(".external.dart';\n");
    text.append("\n");
    text.append("abstract class RequestHandler {\n");
    text.append(
        "  Future<dynamic> request(String service, String method, Map<String, dynamic> params);\n",
    );
    text.append("}\n");
    text.append("\n");
    let ghost header = text@;
    proof {
        assert(header =~= spec_dart_header(module_name@));
    }
    text.append(models.as_str());
    text.append("\n");
    text.append(consumers.as_str());
    text.append("\n");
    text.append(encoders.as_str());
    text.append("\n\n");
    text.append(decoders.as_str());
    text.append("\n\n");
    Ok(text)
}

/// Emission is repeatable: the contract pins the text to one rendering
/// function, so two runs on the same schema agree byte for byte.
pub proof fn lemma_emit_schema_repeatable(
    module_name: Seq<char>,
    s: crate::lang::schema::SpecSchema,
    t1: Seq<char>,
    t2: Seq<char>,
)
    requires
        spec_emit_schema(module_name, s) == Ok::<Seq<char>, SpecEmitError>(t1),
        spec_emit_schema(module_name, s) == Ok::<Seq<char>, SpecEmitError>(t2),
    ensures
        t1 == t2,
{
}

/// Order preservation in the generated encoder: the member list
/// splits, at every field position, into the members of the earlier
/// fields, that field's own member, and the members of the later
/// fields, in declaration order.
pub proof fn lemma_serialize_members_order(
    fs: Seq<(Seq<char>, SpecAnnotated<SpecShape>)>,
    m: Seq<(Seq<char>, SpecModel)>,
    i: int,
)
    requires
        0 < i < fs.len(),
        spec_serialize_members(fs, m, true) is Ok,
    ensures
        spec_serialize_shape("instance."@ + fs[i].0, fs[i].1.inner, m) is Ok,
        spec_serialize_members(fs.take(i), m, true) is Ok,
        spec_serialize_members(fs.skip(i + 1), m, false) is Ok,
        spec_serialize_members(fs, m, true)->Ok_0 == spec_serialize_members(
            fs.take(i),
            m,
            true,
        )->Ok_0 + (","@ + "'"@ + fs[i].0 + "':"@ + spec_serialize_shape(
            "instance."@ + fs[i].0,
            fs[i].1.inner,
            m,
        )->Ok_0) + spec_serialize_members(fs.skip(i + 1), m, false)->Ok_0,
    decreases i,
{
    lemma_serialize_members_order_from(fs, m, i, true);
}

/// The same decomposition, for a member list that may itself stand in
/// the middle of a larger one.
proof fn lemma_serialize_members_order_from(
    fs: Seq<(Seq<char>, SpecAnnotated<SpecShape>)>,
    m: Seq<(Seq<char>, SpecModel)>,
    i: int,
    first: bool,
)
    requires
        0 < i < fs.len(),
        spec_serialize_members(fs, m, first) is Ok,
    ensures
        spec_serialize_shape("instance."@ + fs[i].0, fs[i].1.inner, m) is Ok,
        spec_serialize_members(fs.take(i), m, first) is Ok,
        spec_serialize_members(fs.skip(i + 1), m, false) is Ok,
        spec_serialize_members(fs, m, first)->Ok_0 == spec_serialize_members(
            fs.take(i),
            m,
            first,
        )->Ok_0 + (","@ + "'"@ + fs[i].0 + "':"@ + spec_serialize_shape(
            "instance."@ + fs[i].0,
            fs[i].1.inner,
            m,
        )->Ok_0) + spec_serialize_members(fs.skip(i + 1), m, false)->Ok_0,
    decreases i,
{
    let member0 = if first {
        "'"@ + fs[0].0 + "':"@ + spec_serialize_shape("instance."@ + fs[0].0, fs[0].1.inner, m)->Ok_0
    } else {
        ","@ + "'"@ + fs[0].0 + "':"@ + spec_serialize_shape(
            "instance."@ + fs[0].0,
            fs[0].1.inner,
            m,
        )->Ok_0
    };
    if i == 1 {
        assert(fs.take(1)[0] == fs[0]);
        assert(fs.take(1).skip(1) =~= Seq::<(Seq<char>, SpecAnnotated<SpecShape>)>::empty());
        assert(fs.skip(1)[0] == fs[1]);
        assert(fs.skip(1).skip(1) =~= fs.skip(2));
        let memberi = ","@ + "'"@ + fs[1].0 + "':"@ + spec_serialize_shape(
            "instance."@ + fs[1].0,
            fs[1].1.inner,
            m,
        )->Ok_0;
        assert(member0 + (memberi + spec_serialize_members(fs.skip(2), m, false)->Ok_0) =~= (
        member0 + Seq::<char>::empty()) + memberi + spec_serialize_members(
            fs.skip(2),
            m,
            false,
        )->Ok_0);
        assert(spec_serialize_members(fs.take(1), m, first)->Ok_0 =~= member0 + Seq::<
            char,
        >::empty());
    } else {
        lemma_serialize_members_order_from(fs.skip(1), m, i - 1, false);
        assert(fs.skip(1)[i - 1] == fs[i]);
        assert(fs.skip(1).take(i - 1) =~= fs.take(i).skip(1));
        assert(fs.skip(1).skip(i) =~= fs.skip(i + 1));
        assert(fs.take(i)[0] == fs[0]);
        let memberi = ","@ + "'"@ + fs[i].0 + "':"@ + spec_serialize_shape(
            "instance."@ + fs[i].0,
            fs[i].1.inner,
            m,
        )->Ok_0;
        assert(member0 + (spec_serialize_members(fs.take(i).skip(1), m, false)->Ok_0 + memberi
            + spec_serialize_members(fs.skip(i + 1), m, false)->Ok_0) =~= (member0
            + spec_serialize_members(fs.take(i).skip(1), m, false)->Ok_0) + memberi
            + spec_serialize_members(fs.skip(i + 1), m, false)->Ok_0);
    }
}


/// The same decomposition for the generated decoder, which mirrors
/// the encoder structurally: members appear in declaration order.
pub proof fn lemma_deserialize_members_order(
    fs: Seq<(Seq<char>, SpecAnnotated<SpecShape>)>,
    m: Seq<(Seq<char>, SpecModel)>,
    i: int,
)
    requires
        0 < i < fs.len(),
        spec_deserialize_members(fs, m, true) is Ok,
    ensures
        spec_deserialize_shape("json['"@ + fs[i].0 + "']"@, fs[i].1.inner, m) is Ok,
        spec_deserialize_members(fs.take(i), m, true) is Ok,
        spec_deserialize_members(fs.skip(i + 1), m, false) is Ok,
        spec_deserialize_members(fs, m, true)->Ok_0 == spec_deserialize_members(
            fs.take(i),
            m,
            true,
        )->Ok_0 + (","@ + fs[i].0 + ":"@ + spec_deserialize_shape(
            "json['"@ + fs[i].0 + "']"@,
            fs[i].1.inner,
            m,
        )->Ok_0) + spec_deserialize_members(fs.skip(i + 1), m, false)->Ok_0,
{
    lemma_deserialize_members_order_from(fs, m, i, true);
}

/// The decoder decomposition, for a member list that may itself stand
/// in the middle of a larger one.
proof fn lemma_deserialize_members_order_from(
    fs: Seq<(Seq<char>, SpecAnnotated<SpecShape>)>,
    m: Seq<(Seq<char>, SpecModel)>,
    i: int,
    first: bool,
)
    requires
        0 < i < fs.len(),
        spec_deserialize_members(fs, m, first) is Ok,
    ensures
        spec_deserialize_shape("json['"@ + fs[i].0 + "']"@, fs[i].1.inner, m) is Ok,
        spec_deserialize_members(fs.take(i), m, first) is Ok,
        spec_deserialize_members(fs.skip(i + 1), m, false) is Ok,
        spec_deserialize_members(fs, m, first)->Ok_0 == spec_deserialize_members(
            fs.take(i),
            m,
            first,
        )->Ok_0 + (","@ + fs[i].0 + ":"@ + spec_deserialize_shape(
            "json['"@ + fs[i].0 + "']"@,
            fs[i].1.inner,
            m,
        )->Ok_0) + spec_deserialize_members(fs.skip(i + 1), m, false)->Ok_0,
    decreases i,
{
    let member0 = if first {
        fs[0].0 + ":"@ + spec_deserialize_shape("json['"@ + fs[0].0 + "']"@, fs[0].1.inner, m)->Ok_0
    } else {
        ","@ + fs[0].0 + ":"@ + spec_deserialize_shape(
            "json['"@ + fs[0].0 + "']"@,
            fs[0].1.inner,
            m,
        )->Ok_0
    };
    if i == 1 {
        assert(fs.take(1)[0] == fs[0]);
        assert(fs.take(1).skip(1) =~= Seq::<(Seq<char>, SpecAnnotated<SpecShape>)>::empty());
        assert(fs.skip(1)[0] == fs[1]);
        assert(fs.skip(1).skip(1) =~= fs.skip(2));
        let memberi = ","@ + fs[1].0 + ":"@ + spec_deserialize_shape(
            "json['"@ + fs[1].0 + "']"@,
            fs[1].1.inner,
            m,
        )->Ok_0;
        assert(member0 + (memberi + spec_deserialize_members(fs.skip(2), m, false)->Ok_0) =~= (
        member0 + Seq::<char>::empty()) + memberi + spec_deserialize_members(
            fs.skip(2),
            m,
            false,
        )->Ok_0);
        assert(spec_deserialize_members(fs.take(1), m, first)->Ok_0 =~= member0 + Seq::<
            char,
        >::empty());
    } else {
        lemma_deserialize_members_order_from(fs.skip(1), m, i - 1, false);
        assert(fs.skip(1)[i - 1] == fs[i]);
        assert(fs.skip(1).take(i - 1) =~= fs.take(i).skip(1));
        assert(fs.skip(1).skip(i) =~= fs.skip(i + 1));
        assert(fs.take(i)[0] == fs[0]);
        let memberi = ","@ + fs[i].0 + ":"@ + spec_deserialize_shape(
            "json['"@ + fs[i].0 + "']"@,
            fs[i].1.inner,
            m,
        )->Ok_0;
        assert(member0 + (spec_deserialize_members(fs.take(i).skip(1), m, false)->Ok_0 + memberi
            + spec_deserialize_members(fs.skip(i + 1), m, false)->Ok_0) =~= (member0
            + spec_deserialize_members(fs.take(i).skip(1), m, false)->Ok_0) + memberi
            + spec_deserialize_members(fs.skip(i + 1), m, false)->Ok_0);
    }
}

} // verus!
