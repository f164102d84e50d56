//! The web-language emitter: renders classes, enums and type aliases,
//! RPC consumer and provider stubs for each service, and a runtime
//! reflection table describing every model, so generic serialization
//! needs no per-field handwritten code.
//!
//! The target has no value-level set type in its interchange format,
//! so `Set` shapes are rejected as unsupported rather than rendered.

use crate::emit::{EmitError, SpecEmitError};
use crate::lang::map::{ohm_contains, OrderedHashMap};
use crate::lang::schema::{
    Annotated, Model, Primitive, Schema, Service, ServiceMethod, Shape, SpecAnnotated,
    SpecMethod, SpecModel, SpecService, SpecShape, SpecStruct,
};
use vstd::prelude::*;

verus! {

broadcast use vstd::seq_lib::group_seq_properties;

/// The native scalar a primitive maps to.
pub open spec fn spec_ts_primitive(p: Primitive) -> Seq<char> {
    match p {
        Primitive::Unit => "void"@,
        Primitive::Bool => "boolean"@,
        Primitive::Int8 => "number"@,
        Primitive::Int16 => "number"@,
        Primitive::Int32 => "number"@,
        Primitive::Int64 => "bigint"@,
        Primitive::Int128 => "bigint"@,
        Primitive::Float32 => "number"@,
        Primitive::Float64 => "number"@,
        Primitive::String => "string"@,
    }
}

/// The reflection tag of a primitive.
pub open spec fn spec_ts_reflect_primitive(p: Primitive) -> Seq<char> {
    match p {
        Primitive::Unit => "unit"@,
        Primitive::Bool => "bool"@,
        Primitive::Int8 => "int8"@,
        Primitive::Int16 => "int16"@,
        Primitive::Int32 => "int32"@,
        Primitive::Int64 => "int64"@,
        Primitive::Int128 => "int128"@,
        Primitive::Float32 => "float32"@,
        Primitive::Float64 => "float64"@,
        Primitive::String => "string"@,
    }
}

/// The rendered type of a shape; references must resolve and `Set` is
/// unsupported in this target.
pub open spec fn spec_emit_shape(s: SpecShape, m: Seq<(Seq<char>, SpecModel)>) -> Result<
    Seq<char>,
    SpecEmitError,
>
    decreases s,
{
    match s {
        SpecShape::Primitive(p) => Ok(spec_ts_primitive(p)),
        SpecShape::Nullable(t) => match spec_emit_shape(*t, m) {
            Ok(t) => Ok(t + " | null"@),
            Err(e) => Err(e),
        },
        SpecShape::List(t) => match spec_emit_shape(*t, m) {
            Ok(t) => Ok("("@ + t + "[])"@),
            Err(e) => Err(e),
        },
        SpecShape::SetOf(_) => Err(SpecEmitError::UnsupportedConstruct("Set"@)),
        SpecShape::MapOf(k, v) => match (spec_emit_shape(*k, m), spec_emit_shape(*v, m)) {
            (Ok(k), Ok(v)) => Ok("Map<"@ + k + ", "@ + v + ">"@),
            (Err(e), _) => Err(e),
            (_, Err(e)) => Err(e),
        },
        SpecShape::Reference(n) => if ohm_contains(m, n) {
            Ok(n)
        } else {
            Err(SpecEmitError::UnresolvedReference(n))
        },
    }
}

/// One class field line per field, in declaration order.
pub open spec fn spec_emit_fields(
    fs: Seq<(Seq<char>, SpecAnnotated<SpecShape>)>,
    m: Seq<(Seq<char>, SpecModel)>,
) -> Result<Seq<char>, SpecEmitError>
    decreases fs.len(),
{
    if fs.len() == 0 {
        Ok(Seq::empty())
    } else {
        match spec_emit_shape(fs[0].1.inner, m) {
            Err(e) => Err(e),
            Ok(t) => match spec_emit_fields(fs.skip(1), m) {
                Err(e) => Err(e),
                Ok(r) => Ok("  "@ + fs[0].0 + ": "@ + t + ";\n"@ + r),
            },
        }
    }
}

pub open spec fn spec_emit_struct(
    name: Seq<char>,
    st: SpecStruct,
    m: Seq<(Seq<char>, SpecModel)>,
) -> Result<Seq<char>, SpecEmitError> {
    match spec_emit_fields(st.fields, m) {
        Err(e) => Err(e),
        Ok(fields) => Ok("export class "@ + name + " {\n"@ + fields + "}\n"@),
    }
}

/// One enum member line per variant, its value the variant's own name
/// as a string literal.
pub open spec fn spec_emit_variants(vs: Seq<Seq<char>>) -> Seq<char>
    decreases vs.len(),
{
    if vs.len() == 0 {
        Seq::empty()
    } else {
        "  "@ + vs[0] + " = '"@ + vs[0] + "',\n"@ + spec_emit_variants(vs.skip(1))
    }
}

pub open spec fn spec_emit_enum(name: Seq<char>, fields: Seq<Seq<char>>) -> Seq<char> {
    "export enum "@ + name + " {\n"@ + spec_emit_variants(fields) + "}\n"@
}

pub open spec fn spec_emit_model(
    name: Seq<char>,
    model: SpecModel,
    m: Seq<(Seq<char>, SpecModel)>,
    file_name: Seq<char>,
) -> Result<Seq<char>, SpecEmitError> {
    match model {
        SpecModel::Struct(st) => spec_emit_struct(name, st, m),
        SpecModel::Enum(e) => Ok(spec_emit_enum(name, e.fields)),
        SpecModel::Alias(a) => match spec_emit_shape(a.shape.inner, m) {
            Err(e) => Err(e),
            Ok(t) => Ok("export type "@ + name + " = "@ + t + ";\n"@),
        },
        SpecModel::External(_) => Ok(
            "import { "@ + name + " } from './"@ + file_name + ".external';\n"@,
        ),
    }
}

/// `name: type` parameters, comma separated, in declaration order.
pub open spec fn spec_emit_params(
    fs: Seq<(Seq<char>, SpecAnnotated<SpecShape>)>,
    m: Seq<(Seq<char>, SpecModel)>,
    first: bool,
) -> Result<Seq<char>, SpecEmitError>
    decreases fs.len(),
{
    if fs.len() == 0 {
        Ok(Seq::empty())
    } else {
        match spec_emit_shape(fs[0].1.inner, m) {
            Err(e) => Err(e),
            Ok(t) => match spec_emit_params(fs.skip(1), m, false) {
                Err(e) => Err(e),
                Ok(r) => if first {
                    Ok(fs[0].0 + ": "@ + t + r)
                } else {
                    Ok(", "@ + fs[0].0 + ": "@ + t + r)
                },
            },
        }
    }
}

/// Bare argument names, comma separated, in declaration order.
pub open spec fn spec_emit_arg_names(
    fs: Seq<(Seq<char>, SpecAnnotated<SpecShape>)>,
    first: bool,
) -> Seq<char>
    decreases fs.len(),
{
    if fs.len() == 0 {
        Seq::empty()
    } else if first {
        fs[0].0 + spec_emit_arg_names(fs.skip(1), false)
    } else {
        ", "@ + fs[0].0 + spec_emit_arg_names(fs.skip(1), false)
    }
}

/// The rendered output type of a method; a void return renders as the
/// unit type.
pub open spec fn spec_emit_output(
    output: Option<SpecAnnotated<SpecShape>>,
    m: Seq<(Seq<char>, SpecModel)>,
) -> Result<Seq<char>, SpecEmitError> {
    match output {
        Some(a) => spec_emit_shape(a.inner, m),
        None => Ok("void"@),
    }
}

pub open spec fn spec_emit_consumer_method(
    name: Seq<char>,
    method: SpecMethod,
    m: Seq<(Seq<char>, SpecModel)>,
) -> Result<Seq<char>, SpecEmitError> {
    match (spec_emit_params(method.inputs, m, true), spec_emit_output(method.output, m)) {
        (Ok(params), Ok(out)) => Ok(
            "  "@ + name + "("@ + params + "): Promise<"@ + out + "> {\n"@
                + "    return this.request(\""@ + name + "\", { "@ + spec_emit_arg_names(
                method.inputs,
                true,
            ) + " });\n"@ + "  }\n"@,
        ),
        (Err(e), _) => Err(e),
        (_, Err(e)) => Err(e),
    }
}

pub open spec fn spec_emit_provider_method(
    name: Seq<char>,
    method: SpecMethod,
    m: Seq<(Seq<char>, SpecModel)>,
) -> Result<Seq<char>, SpecEmitError> {
    match (spec_emit_params(method.inputs, m, true), spec_emit_output(method.output, m)) {
        (Ok(params), Ok(out)) => Ok(
            "  "@ + name + "("@ + params + "): Promise<"@ + out + ">;\n"@,
        ),
        (Err(e), _) => Err(e),
        (_, Err(e)) => Err(e),
    }
}

/// Consumer methods, separated by blank lines, in declaration order.
pub open spec fn spec_emit_consumer_methods(
    ms: Seq<(Seq<char>, SpecAnnotated<SpecMethod>)>,
    m: Seq<(Seq<char>, SpecModel)>,
    first: bool,
) -> Result<Seq<char>, SpecEmitError>
    decreases ms.len(),
{
    if ms.len() == 0 {
        Ok(Seq::empty())
    } else {
        match spec_emit_consumer_method(ms[0].0, ms[0].1.inner, m) {
            Err(e) => Err(e),
            Ok(t) => match spec_emit_consumer_methods(ms.skip(1), m, false) {
                Err(e) => Err(e),
                Ok(r) => if first {
                    Ok(t + r)
                } else {
                    Ok("\n"@ + t + r)
                },
            },
        }
    }
}

pub open spec fn spec_emit_provider_methods(
    ms: Seq<(Seq<char>, SpecAnnotated<SpecMethod>)>,
    m: Seq<(Seq<char>, SpecModel)>,
    first: bool,
) -> Result<Seq<char>, SpecEmitError>
    decreases ms.len(),
{
    if ms.len() == 0 {
        Ok(Seq::empty())
    } else {
        match spec_emit_provider_method(ms[0].0, ms[0].1.inner, m) {
            Err(e) => Err(e),
            Ok(t) => match spec_emit_provider_methods(ms.skip(1), m, false) {
                Err(e) => Err(e),
                Ok(r) => if first {
                    Ok(t + r)
                } else {
                    Ok("\n"@ + t + r)
                },
            },
        }
    }
}

pub open spec fn spec_emit_consumer(
    name: Seq<char>,
    service: SpecService,
    m: Seq<(Seq<char>, SpecModel)>,
) -> Result<Seq<char>, SpecEmitError> {
    match spec_emit_consumer_methods(service.methods, m, true) {
        Err(e) => Err(e),
        Ok(methods) => Ok(
            "export class "@ + name + "Consumer {\n"@
                + "  constructor(\n    protected request: (method: string, inputs: any) => Promise<any>\n  ) {}\n\n"@
                + methods + "}\n"@,
        ),
    }
}

pub open spec fn spec_emit_provider(
    name: Seq<char>,
    service: SpecService,
    m: Seq<(Seq<char>, SpecModel)>,
) -> Result<Seq<char>, SpecEmitError> {
    match spec_emit_provider_methods(service.methods, m, true) {
        Err(e) => Err(e),
        Ok(methods) => Ok(
            "export interface "@ + name + "Provider {\n"@ + methods + "}\n"@,
        ),
    }
}

/// The reflection entry of a shape.
pub open spec fn spec_reflect_shape(s: SpecShape, m: Seq<(Seq<char>, SpecModel)>) -> Result<
    Seq<char>,
    SpecEmitError,
>
    decreases s,
{
    match s {
        SpecShape::Primitive(p) => Ok("type:'"@ + spec_ts_reflect_primitive(p) + "'"@),
        SpecShape::Nullable(t) => match spec_reflect_shape(*t, m) {
            Ok(t) => Ok("type:'nullable',inner:{"@ + t + "}"@),
            Err(e) => Err(e),
        },
        SpecShape::List(t) => match spec_reflect_shape(*t, m) {
            Ok(t) => Ok("type:'list',inner:{"@ + t + "}"@),
            Err(e) => Err(e),
        },
        SpecShape::SetOf(_) => Err(SpecEmitError::UnsupportedConstruct("Set"@)),
        SpecShape::MapOf(k, v) => match (spec_reflect_shape(*k, m), spec_reflect_shape(*v, m)) {
            (Ok(k), Ok(v)) => Ok("type:'map',key:{"@ + k + "},value:{"@ + v + "}"@),
            (Err(e), _) => Err(e),
            (_, Err(e)) => Err(e),
        },
        SpecShape::Reference(n) => if ohm_contains(m, n) {
            Ok("type:'reference',name:'"@ + n + "'"@)
        } else {
            Err(SpecEmitError::UnresolvedReference(n))
        },
    }
}

/// `key:'value'` metadata entries, comma separated.
pub open spec fn spec_reflect_metadata(entries: Seq<(Seq<char>, Seq<char>)>, first: bool) -> Seq<
    char,
>
    decreases entries.len(),
{
    if entries.len() == 0 {
        Seq::empty()
    } else if first {
        entries[0].0 + ":'"@ + entries[0].1 + "'"@ + spec_reflect_metadata(
            entries.skip(1),
            false,
        )
    } else {
        ","@ + entries[0].0 + ":'"@ + entries[0].1 + "'"@ + spec_reflect_metadata(
            entries.skip(1),
            false,
        )
    }
}

/// A shape together with its annotation metadata.
pub open spec fn spec_reflect_annotated_shape(
    a: SpecAnnotated<SpecShape>,
    m: Seq<(Seq<char>, SpecModel)>,
) -> Result<Seq<char>, SpecEmitError> {
    match spec_reflect_shape(a.inner, m) {
        Err(e) => Err(e),
        Ok(t) => Ok(t + ",data:{"@ + spec_reflect_metadata(a.metadata, true) + "}"@),
    }
}

/// `name:{...}` reflection members of a field map.
pub open spec fn spec_reflect_fields(
    fs: Seq<(Seq<char>, SpecAnnotated<SpecShape>)>,
    m: Seq<(Seq<char>, SpecModel)>,
    first: bool,
) -> Result<Seq<char>, SpecEmitError>
    decreases fs.len(),
{
    if fs.len() == 0 {
        Ok(Seq::empty())
    } else {
        match spec_reflect_annotated_shape(fs[0].1, m) {
            Err(e) => Err(e),
            Ok(t) => match spec_reflect_fields(fs.skip(1), m, false) {
                Err(e) => Err(e),
                Ok(r) => if first {
                    Ok(fs[0].0 + ":{"@ + t + "}"@ + r)
                } else {
                    Ok(","@ + fs[0].0 + ":{"@ + t + "}"@ + r)
                },
            },
        }
    }
}

pub open spec fn spec_reflect_struct(st: SpecStruct, m: Seq<(Seq<char>, SpecModel)>) -> Result<
    Seq<char>,
    SpecEmitError,
> {
    match spec_reflect_fields(st.fields, m, true) {
        Err(e) => Err(e),
        Ok(fields) => Ok("type:'struct',fields:{"@ + fields + "}"@),
    }
}

/// `Variant:''` members of an enum's reflection entry.
pub open spec fn spec_reflect_variants(vs: Seq<Seq<char>>, first: bool) -> Seq<char>
    decreases vs.len(),
{
    if vs.len() == 0 {
        Seq::empty()
    } else if first {
        vs[0] + ":''"@ + spec_reflect_variants(vs.skip(1), false)
    } else {
        ","@ + vs[0] + ":''"@ + spec_reflect_variants(vs.skip(1), false)
    }
}

pub open spec fn spec_reflect_enum(fields: Seq<Seq<char>>) -> Seq<char> {
    "type:'enum',fields:{"@ + spec_reflect_variants(fields, true) + "}"@
}

pub open spec fn spec_reflect_model(
    name: Seq<char>,
    model: SpecModel,
    m: Seq<(Seq<char>, SpecModel)>,
) -> Result<Seq<char>, SpecEmitError> {
    match model {
        SpecModel::Struct(st) => match spec_reflect_struct(st, m) {
            Err(e) => Err(e),
            Ok(t) => Ok(name + ":{"@ + t + "}"@),
        },
        SpecModel::Enum(e) => Ok(name + ":{"@ + spec_reflect_enum(e.fields) + "}"@),
        SpecModel::Alias(a) => match spec_reflect_annotated_shape(a.shape, m) {
            Err(e) => Err(e),
            Ok(t) => Ok(name + ":{type:'alias',inner:{"@ + t + "}}"@),
        },
        SpecModel::External(x) => match spec_reflect_annotated_shape(x.shape, m) {
            Err(e) => Err(e),
            Ok(t) => Ok(name + ":{type:'external',inner:{"@ + t + "}}"@),
        },
    }
}

/// A method's reflection entry: inputs in declaration order, and the
/// output (a void return reflects as the unit shape).
pub open spec fn spec_reflect_method(
    name: Seq<char>,
    method: SpecAnnotated<SpecMethod>,
    m: Seq<(Seq<char>, SpecModel)>,
) -> Result<Seq<char>, SpecEmitError> {
    match spec_reflect_fields(method.inner.inputs, m, true) {
        Err(e) => Err(e),
        Ok(inputs) => {
            let out = match method.inner.output {
                Some(a) => spec_reflect_annotated_shape(a, m),
                None => Ok("type:'unit',data:{}"@),
            };
            match out {
                Err(e) => Err(e),
                Ok(o) => Ok(
                    name + ":{inputs:{"@ + inputs + "},output:{"@ + o + "}}"@,
                ),
            }
        },
    }
}

pub open spec fn spec_reflect_methods(
    ms: Seq<(Seq<char>, SpecAnnotated<SpecMethod>)>,
    m: Seq<(Seq<char>, SpecModel)>,
    first: bool,
) -> Result<Seq<char>, SpecEmitError>
    decreases ms.len(),
{
    if ms.len() == 0 {
        Ok(Seq::empty())
    } else {
        match spec_reflect_method(ms[0].0, ms[0].1, m) {
            Err(e) => Err(e),
            Ok(t) => match spec_reflect_methods(ms.skip(1), m, false) {
                Err(e) => Err(e),
                Ok(r) => if first {
                    Ok(t + r)
                } else {
                    Ok(","@ + t + r)
                },
            },
        }
    }
}

pub open spec fn spec_reflect_service(
    name: Seq<char>,
    service: SpecService,
    m: Seq<(Seq<char>, SpecModel)>,
) -> Result<Seq<char>, SpecEmitError> {
    match spec_reflect_methods(service.methods, m, true) {
        Err(e) => Err(e),
        Ok(methods) => Ok(name + ":{type:'service',methods:{"@ + methods + "}}"@),
    }
}

pub open spec fn spec_reflect_models(
    ms: Seq<(Seq<char>, SpecModel)>,
    m: Seq<(Seq<char>, SpecModel)>,
    first: bool,
) -> Result<Seq<char>, SpecEmitError>
    decreases ms.len(),
{
    if ms.len() == 0 {
        Ok(Seq::empty())
    } else {
        match spec_reflect_model(ms[0].0, ms[0].1, m) {
            Err(e) => Err(e),
            Ok(t) => match spec_reflect_models(ms.skip(1), m, false) {
                Err(e) => Err(e),
                Ok(r) => if first {
                    Ok(t + r)
                } else {
                    Ok(","@ + t + r)
                },
            },
        }
    }
}

pub open spec fn spec_reflect_services(
    ss: Seq<(Seq<char>, SpecService)>,
    m: Seq<(Seq<char>, SpecModel)>,
    first: bool,
) -> Result<Seq<char>, SpecEmitError>
    decreases ss.len(),
{
    if ss.len() == 0 {
        Ok(Seq::empty())
    } else {
        match spec_reflect_service(ss[0].0, ss[0].1, m) {
            Err(e) => Err(e),
            Ok(t) => match spec_reflect_services(ss.skip(1), m, false) {
                Err(e) => Err(e),
                Ok(r) => if first {
                    Ok(t + r)
                } else {
                    Ok(","@ + t + r)
                },
            },
        }
    }
}

/// The full reflection table.
pub open spec fn spec_reflect_schema(s: crate::lang::schema::SpecSchema) -> Result<
    Seq<char>,
    SpecEmitError,
> {
    match (spec_reflect_models(s.models, s.models, true), spec_reflect_services(
        s.services,
        s.models,
        true,
    )) {
        (Ok(ms), Ok(ss)) => Ok(
            "{models:{"@ + ms + "},services:{"@ + ss + "}} as const;"@,
        ),
        (Err(e), _) => Err(e),
        (_, Err(e)) => Err(e),
    }
}

/// Consumers for all services, separated by blank lines.
pub open spec fn spec_emit_consumers(
    ss: Seq<(Seq<char>, SpecService)>,
    m: Seq<(Seq<char>, SpecModel)>,
    first: bool,
) -> Result<Seq<char>, SpecEmitError>
    decreases ss.len(),
{
    if ss.len() == 0 {
        Ok(Seq::empty())
    } else {
        match spec_emit_consumer(ss[0].0, ss[0].1, m) {
            Err(e) => Err(e),
            Ok(t) => match spec_emit_consumers(ss.skip(1), m, false) {
                Err(e) => Err(e),
                Ok(r) => if first {
                    Ok(t + r)
                } else {
                    Ok("\n"@ + t + r)
                },
            },
        }
    }
}

/// Providers for all services, separated by blank lines.
pub open spec fn spec_emit_providers(
    ss: Seq<(Seq<char>, SpecService)>,
    m: Seq<(Seq<char>, SpecModel)>,
    first: bool,
) -> Result<Seq<char>, SpecEmitError>
    decreases ss.len(),
{
    if ss.len() == 0 {
        Ok(Seq::empty())
    } else {
        match spec_emit_provider(ss[0].0, ss[0].1, m) {
            Err(e) => Err(e),
            Ok(t) => match spec_emit_providers(ss.skip(1), m, false) {
                Err(e) => Err(e),
                Ok(r) => if first {
                    Ok(t + r)
                } else {
                    Ok("\n"@ + t + r)
                },
            },
        }
    }
}

/// All models, separated by blank lines.
pub open spec fn spec_emit_models(
    ms: Seq<(Seq<char>, SpecModel)>,
    m: Seq<(Seq<char>, SpecModel)>,
    file_name: Seq<char>,
    first: bool,
) -> Result<Seq<char>, SpecEmitError>
    decreases ms.len(),
{
    if ms.len() == 0 {
        Ok(Seq::empty())
    } else {
        match spec_emit_model(ms[0].0, ms[0].1, m, file_name) {
            Err(e) => Err(e),
            Ok(t) => match spec_emit_models(ms.skip(1), m, file_name, false) {
                Err(e) => Err(e),
                Ok(r) => if first {
                    Ok(t + r)
                } else {
                    Ok("\n"@ + t + r)
                },
            },
        }
    }
}

/// The whole artifact: header, models, consumers, providers, and the
/// reflection table.
pub open spec fn spec_emit_schema(
    file_name: Seq<char>,
    s: crate::lang::schema::SpecSchema,
) -> Result<Seq<char>, SpecEmitError> {
    match (spec_emit_models(s.models, s.models, file_name, true), (spec_emit_consumers(
        s.services,
        s.models,
        true,
    ), (spec_emit_providers(s.services, s.models, true), spec_reflect_schema(s)))) {
        (Ok(ms), (Ok(cs), (Ok(ps), Ok(refl)))) => Ok(
            "// AUTOGENERATED FILE - DO NOT EDIT\n\n"@ + ms + "\n"@ + cs + "\n"@ + ps + "\n"@
                + "// prettier-ignore\n"@ + "export const $schema = "@ + refl,
        ),
        (Err(e), _) => Err(e),
        (_, (Err(e), _)) => Err(e),
        (_, (_, (Err(e), _))) => Err(e),
        (_, (_, (_, Err(e)))) => Err(e),
    }
}

fn ts_primitive(p: Primitive) -> (r: &'static str)
    ensures
        r@ == spec_ts_primitive(p),
{
    match p {
        Primitive::Unit => "void",
        Primitive::Bool => "boolean",
        Primitive::Int8 => "number",
        Primitive::Int16 => "number",
        Primitive::Int32 => "number",
        Primitive::Int64 => "bigint",
        Primitive::Int128 => "bigint",
        Primitive::Float32 => "number",
        Primitive::Float64 => "number",
        Primitive::String => "string",
    }
}

fn ts_reflect_primitive(p: Primitive) -> (r: &'static str)
    ensures
        r@ == spec_ts_reflect_primitive(p),
{
    match p {
        Primitive::Unit => "unit",
        Primitive::Bool => "bool",
        Primitive::Int8 => "int8",
        Primitive::Int16 => "int16",
        Primitive::Int32 => "int32",
        Primitive::Int64 => "int64",
        Primitive::Int128 => "int128",
        Primitive::Float32 => "float32",
        Primitive::Float64 => "float64",
        Primitive::String => "string",
    }
}

/// Renders a shape as a native type.
pub fn emit_shape(s: &Shape, schema: &Schema) -> (r: Result<String, EmitError>)
    ensures
        match r {
            Ok(t) => spec_emit_shape(s@, schema@.models) == Ok::<Seq<char>, SpecEmitError>(t@),
            Err(e) => spec_emit_shape(s@, schema@.models) == Err::<Seq<char>, SpecEmitError>(e@),
        },
    decreases *s,
{
    match s {
        Shape::Primitive(p) => Ok(String::from_str(ts_primitive(*p))),
        Shape::Nullable(t) => match emit_shape(t, schema) {
            Err(e) => Err(e),
            Ok(t) => {
                let mut out = t;
                out.append(" | null");
                Ok(out)
            },
        },
        Shape::List(t) => match emit_shape(t, schema) {
            Err(e) => Err(e),
            Ok(t) => {
                let mut out = String::from_str("(");
                out.append(t.as_str());
                out.append("[])");
                Ok(out)
            },
        },
        Shape::SetOf(_) => Err(EmitError::UnsupportedConstruct(String::from_str("Set"))),
        Shape::MapOf(k, v) => match emit_shape(k, schema) {
            Err(e) => Err(e),
            Ok(kt) => match emit_shape(v, schema) {
                Err(e) => Err(e),
                Ok(vt) => {
                    let mut out = String::from_str("Map<");
                    out.append(kt.as_str());
                    out.append(", ");
                    out.append(vt.as_str());
                    out.append(">");
                    Ok(out)
                },
            },
        },
        Shape::Reference(n) => {
            if schema.models.contains_key(n.as_str()) {
                Ok(n.clone())
            } else {
                Err(EmitError::UnresolvedReference(n.clone()))
            }
        },
    }
}

/// Renders the field lines of a class, in declaration order.
#[verifier::loop_isolation(false)]
fn emit_fields(fields: &OrderedHashMap<Annotated<Shape>>, schema: &Schema) -> (r: Result<
    String,
    EmitError,
>)
    ensures
        match r {
            Ok(t) => spec_emit_fields(fields@, schema@.models) == Ok::<Seq<char>, SpecEmitError>(
                t@,
            ),
            Err(e) => spec_emit_fields(fields@, schema@.models) == Err::<
                Seq<char>,
                SpecEmitError,
            >(e@),
        },
{
    let ghost m = schema@.models;
    let ghost full = spec_emit_fields(fields@, m);
    let n = fields.len();
    let mut out = String::new();
    let mut i: usize = 0;
    proof {
        assert(fields@.skip(0) =~= fields@);
    }
    while i < n
        invariant
            n == fields@.len(),
            i <= n,
            (spec_emit_fields(fields@.skip(i as int), m) matches Ok(t) ==> full == Ok::<
                Seq<char>,
                SpecEmitError,
            >(out@ + t)),
            (spec_emit_fields(fields@.skip(i as int), m) matches Err(e) ==> full == Err::<
                Seq<char>,
                SpecEmitError,
            >(e)),
        decreases n - i,
    {
        let ghost out0 = out@;
        let ghost rest = fields@.skip(i as int);
        proof {
            assert(rest[0] == fields@[i as int]);
            assert(rest.skip(1) =~= fields@.skip(i as int + 1));
        }
        let name = fields.key_at(i);
        let field = fields.value_at(i);
        let shape_text = match emit_shape(&field.inner, schema) {
            Ok(t) => t,
            Err(e) => {
                return Err(e);
            },
        };
        out.append("  ");
        out.append(name.as_str());
        out.append(": ");
        out.append(shape_text.as_str());
        out.append(";\n");
        proof {
            assert(out@ =~= out0 + ("  "@ + rest[0].0 + ": "@ + shape_text@ + ";\n"@));
            if spec_emit_fields(rest.skip(1), m) is Ok {
                let t = spec_emit_fields(rest.skip(1), m)->Ok_0;
                assert(out0 + ("  "@ + rest[0].0 + ": "@ + shape_text@ + ";\n"@ + t) =~= out@
                    + t);
            }
        }
        i += 1;
    }
    proof {
        assert(fields@.skip(n as int) =~= Seq::<(Seq<char>, SpecAnnotated<SpecShape>)>::empty());
        assert(out@ + Seq::<char>::empty() =~= out@);
    }
    Ok(out)
}

/// Renders a class declaration.
fn emit_struct(name: &str, st: &crate::lang::schema::Struct, schema: &Schema) -> (r: Result<
    String,
    EmitError,
>)
    ensures
        match r {
            Ok(t) => spec_emit_struct(name@, st@, schema@.models) == Ok::<
                Seq<char>,
                SpecEmitError,
            >(t@),
            Err(e) => spec_emit_struct(name@, st@, schema@.models) == Err::<
                Seq<char>,
                SpecEmitError,
            >(e@),
        },
{
    let fields = match emit_fields(&st.fields, schema) {
        Ok(t) => t,
        Err(e) => {
            return Err(e);
        },
    };
    let mut out = String::from_str("export class ");
    out.append(name);
    out.append(" {\n");
    out.append(fields.as_str());
    out.append("}\n");
    Ok(out)
}

/// Renders an enumeration whose member values are the variant names.
#[verifier::loop_isolation(false)]
pub fn emit_enum(name: &str, def: &crate::lang::schema::Enum) -> (r: String)
    ensures
        r@ == spec_emit_enum(name@, def@.fields),
{
    let mut out = String::from_str("export enum ");
    out.append(name);
    out.append(" {\n");
    let ghost vs = def@.fields;
    let n = def.fields.len();
    let mut i: usize = 0;
    let ghost mid = out@;
    proof {
        assert(vs.skip(0) =~= vs);
    }
    while i < n
        invariant
            n == def.fields@.len(),
            n == vs.len(),
            i <= n,
            out@ + spec_emit_variants(vs.skip(i as int)) == mid + spec_emit_variants(vs),
        decreases n - i,
    {
        let ghost out0 = out@;
        let ghost rest = vs.skip(i as int);
        proof {
            assert(rest[0] == vs[i as int]);
            assert(vs[i as int] == def.fields@[i as int]@);
            assert(rest.skip(1) =~= vs.skip(i as int + 1));
        }
        out.append("  ");
        out.append(def.fields[i].as_str());
        out.append(" = '");
        out.append(def.fields[i].as_str());
        out.append("',\n");
        proof {
            assert(out@ =~= out0 + ("  "@ + rest[0] + " = '"@ + rest[0] + "',\n"@));
            assert(out0 + (("  "@ + rest[0] + " = '"@ + rest[0] + "',\n"@)
                + spec_emit_variants(rest.skip(1))) =~= out@ + spec_emit_variants(rest.skip(1)));
        }
        i += 1;
    }
    proof {
        assert(spec_emit_variants(vs.skip(n as int)) =~= Seq::<char>::empty());
        assert(out@ + Seq::<char>::empty() =~= out@);
    }
    out.append("}\n");
    out
}

/// Renders one model declaration.
fn emit_model(name: &str, model: &Model, schema: &Schema, file_name: &str) -> (r: Result<
    String,
    EmitError,
>)
    ensures
        match r {
            Ok(t) => spec_emit_model(name@, model@, schema@.models, file_name@) == Ok::<
                Seq<char>,
                SpecEmitError,
            >(t@),
            Err(e) => spec_emit_model(name@, model@, schema@.models, file_name@) == Err::<
                Seq<char>,
                SpecEmitError,
            >(e@),
        },
{
    match model {
        Model::Struct(st) => emit_struct(name, st, schema),
        Model::Enum(e) => Ok(emit_enum(name, e)),
        Model::Alias(a) => match emit_shape(&a.shape.inner, schema) {
            Err(e) => Err(e),
            Ok(t) => {
                let mut out = String::from_str("export type ");
                out.append(name);
                out.append(" = ");
                out.append(t.as_str());
                out.append(";\n");
                Ok(out)
            },
        },
        Model::External(_) => {
            let mut out = String::from_str("import { ");
            out.append(name);
            out.append(" } from './");
            out.append(file_name);
            out.append(".external';\n");
            Ok(out)
        },
    }
}

/// Renders a method's parameter list and, alongside it, the bare
/// argument-name list used when dispatching the request.
#[verifier::loop_isolation(false)]
fn emit_params(inputs: &OrderedHashMap<Annotated<Shape>>, schema: &Schema) -> (r: Result<
    (String, String),
    EmitError,
>)
    ensures
        match r {
            Ok(t) => spec_emit_params(inputs@, schema@.models, true) == Ok::<
                Seq<char>,
                SpecEmitError,
            >(t.0@) && t.1@ == spec_emit_arg_names(inputs@, true),
            Err(e) => spec_emit_params(inputs@, schema@.models, true) == Err::<
                Seq<char>,
                SpecEmitError,
            >(e@),
        },
{
    let ghost m = schema@.models;
    let ghost full = spec_emit_params(inputs@, m, true);
    let ghost fulla = spec_emit_arg_names(inputs@, true);
    let n = inputs.len();
    let mut out = String::new();
    let mut args = String::new();
    let mut i: usize = 0;
    proof {
        assert(inputs@.skip(0) =~= inputs@);
    }
    while i < n
        invariant
            n == inputs@.len(),
            i <= n,
            (spec_emit_params(inputs@.skip(i as int), m, i == 0) matches Ok(t) ==> full == Ok::<
                Seq<char>,
                SpecEmitError,
            >(out@ + t)),
            (spec_emit_params(inputs@.skip(i as int), m, i == 0) matches Err(e) ==> full
                == Err::<Seq<char>, SpecEmitError>(e)),
            fulla == args@ + spec_emit_arg_names(inputs@.skip(i as int), i == 0),
        decreases n - i,
    {
        let ghost out0 = out@;
        let ghost args0 = args@;
        let ghost rest = inputs@.skip(i as int);
        proof {
            assert(rest[0] == inputs@[i as int]);
            assert(rest.skip(1) =~= inputs@.skip(i as int + 1));
        }
        let name = inputs.key_at(i);
        let input = inputs.value_at(i);
        let shape_text = match emit_shape(&input.inner, schema) {
            Ok(t) => t,
            Err(e) => {
                return Err(e);
            },
        };
        if i > 0 {
            out.append(", ");
            args.append(", ");
        }
        out.append(name.as_str());
        out.append(": ");
        out.append(shape_text.as_str());
        args.append(name.as_str());
        proof {
            if i == 0 {
                assert(out@ =~= out0 + (rest[0].0 + ": "@ + shape_text@));
                assert(args@ =~= args0 + rest[0].0);
                assert(args0 + (rest[0].0 + spec_emit_arg_names(rest.skip(1), false)) =~= args@
                    + spec_emit_arg_names(rest.skip(1), false));
            } else {
                assert(out@ =~= out0 + (", "@ + rest[0].0 + ": "@ + shape_text@));
                assert(args@ =~= args0 + (", "@ + rest[0].0));
                assert(args0 + (", "@ + rest[0].0 + spec_emit_arg_names(rest.skip(1), false))
                    =~= args@ + spec_emit_arg_names(rest.skip(1), false));
            }
            if spec_emit_params(rest.skip(1), m, false) is Ok {
                let t = spec_emit_params(rest.skip(1), m, false)->Ok_0;
                if i == 0 {
                    assert(out0 + (rest[0].0 + ": "@ + shape_text@ + t) =~= out@ + t);
                } else {
                    assert(out0 + (", "@ + rest[0].0 + ": "@ + shape_text@ + t) =~= out@ + t);
                }
            }
        }
        i += 1;
    }
    proof {
        assert(inputs@.skip(n as int) =~= Seq::<(Seq<char>, SpecAnnotated<SpecShape>)>::empty());
        assert(out@ + Seq::<char>::empty() =~= out@);
        assert(args@ + Seq::<char>::empty() =~= args@);
    }
    Ok((out, args))
}

/// Renders a method's output type.
fn emit_output(output: &Option<Annotated<Shape>>, schema: &Schema) -> (r: Result<
    String,
    EmitError,
>)
    ensures
        match r {
            Ok(t) => spec_emit_output(
                match output {
                    Some(a) => Some(a@),
                    None => None,
                },
                schema@.models,
            ) == Ok::<Seq<char>, SpecEmitError>(t@),
            Err(e) => spec_emit_output(
                match output {
                    Some(a) => Some(a@),
                    None => None,
                },
                schema@.models,
            ) == Err::<Seq<char>, SpecEmitError>(e@),
        },
{
    match output {
        Some(a) => emit_shape(&a.inner, schema),
        None => Ok(String::from_str("void")),
    }
}

/// Renders one caller-side method stub.
pub fn emit_consumer_method(name: &str, method: &ServiceMethod, schema: &Schema) -> (r: Result<
    String,
    EmitError,
>)
    ensures
        match r {
            Ok(t) => spec_emit_consumer_method(name@, method@, schema@.models) == Ok::<
                Seq<char>,
                SpecEmitError,
            >(t@),
            Err(e) => spec_emit_consumer_method(name@, method@, schema@.models) == Err::<
                Seq<char>,
                SpecEmitError,
            >(e@),
        },
{
    let (params, args) = match emit_params(&method.inputs, schema) {
        Ok(t) => t,
        Err(e) => {
            return Err(e);
        },
    };
    let out_type = match emit_output(&method.output, schema) {
        Ok(t) => t,
        Err(e) => {
            return Err(e);
        },
    };
    let mut out = String::from_str("  ");
    out.append(name);
    out.append("(");
    out.append(params.as_str());
    out.append("): Promise<");
    out.append(out_type.as_str());
    out.append("> {\n");
    out.append("    return this.request(\"");
    out.append(name);
    out.append("\", { ");
    out.append(args.as_str());
    out.append(" });\n");
    out.append("  }\n");
    Ok(out)
}

/// Renders one callee-side method signature.
pub fn emit_provider_method(name: &str, method: &ServiceMethod, schema: &Schema) -> (r: Result<
    String,
    EmitError,
>)
    ensures
        match r {
            Ok(t) => spec_emit_provider_method(name@, method@, schema@.models) == Ok::<
                Seq<char>,
                SpecEmitError,
            >(t@),
            Err(e) => spec_emit_provider_method(name@, method@, schema@.models) == Err::<
                Seq<char>,
                SpecEmitError,
            >(e@),
        },
{
    let (params, _args) = match emit_params(&method.inputs, schema) {
        Ok(t) => t,
        Err(e) => {
            return Err(e);
        },
    };
    let out_type = match emit_output(&method.output, schema) {
        Ok(t) => t,
        Err(e) => {
            return Err(e);
        },
    };
    let mut out = String::from_str("  ");
    out.append(name);
    out.append("(");
    out.append(params.as_str());
    out.append("): Promise<");
    out.append(out_type.as_str());
    out.append(">;\n");
    Ok(out)
}

/// Renders the caller-side stub class for a service.
#[verifier::loop_isolation(false)]
fn emit_consumer(name: &str, service: &Service, schema: &Schema) -> (r: Result<
    String,
    EmitError,
>)
    ensures
        match r {
            Ok(t) => spec_emit_consumer(name@, service@, schema@.models) == Ok::<
                Seq<char>,
                SpecEmitError,
            >(t@),
            Err(e) => spec_emit_consumer(name@, service@, schema@.models) == Err::<
                Seq<char>,
                SpecEmitError,
            >(e@),
        },
{
    let ghost m = schema@.models;
    let ghost full = spec_emit_consumer_methods(service@.methods, m, true);
    let n = service.methods.len();
    let mut out = String::new();
    let mut i: usize = 0;
    proof {
        assert(service@.methods.skip(0) =~= service@.methods);
    }
    while i < n
        invariant
            n == service.methods@.len(),
            i <= n,
            (spec_emit_consumer_methods(service@.methods.skip(i as int), m, i == 0) matches Ok(
                t,
            ) ==> full == Ok::<Seq<char>, SpecEmitError>(out@ + t)),
            (spec_emit_consumer_methods(service@.methods.skip(i as int), m, i == 0) matches Err(
                e,
            ) ==> full == Err::<Seq<char>, SpecEmitError>(e)),
        decreases n - i,
    {
        let ghost out0 = out@;
        let ghost rest = service@.methods.skip(i as int);
        proof {
            assert(rest[0] == service@.methods[i as int]);
            assert(rest.skip(1) =~= service@.methods.skip(i as int + 1));
        }
        let mname = service.methods.key_at(i);
        let method = service.methods.value_at(i);
        let text = match emit_consumer_method(mname.as_str(), &method.inner, schema) {
            Ok(t) => t,
            Err(e) => {
                return Err(e);
            },
        };
        if i > 0 {
            out.append("\n");
        }
        out.append(text.as_str());
        proof {
            if i == 0 {
                assert(out@ =~= out0 + text@);
            } else {
                assert(out@ =~= out0 + ("\n"@ + text@));
            }
            if spec_emit_consumer_methods(rest.skip(1), m, false) is Ok {
                let t = spec_emit_consumer_methods(rest.skip(1), m, false)->Ok_0;
                if i == 0 {
                    assert(out0 + (text@ + t) =~= out@ + t);
                } else {
                    assert(out0 + ("\n"@ + text@ + t) =~= out@ + t);
                }
            }
        }
        i += 1;
    }
    proof {
        assert(service@.methods.skip(n as int) =~= Seq::<
            (Seq<char>, SpecAnnotated<SpecMethod>),
        >::empty());
        assert(out@ + Seq::<char>::empty() =~= out@);
    }
    let mut text = String::from_str("export class ");
    text.append(name);
    text.append("Consumer {\n");
    text.append(
        "  constructor(\n    protected request: (method: string, inputs: any) => Promise<any>\n  ) {}\n\n",
    );
    text.append(out.as_str());
    text.append("}\n");
    Ok(text)
}

/// Renders the callee-side interface for a service.
#[verifier::loop_isolation(false)]
fn emit_provider(name: &str, service: &Service, schema: &Schema) -> (r: Result<
    String,
    EmitError,
>)
    ensures
        match r {
            Ok(t) => spec_emit_provider(name@, service@, schema@.models) == Ok::<
                Seq<char>,
                SpecEmitError,
            >(t@),
            Err(e) => spec_emit_provider(name@, service@, schema@.models) == Err::<
                Seq<char>,
                SpecEmitError,
            >(e@),
        },
{
    let ghost m = schema@.models;
    let ghost full = spec_emit_provider_methods(service@.methods, m, true);
    let n = service.methods.len();
    let mut out = String::new();
    let mut i: usize = 0;
    proof {
        assert(service@.methods.skip(0) =~= service@.methods);
    }
    while i < n
        invariant
            n == service.methods@.len(),
            i <= n,
            (spec_emit_provider_methods(service@.methods.skip(i as int), m, i == 0) matches Ok(
                t,
            ) ==> full == Ok::<Seq<char>, SpecEmitError>(out@ + t)),
            (spec_emit_provider_methods(service@.methods.skip(i as int), m, i == 0) matches Err(
                e,
            ) ==> full == Err::<Seq<char>, SpecEmitError>(e)),
        decreases n - i,
    {
        let ghost out0 = out@;
        let ghost rest = service@.methods.skip(i as int);
        proof {
            assert(rest[0] == service@.methods[i as int]);
            assert(rest.skip(1) =~= service@.methods.skip(i as int + 1));
        }
        let mname = service.methods.key_at(i);
        let method = service.methods.value_at(i);
        let text = match emit_provider_method(mname.as_str(), &method.inner, schema) {
            Ok(t) => t,
            Err(e) => {
                return Err(e);
            },
        };
        if i > 0 {
            out.append("\n");
        }
        out.append(text.as_str());
        proof {
            if i == 0 {
                assert(out@ =~= out0 + text@);
            } else {
                assert(out@ =~= out0 + ("\n"@ + text@));
            }
            if spec_emit_provider_methods(rest.skip(1), m, false) is Ok {
                let t = spec_emit_provider_methods(rest.skip(1), m, false)->Ok_0;
                if i == 0 {
                    assert(out0 + (text@ + t) =~= out@ + t);
                } else {
                    assert(out0 + ("\n"@ + text@ + t) =~= out@ + t);
                }
            }
        }
        i += 1;
    }
    proof {
        assert(service@.methods.skip(n as int) =~= Seq::<
            (Seq<char>, SpecAnnotated<SpecMethod>),
        >::empty());
        assert(out@ + Seq::<char>::empty() =~= out@);
    }
    let mut text = String::from_str("export interface ");
    text.append(name);
    text.append("Provider {\n");
    text.append(out.as_str());
    text.append("}\n");
    Ok(text)
}

/// Renders the reflection entry of a shape.
pub fn reflect_shape(s: &Shape, schema: &Schema) -> (r: Result<String, EmitError>)
    ensures
        match r {
            Ok(t) => spec_reflect_shape(s@, schema@.models) == Ok::<Seq<char>, SpecEmitError>(
                t@,
            ),
            Err(e) => spec_reflect_shape(s@, schema@.models) == Err::<Seq<char>, SpecEmitError>(
                e@,
            ),
        },
    decreases *s,
{
    match s {
        Shape::Primitive(p) => {
            let mut out = String::from_str("type:'");
            out.append(ts_reflect_primitive(*p));
            out.append("'");
            Ok(out)
        },
        Shape::Nullable(t) => match reflect_shape(t, schema) {
            Err(e) => Err(e),
            Ok(t) => {
                let mut out = String::from_str("type:'nullable',inner:{");
                out.append(t.as_str());
                out.append("}");
                Ok(out)
            },
        },
        Shape::List(t) => match reflect_shape(t, schema) {
            Err(e) => Err(e),
            Ok(t) => {
                let mut out = String::from_str("type:'list',inner:{");
                out.append(t.as_str());
                out.append("}");
                Ok(out)
            },
        },
        Shape::SetOf(_) => Err(EmitError::UnsupportedConstruct(String::from_str("Set"))),
        Shape::MapOf(k, v) => match reflect_shape(k, schema) {
            Err(e) => Err(e),
            Ok(kt) => match reflect_shape(v, schema) {
                Err(e) => Err(e),
                Ok(vt) => {
                    let mut out = String::from_str("type:'map',key:{");
                    out.append(kt.as_str());
                    out.append("},value:{");
                    out.append(vt.as_str());
                    out.append("}");
                    Ok(out)
                },
            },
        },
        Shape::Reference(n) => {
            if schema.models.contains_key(n.as_str()) {
                let mut out = String::from_str("type:'reference',name:'");
                out.append(n.as_str());
                out.append("'");
                Ok(out)
            } else {
                Err(EmitError::UnresolvedReference(n.clone()))
            }
        },
    }
}

/// Renders the `key:'value'` metadata entries of an annotation.
#[verifier::loop_isolation(false)]
fn reflect_metadata(metadata: &OrderedHashMap<String>) -> (r: String)
    ensures
        r@ == spec_reflect_metadata(metadata@, true),
{
    let ghost full = spec_reflect_metadata(metadata@, true);
    let n = metadata.len();
    let mut out = String::new();
    let mut i: usize = 0;
    proof {
        assert(metadata@.skip(0) =~= metadata@);
    }
    while i < n
        invariant
            n == metadata@.len(),
            i <= n,
            full == out@ + spec_reflect_metadata(metadata@.skip(i as int), i == 0),
        decreases n - i,
    {
        let ghost out0 = out@;
        let ghost rest = metadata@.skip(i as int);
        proof {
            assert(rest[0] == metadata@[i as int]);
            assert(rest.skip(1) =~= metadata@.skip(i as int + 1));
        }
        let key = metadata.key_at(i);
        let value = metadata.value_at(i);
        if i > 0 {
            out.append(",");
        }
        out.append(key.as_str());
        out.append(":'");
        out.append(value.as_str());
        out.append("'");
        proof {
            if i == 0 {
                assert(out@ =~= out0 + (rest[0].0 + ":'"@ + rest[0].1 + "'"@));
                assert(out0 + ((rest[0].0 + ":'"@ + rest[0].1 + "'"@) + spec_reflect_metadata(
                    rest.skip(1),
                    false,
                )) =~= out@ + spec_reflect_metadata(rest.skip(1), false));
            } else {
                assert(out@ =~= out0 + (","@ + rest[0].0 + ":'"@ + rest[0].1 + "'"@));
                assert(out0 + ((","@ + rest[0].0 + ":'"@ + rest[0].1 + "'"@)
                    + spec_reflect_metadata(rest.skip(1), false)) =~= out@
                    + spec_reflect_metadata(rest.skip(1), false));
            }
        }
        i += 1;
    }
    proof {
        assert(metadata@.skip(n as int) =~= Seq::<(Seq<char>, Seq<char>)>::empty());
        assert(out@ + Seq::<char>::empty() =~= out@);
    }
    out
}

/// Renders a shape with its annotation metadata.
fn reflect_annotated_shape(a: &Annotated<Shape>, schema: &Schema) -> (r: Result<
    String,
    EmitError,
>)
    ensures
        match r {
            Ok(t) => spec_reflect_annotated_shape(a@, schema@.models) == Ok::<
                Seq<char>,
                SpecEmitError,
            >(t@),
            Err(e) => spec_reflect_annotated_shape(a@, schema@.models) == Err::<
                Seq<char>,
                SpecEmitError,
            >(e@),
        },
{
    let shape = match reflect_shape(&a.inner, schema) {
        Ok(t) => t,
        Err(e) => {
            return Err(e);
        },
    };
    let meta = reflect_metadata(&a.metadata);
    let mut out = shape;
    out.append(",data:{");
    out.append(meta.as_str());
    out.append("}");
    Ok(out)
}

/// Renders the reflection members of a field map.
#[verifier::loop_isolation(false)]
fn reflect_fields(fields: &OrderedHashMap<Annotated<Shape>>, schema: &Schema) -> (r: Result<
    String,
    EmitError,
>)
    ensures
        match r {
            Ok(t) => spec_reflect_fields(fields@, schema@.models, true) == Ok::<
                Seq<char>,
                SpecEmitError,
            >(t@),
            Err(e) => spec_reflect_fields(fields@, schema@.models, true) == Err::<
                Seq<char>,
                SpecEmitError,
            >(e@),
        },
{
    let ghost m = schema@.models;
    let ghost full = spec_reflect_fields(fields@, m, true);
    let n = fields.len();
    let mut out = String::new();
    let mut i: usize = 0;
    proof {
        assert(fields@.skip(0) =~= fields@);
    }
    while i < n
        invariant
            n == fields@.len(),
            i <= n,
            (spec_reflect_fields(fields@.skip(i as int), m, i == 0) matches Ok(t) ==> full
                == Ok::<Seq<char>, SpecEmitError>(out@ + t)),
            (spec_reflect_fields(fields@.skip(i as int), m, i == 0) matches Err(e) ==> full
                == Err::<Seq<char>, SpecEmitError>(e)),
        decreases n - i,
    {
        let ghost out0 = out@;
        let ghost rest = fields@.skip(i as int);
        proof {
            assert(rest[0] == fields@[i as int]);
            assert(rest.skip(1) =~= fields@.skip(i as int + 1));
        }
        let name = fields.key_at(i);
        let field = fields.value_at(i);
        let text = match reflect_annotated_shape(field, schema) {
            Ok(t) => t,
            Err(e) => {
                return Err(e);
            },
        };
        if i > 0 {
            out.append(",");
        }
        out.append(name.as_str());
        out.append(":{");
        out.append(text.as_str());
        out.append("}");
        proof {
            if i == 0 {
                assert(out@ =~= out0 + (rest[0].0 + ":{"@ + text@ + "}"@));
            } else {
                assert(out@ =~= out0 + (","@ + rest[0].0 + ":{"@ + text@ + "}"@));
            }
            if spec_reflect_fields(rest.skip(1), m, false) is Ok {
                let t = spec_reflect_fields(rest.skip(1), m, false)->Ok_0;
                if i == 0 {
                    assert(out0 + (rest[0].0 + ":{"@ + text@ + "}"@ + t) =~= out@ + t);
                } else {
                    assert(out0 + (","@ + rest[0].0 + ":{"@ + text@ + "}"@ + t) =~= out@ + t);
                }
            }
        }
        i += 1;
    }
    proof {
        assert(fields@.skip(n as int) =~= Seq::<(Seq<char>, SpecAnnotated<SpecShape>)>::empty());
        assert(out@ + Seq::<char>::empty() =~= out@);
    }
    Ok(out)
}

/// Renders the reflection entry of an enum.
#[verifier::loop_isolation(false)]
pub fn reflect_enum(def: &crate::lang::schema::Enum) -> (r: String)
    ensures
        r@ == spec_reflect_enum(def@.fields),
{
    let ghost vs = def@.fields;
    let ghost full = spec_reflect_variants(vs, true);
    let n = def.fields.len();
    let mut out = String::new();
    let mut i: usize = 0;
    proof {
        assert(vs.skip(0) =~= vs);
    }
    while i < n
        invariant
            n == def.fields@.len(),
            n == vs.len(),
            i <= n,
            full == out@ + spec_reflect_variants(vs.skip(i as int), i == 0),
        decreases n - i,
    {
        let ghost out0 = out@;
        let ghost rest = vs.skip(i as int);
        proof {
            assert(rest[0] == vs[i as int]);
            assert(vs[i as int] == def.fields@[i as int]@);
            assert(rest.skip(1) =~= vs.skip(i as int + 1));
        }
        if i > 0 {
            out.append(",");
        }
        out.append(def.fields[i].as_str());
        out.append(":''");
        proof {
            if i == 0 {
                assert(out@ =~= out0 + (rest[0] + ":''"@));
                assert(out0 + ((rest[0] + ":''"@) + spec_reflect_variants(rest.skip(1), false))
                    =~= out@ + spec_reflect_variants(rest.skip(1), false));
            } else {
                assert(out@ =~= out0 + (","@ + rest[0] + ":''"@));
                assert(out0 + ((","@ + rest[0] + ":''"@) + spec_reflect_variants(
                    rest.skip(1),
                    false,
                )) =~= out@ + spec_reflect_variants(rest.skip(1), false));
            }
        }
        i += 1;
    }
    proof {
        assert(vs.skip(n as int) =~= Seq::<Seq<char>>::empty());
        assert(out@ + Seq::<char>::empty() =~= out@);
    }
    let mut text = String::from_str("type:'enum',fields:{");
    text.append(out.as_str());
    text.append("}");
    text
}

/// Renders the reflection body of a record.
fn reflect_struct(st: &crate::lang::schema::Struct, schema: &Schema) -> (r: Result<
    String,
    EmitError,
>)
    ensures
        match r {
            Ok(t) => spec_reflect_struct(st@, schema@.models) == Ok::<Seq<char>, SpecEmitError>(
                t@,
            ),
            Err(e) => spec_reflect_struct(st@, schema@.models) == Err::<
                Seq<char>,
                SpecEmitError,
            >(e@),
        },
{
    let fields = match reflect_fields(&st.fields, schema) {
        Ok(t) => t,
        Err(e) => {
            return Err(e);
        },
    };
    let mut out = String::from_str("type:'struct',fields:{");
    out.append(fields.as_str());
    out.append("}");
    Ok(out)
}

/// Renders the reflection member of one model.
fn reflect_model(name: &str, model: &Model, schema: &Schema) -> (r: Result<String, EmitError>)
    ensures
        match r {
            Ok(t) => spec_reflect_model(name@, model@, schema@.models) == Ok::<
                Seq<char>,
                SpecEmitError,
            >(t@),
            Err(e) => spec_reflect_model(name@, model@, schema@.models) == Err::<
                Seq<char>,
                SpecEmitError,
            >(e@),
        },
{
    match model {
        Model::Struct(st) => {
            let body = match reflect_struct(st, schema) {
                Ok(t) => t,
                Err(e) => {
                    return Err(e);
                },
            };
            let mut out = String::from_str(name);
            out.append(":{");
            out.append(body.as_str());
            out.append("}");
            Ok(out)
        },
        Model::Enum(e) => {
            let body = reflect_enum(e);
            let mut out = String::from_str(name);
            out.append(":{");
            out.append(body.as_str());
            out.append("}");
            Ok(out)
        },
        Model::Alias(a) => {
            let inner = match reflect_annotated_shape(&a.shape, schema) {
                Ok(t) => t,
                Err(e) => {
                    return Err(e);
                },
            };
            let mut out = String::from_str(name);
            out.append(":{type:'alias',inner:{");
            out.append(inner.as_str());
            out.append("}}");
            Ok(out)
        },
        Model::External(x) => {
            let inner = match reflect_annotated_shape(&x.shape, schema) {
                Ok(t) => t,
                Err(e) => {
                    return Err(e);
                },
            };
            let mut out = String::from_str(name);
            out.append(":{type:'external',inner:{");
            out.append(inner.as_str());
            out.append("}}");
            Ok(out)
        },
    }
}

/// Renders the reflection member of one method.
pub fn reflect_method(name: &str, method: &Annotated<ServiceMethod>, schema: &Schema) -> (r:
    Result<String, EmitError>)
    ensures
        match r {
            Ok(t) => spec_reflect_method(name@, method@, schema@.models) == Ok::<
                Seq<char>,
                SpecEmitError,
            >(t@),
            Err(e) => spec_reflect_method(name@, method@, schema@.models) == Err::<
                Seq<char>,
                SpecEmitError,
            >(e@),
        },
{
    let inputs = match reflect_fields(&method.inner.inputs, schema) {
        Ok(t) => t,
        Err(e) => {
            return Err(e);
        },
    };
    let output = match &method.inner.output {
        Some(a) => match reflect_annotated_shape(a, schema) {
            Ok(t) => t,
            Err(e) => {
                return Err(e);
            },
        },
        None => String::from_str("type:'unit',data:{}"),
    };
    let mut out = String::from_str(name);
    out.append(":{inputs:{");
    out.append(inputs.as_str());
    out.append("},output:{");
    out.append(output.as_str());
    out.append("}}");
    Ok(out)
}

/// Renders the reflection member of one service.
#[verifier::loop_isolation(false)]
fn reflect_service(name: &str, service: &Service, schema: &Schema) -> (r: Result<
    String,
    EmitError,
>)
    ensures
        match r {
            Ok(t) => spec_reflect_service(name@, service@, schema@.models) == Ok::<
                Seq<char>,
                SpecEmitError,
            >(t@),
            Err(e) => spec_reflect_service(name@, service@, schema@.models) == Err::<
                Seq<char>,
                SpecEmitError,
            >(e@),
        },
{
    let ghost m = schema@.models;
    let ghost full = spec_reflect_methods(service@.methods, m, true);
    let n = service.methods.len();
    let mut out = String::new();
    let mut i: usize = 0;
    proof {
        assert(service@.methods.skip(0) =~= service@.methods);
    }
    while i < n
        invariant
            n == service.methods@.len(),
            i <= n,
            (spec_reflect_methods(service@.methods.skip(i as int), m, i == 0) matches Ok(t) ==>
                full == Ok::<Seq<char>, SpecEmitError>(out@ + t)),
            (spec_reflect_methods(service@.methods.skip(i as int), m, i == 0) matches Err(e)
                ==> full == Err::<Seq<char>, SpecEmitError>(e)),
        decreases n - i,
    {
        let ghost out0 = out@;
        let ghost rest = service@.methods.skip(i as int);
        proof {
            assert(rest[0] == service@.methods[i as int]);
            assert(rest.skip(1) =~= service@.methods.skip(i as int + 1));
        }
        let mname = service.methods.key_at(i);
        let method = service.methods.value_at(i);
        let text = match reflect_method(mname.as_str(), method, schema) {
            Ok(t) => t,
            Err(e) => {
                return Err(e);
            },
        };
        if i > 0 {
            out.append(",");
        }
        out.append(text.as_str());
        proof {
            if i == 0 {
                assert(out@ =~= out0 + text@);
            } else {
                assert(out@ =~= out0 + (","@ + text@));
            }
            if spec_reflect_methods(rest.skip(1), m, false) is Ok {
                let t = spec_reflect_methods(rest.skip(1), m, false)->Ok_0;
                if i == 0 {
                    assert(out0 + (text@ + t) =~= out@ + t);
                } else {
                    assert(out0 + (","@ + text@ + t) =~= out@ + t);
                }
            }
        }
        i += 1;
    }
    proof {
        assert(service@.methods.skip(n as int) =~= Seq::<
            (Seq<char>, SpecAnnotated<SpecMethod>),
        >::empty());
        assert(out@ + Seq::<char>::empty() =~= out@);
    }
    let mut text = String::from_str(name);
    text.append(":{type:'service',methods:{");
    text.append(out.as_str());
    text.append("}}");
    Ok(text)
}

/// Renders the whole reflection table.
#[verifier::loop_isolation(false)]
#[verifier::rlimit(100)]
fn reflect_schema(schema: &Schema) -> (r: Result<String, EmitError>)
    ensures
        match r {
            Ok(t) => spec_reflect_schema(schema@) == Ok::<Seq<char>, SpecEmitError>(t@),
            Err(e) => spec_reflect_schema(schema@) == Err::<Seq<char>, SpecEmitError>(e@),
        },
{
    let ghost m = schema@.models;
    let ghost fullm = spec_reflect_models(m, m, true);
    let n = schema.models.len();
    let mut out = String::new();
    let mut i: usize = 0;
    proof {
        assert(m.skip(0) =~= m);
    }
    while i < n
        invariant
            n == schema.models@.len(),
            m == schema@.models,
            i <= n,
            (spec_reflect_models(m.skip(i as int), m, i == 0) matches Ok(t) ==> fullm == Ok::<
                Seq<char>,
                SpecEmitError,
            >(out@ + t)),
            (spec_reflect_models(m.skip(i as int), m, i == 0) matches Err(e) ==> fullm == Err::<
                Seq<char>,
                SpecEmitError,
            >(e)),
        decreases n - i,
    {
        let ghost out0 = out@;
        let ghost rest = m.skip(i as int);
        proof {
            assert(rest[0] == m[i as int]);
            assert(rest.skip(1) =~= m.skip(i as int + 1));
        }
        let text = match reflect_model(
            schema.models.key_at(i).as_str(),
            schema.models.value_at(i),
            schema,
        ) {
            Ok(t) => t,
            Err(e) => {
                return Err(e);
            },
        };
        if i > 0 {
            out.append(",");
        }
        out.append(text.as_str());
        proof {
            if i == 0 {
                assert(out@ =~= out0 + text@);
            } else {
                assert(out@ =~= out0 + (","@ + text@));
            }
            if spec_reflect_models(rest.skip(1), m, false) is Ok {
                let t = spec_reflect_models(rest.skip(1), m, false)->Ok_0;
                if i == 0 {
                    assert(out0 + (text@ + t) =~= out@ + t);
                } else {
                    assert(out0 + (","@ + text@ + t) =~= out@ + t);
                }
            }
        }
        i += 1;
    }
    proof {
        assert(m.skip(n as int) =~= Seq::<(Seq<char>, SpecModel)>::empty());
        assert(out@ + Seq::<char>::empty() =~= out@);
    }
    let ghost fulls = spec_reflect_services(schema@.services, m, true);
    let sn = schema.services.len();
    let mut sout = String::new();
    let mut j: usize = 0;
    proof {
        assert(schema@.services.skip(0) =~= schema@.services);
    }
    while j < sn
        invariant
            sn == schema.services@.len(),
            m == schema@.models,
            j <= sn,
            (spec_reflect_services(schema@.services.skip(j as int), m, j == 0) matches Ok(t)
                ==> fulls == Ok::<Seq<char>, SpecEmitError>(sout@ + t)),
            (spec_reflect_services(schema@.services.skip(j as int), m, j == 0) matches Err(e)
                ==> fulls == Err::<Seq<char>, SpecEmitError>(e)),
        decreases sn - j,
    {
        let ghost out0 = sout@;
        let ghost rest = schema@.services.skip(j as int);
        proof {
            assert(rest[0] == schema@.services[j as int]);
            assert(rest.skip(1) =~= schema@.services.skip(j as int + 1));
        }
        let text = match reflect_service(
            schema.services.key_at(j).as_str(),
            schema.services.value_at(j),
            schema,
        ) {
            Ok(t) => t,
            Err(e) => {
                return Err(e);
            },
        };
        if j > 0 {
            sout.append(",");
        }
        sout.append(text.as_str());
        proof {
            if j == 0 {
                assert(sout@ =~= out0 + text@);
            } else {
                assert(sout@ =~= out0 + (","@ + text@));
            }
            if spec_reflect_services(rest.skip(1), m, false) is Ok {
                let t = spec_reflect_services(rest.skip(1), m, false)->Ok_0;
                if j == 0 {
                    assert(out0 + (text@ + t) =~= sout@ + t);
                } else {
                    assert(out0 + (","@ + text@ + t) =~= sout@ + t);
                }
            }
        }
        j += 1;
    }
    proof {
        assert(schema@.services.skip(sn as int) =~= Seq::<(Seq<char>, SpecService)>::empty());
        assert(sout@ + Seq::<char>::empty() =~= sout@);
    }
    let mut text = String::from_str("{models:{");
    text.append(out.as_str());
    text.append("},services:{");
    text.append(sout.as_str());
    text.append("}} as const;");
    Ok(text)
}

/// Renders all model declarations, separated by blank lines.
#[verifier::loop_isolation(false)]
fn emit_models_text(schema: &Schema, file_name: &str) -> (r: Result<String, EmitError>)
    ensures
        match r {
            Ok(t) => spec_emit_models(schema@.models, schema@.models, file_name@, true) == Ok::<
                Seq<char>,
                SpecEmitError,
            >(t@),
            Err(e) => spec_emit_models(schema@.models, schema@.models, file_name@, true)
                == Err::<Seq<char>, SpecEmitError>(e@),
        },
{
    let ghost m = schema@.models;
    let ghost fullm = spec_emit_models(m, m, file_name@, true);
    let n = schema.models.len();
    let mut out = String::new();
    let mut i: usize = 0;
    proof {
        assert(m.skip(0) =~= m);
    }
    while i < n
        invariant
            n == schema.models@.len(),
            m == schema@.models,
            i <= n,
            (spec_emit_models(m.skip(i as int), m, file_name@, i == 0) matches Ok(t) ==> fullm
                == Ok::<Seq<char>, SpecEmitError>(out@ + t)),
            (spec_emit_models(m.skip(i as int), m, file_name@, i == 0) matches Err(e) ==> fullm
                == Err::<Seq<char>, SpecEmitError>(e)),
        decreases n - i,
    {
        let ghost out0 = out@;
        let ghost rest = m.skip(i as int);
        proof {
            assert(rest[0] == m[i as int]);
            assert(rest.skip(1) =~= m.skip(i as int + 1));
        }
        let text = match emit_model(
            schema.models.key_at(i).as_str(),
            schema.models.value_at(i),
            schema,
            file_name,
        ) {
            Ok(t) => t,
            Err(e) => {
                return Err(e);
            },
        };
        if i > 0 {
            out.append("\n");
        }
        out.append(text.as_str());
        proof {
            if i == 0 {
                assert(out@ =~= out0 + text@);
            } else {
                assert(out@ =~= out0 + ("\n"@ + text@));
            }
            if spec_emit_models(rest.skip(1), m, file_name@, false) is Ok {
                let t = spec_emit_models(rest.skip(1), m, file_name@, false)->Ok_0;
                if i == 0 {
                    assert(out0 + (text@ + t) =~= out@ + t);
                } else {
                    assert(out0 + ("\n"@ + text@ + t) =~= out@ + t);
                }
            }
        }
        i += 1;
    }
    proof {
        assert(m.skip(n as int) =~= Seq::<(Seq<char>, SpecModel)>::empty());
        assert(out@ + Seq::<char>::empty() =~= out@);
    }
    Ok(out)
}

/// Renders all consumer classes, separated by blank lines.
#[verifier::loop_isolation(false)]
fn emit_consumers_text(schema: &Schema) -> (r: Result<String, EmitError>)
    ensures
        match r {
            Ok(t) => spec_emit_consumers(schema@.services, schema@.models, true) == Ok::<
                Seq<char>,
                SpecEmitError,
            >(t@),
            Err(e) => spec_emit_consumers(schema@.services, schema@.models, true) == Err::<
                Seq<char>,
                SpecEmitError,
            >(e@),
        },
{
    let ghost m = schema@.models;
    let ghost fullc = spec_emit_consumers(schema@.services, m, true);
    let sn = schema.services.len();
    let mut cons = String::new();
    let mut j: usize = 0;
    proof {
        assert(schema@.services.skip(0) =~= schema@.services);
    }
    while j < sn
        invariant
            sn == schema.services@.len(),
            m == schema@.models,
            j <= sn,
            (spec_emit_consumers(schema@.services.skip(j as int), m, j == 0) matches Ok(t) ==>
                fullc == Ok::<Seq<char>, SpecEmitError>(cons@ + t)),
            (spec_emit_consumers(schema@.services.skip(j as int), m, j == 0) matches Err(e) ==>
                fullc == Err::<Seq<char>, SpecEmitError>(e)),
        decreases sn - j,
    {
        let ghost out0 = cons@;
        let ghost rest = schema@.services.skip(j as int);
        proof {
            assert(rest[0] == schema@.services[j as int]);
            assert(rest.skip(1) =~= schema@.services.skip(j as int + 1));
        }
        let text = match emit_consumer(
            schema.services.key_at(j).as_str(),
            schema.services.value_at(j),
            schema,
        ) {
            Ok(t) => t,
            Err(e) => {
                return Err(e);
            },
        };
        if j > 0 {
            cons.append("\n");
        }
        cons.append(text.as_str());
        proof {
            if j == 0 {
                assert(cons@ =~= out0 + text@);
            } else {
                assert(cons@ =~= out0 + ("\n"@ + text@));
            }
            if spec_emit_consumers(rest.skip(1), m, false) is Ok {
                let t = spec_emit_consumers(rest.skip(1), m, false)->Ok_0;
                if j == 0 {
                    assert(out0 + (text@ + t) =~= cons@ + t);
                } else {
                    assert(out0 + ("\n"@ + text@ + t) =~= cons@ + t);
                }
            }
        }
        j += 1;
    }
    proof {
        assert(schema@.services.skip(sn as int) =~= Seq::<(Seq<char>, SpecService)>::empty());
        assert(cons@ + Seq::<char>::empty() =~= cons@);
    }
    Ok(cons)
}

/// Renders all provider interfaces, separated by blank lines.
#[verifier::loop_isolation(false)]
fn emit_providers_text(schema: &Schema) -> (r: Result<String, EmitError>)
    ensures
        match r {
            Ok(t) => spec_emit_providers(schema@.services, schema@.models, true) == Ok::<
                Seq<char>,
                SpecEmitError,
            >(t@),
            Err(e) => spec_emit_providers(schema@.services, schema@.models, true) == Err::<
                Seq<char>,
                SpecEmitError,
            >(e@),
        },
{
    let ghost m = schema@.models;
    let ghost fullp = spec_emit_providers(schema@.services, m, true);
    let sn = schema.services.len();
    let mut provs = String::new();
    let mut p: usize = 0;
    proof {
        assert(schema@.services.skip(0) =~= schema@.services);
    }
    while p < sn
        invariant
            sn == schema.services@.len(),
            m == schema@.models,
            p <= sn,
            (spec_emit_providers(schema@.services.skip(p as int), m, p == 0) matches Ok(t) ==>
                fullp == Ok::<Seq<char>, SpecEmitError>(provs@ + t)),
            (spec_emit_providers(schema@.services.skip(p as int), m, p == 0) matches Err(e) ==>
                fullp == Err::<Seq<char>, SpecEmitError>(e)),
        decreases sn - p,
    {
        let ghost out0 = provs@;
        let ghost rest = schema@.services.skip(p as int);
        proof {
            assert(rest[0] == schema@.services[p as int]);
            assert(rest.skip(1) =~= schema@.services.skip(p as int + 1));
        }
        let text = match emit_provider(
            schema.services.key_at(p).as_str(),
            schema.services.value_at(p),
            schema,
        ) {
            Ok(t) => t,
            Err(e) => {
                return Err(e);
            },
        };
        if p > 0 {
            provs.append("\n");
        }
        provs.append(text.as_str());
        proof {
            if p == 0 {
                assert(provs@ =~= out0 + text@);
            } else {
                assert(provs@ =~= out0 + ("\n"@ + text@));
            }
            if spec_emit_providers(rest.skip(1), m, false) is Ok {
                let t = spec_emit_providers(rest.skip(1), m, false)->Ok_0;
                if p == 0 {
                    assert(out0 + (text@ + t) =~= provs@ + t);
                } else {
                    assert(out0 + ("\n"@ + text@ + t) =~= provs@ + t);
                }
            }
        }
        p += 1;
    }
    proof {
        assert(schema@.services.skip(sn as int) =~= Seq::<(Seq<char>, SpecService)>::empty());
        assert(provs@ + Seq::<char>::empty() =~= provs@);
    }
    Ok(provs)
}

/// Renders the whole schema as a web-language source file.
pub fn emit_schema(file_name: &str, schema: &Schema) -> (r: Result<String, EmitError>)
    ensures
        match r {
            Ok(t) => spec_emit_schema(file_name@, schema@) == Ok::<Seq<char>, SpecEmitError>(
                t@,
            ),
            Err(e) => spec_emit_schema(file_name@, schema@) == Err::<Seq<char>, SpecEmitError>(
                e@,
            ),
        },
{
    let out = match emit_models_text(schema, file_name) {
        Ok(t) => t,
        Err(e) => {
            return Err(e);
        },
    };
    let cons = match emit_consumers_text(schema) {
        Ok(t) => t,
        Err(e) => {
            return Err(e);
        },
    };
    let provs = match emit_providers_text(schema) {
        Ok(t) => t,
        Err(e) => {
            return Err(e);
        },
    };
    let refl = match reflect_schema(schema) {
        Ok(t) => t,
        Err(e) => {
            return Err(e);
        },
    };
    let mut text = String::from_str("// AUTOGENERATED FILE - DO NOT EDIT\n\n");
    text.append(out.as_str());
    text.append("\n");
    text.append(cons.as_str());
    text.append("\n");
    text.append(provs.as_str());
    text.append("\n");
    text.append("// prettier-ignore\n");
    text.append("export const $schema = ");
    text.append(refl.as_str());
    Ok(text)
}

/// Emission is repeatable: the contract pins the text to one rendering
/// function, so two runs on the same schema agree byte for byte.
pub proof fn lemma_emit_schema_repeatable(
    file_name: Seq<char>,
    s: crate::lang::schema::SpecSchema,
    t1: Seq<char>,
    t2: Seq<char>,
)
    requires
        spec_emit_schema(file_name, s) == Ok::<Seq<char>, SpecEmitError>(t1),
        spec_emit_schema(file_name, s) == Ok::<Seq<char>, SpecEmitError>(t2),
    ensures
        t1 == t2,
{
}


/// Field order is preserved: the rendered class body splits, at every
/// field position, into the lines of the earlier fields, that field's
/// own line, and the lines of the later fields, in declaration order.
pub proof fn lemma_emit_fields_order(
    fs: Seq<(Seq<char>, SpecAnnotated<SpecShape>)>,
    m: Seq<(Seq<char>, SpecModel)>,
    i: int,
)
    requires
        0 <= i < fs.len(),
        spec_emit_fields(fs, m) is Ok,
    ensures
        spec_emit_fields(fs.take(i), m) is Ok,
        spec_emit_shape(fs[i].1.inner, m) is Ok,
        spec_emit_fields(fs.skip(i + 1), m) is Ok,
        spec_emit_fields(fs, m)->Ok_0 == spec_emit_fields(fs.take(i), m)->Ok_0 + ("  "@
            + fs[i].0 + ": "@ + spec_emit_shape(fs[i].1.inner, m)->Ok_0 + ";\n"@)
            + spec_emit_fields(fs.skip(i + 1), m)->Ok_0,
    decreases i,
{
    if i == 0 {
        assert(fs.take(0) =~= Seq::<(Seq<char>, SpecAnnotated<SpecShape>)>::empty());
        assert(fs.skip(1) =~= fs.skip(0int + 1));
        assert(Seq::<char>::empty() + ("  "@ + fs[0].0 + ": "@ + spec_emit_shape(
            fs[0].1.inner,
            m,
        )->Ok_0 + ";\n"@) + spec_emit_fields(fs.skip(1), m)->Ok_0 =~= ("  "@ + fs[0].0 + ": "@
            + spec_emit_shape(fs[0].1.inner, m)->Ok_0 + ";\n"@) + spec_emit_fields(
            fs.skip(1),
            m,
        )->Ok_0);
    } else {
        lemma_emit_fields_order(fs.skip(1), m, i - 1);
        assert(fs.skip(1).take(i - 1) =~= fs.take(i).skip(1));
        assert(fs.skip(1)[i - 1] == fs[i]);
        assert(fs.skip(1).skip(i) =~= fs.skip(i + 1));
        assert(fs.take(i)[0] == fs[0]);
        assert(fs.take(i).skip(1) =~= fs.skip(1).take(i - 1));
        let line0 = "  "@ + fs[0].0 + ": "@ + spec_emit_shape(fs[0].1.inner, m)->Ok_0 + ";\n"@;
        let linei = "  "@ + fs[i].0 + ": "@ + spec_emit_shape(fs[i].1.inner, m)->Ok_0 + ";\n"@;
        assert(line0 + (spec_emit_fields(fs.skip(1).take(i - 1), m)->Ok_0 + linei
            + spec_emit_fields(fs.skip(i + 1), m)->Ok_0) =~= (line0 + spec_emit_fields(
            fs.skip(1).take(i - 1),
            m,
        )->Ok_0) + linei + spec_emit_fields(fs.skip(i + 1), m)->Ok_0);
    }
}

} // verus!
