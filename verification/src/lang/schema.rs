//! The schema tree: models (structs, enums, aliases, externals),
//! services with their methods, and the recursive `Shape` type language.
//!
//! Every exec type has a mathematical shadow (`Spec...`) in which all
//! text is a `Seq<char>`; contracts throughout the crate are stated over
//! those shadows.

use crate::lang::map::{entry_views, ohm_contains, ohm_get, OrderedHashMap};
use vstd::prelude::*;

verus! {

broadcast use vstd::seq_lib::group_seq_properties;

/// The built-in scalar shapes.
#[derive(Debug, PartialEq, Eq, Copy, Clone, Structural)]
pub enum Primitive {
    Unit,
    Bool,
    Int8,
    Int16,
    Int32,
    Int64,
    Int128,
    Float32,
    Float64,
    String,
}

/// The name under which a primitive is written in schema source.
pub open spec fn primitive_name(p: Primitive) -> Seq<char> {
    match p {
        Primitive::Unit => "Unit"@,
        Primitive::Bool => "Bool"@,
        Primitive::Int8 => "Int8"@,
        Primitive::Int16 => "Int16"@,
        Primitive::Int32 => "Int32"@,
        Primitive::Int64 => "Int64"@,
        Primitive::Int128 => "Int128"@,
        Primitive::Float32 => "Float32"@,
        Primitive::Float64 => "Float64"@,
        Primitive::String => "String"@,
    }
}

/// The primitive a bare identifier denotes, if any.
pub open spec fn primitive_of_name(s: Seq<char>) -> Option<Primitive> {
    if s == "Unit"@ {
        Some(Primitive::Unit)
    } else if s == "Bool"@ {
        Some(Primitive::Bool)
    } else if s == "Int8"@ {
        Some(Primitive::Int8)
    } else if s == "Int16"@ {
        Some(Primitive::Int16)
    } else if s == "Int32"@ {
        Some(Primitive::Int32)
    } else if s == "Int64"@ {
        Some(Primitive::Int64)
    } else if s == "Int128"@ {
        Some(Primitive::Int128)
    } else if s == "Float32"@ {
        Some(Primitive::Float32)
    } else if s == "Float64"@ {
        Some(Primitive::Float64)
    } else if s == "String"@ {
        Some(Primitive::String)
    } else {
        None
    }
}

impl Primitive {
    pub fn from_name(name: &str) -> (r: Option<Primitive>)
        ensures
            r == primitive_of_name(name@),
    {
        if crate::text::str_eq(name, "Unit") {
            Some(Primitive::Unit)
        } else if crate::text::str_eq(name, "Bool") {
            Some(Primitive::Bool)
        } else if crate::text::str_eq(name, "Int8") {
            Some(Primitive::Int8)
        } else if crate::text::str_eq(name, "Int16") {
            Some(Primitive::Int16)
        } else if crate::text::str_eq(name, "Int32") {
            Some(Primitive::Int32)
        } else if crate::text::str_eq(name, "Int64") {
            Some(Primitive::Int64)
        } else if crate::text::str_eq(name, "Int128") {
            Some(Primitive::Int128)
        } else if crate::text::str_eq(name, "Float32") {
            Some(Primitive::Float32)
        } else if crate::text::str_eq(name, "Float64") {
            Some(Primitive::Float64)
        } else if crate::text::str_eq(name, "String") {
            Some(Primitive::String)
        } else {
            None
        }
    }

    pub fn name(self) -> (r: &'static str)
        ensures
            r@ == primitive_name(self),
    {
        match self {
            Primitive::Unit => "Unit",
            Primitive::Bool => "Bool",
            Primitive::Int8 => "Int8",
            Primitive::Int16 => "Int16",
            Primitive::Int32 => "Int32",
            Primitive::Int64 => "Int64",
            Primitive::Int128 => "Int128",
            Primitive::Float32 => "Float32",
            Primitive::Float64 => "Float64",
            Primitive::String => "String",
        }
    }
}

/// The type of a field, alias target, parameter or return: a primitive,
/// a container over further shapes, or a reference to a model by name.
#[derive(Debug, PartialEq, Eq)]
pub enum Shape {
    Primitive(Primitive),
    Nullable(Box<Shape>),
    List(Box<Shape>),
    SetOf(Box<Shape>),
    MapOf(Box<Shape>, Box<Shape>),
    Reference(String),
}

/// Mathematical shadow of `Shape`.
pub enum SpecShape {
    Primitive(Primitive),
    Nullable(Box<SpecShape>),
    List(Box<SpecShape>),
    SetOf(Box<SpecShape>),
    MapOf(Box<SpecShape>, Box<SpecShape>),
    Reference(Seq<char>),
}

pub open spec fn shape_view(s: Shape) -> SpecShape
    decreases s,
{
    match s {
        Shape::Primitive(p) => SpecShape::Primitive(p),
        Shape::Nullable(inner) => SpecShape::Nullable(Box::new(shape_view(*inner))),
        Shape::List(inner) => SpecShape::List(Box::new(shape_view(*inner))),
        Shape::SetOf(inner) => SpecShape::SetOf(Box::new(shape_view(*inner))),
        Shape::MapOf(key, value) => SpecShape::MapOf(
            Box::new(shape_view(*key)),
            Box::new(shape_view(*value)),
        ),
        Shape::Reference(name) => SpecShape::Reference(name@),
    }
}

impl View for Shape {
    type V = SpecShape;

    open spec fn view(&self) -> SpecShape {
        shape_view(*self)
    }
}

/// A value (shape or method) together with its `&{ key: value, ... }`
/// metadata, which the parser and schema keep opaque.
#[derive(Debug, PartialEq, Eq)]
pub struct Annotated<T> {
    pub metadata: OrderedHashMap<String>,
    pub inner: T,
}

/// Mathematical shadow of `Annotated`.
pub struct SpecAnnotated<TV> {
    pub metadata: Seq<(Seq<char>, Seq<char>)>,
    pub inner: TV,
}

impl<T: View> View for Annotated<T> {
    type V = SpecAnnotated<T::V>;

    open spec fn view(&self) -> SpecAnnotated<T::V> {
        SpecAnnotated { metadata: self.metadata@, inner: self.inner@ }
    }
}

/// A named record; field order is declaration order.
#[derive(Debug, PartialEq, Eq)]
pub struct Struct {
    pub fields: OrderedHashMap<Annotated<Shape>>,
}

pub struct SpecStruct {
    pub fields: Seq<(Seq<char>, SpecAnnotated<SpecShape>)>,
}

impl View for Struct {
    type V = SpecStruct;

    open spec fn view(&self) -> SpecStruct {
        SpecStruct { fields: self.fields@ }
    }
}

/// A C-style enumeration: an ordered sequence of variant names.
#[derive(Debug, PartialEq, Eq)]
pub struct Enum {
    pub fields: Vec<String>,
}

pub struct SpecEnum {
    pub fields: Seq<Seq<char>>,
}

/// The views of a sequence of strings.
pub open spec fn str_views(ss: Seq<String>) -> Seq<Seq<char>> {
    ss.map_values(|s: String| s@)
}

impl View for Enum {
    type V = SpecEnum;

    open spec fn view(&self) -> SpecEnum {
        SpecEnum { fields: str_views(self.fields@) }
    }
}

/// A name bound to another annotated shape.
#[derive(Debug, PartialEq, Eq)]
pub struct Alias {
    pub shape: Annotated<Shape>,
}

pub struct SpecAlias {
    pub shape: SpecAnnotated<SpecShape>,
}

impl View for Alias {
    type V = SpecAlias;

    open spec fn view(&self) -> SpecAlias {
        SpecAlias { shape: self.shape@ }
    }
}

/// A model whose implementation is supplied by a hand-written module in
/// each target language; the shape is kept for reflection only.
#[derive(Debug, PartialEq, Eq)]
pub struct External {
    pub shape: Annotated<Shape>,
}

pub struct SpecExternal {
    pub shape: SpecAnnotated<SpecShape>,
}

impl View for External {
    type V = SpecExternal;

    open spec fn view(&self) -> SpecExternal {
        SpecExternal { shape: self.shape@ }
    }
}

/// A top-level named declaration.
#[derive(Debug, PartialEq, Eq)]
pub enum Model {
    Struct(Struct),
    Enum(Enum),
    Alias(Alias),
    External(External),
}

pub enum SpecModel {
    Struct(SpecStruct),
    Enum(SpecEnum),
    Alias(SpecAlias),
    External(SpecExternal),
}

impl View for Model {
    type V = SpecModel;

    open spec fn view(&self) -> SpecModel {
        match self {
            Model::Struct(s) => SpecModel::Struct(s@),
            Model::Enum(e) => SpecModel::Enum(e@),
            Model::Alias(a) => SpecModel::Alias(a@),
            Model::External(e) => SpecModel::External(e@),
        }
    }
}

/// One RPC method: named inputs in declaration order and an optional
/// output shape (absence means a void return).
#[derive(Debug, PartialEq, Eq)]
pub struct ServiceMethod {
    pub inputs: OrderedHashMap<Annotated<Shape>>,
    pub output: Option<Annotated<Shape>>,
}

pub struct SpecMethod {
    pub inputs: Seq<(Seq<char>, SpecAnnotated<SpecShape>)>,
    pub output: Option<SpecAnnotated<SpecShape>>,
}

impl View for ServiceMethod {
    type V = SpecMethod;

    open spec fn view(&self) -> SpecMethod {
        SpecMethod {
            inputs: self.inputs@,
            output: match &self.output {
                Some(a) => Some(a@),
                None => None,
            },
        }
    }
}

/// An RPC service: an ordered collection of annotated methods.
#[derive(Debug, PartialEq, Eq)]
pub struct Service {
    pub methods: OrderedHashMap<Annotated<ServiceMethod>>,
}

pub struct SpecService {
    pub methods: Seq<(Seq<char>, SpecAnnotated<SpecMethod>)>,
}

impl View for Service {
    type V = SpecService;

    open spec fn view(&self) -> SpecService {
        SpecService { methods: self.methods@ }
    }
}

/// A complete compilation unit: the imports recorded while parsing and
/// the ordered model and service maps.
#[derive(Debug, PartialEq, Eq)]
pub struct Schema {
    pub imports: Vec<String>,
    pub models: OrderedHashMap<Model>,
    pub services: OrderedHashMap<Service>,
}

pub struct SpecSchema {
    pub imports: Seq<Seq<char>>,
    pub models: Seq<(Seq<char>, SpecModel)>,
    pub services: Seq<(Seq<char>, SpecService)>,
}

impl View for Schema {
    type V = SpecSchema;

    open spec fn view(&self) -> SpecSchema {
        SpecSchema {
            imports: str_views(self.imports@),
            models: self.models@,
            services: self.services@,
        }
    }
}

/// Looks a model up by name in the merged schema.
pub open spec fn spec_resolve(s: SpecSchema, name: Seq<char>) -> Option<SpecModel> {
    ohm_get(s.models, name)
}

/// The first name in `b` (in order) that collides with a key of `a` or
/// with an earlier name of `b`.
pub open spec fn spec_first_dup<A>(a: Seq<(Seq<char>, A)>, b: Seq<(Seq<char>, A)>) -> Option<
    Seq<char>,
>
    decreases b.len(),
{
    if b.len() == 0 {
        None
    } else if ohm_contains(a, b[0].0) {
        Some(b[0].0)
    } else {
        spec_first_dup(a.push(b[0]), b.skip(1))
    }
}

/// A merge rejected because a model or service name is defined twice.
#[derive(Debug, PartialEq, Eq)]
pub enum MergeError {
    DuplicateModel(String),
    DuplicateService(String),
}

pub enum SpecMergeError {
    DuplicateModel(Seq<char>),
    DuplicateService(Seq<char>),
}

impl View for MergeError {
    type V = SpecMergeError;

    open spec fn view(&self) -> SpecMergeError {
        match self {
            MergeError::DuplicateModel(n) => SpecMergeError::DuplicateModel(n@),
            MergeError::DuplicateService(n) => SpecMergeError::DuplicateService(n@),
        }
    }
}

impl Schema {
    /// A schema with no imports, models or services.
    pub fn new() -> (r: Schema)
        ensures
            r@.imports == Seq::<Seq<char>>::empty(),
            r@.models == Seq::<(Seq<char>, SpecModel)>::empty(),
            r@.services == Seq::<(Seq<char>, SpecService)>::empty(),
    {
        let r = Schema {
            imports: Vec::new(),
            models: OrderedHashMap::new(),
            services: OrderedHashMap::new(),
        };
        proof {
            assert(str_views(r.imports@) =~= Seq::<Seq<char>>::empty());
        }
        r
    }

    /// The model `name` refers to, if it is defined.
    pub fn resolve(&self, name: &str) -> (r: Option<&Model>)
        ensures
            match r {
                Some(m) => spec_resolve(self@, name@) == Some(m@),
                None => spec_resolve(self@, name@) is None,
            },
    {
        self.models.get(name)
    }

    /// Merges an imported schema into this one: imports concatenate and
    /// the ordered maps extend, entries of `self` first, so declaration
    /// order of the entry file is preserved ahead of imported files.
    /// A name defined in both is a duplicate and rejects the merge.
    pub fn merge(self, other: Schema) -> (r: Result<Schema, MergeError>)
        ensures
            match r {
                Ok(s) => {
                    &&& spec_first_dup(self@.models, other@.models) is None
                    &&& spec_first_dup(self@.services, other@.services) is None
                    &&& s@.imports == self@.imports + other@.imports
                    &&& s@.models == self@.models + other@.models
                    &&& s@.services == self@.services + other@.services
                },
                Err(e) => match e@ {
                    SpecMergeError::DuplicateModel(n) => spec_first_dup(
                        self@.models,
                        other@.models,
                    ) == Some(n),
                    SpecMergeError::DuplicateService(n) => spec_first_dup(
                        self@.models,
                        other@.models,
                    ) is None && spec_first_dup(self@.services, other@.services) == Some(n),
                },
            },
    {
        let ghost selfv = self@;
        let ghost otherv = other@;
        let Schema { imports, models, services } = self;
        let mut imports = imports;
        let mut models = models;
        let mut services = services;

        let mut other_imports = other.imports;
        proof {
            assert(str_views(imports@ + other_imports@) =~= str_views(imports@) + str_views(
                other_imports@,
            ));
        }
        imports.append(&mut other_imports);

        match merge_entries(&mut models, other.models.into_entries()) {
            Some(name) => {
                return Err(MergeError::DuplicateModel(name));
            },
            None => {},
        }
        match merge_entries(&mut services, other.services.into_entries()) {
            Some(name) => {
                return Err(MergeError::DuplicateService(name));
            },
            None => {},
        }
        Ok(Schema { imports, models, services })
    }
}

/// Moves `entries` into `target` in order, returning the first name
/// already present (in `target` or earlier in `entries`), if any; with
/// no such name every entry is appended at the back in order.
#[verifier::loop_isolation(false)]
fn merge_entries<V: View>(target: &mut OrderedHashMap<V>, entries: Vec<(String, V)>) -> (r:
    Option<String>)
    ensures
        match r {
            Some(name) => spec_first_dup(old(target)@, entry_views(entries@)) == Some(name@),
            None => spec_first_dup(old(target)@, entry_views(entries@)) is None
                && final(target)@ == old(target)@ + entry_views(entries@),
        },
{
    let ghost t0 = target@;
    let ghost b = entry_views(entries@);
    let ghost n = b.len();
    let mut rest = entries;
    let ghost mut i: int = 0;
    proof {
        assert(entry_views(rest@) =~= b.skip(0));
        assert(target@ =~= t0 + b.take(0));
    }
    while rest.len() > 0
        invariant
            0 <= i <= n,
            rest@.len() == n - i,
            entry_views(rest@) == b.skip(i),
            target@ == t0 + b.take(i),
            spec_first_dup(t0, b) == spec_first_dup(target@, b.skip(i)),
        decreases rest@.len(),
    {
        let ghost prev = rest@;
        let (key, value) = rest.remove(0);
        proof {
            assert(entry_views(prev)[0] == (prev[0].0@, prev[0].1@));
            assert(b.skip(i)[0] == (key@, value@));
            assert(entry_views(rest@) =~= entry_views(prev).skip(1));
            assert(entry_views(prev).skip(1) == b.skip(i).skip(1));
            assert(b.skip(i).skip(1) =~= b.skip(i + 1));
        }
        if target.contains_key(key.as_str()) {
            proof {
                assert(b.skip(i).len() > 0);
                assert(ohm_contains(target@, b.skip(i)[0].0));
                assert(spec_first_dup(target@, b.skip(i)) == Some(key@));
            }
            return Some(key);
        }
        let ghost cur = target@;
        target.insert(key, value);
        proof {
            assert(target@ == cur.push((key@, value@)));
            assert(target@ =~= t0 + b.take(i + 1));
            assert(spec_first_dup(cur, b.skip(i)) == spec_first_dup(target@, b.skip(i + 1)));
            i = i + 1;
        }
    }
    proof {
        assert(b.skip(i) =~= Seq::<(Seq<char>, V::V)>::empty());
        assert(target@ =~= t0 + b);
    }
    None
}

} // verus!
