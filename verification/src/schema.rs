//! An earlier, flatter schema form kept alongside the tree in
//! `lang::schema`: named objects plus hand-written custom shapes, with
//! name resolution over both.

use crate::lang::map::OrderedHashMap;
use crate::text::str_eq;
use vstd::prelude::*;

verus! {

/// A flat schema: objects and the custom shapes supplied by hand.
#[derive(Debug)]
pub struct Schema {
    pub name: String,
    pub objects: Vec<Object>,
    pub custom_shapes: Vec<CustomShape>,
}

/// What a name resolved to: an object or a custom shape.
#[derive(Debug)]
pub enum Reference<'a> {
    Object(&'a Object),
    Custom(&'a CustomShape),
}

/// A named record of fields.
#[derive(Debug, PartialEq, Eq)]
pub struct Object {
    pub name: String,
    pub fields: Vec<Field>,
}

/// One named field with its shape and opaque metadata.
#[derive(Debug, PartialEq, Eq)]
pub struct Field {
    pub name: String,
    pub shape: Shape,
    pub data: OrderedHashMap<String>,
}

/// A field's shape: simple, nullable, or one container level over
/// simple shapes.
#[derive(Debug, PartialEq, Eq)]
pub enum Shape {
    Simple(SimpleShape),
    Nullable(Box<Shape>),
    List(Box<SimpleShape>),
    SetOf(Box<SimpleShape>),
    MapOf(Box<SimpleShape>, Box<SimpleShape>),
}

/// A scalar or a reference by name.
#[derive(Debug, PartialEq, Eq)]
pub enum SimpleShape {
    String,
    Bool,
    Int32,
    Int64,
    Float32,
    Float64,
    Ref(String),
}

/// Whether an identifier names one of the known scalar shapes.
pub open spec fn spec_known_simple_shape(s: Seq<char>) -> bool {
    ||| s == "String"@
    ||| s == "Bool"@
    ||| s == "Int32"@
    ||| s == "Int64"@
    ||| s == "Float32"@
    ||| s == "Float64"@
}

/// The source name of a simple shape.
pub open spec fn spec_simple_shape_name(s: SimpleShape) -> Seq<char> {
    match s {
        SimpleShape::String => "String"@,
        SimpleShape::Bool => "Bool"@,
        SimpleShape::Int32 => "Int32"@,
        SimpleShape::Int64 => "Int64"@,
        SimpleShape::Float32 => "Float32"@,
        SimpleShape::Float64 => "Float64"@,
        SimpleShape::Ref(n) => n@,
    }
}

impl SimpleShape {
    /// A known scalar name maps to its scalar; any other identifier
    /// becomes a reference under that name.
    pub fn from_str(name: &str) -> (r: SimpleShape)
        ensures
            name@ == "String"@ ==> r == SimpleShape::String,
            name@ == "Bool"@ ==> r == SimpleShape::Bool,
            name@ == "Int32"@ ==> r == SimpleShape::Int32,
            name@ == "Int64"@ ==> r == SimpleShape::Int64,
            name@ == "Float32"@ ==> r == SimpleShape::Float32,
            name@ == "Float64"@ ==> r == SimpleShape::Float64,
            !spec_known_simple_shape(name@) ==> (r matches SimpleShape::Ref(out) && out@
                == name@),
            spec_simple_shape_name(r) == name@,
    {
        proof {
            reveal_strlit("String");
            reveal_strlit("Bool");
            reveal_strlit("Int32");
            reveal_strlit("Int64");
            reveal_strlit("Float32");
            reveal_strlit("Float64");
            assert("String"@[0] == 'S');
            assert("Bool"@[0] == 'B');
            assert("Int32"@[0] == 'I');
            assert("Int64"@[0] == 'I');
            assert("Float32"@[0] == 'F');
            assert("Float64"@[0] == 'F');
            assert("Int32"@[3] == '3');
            assert("Int64"@[3] == '6');
            assert("Float32"@[5] == '3');
            assert("Float64"@[5] == '6');
        }
        if str_eq(name, "String") {
            SimpleShape::String
        } else if str_eq(name, "Bool") {
            SimpleShape::Bool
        } else if str_eq(name, "Int32") {
            SimpleShape::Int32
        } else if str_eq(name, "Int64") {
            SimpleShape::Int64
        } else if str_eq(name, "Float32") {
            SimpleShape::Float32
        } else if str_eq(name, "Float64") {
            SimpleShape::Float64
        } else {
            SimpleShape::Ref(String::from_str(name))
        }
    }

    /// The name this shape is written as in source.
    pub fn to_str(&self) -> (r: &str)
        ensures
            r@ == spec_simple_shape_name(*self),
    {
        match self {
            SimpleShape::String => "String",
            SimpleShape::Bool => "Bool",
            SimpleShape::Int32 => "Int32",
            SimpleShape::Int64 => "Int64",
            SimpleShape::Float32 => "Float32",
            SimpleShape::Float64 => "Float64",
            SimpleShape::Ref(name) => name.as_str(),
        }
    }
}

/// A model whose implementation is written by hand per target.
#[derive(Debug, PartialEq, Eq)]
pub struct CustomShape {
    pub name: String,
}

impl<'a> Reference<'a> {
    /// The name of whatever the reference resolved to.
    pub fn name(&self) -> (r: &str)
        ensures
            match self {
                Reference::Object(o) => r@ == o.name@,
                Reference::Custom(c) => r@ == c.name@,
            },
    {
        match self {
            Reference::Object(o) => o.name.as_str(),
            Reference::Custom(c) => c.name.as_str(),
        }
    }
}

impl Schema {
    /// Looks a name up among the objects first, then the custom
    /// shapes; `None` means the name is undefined.
    #[verifier::loop_isolation(false)]
    pub fn resolve(&self, name: &str) -> (r: Option<Reference>)
        ensures
            match r {
                Some(re) => match re {
                    Reference::Object(o) => o.name@ == name@ && (exists|j: int|
                        0 <= j < self.objects@.len() && #[trigger] self.objects@[j].name@
                            == name@),
                    Reference::Custom(c) => c.name@ == name@ && (exists|j: int|
                        0 <= j < self.custom_shapes@.len()
                            && #[trigger] self.custom_shapes@[j].name@ == name@),
                },
                None => (forall|j: int|
                    0 <= j < self.objects@.len() ==> #[trigger] self.objects@[j].name@ != name@)
                    && (forall|j: int|
                    0 <= j < self.custom_shapes@.len()
                        ==> #[trigger] self.custom_shapes@[j].name@ != name@),
            },
    {
        let on = self.objects.len();
        let mut i: usize = 0;
        while i < on
            invariant
                on == self.objects@.len(),
                i <= on,
                forall|j: int| 0 <= j < i ==> #[trigger] self.objects@[j].name@ != name@,
            decreases on - i,
        {
            if str_eq(self.objects[i].name.as_str(), name) {
                return Some(Reference::Object(&self.objects[i]));
            }
            i += 1;
        }
        let cn = self.custom_shapes.len();
        let mut k: usize = 0;
        while k < cn
            invariant
                cn == self.custom_shapes@.len(),
                k <= cn,
                forall|j: int| 0 <= j < k ==> #[trigger] self.custom_shapes@[j].name@ != name@,
            decreases cn - k,
        {
            if str_eq(self.custom_shapes[k].name.as_str(), name) {
                return Some(Reference::Custom(&self.custom_shapes[k]));
            }
            k += 1;
        }
        None
    }
}

} // verus!
