//! An earlier, flatter data model kept alongside the schema tree: a
//! module of objects and enums whose field types are simple types or
//! one level of container over them.

use crate::lang::map::OrderedHashMap;
use crate::text::str_eq;
use vstd::prelude::*;

verus! {

/// A field's type: a simple type or one container level over simple
/// types.
#[derive(Debug, PartialEq, Eq)]
pub enum TypeDef {
    Simple(SimpleTypeDef),
    List(Box<SimpleTypeDef>),
    SetOf(Box<SimpleTypeDef>),
    MapOf(Box<SimpleTypeDef>, Box<SimpleTypeDef>),
}

/// A scalar, an instant, or a reference to a named definition.
#[derive(Debug, PartialEq, Eq)]
pub enum SimpleTypeDef {
    String,
    Bool,
    Int32,
    Int64,
    Float32,
    Float64,
    Instant,
    Ref(String),
}

/// Whether an identifier names one of the known scalar types.
pub open spec fn spec_known_simple_type(s: Seq<char>) -> bool {
    ||| s == "String"@
    ||| s == "Bool"@
    ||| s == "Int32"@
    ||| s == "Int64"@
    ||| s == "Float32"@
    ||| s == "Float64"@
    ||| s == "Instant"@
}

impl SimpleTypeDef {
    /// A known scalar name maps to its scalar; any other identifier
    /// becomes a reference under that name.
    pub fn from_str(name: &str) -> (r: SimpleTypeDef)
        ensures
            name@ == "String"@ ==> r == SimpleTypeDef::String,
            name@ == "Bool"@ ==> r == SimpleTypeDef::Bool,
            name@ == "Int32"@ ==> r == SimpleTypeDef::Int32,
            name@ == "Int64"@ ==> r == SimpleTypeDef::Int64,
            name@ == "Float32"@ ==> r == SimpleTypeDef::Float32,
            name@ == "Float64"@ ==> r == SimpleTypeDef::Float64,
            name@ == "Instant"@ ==> r == SimpleTypeDef::Instant,
            !spec_known_simple_type(name@) ==> (r matches SimpleTypeDef::Ref(out) && out@
                == name@),
    {
        proof {
            reveal_strlit("String");
            reveal_strlit("Bool");
            reveal_strlit("Int32");
            reveal_strlit("Int64");
            reveal_strlit("Float32");
            reveal_strlit("Float64");
            reveal_strlit("Instant");
            assert("String"@[0] == 'S');
            assert("Bool"@[0] == 'B');
            assert("Int32"@[0] == 'I');
            assert("Int64"@[0] == 'I');
            assert("Float32"@[0] == 'F');
            assert("Float64"@[0] == 'F');
            assert("Instant"@[0] == 'I');
            assert("Int32"@[3] == '3');
            assert("Int64"@[3] == '6');
            assert("Float32"@[5] == '3');
            assert("Float64"@[5] == '6');
            assert("Instant"@.len() == 7);
            assert("Int32"@.len() == 5);
        }
        if str_eq(name, "String") {
            SimpleTypeDef::String
        } else if str_eq(name, "Bool") {
            SimpleTypeDef::Bool
        } else if str_eq(name, "Int32") {
            SimpleTypeDef::Int32
        } else if str_eq(name, "Int64") {
            SimpleTypeDef::Int64
        } else if str_eq(name, "Float32") {
            SimpleTypeDef::Float32
        } else if str_eq(name, "Float64") {
            SimpleTypeDef::Float64
        } else if str_eq(name, "Instant") {
            SimpleTypeDef::Instant
        } else {
            SimpleTypeDef::Ref(String::from_str(name))
        }
    }
}

/// One named, possibly nullable field with opaque metadata.
#[derive(Debug, PartialEq, Eq)]
pub struct FieldDef {
    pub name: String,
    pub type_def: TypeDef,
    pub nullable: bool,
    pub metadata: OrderedHashMap<String>,
}

/// A named record of fields, in declaration order.
#[derive(Debug, PartialEq, Eq)]
pub struct ObjectDef {
    pub name: String,
    pub fields: Vec<FieldDef>,
}

/// A named list of variant names, in declaration order.
#[derive(Debug, PartialEq, Eq)]
pub struct EnumDef {
    pub name: String,
    pub values: Vec<String>,
}

/// A module: its objects and enums, each addressable by name.
#[derive(Debug, PartialEq, Eq)]
pub struct ModuleDef {
    pub name: String,
    pub objects: Vec<ObjectDef>,
    pub enums: Vec<EnumDef>,
}

/// The names a module defines, objects first, then enums.
pub open spec fn spec_module_names(m: &ModuleDef) -> Seq<Seq<char>> {
    m.objects@.map_values(|o: ObjectDef| o.name@) + m.enums@.map_values(|e: EnumDef| e.name@)
}

impl ModuleDef {
    /// The definition name that `name` refers to; resolution of an
    /// undefined name is left out, matching the fatal failure it is.
    #[verifier::loop_isolation(false)]
    pub fn resolve(&self, name: &str) -> (r: String)
        requires
            spec_module_names(self).contains(name@),
        ensures
            r@ == name@,
    {
        let ghost names = spec_module_names(self);
        let on = self.objects.len();
        let mut i: usize = 0;
        while i < on
            invariant
                on == self.objects@.len(),
                i <= on,
                forall|j: int| 0 <= j < i ==> self.objects@[j].name@ != name@,
            decreases on - i,
        {
            if str_eq(self.objects[i].name.as_str(), name) {
                return self.objects[i].name.clone();
            }
            i += 1;
        }
        let en = self.enums.len();
        let mut k: usize = 0;
        while k < en
            invariant
                en == self.enums@.len(),
                k <= en,
                forall|j: int| 0 <= j < k ==> self.enums@[j].name@ != name@,
            decreases en - k,
        {
            if str_eq(self.enums[k].name.as_str(), name) {
                return self.enums[k].name.clone();
            }
            k += 1;
        }
        proof {
            let w = choose|w: int| 0 <= w < names.len() && names[w] == name@;
            if w < self.objects@.len() {
                assert(names[w] == self.objects@[w].name@);
            } else {
                assert(names[w] == self.enums@[w - self.objects@.len()].name@);
            }
            assert(false);
        }
        String::new()
    }
}

} // verus!
