use vstd::prelude::*;

use crate::types::Type;
use vstd::string::StringExecFns;
use crate::value::{Value, ValueView};

pub mod add;
pub mod cat;
pub mod dec;
pub mod div;
pub mod inc;
pub mod mul;
pub mod sub;

verus! {

/// One registered library entry: a global name, its declared type, and its
/// runtime value.
#[derive(Debug)]
pub struct Module {
    pub name: String,
    pub ty: Type,
    pub value: Value,
}

impl Module {
    pub fn new(name: &str, ty: Type, value: Value) -> (r: Module)
        ensures
            r.name@ == name@,
            r.ty == ty,
            r.value@ == value@,
    {
        Module { name: String::from_str(name), ty, value }
    }
}

pub type CoreLibrary = Vec<Module>;

/// A primitive type registration: a type name and the type it denotes.
pub type Primitive = (String, Type);

pub type Primatives = Vec<Primitive>;

/// The value modules fed into the global scope: the arithmetic and string
/// primitives, in registration order.
pub fn build() -> (r: CoreLibrary)
    ensures
        r@.len() == 7,
        r@[0].name@ == "inc"@ && r@[0].ty == inc::ty() && r@[0].value@ == ValueView::Primitive(
            crate::value::BuiltinView::Inc,
        ),
        r@[1].name@ == "dec"@ && r@[1].ty == dec::ty() && r@[1].value@ == ValueView::Primitive(
            crate::value::BuiltinView::Dec,
        ),
        r@[2].name@ == "add"@ && r@[2].ty == add::ty() && r@[2].value@ == ValueView::Primitive(
            crate::value::BuiltinView::Add,
        ),
        r@[3].name@ == "sub"@ && r@[3].ty == sub::ty() && r@[3].value@ == ValueView::Primitive(
            crate::value::BuiltinView::Sub,
        ),
        r@[4].name@ == "mul"@ && r@[4].ty == mul::ty() && r@[4].value@ == ValueView::Primitive(
            crate::value::BuiltinView::Mul,
        ),
        r@[5].name@ == "div"@ && r@[5].ty == div::ty() && r@[5].value@ == ValueView::Primitive(
            crate::value::BuiltinView::Div,
        ),
        r@[6].name@ == "cat"@ && r@[6].ty == cat::ty() && r@[6].value@ == ValueView::Primitive(
            crate::value::BuiltinView::Cat,
        ),
{
    let mut library: Vec<Module> = Vec::new();
    library.push(inc::define());
    library.push(dec::define());
    library.push(add::define());
    library.push(sub::define());
    library.push(mul::define());
    library.push(div::define());
    library.push(cat::define());
    library
}

/// The primitive type names consulted when a closure parameter's annotation
/// is resolved.
pub fn primitives() -> (r: Primatives)
    ensures
        r@.len() == 3,
        r@[0].0@ == "String"@ && r@[0].1 == Type::String,
        r@[1].0@ == "Number"@ && r@[1].1 == Type::Number,
        r@[2].0@ == "Boolean"@ && r@[2].1 == Type::Boolean,
{
    let mut primitives: Vec<Primitive> = Vec::new();
    primitives.push((String::from_str("String"), Type::String));
    primitives.push((String::from_str("Number"), Type::Number));
    primitives.push((String::from_str("Boolean"), Type::Boolean));
    primitives
}

} // verus!
