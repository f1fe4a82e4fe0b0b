use vstd::prelude::*;

use crate::library::Module;
use crate::types::Type;
use crate::value::{Builtin, Value, ValueView};

verus! {

/// The declared type of `cat`: String to String to String.
pub open spec fn ty() -> Type {
    Type::Closure(
        Box::new(Type::String),
        Box::new(Type::Closure(Box::new(Type::String), Box::new(Type::String))),
    )
}

pub fn define() -> (r: Module)
    ensures
        r.name@ == "cat"@,
        r.ty == ty(),
        r.value@ == ValueView::Primitive(crate::value::BuiltinView::Cat),
{
    let ty = Type::Closure(
        Box::new(Type::String),
        Box::new(Type::Closure(Box::new(Type::String), Box::new(Type::String))),
    );
    Module::new("cat", ty, Value::Primitive(Builtin::Cat))
}

} // verus!
