use vstd::prelude::*;

use crate::library::Module;
use crate::types::Type;
use crate::value::{Builtin, Value, ValueView};

verus! {

/// The declared type of `sub`: Number to Number to Number.
pub open spec fn ty() -> Type {
    Type::Closure(
        Box::new(Type::Number),
        Box::new(Type::Closure(Box::new(Type::Number), Box::new(Type::Number))),
    )
}

pub fn define() -> (r: Module)
    ensures
        r.name@ == "sub"@,
        r.ty == ty(),
        r.value@ == ValueView::Primitive(crate::value::BuiltinView::Sub),
{
    let ty = Type::Closure(
        Box::new(Type::Number),
        Box::new(Type::Closure(Box::new(Type::Number), Box::new(Type::Number))),
    );
    Module::new("sub", ty, Value::Primitive(Builtin::Sub))
}

} // verus!
