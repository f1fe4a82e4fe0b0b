use vstd::prelude::*;
use vstd::string::StringExecFns;

verus! {

/// The static type lattice of the language. `Closure` carries the parameter
/// type and the return type; types are compared structurally.
#[derive(Debug)]
pub enum Type {
    Number,
    String,
    Boolean,
    Closure(Box<Type>, Box<Type>),
    Nothing,
}

/// A `Type` is already a mathematical value: its view is itself.
impl View for Type {
    type V = Type;

    open spec fn view(&self) -> Type {
        *self
    }
}

impl Clone for Type {
    fn clone(&self) -> (r: Type)
        ensures
            r == *self,
        decreases self,
    {
        match self {
            Type::Number => Type::Number,
            Type::String => Type::String,
            Type::Boolean => Type::Boolean,
            Type::Closure(param, ret) => Type::Closure(
                Box::new((**param).clone()),
                Box::new((**ret).clone()),
            ),
            Type::Nothing => Type::Nothing,
        }
    }
}

/// The rendering of a type in diagnostics, `Closure` with its parameter and
/// return types in parentheses, the none type spelled `None`.
pub open spec fn type_text(t: Type) -> Seq<char>
    decreases t,
{
    match t {
        Type::Number => "Number"@,
        Type::String => "String"@,
        Type::Boolean => "Boolean"@,
        Type::Nothing => "None"@,
        Type::Closure(param, ret) => "Closure("@ + type_text(*param) + ", "@ + type_text(*ret)
            + ")"@,
    }
}

impl Type {
    /// The type's rendering for diagnostics.
    pub fn text(&self) -> (r: String)
        ensures
            r@ == type_text(*self),
        decreases self,
    {
        match self {
            Type::Number => String::from_str("Number"),
            Type::String => String::from_str("String"),
            Type::Boolean => String::from_str("Boolean"),
            Type::Nothing => String::from_str("None"),
            Type::Closure(param, ret) => {
                let mut out = String::from_str("Closure(");
                let param_text = param.text();
                out.append(param_text.as_str());
                out.append(", ");
                let ret_text = ret.text();
                out.append(ret_text.as_str());
                out.append(")");
                out
            },
        }
    }
}

impl PartialEq for Type {
    fn eq(&self, other: &Type) -> (r: bool)
        decreases self,
    {
        match (self, other) {
            (Type::Number, Type::Number) => true,
            (Type::String, Type::String) => true,
            (Type::Boolean, Type::Boolean) => true,
            (Type::Nothing, Type::Nothing) => true,
            (Type::Closure(param, ret), Type::Closure(other_param, other_ret)) => {
                (**param).eq(&**other_param) && (**ret).eq(&**other_ret)
            },
            _ => false,
        }
    }
}

impl vstd::std_specs::cmp::PartialEqSpecImpl for Type {
    open spec fn obeys_eq_spec() -> bool {
        true
    }

    open spec fn eq_spec(&self, other: &Type) -> bool {
        *self == *other
    }
}

} // verus!
