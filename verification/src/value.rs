use vstd::prelude::*;

use crate::scope::ScopeIndex;
use crate::syntax::{Branch, Syntax};
use crate::token::DOUBLE_QUOTE;
use vstd::pervasive::unreached;
use vstd::string::{StrSliceExecFns, StringExecFns};

verus! {

/// One of the registered arithmetic or string primitives, together with the
/// first argument it has already been applied to, where it has one.
#[derive(Debug)]
pub enum Builtin {
    Inc,
    Dec,
    Add,
    AddWith(usize),
    Sub,
    SubWith(usize),
    Mul,
    MulWith(usize),
    Div,
    DivWith(usize),
    Cat,
    CatWith(String),
}

pub ghost enum BuiltinView {
    Inc,
    Dec,
    Add,
    AddWith(usize),
    Sub,
    SubWith(usize),
    Mul,
    MulWith(usize),
    Div,
    DivWith(usize),
    Cat,
    CatWith(Seq<char>),
}

impl View for Builtin {
    type V = BuiltinView;

    open spec fn view(&self) -> BuiltinView {
        match self {
            Builtin::Inc => BuiltinView::Inc,
            Builtin::Dec => BuiltinView::Dec,
            Builtin::Add => BuiltinView::Add,
            Builtin::AddWith(n) => BuiltinView::AddWith(*n),
            Builtin::Sub => BuiltinView::Sub,
            Builtin::SubWith(n) => BuiltinView::SubWith(*n),
            Builtin::Mul => BuiltinView::Mul,
            Builtin::MulWith(n) => BuiltinView::MulWith(*n),
            Builtin::Div => BuiltinView::Div,
            Builtin::DivWith(n) => BuiltinView::DivWith(*n),
            Builtin::Cat => BuiltinView::Cat,
            Builtin::CatWith(s) => BuiltinView::CatWith(s@),
        }
    }
}

impl Clone for Builtin {
    fn clone(&self) -> (r: Builtin)
        ensures
            r@ == self@,
    {
        match self {
            Builtin::Inc => Builtin::Inc,
            Builtin::Dec => Builtin::Dec,
            Builtin::Add => Builtin::Add,
            Builtin::AddWith(n) => Builtin::AddWith(*n),
            Builtin::Sub => Builtin::Sub,
            Builtin::SubWith(n) => Builtin::SubWith(*n),
            Builtin::Mul => Builtin::Mul,
            Builtin::MulWith(n) => Builtin::MulWith(*n),
            Builtin::Div => Builtin::Div,
            Builtin::DivWith(n) => Builtin::DivWith(*n),
            Builtin::Cat => Builtin::Cat,
            Builtin::CatWith(s) => Builtin::CatWith(s.clone()),
        }
    }
}

/// A runtime closure: the index of its defining scope, its parameter name,
/// and its body. All three are immutable after creation, so every holder of
/// a copy sees the same behaviour.
#[derive(Debug)]
pub struct ClosureValue {
    pub scope: ScopeIndex,
    pub param: String,
    pub body: Branch,
}

pub ghost struct ClosureView {
    pub scope: usize,
    pub param: Seq<char>,
    pub body: Syntax,
}

impl View for ClosureValue {
    type V = ClosureView;

    open spec fn view(&self) -> ClosureView {
        ClosureView { scope: self.scope, param: self.param@, body: *self.body }
    }
}

impl Clone for ClosureValue {
    fn clone(&self) -> (r: ClosureValue)
        ensures
            r@ == self@,
    {
        ClosureValue {
            scope: self.scope,
            param: self.param.clone(),
            body: Box::new((*self.body).clone()),
        }
    }
}

/// A runtime value. Calling is dispatched on the tag: a `Closure` runs its
/// body in a fresh scope, a `Primitive` steps by its arithmetic rule.
#[derive(Debug)]
pub enum Value {
    Number(usize),
    String(String),
    Boolean(bool),
    Closure(ClosureValue),
    Primitive(Builtin),
    Nothing,
}

pub ghost enum ValueView {
    Number(usize),
    String(Seq<char>),
    Boolean(bool),
    Closure(ClosureView),
    Primitive(BuiltinView),
    Nothing,
}

impl View for Value {
    type V = ValueView;

    open spec fn view(&self) -> ValueView {
        match self {
            Value::Number(n) => ValueView::Number(*n),
            Value::String(s) => ValueView::String(s@),
            Value::Boolean(b) => ValueView::Boolean(*b),
            Value::Closure(c) => ValueView::Closure(c@),
            Value::Primitive(p) => ValueView::Primitive(p@),
            Value::Nothing => ValueView::Nothing,
        }
    }
}

impl Clone for Value {
    fn clone(&self) -> (r: Value)
        ensures
            r@ == self@,
    {
        match self {
            Value::Number(n) => Value::Number(*n),
            Value::String(s) => Value::String(s.clone()),
            Value::Boolean(b) => Value::Boolean(*b),
            Value::Closure(c) => Value::Closure(c.clone()),
            Value::Primitive(p) => Value::Primitive(p.clone()),
            Value::Nothing => Value::Nothing,
        }
    }
}

impl Value {
    pub fn unwrap_number(self) -> (r: usize)
        requires
            self@ is Number,
        ensures
            self@ == ValueView::Number(r),
    {
        match self {
            Value::Number(n) => n,
            _ => unreached(),
        }
    }

    pub fn unwrap_string(self) -> (r: String)
        requires
            self@ is String,
        ensures
            self@ == ValueView::String(r@),
    {
        match self {
            Value::String(s) => s,
            _ => unreached(),
        }
    }

    pub fn unwrap_bool(self) -> (r: bool)
        requires
            self@ is Boolean,
        ensures
            self@ == ValueView::Boolean(r),
    {
        match self {
            Value::Boolean(b) => b,
            _ => unreached(),
        }
    }

    pub fn unwrap_closure(self) -> (r: ClosureValue)
        requires
            self@ is Closure,
        ensures
            self@ == ValueView::Closure(r@),
    {
        match self {
            Value::Closure(c) => c,
            _ => unreached(),
        }
    }
}

/// A fatal interpreter condition, kept apart from the user-facing
/// diagnostics: an unresolved name or a non-callable callee at evaluation
/// time, a literal that does not decode, an arithmetic failure inside a
/// primitive, a type annotation standing where an expression belongs, or an
/// evaluation nested too deeply to finish.
#[derive(Debug, Clone, Copy, PartialEq, Eq, Structural)]
pub enum Fatal {
    UnresolvedName,
    NotCallable,
    BadLiteral,
    BadOperand,
    Arithmetic,
    DivisionByZero,
    Unevaluable,
    Exhausted,
}

/// The text inside a string literal's span: the opening quote goes, and the
/// closing quote goes when the span ends with one.
pub open spec fn inner_text(s: Seq<char>) -> Seq<char> {
    let body = if s.len() >= 1 && s[0] == DOUBLE_QUOTE {
        s.subrange(1, s.len() as int)
    } else {
        s
    };
    if body.len() >= 1 && body.last() == DOUBLE_QUOTE {
        body.drop_last()
    } else {
        body
    }
}

pub fn inner_string(s: String) -> (r: String)
    ensures
        r@ == inner_text(s@),
{
    let text = s.as_str();
    let n = text.unicode_len();
    let from: usize = if n >= 1 && text.get_char(0) == DOUBLE_QUOTE {
        1
    } else {
        0
    };
    let to: usize = if n - from >= 1 && text.get_char(n - 1) == DOUBLE_QUOTE {
        n - 1
    } else {
        n
    };
    let r = String::from_str(text.substring_char(from, to));
    proof {
        assert(r@ =~= inner_text(s@));
    }
    r
}

} // verus!
