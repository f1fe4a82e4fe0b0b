use vstd::prelude::*;

use crate::error::{views_of, Error, ErrorView};
use crate::scope::{Scope, ScopeIndex, ScopeView};
use crate::semantics::{
    chain_values_wf, chain_wf, lemma_resolve_value_wf, node_text, resolve_type,
    resolve_type_definition, resolve_value, scope_values_wf, spec_bind, spec_eval, value_wf,
};
use crate::syntax::{node_in, syntax_wf, Node, Syntax};
use crate::types::Type;
use crate::value::{ClosureValue, Fatal, Value, ValueView};
use core::ops::Range;
use vstd::string::{StrSliceExecFns, StringExecFns};

verus! {

/// The views of the scopes of a chain, in order.
pub open spec fn chain_views(chain: Seq<Scope>) -> Seq<ScopeView> {
    chain.map_values(|s: Scope| s@)
}

pub proof fn lemma_chain_views_push(chain: Seq<Scope>, scope: Scope)
    ensures
        chain_views(chain.push(scope)) == chain_views(chain).push(scope@),
{
    assert(chain_views(chain.push(scope)) =~= chain_views(chain).push(scope@));
}

pub proof fn lemma_chain_views_update(chain: Seq<Scope>, i: int, scope: Scope)
    requires
        0 <= i < chain.len(),
    ensures
        chain_views(chain.update(i, scope)) == chain_views(chain).update(i, scope@),
{
    assert(chain_views(chain.update(i, scope)) =~= chain_views(chain).update(i, scope@));
}

/// The whole session state as the specification sees it.
#[verifier::ext_equal]
pub ghost struct InterpreterView {
    pub source: Seq<char>,
    pub chain: Seq<ScopeView>,
    pub errors: Seq<ErrorView>,
}

/// The interpreter session: the accumulated source text, the append-only
/// chain of scopes with the global frame at index 0, and the diagnostics
/// gathered since the last flush.
pub struct Interpreter {
    pub source: String,
    pub chain: Vec<Scope>,
    pub errors: Vec<Error>,
}

/// The depth of closure invocations an evaluation may reach before it gives
/// up with `Fatal::Exhausted`.
pub const EVAL_FUEL: u64 = 0xFFFF_FFFF;

/// An evaluation result seen at the specification level.
pub open spec fn res_view(r: Result<Value, Fatal>) -> Result<ValueView, Fatal> {
    match r {
        Ok(v) => Ok(v@),
        Err(f) => Err(f),
    }
}

impl View for Interpreter {
    type V = InterpreterView;

    open spec fn view(&self) -> InterpreterView {
        InterpreterView {
            source: self.source@,
            chain: chain_views(self.chain@),
            errors: views_of(self.errors@),
        }
    }
}

impl Interpreter {
    /// The session invariant: parent links point downwards, the global frame
    /// exists, and every stored value is meaningful in this state.
    pub open spec fn wf(&self) -> bool {
        &&& chain_wf(self@.chain)
        &&& self@.chain.len() >= 1
        &&& chain_values_wf(self@.chain, self@.source.len())
        &&& self@.source.len() <= usize::MAX
    }

    /// A fresh session over an empty source: only the global frame, already
    /// populated by library registration.
    pub fn new() -> (r: Interpreter)
        ensures
            r.wf(),
            r@.source == Seq::<char>::empty(),
            r@.chain == seq![crate::scope::global_scope_view()],
            r@.errors == Seq::<ErrorView>::empty(),
    {
        let chain = vec![Scope::global()];
        let r = Interpreter { source: String::new(), chain, errors: vec![] };
        proof {
            assert(r@.chain =~= seq![crate::scope::global_scope_view()]);
            assert(r@.errors =~= Seq::<ErrorView>::empty());
            assert(r.wf());
        }
        r
    }

    pub fn error(&mut self, error: Error)
        ensures
            final(self)@ == (InterpreterView {
                source: old(self)@.source,
                chain: old(self)@.chain,
                errors: old(self)@.errors.push(error@),
            }),
    {
        let ghost before = self.errors@;
        self.errors.push(error);
        proof {
            crate::error::lemma_views_push(before, error);
            assert(final(self)@ =~= (InterpreterView {
                source: old(self)@.source,
                chain: old(self)@.chain,
                errors: old(self)@.errors.push(error@),
            }));
        }
    }

    /// The text a node's span covers in the session source.
    pub fn source(&self, node: Node) -> (r: String)
        requires
            node_in(node, self@.source.len()),
            self@.source.len() <= usize::MAX,
        ensures
            r@ == node_text(self@.source, node),
    {
        let text = self.source.as_str().substring_char(
            node.1.position,
            node.1.position + node.1.length,
        );
        String::from_str(text)
    }

    /// The half-open character range a node's span covers.
    pub fn range(&self, node: Node) -> (r: Range<usize>)
        requires
            node_in(node, self@.source.len()),
            self@.source.len() <= usize::MAX,
        ensures
            r.start == node.1.position,
            r.end == node.1.position + node.1.length,
    {
        node.1.position..node.1.position + node.1.length
    }

    /// Replace the session source. Spans already captured stay meaningful,
    /// so the new source must extend the old one, as a session transcript
    /// does.
    pub fn set_source(&mut self, source: &str)
        requires
            old(self)@.source.len() <= source@.len(),
        ensures
            final(self)@ == (InterpreterView {
                source: source@,
                chain: old(self)@.chain,
                errors: old(self)@.errors,
            }),
            old(self).wf() ==> final(self).wf(),
    {
        let length = source.unicode_len();
        proof {
            assert(source@.len() == length as nat);
        }
        self.source = String::from_str(source);
        proof {
            assert(final(self)@ =~= (InterpreterView {
                source: source@,
                chain: old(self)@.chain,
                errors: old(self)@.errors,
            }));
            if old(self).wf() {
                assert forall|i: int| 0 <= i < self@.chain.len() implies scope_values_wf(
                    #[trigger] self@.chain[i],
                    self@.source.len(),
                    self@.chain.len() as nat,
                ) by {
                    assert(scope_values_wf(
                        old(self)@.chain[i],
                        old(self)@.source.len(),
                        old(self)@.chain.len() as nat,
                    ));
                    assert forall|k: Seq<char>| self@.chain[i].map.contains_key(k) implies value_wf(
                        #[trigger] self@.chain[i].map[k],
                        self@.source.len(),
                        self@.chain.len() as nat,
                    ) by {
                        assert(value_wf(
                            old(self)@.chain[i].map[k],
                            old(self)@.source.len(),
                            old(self)@.chain.len() as nat,
                        ));
                        match self@.chain[i].map[k] {
                            ValueView::Closure(c) => {
                                crate::laws::lemma_syntax_wf_widen(
                                    c.body,
                                    old(self)@.source.len(),
                                    self@.source.len(),
                                );
                            },
                            _ => {},
                        }
                    }
                }
            }
        }
    }

    /// Hand back the diagnostics gathered since the last flush, leaving the
    /// session with none.
    pub fn flush_errors(&mut self) -> (r: Vec<Error>)
        ensures
            views_of(r@) == old(self)@.errors,
            final(self)@ == (InterpreterView {
                source: old(self)@.source,
                chain: old(self)@.chain,
                errors: Seq::<ErrorView>::empty(),
            }),
    {
        let mut out: Vec<Error> = Vec::new();
        core::mem::swap(&mut self.errors, &mut out);
        proof {
            assert(views_of(Seq::<Error>::empty()) =~= Seq::<ErrorView>::empty());
            assert(final(self)@ =~= (InterpreterView {
                source: old(self)@.source,
                chain: old(self)@.chain,
                errors: Seq::<ErrorView>::empty(),
            }));
        }
        out
    }

    /// Resolve a name to its declared type, walking parent links upwards;
    /// the first match wins.
    pub fn lookup(&self, scope: ScopeIndex, node: Node) -> (r: Option<Type>)
        requires
            chain_wf(self@.chain),
            scope < self@.chain.len(),
            node_in(node, self@.source.len()),
            self@.source.len() <= usize::MAX,
        ensures
            r == resolve_type(self@.chain, scope as int, node_text(self@.source, node)),
        decreases scope,
    {
        let source = self.source(node);
        match self.chain[scope].type_map.get(&source) {
            Some(t) => Some(t.clone()),
            None => match self.chain[scope].parent {
                Some(parent) => self.lookup(parent, node),
                None => None,
            },
        }
    }

    /// Resolve a name to its bound value, by the same walk.
    pub fn get(&self, scope: ScopeIndex, node: Node) -> (r: Option<Value>)
        requires
            chain_wf(self@.chain),
            scope < self@.chain.len(),
            node_in(node, self@.source.len()),
            self@.source.len() <= usize::MAX,
        ensures
            (match r {
                Some(v) => resolve_value(
                    self@.chain,
                    scope as int,
                    node_text(self@.source, node),
                ) == Some(v@),
                None => resolve_value(
                    self@.chain,
                    scope as int,
                    node_text(self@.source, node),
                ) is None,
            }),
        decreases scope,
    {
        let source = self.source(node);
        match self.chain[scope].map.get(&source) {
            Some(v) => Some(v.clone()),
            None => match self.chain[scope].parent {
                Some(parent) => self.get(parent, node),
                None => None,
            },
        }
    }

    /// Resolve a type-annotation name in the type-definition namespace, the
    /// namespace consulted only for closure parameter annotations.
    pub fn lookup_type_definition(&self, scope: ScopeIndex, node: Node) -> (r: Option<Type>)
        requires
            chain_wf(self@.chain),
            scope < self@.chain.len(),
            node_in(node, self@.source.len()),
            self@.source.len() <= usize::MAX,
        ensures
            r == resolve_type_definition(
                self@.chain,
                scope as int,
                node_text(self@.source, node),
            ),
        decreases scope,
    {
        let source = self.source(node);
        match self.chain[scope].type_definition_map.get(&source) {
            Some(t) => Some(t.clone()),
            None => match self.chain[scope].parent {
                Some(parent) => self.lookup_type_definition(parent, node),
                None => None,
            },
        }
    }

    /// Declare a name's type in the given frame.
    pub fn declare(&mut self, scope: ScopeIndex, node: Node, ty: Type)
        requires
            scope < old(self)@.chain.len(),
            node_in(node, old(self)@.source.len()),
            old(self)@.source.len() <= usize::MAX,
        ensures
            final(self)@ == (InterpreterView {
                source: old(self)@.source,
                chain: old(self)@.chain.update(
                    scope as int,
                    ScopeView {
                        parent: old(self)@.chain[scope as int].parent,
                        map: old(self)@.chain[scope as int].map,
                        type_map: old(self)@.chain[scope as int].type_map.insert(
                            node_text(old(self)@.source, node),
                            ty,
                        ),
                        type_definition_map: old(self)@.chain[scope as int].type_definition_map,
                    },
                ),
                errors: old(self)@.errors,
            }),
    {
        let source = self.source(node);
        let ghost before = self.chain@;
        self.chain[scope].type_map.insert(source, ty);
        proof {
            lemma_chain_views_update(before, scope as int, self.chain@[scope as int]);
            assert(final(self)@ =~~= (InterpreterView {
                source: old(self)@.source,
                chain: old(self)@.chain.update(
                    scope as int,
                    ScopeView {
                        parent: old(self)@.chain[scope as int].parent,
                        map: old(self)@.chain[scope as int].map,
                        type_map: old(self)@.chain[scope as int].type_map.insert(
                            node_text(old(self)@.source, node),
                            ty,
                        ),
                        type_definition_map: old(self)@.chain[scope as int].type_definition_map,
                    },
                ),
                errors: old(self)@.errors,
            }));
        }
    }

    /// Bind one statement: compute its type, declaring names and allocating
    /// binding-time scopes along the way, and appending type diagnostics.
    pub fn bind(&mut self, syntax: Syntax, scope: ScopeIndex) -> (t: Type)
        requires
            old(self).wf(),
            scope < old(self)@.chain.len(),
            syntax_wf(syntax, old(self)@.source.len()),
        ensures
            final(self).wf(),
            final(self)@.source == old(self)@.source,
            old(self)@.chain.len() <= final(self)@.chain.len(),
            ({
                let o = spec_bind(
                    old(self)@.source,
                    old(self)@.chain,
                    old(self)@.errors,
                    syntax,
                    scope as int,
                );
                &&& final(self)@.chain == o.chain
                &&& final(self)@.errors == o.errors
                &&& t == o.bound
            }),
        decreases syntax,
    {
        match syntax {
            Syntax::Assignment(assignment) => assignment.bind(self, scope),
            Syntax::Call(call) => call.bind(self, scope),
            Syntax::Name(name) => name.bind(self, scope),
            Syntax::Literal(literal) => literal.bind(),
            Syntax::Closure(closure) => closure.bind(self, scope),
            Syntax::TypeExpression(te) => te.bind(self, scope),
        }
    }

    /// Evaluate one statement under a bounded invocation depth.
    pub fn eval_at(&mut self, syntax: Syntax, scope: ScopeIndex, fuel: u64) -> (r: Result<
        Value,
        Fatal,
    >)
        requires
            old(self).wf(),
            scope < old(self)@.chain.len(),
            syntax_wf(syntax, old(self)@.source.len()),
        ensures
            final(self).wf(),
            final(self)@.source == old(self)@.source,
            final(self)@.errors == old(self)@.errors,
            old(self)@.chain.len() <= final(self)@.chain.len(),
            ({
                let o = spec_eval(
                    old(self)@.source,
                    old(self)@.chain,
                    syntax,
                    scope as int,
                    fuel as nat,
                );
                &&& final(self)@.chain == o.chain
                &&& res_view(r) == o.result
            }),
            (r matches Ok(v) ==> value_wf(
                v@,
                old(self)@.source.len(),
                final(self)@.chain.len() as nat,
            )),
        decreases fuel, syntax,
    {
        match syntax {
            Syntax::Name(name) => {
                proof {
                    lemma_resolve_value_wf(
                        self@.chain,
                        scope as int,
                        node_text(self@.source, name.0),
                        self@.source.len(),
                    );
                }
                name.eval(self, scope)
            },
            Syntax::Literal(literal) => literal.eval(self),
            Syntax::Closure(closure) => Ok(closure.eval(self, scope)),
            Syntax::Call(call) => call.eval(self, scope, fuel),
            Syntax::Assignment(assignment) => assignment.eval(self, scope, fuel),
            Syntax::TypeExpression(_) => Err(Fatal::Unevaluable),
        }
    }

    /// Evaluate one statement, as the pipeline does after a clean bind.
    pub fn eval(&mut self, syntax: Syntax, scope: ScopeIndex) -> (r: Result<Value, Fatal>)
        requires
            old(self).wf(),
            scope < old(self)@.chain.len(),
            syntax_wf(syntax, old(self)@.source.len()),
        ensures
            final(self).wf(),
            final(self)@.source == old(self)@.source,
            final(self)@.errors == old(self)@.errors,
            old(self)@.chain.len() <= final(self)@.chain.len(),
            ({
                let o = spec_eval(
                    old(self)@.source,
                    old(self)@.chain,
                    syntax,
                    scope as int,
                    EVAL_FUEL as nat,
                );
                &&& final(self)@.chain == o.chain
                &&& res_view(r) == o.result
            }),
    {
        self.eval_at(syntax, scope, EVAL_FUEL)
    }

    /// Apply a callee to an argument: the single operation dispatched on the
    /// value's tag. A closure runs its body in one fresh frame hanging off
    /// its defining scope; every invocation gets its own frame.
    pub fn apply(&mut self, callee: Value, argument: Value, fuel: u64) -> (r: Result<Value, Fatal>)
        requires
            old(self).wf(),
            value_wf(callee@, old(self)@.source.len(), old(self)@.chain.len() as nat),
            value_wf(argument@, old(self)@.source.len(), old(self)@.chain.len() as nat),
        ensures
            final(self).wf(),
            final(self)@.source == old(self)@.source,
            final(self)@.errors == old(self)@.errors,
            old(self)@.chain.len() <= final(self)@.chain.len(),
            ({
                let o = crate::semantics::spec_apply(
                    old(self)@.source,
                    old(self)@.chain,
                    callee@,
                    argument@,
                    fuel as nat,
                );
                &&& final(self)@.chain == o.chain
                &&& res_view(r) == o.result
            }),
    {
        match callee {
            Value::Closure(c) => {
                if fuel == 0 {
                    Err(Fatal::Exhausted)
                } else {
                    let ClosureValue { scope: defining, param, body } = c;
                    let ghost argument_view = argument@;
                    let mut frame = Scope::new(defining);
                    frame.map.insert(param, argument);
                    let ghost mid = self@;
                    let ghost chain_exec = self.chain@;
                    let ghost frame_view = frame@;
                    self.chain.push(frame);
                    proof {
                        lemma_chain_views_push(chain_exec, self.chain@.last());
                        assert forall|k: Seq<char>| frame_view.map.contains_key(k) implies value_wf(
                            #[trigger] frame_view.map[k],
                            mid.source.len(),
                            (mid.chain.len() + 1) as nat,
                        ) by {
                            assert(frame_view.map[k] == argument_view);
                        }
                        crate::semantics::lemma_wf_after_push(
                            mid.chain,
                            frame_view,
                            mid.source.len(),
                        );
                    }
                    let index = self.chain.len() - 1;
                    self.eval_at(*body, index, fuel - 1)
                }
            },
            Value::Primitive(p) => apply_builtin(p, argument),
            _ => Err(Fatal::NotCallable),
        }
    }
}

/// One step of a registered primitive, with checked arithmetic: an overflow
/// or a division by zero is a fatal condition, never an abort.
pub(crate) fn apply_builtin(builtin: crate::value::Builtin, argument: Value) -> (r: Result<
    Value,
    Fatal,
>)
    ensures
        res_view(r) == crate::semantics::spec_delta(builtin@, argument@),
{
    match (builtin, argument) {
        (crate::value::Builtin::Inc, Value::Number(n)) => match n.checked_add(1) {
            Some(v) => Ok(Value::Number(v)),
            None => Err(Fatal::Arithmetic),
        },
        (crate::value::Builtin::Dec, Value::Number(n)) => if n >= 1 {
            Ok(Value::Number(n - 1))
        } else {
            Err(Fatal::Arithmetic)
        },
        (crate::value::Builtin::Add, Value::Number(n)) => Ok(
            Value::Primitive(crate::value::Builtin::AddWith(n)),
        ),
        (crate::value::Builtin::AddWith(a), Value::Number(b)) => match a.checked_add(b) {
            Some(v) => Ok(Value::Number(v)),
            None => Err(Fatal::Arithmetic),
        },
        (crate::value::Builtin::Sub, Value::Number(n)) => Ok(
            Value::Primitive(crate::value::Builtin::SubWith(n)),
        ),
        (crate::value::Builtin::SubWith(a), Value::Number(b)) => if b <= a {
            Ok(Value::Number(a - b))
        } else {
            Err(Fatal::Arithmetic)
        },
        (crate::value::Builtin::Mul, Value::Number(n)) => Ok(
            Value::Primitive(crate::value::Builtin::MulWith(n)),
        ),
        (crate::value::Builtin::MulWith(a), Value::Number(b)) => match a.checked_mul(b) {
            Some(v) => Ok(Value::Number(v)),
            None => Err(Fatal::Arithmetic),
        },
        (crate::value::Builtin::Div, Value::Number(n)) => Ok(
            Value::Primitive(crate::value::Builtin::DivWith(n)),
        ),
        (crate::value::Builtin::DivWith(a), Value::Number(b)) => if b != 0 {
            Ok(Value::Number(a / b))
        } else {
            Err(Fatal::DivisionByZero)
        },
        (crate::value::Builtin::Cat, Value::String(s)) => Ok(
            Value::Primitive(crate::value::Builtin::CatWith(s)),
        ),
        (crate::value::Builtin::CatWith(a), Value::String(b)) => Ok(
            Value::String(a.concat(b.as_str())),
        ),
        _ => Err(Fatal::BadOperand),
    }
}

} // verus!
