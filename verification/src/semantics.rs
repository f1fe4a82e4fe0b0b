use vstd::prelude::*;

use crate::assignment::AssignmentSyntax;
use crate::call::CallSyntax;
use crate::closure::ClosureSyntax;
use crate::error::ErrorView;
use crate::literal::LiteralSyntax;
use crate::name::NameSyntax;
use crate::scope::ScopeView;
use crate::syntax::{syntax_wf, Leaf, Syntax};
use crate::token::Token;
use crate::types::Type;
use crate::value::{inner_text, BuiltinView, ClosureView, Fatal, ValueView};

verus! {

/// The text a node's span covers.
pub open spec fn node_text(source: Seq<char>, node: Leaf) -> Seq<char> {
    source.subrange(node.1.position as int, node.1.position + node.1.length)
}

/// Parent links only point downwards, so resolution terminates.
pub open spec fn chain_wf(chain: Seq<ScopeView>) -> bool {
    forall|i: int|
        0 <= i < chain.len() ==> (match (#[trigger] chain[i]).parent {
            Some(p) => p < i,
            None => true,
        })
}

/// Resolve a name to its declared type: search the frame, then follow the
/// parent link; first match wins.
pub open spec fn resolve_type(chain: Seq<ScopeView>, scope: int, name: Seq<char>) -> Option<Type>
    decreases scope,
{
    if 0 <= scope && scope < chain.len() {
        let frame = chain[scope];
        if frame.type_map.contains_key(name) {
            Some(frame.type_map[name])
        } else {
            match frame.parent {
                Some(p) => if (p as int) < scope {
                    resolve_type(chain, p as int, name)
                } else {
                    None
                },
                None => None,
            }
        }
    } else {
        None
    }
}

/// Resolve a name to its bound value, by the same walk.
pub open spec fn resolve_value(
    chain: Seq<ScopeView>,
    scope: int,
    name: Seq<char>,
) -> Option<ValueView>
    decreases scope,
{
    if 0 <= scope && scope < chain.len() {
        let frame = chain[scope];
        if frame.map.contains_key(name) {
            Some(frame.map[name])
        } else {
            match frame.parent {
                Some(p) => if (p as int) < scope {
                    resolve_value(chain, p as int, name)
                } else {
                    None
                },
                None => None,
            }
        }
    } else {
        None
    }
}

/// Resolve a type-annotation name in the type-definition namespace.
pub open spec fn resolve_type_definition(
    chain: Seq<ScopeView>,
    scope: int,
    name: Seq<char>,
) -> Option<Type>
    decreases scope,
{
    if 0 <= scope && scope < chain.len() {
        let frame = chain[scope];
        if frame.type_definition_map.contains_key(name) {
            Some(frame.type_definition_map[name])
        } else {
            match frame.parent {
                Some(p) => if (p as int) < scope {
                    resolve_type_definition(chain, p as int, name)
                } else {
                    None
                },
                None => None,
            }
        }
    } else {
        None
    }
}

/// A literal's type depends on its token kind alone, never on its text.
pub open spec fn literal_type(token: Token) -> Type {
    match token {
        Token::String => Type::String,
        Token::Number => Type::Number,
        Token::Boolean => Type::Boolean,
        _ => Type::Nothing,
    }
}

/// What one pass of the binder leaves behind: the node's type, the scope
/// chain (possibly grown and with new declarations), and the diagnostics.
#[verifier::ext_equal]
pub ghost struct BindOut {
    pub bound: Type,
    pub chain: Seq<ScopeView>,
    pub errors: Seq<ErrorView>,
}

/// The static binder. It never aborts: unresolved names and ill-typed calls
/// become diagnostics and the result degrades to `Nothing`, so later
/// statements stay typeable.
pub open spec fn spec_bind(
    source: Seq<char>,
    chain: Seq<ScopeView>,
    errors: Seq<ErrorView>,
    syntax: Syntax,
    scope: int,
) -> BindOut
    decreases syntax,
{
    match syntax {
        Syntax::Name(NameSyntax(node)) => {
            let name = node_text(source, node);
            match resolve_type(chain, scope, name) {
                Some(t) => BindOut { bound: t, chain, errors },
                None => BindOut {
                    bound: Type::Nothing,
                    chain,
                    errors: errors.push(
                        ErrorView::UnknownName {
                            start: node.1.position as int,
                            end: node.1.position + node.1.length,
                            text: name,
                        },
                    ),
                },
            }
        },
        Syntax::Literal(LiteralSyntax(node)) => BindOut {
            bound: literal_type(node.0),
            chain,
            errors,
        },
        Syntax::TypeExpression(te) => {
            let bound = match resolve_type_definition(chain, scope, node_text(source, te.name)) {
                Some(t) => t,
                None => Type::Nothing,
            };
            BindOut { bound, chain, errors }
        },
        Syntax::Call(CallSyntax(left, right)) => {
            let lo = spec_bind(source, chain, errors, *left, scope);
            let ro = spec_bind(source, lo.chain, lo.errors, *right, scope);
            match lo.bound {
                Type::Closure(param, ret) => {
                    if ro.bound == *param {
                        BindOut { bound: *ret, chain: ro.chain, errors: ro.errors }
                    } else {
                        BindOut {
                            bound: *ret,
                            chain: ro.chain,
                            errors: ro.errors.push(
                                ErrorView::UnexpectedType {
                                    start: 0,
                                    end: 0,
                                    expected: *param,
                                    received: ro.bound,
                                },
                            ),
                        }
                    }
                },
                _ => BindOut {
                    bound: Type::Nothing,
                    chain: ro.chain,
                    errors: ro.errors.push(ErrorView::BadCall { start: 0, end: 0 }),
                },
            }
        },
        Syntax::Closure(c) => {
            let param = match resolve_type_definition(
                chain,
                scope,
                node_text(source, c.type_expression.name),
            ) {
                Some(t) => t,
                None => Type::Nothing,
            };
            let child = ScopeView {
                parent: Some(scope as usize),
                map: Map::<Seq<char>, ValueView>::empty(),
                type_map: Map::<Seq<char>, Type>::empty().insert(
                    node_text(source, c.name),
                    param,
                ),
                type_definition_map: Map::<Seq<char>, Type>::empty(),
            };
            let bo = spec_bind(
                source,
                chain.push(child),
                errors,
                *c.expression,
                chain.len() as int,
            );
            BindOut {
                bound: Type::Closure(Box::new(param), Box::new(bo.bound)),
                chain: bo.chain,
                errors: bo.errors,
            }
        },
        Syntax::Assignment(a) => {
            let eo = spec_bind(source, chain, errors, *a.expression, scope);
            let name = node_text(source, a.name);
            if 0 <= scope && scope < eo.chain.len() {
                if eo.chain[scope].type_map.contains_key(name) {
                    BindOut {
                        bound: Type::Nothing,
                        chain: eo.chain,
                        errors: eo.errors.push(
                            ErrorView::Reassignment {
                                start: a.name.1.position as int,
                                end: a.name.1.position + a.name.1.length,
                                text: name,
                            },
                        ),
                    }
                } else {
                    let declared = ScopeView {
                        parent: eo.chain[scope].parent,
                        map: eo.chain[scope].map,
                        type_map: eo.chain[scope].type_map.insert(name, eo.bound),
                        type_definition_map: eo.chain[scope].type_definition_map,
                    };
                    BindOut {
                        bound: Type::Nothing,
                        chain: eo.chain.update(scope, declared),
                        errors: eo.errors,
                    }
                }
            } else {
                BindOut { bound: Type::Nothing, chain: eo.chain, errors: eo.errors }
            }
        },
    }
}

/// The digits of an unsigned decimal literal.
pub open spec fn is_decimal(s: Seq<char>) -> bool {
    s.len() > 0 && forall|i: int| 0 <= i < s.len() ==> '0' <= #[trigger] s[i] <= '9'
}

pub open spec fn decimal_value(s: Seq<char>) -> nat
    decreases s.len(),
{
    if s.len() == 0 {
        0
    } else {
        (decimal_value(s.drop_last()) * 10 + (s.last() as int - '0' as int)) as nat
    }
}

/// How a literal decodes: a string unwraps its quotes, a number reads as an
/// unsigned decimal and must fit the machine word, a boolean is its reserved
/// spelling, none carries nothing.
pub open spec fn literal_value(source: Seq<char>, node: Leaf) -> Result<ValueView, Fatal> {
    let text = node_text(source, node);
    match node.0 {
        Token::String => Ok(ValueView::String(inner_text(text))),
        Token::Number => if is_decimal(text) && decimal_value(text) <= usize::MAX {
            Ok(ValueView::Number(decimal_value(text) as usize))
        } else {
            Err(Fatal::BadLiteral)
        },
        Token::Boolean => Ok(ValueView::Boolean(text == "true"@)),
        Token::Nothing => Ok(ValueView::Nothing),
        _ => Err(Fatal::Unevaluable),
    }
}

/// One step of a registered primitive: either it swallows its first Number
/// or String argument, or it completes with checked arithmetic.
pub open spec fn spec_delta(p: BuiltinView, arg: ValueView) -> Result<ValueView, Fatal> {
    match (p, arg) {
        (BuiltinView::Inc, ValueView::Number(n)) => if n + 1 <= usize::MAX {
            Ok(ValueView::Number((n + 1) as usize))
        } else {
            Err(Fatal::Arithmetic)
        },
        (BuiltinView::Dec, ValueView::Number(n)) => if n >= 1 {
            Ok(ValueView::Number((n - 1) as usize))
        } else {
            Err(Fatal::Arithmetic)
        },
        (BuiltinView::Add, ValueView::Number(n)) => Ok(
            ValueView::Primitive(BuiltinView::AddWith(n)),
        ),
        (BuiltinView::AddWith(a), ValueView::Number(b)) => if a + b <= usize::MAX {
            Ok(ValueView::Number((a + b) as usize))
        } else {
            Err(Fatal::Arithmetic)
        },
        (BuiltinView::Sub, ValueView::Number(n)) => Ok(
            ValueView::Primitive(BuiltinView::SubWith(n)),
        ),
        (BuiltinView::SubWith(a), ValueView::Number(b)) => if b <= a {
            Ok(ValueView::Number((a - b) as usize))
        } else {
            Err(Fatal::Arithmetic)
        },
        (BuiltinView::Mul, ValueView::Number(n)) => Ok(
            ValueView::Primitive(BuiltinView::MulWith(n)),
        ),
        (BuiltinView::MulWith(a), ValueView::Number(b)) => if a * b <= usize::MAX {
            Ok(ValueView::Number((a * b) as usize))
        } else {
            Err(Fatal::Arithmetic)
        },
        (BuiltinView::Div, ValueView::Number(n)) => Ok(
            ValueView::Primitive(BuiltinView::DivWith(n)),
        ),
        (BuiltinView::DivWith(a), ValueView::Number(b)) => if b != 0 {
            Ok(ValueView::Number((a as int / b as int) as usize))
        } else {
            Err(Fatal::DivisionByZero)
        },
        (BuiltinView::Cat, ValueView::String(s)) => Ok(
            ValueView::Primitive(BuiltinView::CatWith(s)),
        ),
        (BuiltinView::CatWith(a), ValueView::String(b)) => Ok(ValueView::String(a + b)),
        _ => Err(Fatal::BadOperand),
    }
}

/// What evaluation leaves behind: the value or the fatal condition, and the
/// scope chain, grown by one frame per closure invocation.
#[verifier::ext_equal]
pub ghost struct EvalOut {
    pub result: Result<ValueView, Fatal>,
    pub chain: Seq<ScopeView>,
}

/// The frame a closure invocation allocates: a fresh scope whose parent is
/// the closure's defining scope, binding exactly the parameter.
pub open spec fn invocation_frame(closure: ClosureView, arg: ValueView) -> ScopeView {
    ScopeView {
        parent: Some(closure.scope),
        map: Map::<Seq<char>, ValueView>::empty().insert(closure.param, arg),
        type_map: Map::<Seq<char>, Type>::empty(),
        type_definition_map: Map::<Seq<char>, Type>::empty(),
    }
}

/// The eager, call-by-value evaluator. The fuel bounds the depth of closure
/// invocations; an evaluation that exhausts it ends in `Exhausted` instead
/// of failing to return.
pub open spec fn spec_eval(
    source: Seq<char>,
    chain: Seq<ScopeView>,
    syntax: Syntax,
    scope: int,
    fuel: nat,
) -> EvalOut
    decreases fuel, syntax,
{
    match syntax {
        Syntax::Name(NameSyntax(node)) => {
            match resolve_value(chain, scope, node_text(source, node)) {
                Some(v) => EvalOut { result: Ok(v), chain },
                None => EvalOut { result: Err(Fatal::UnresolvedName), chain },
            }
        },
        Syntax::Literal(LiteralSyntax(node)) => EvalOut {
            result: literal_value(source, node),
            chain,
        },
        Syntax::Closure(c) => EvalOut {
            result: Ok(
                ValueView::Closure(
                    ClosureView {
                        scope: scope as usize,
                        param: node_text(source, c.name),
                        body: *c.expression,
                    },
                ),
            ),
            chain,
        },
        Syntax::Call(CallSyntax(left, right)) => {
            let lo = spec_eval(source, chain, *left, scope, fuel);
            match lo.result {
                Err(f) => EvalOut { result: Err(f), chain: lo.chain },
                Ok(callee) => {
                    let ro = spec_eval(source, lo.chain, *right, scope, fuel);
                    match ro.result {
                        Err(f) => EvalOut { result: Err(f), chain: ro.chain },
                        Ok(arg) => match callee {
                            ValueView::Closure(c) => if fuel > 0 {
                                spec_eval(
                                    source,
                                    ro.chain.push(invocation_frame(c, arg)),
                                    c.body,
                                    ro.chain.len() as int,
                                    (fuel - 1) as nat,
                                )
                            } else {
                                EvalOut { result: Err(Fatal::Exhausted), chain: ro.chain }
                            },
                            ValueView::Primitive(p) => EvalOut {
                                result: spec_delta(p, arg),
                                chain: ro.chain,
                            },
                            _ => EvalOut { result: Err(Fatal::NotCallable), chain: ro.chain },
                        },
                    }
                },
            }
        },
        Syntax::Assignment(a) => {
            let eo = spec_eval(source, chain, *a.expression, scope, fuel);
            match eo.result {
                Err(f) => EvalOut { result: Err(f), chain: eo.chain },
                Ok(v) => {
                    if 0 <= scope && scope < eo.chain.len() {
                        let rebound = ScopeView {
                            parent: eo.chain[scope].parent,
                            map: eo.chain[scope].map.insert(node_text(source, a.name), v),
                            type_map: eo.chain[scope].type_map,
                            type_definition_map: eo.chain[scope].type_definition_map,
                        };
                        EvalOut {
                            result: Ok(ValueView::Nothing),
                            chain: eo.chain.update(scope, rebound),
                        }
                    } else {
                        EvalOut { result: Err(Fatal::Unevaluable), chain: eo.chain }
                    }
                },
            }
        },
        Syntax::TypeExpression(_) => EvalOut { result: Err(Fatal::Unevaluable), chain },
    }
}

/// Applying a callee to an argument, as one step: the operation the
/// evaluator dispatches on the value's tag.
pub open spec fn spec_apply(
    source: Seq<char>,
    chain: Seq<ScopeView>,
    callee: ValueView,
    arg: ValueView,
    fuel: nat,
) -> EvalOut {
    match callee {
        ValueView::Closure(c) => if fuel > 0 {
            spec_eval(
                source,
                chain.push(invocation_frame(c, arg)),
                c.body,
                chain.len() as int,
                (fuel - 1) as nat,
            )
        } else {
            EvalOut { result: Err(Fatal::Exhausted), chain }
        },
        ValueView::Primitive(p) => EvalOut { result: spec_delta(p, arg), chain },
        _ => EvalOut { result: Err(Fatal::NotCallable), chain },
    }
}

/// A value is meaningful in a state: a closure's defining scope exists and
/// its body's spans lie within the source.
pub open spec fn value_wf(v: ValueView, source_len: nat, chain_len: nat) -> bool {
    match v {
        ValueView::Closure(c) => c.scope < chain_len && syntax_wf(c.body, source_len),
        _ => true,
    }
}

pub open spec fn scope_values_wf(s: ScopeView, source_len: nat, chain_len: nat) -> bool {
    forall|k: Seq<char>|
        s.map.contains_key(k) ==> value_wf(#[trigger] s.map[k], source_len, chain_len)
}

pub open spec fn chain_values_wf(chain: Seq<ScopeView>, source_len: nat) -> bool {
    forall|i: int|
        0 <= i < chain.len() ==> scope_values_wf(
            #[trigger] chain[i],
            source_len,
            chain.len() as nat,
        )
}

/// Updating one frame's type map alone cannot break the session invariant.
pub proof fn lemma_wf_after_type_declare(
    chain: Seq<ScopeView>,
    scope: int,
    updated: ScopeView,
    source_len: nat,
)
    requires
        chain_wf(chain),
        chain_values_wf(chain, source_len),
        0 <= scope < chain.len(),
        updated.parent == chain[scope].parent,
        updated.map == chain[scope].map,
    ensures
        chain_wf(chain.update(scope, updated)),
        chain_values_wf(chain.update(scope, updated), source_len),
{
    let out = chain.update(scope, updated);
    assert forall|i: int|
        0 <= i < out.len() implies (match (#[trigger] out[i]).parent {
        Some(p) => p < i,
        None => true,
    }) by {
        if i != scope {
            assert(out[i] == chain[i]);
        }
        assert(match chain[i].parent {
            Some(p) => p < i,
            None => true,
        });
    }
    assert forall|i: int| 0 <= i < out.len() implies scope_values_wf(
        #[trigger] out[i],
        source_len,
        out.len() as nat,
    ) by {
        assert(scope_values_wf(chain[i], source_len, chain.len() as nat));
        assert forall|k: Seq<char>| out[i].map.contains_key(k) implies value_wf(
            #[trigger] out[i].map[k],
            source_len,
            out.len() as nat,
        ) by {
            if i != scope {
                assert(out[i] == chain[i]);
            }
            assert(out[i].map == chain[i].map);
            assert(value_wf(chain[i].map[k], source_len, chain.len() as nat));
        }
    }
}

/// Appending a frame whose parent exists and whose values are meaningful
/// preserves the session invariant.
pub proof fn lemma_wf_after_push(chain: Seq<ScopeView>, pushed: ScopeView, source_len: nat)
    requires
        chain_wf(chain),
        chain_values_wf(chain, source_len),
        match pushed.parent {
            Some(p) => p < chain.len(),
            None => true,
        },
        scope_values_wf(pushed, source_len, (chain.len() + 1) as nat),
    ensures
        chain_wf(chain.push(pushed)),
        chain_values_wf(chain.push(pushed), source_len),
{
    let out = chain.push(pushed);
    assert forall|i: int|
        0 <= i < out.len() implies (match (#[trigger] out[i]).parent {
        Some(p) => p < i,
        None => true,
    }) by {
        if i < chain.len() {
            assert(out[i] == chain[i]);
            assert(match chain[i].parent {
                Some(p) => p < i,
                None => true,
            });
        } else {
            assert(out[i] == pushed);
        }
    }
    assert forall|i: int| 0 <= i < out.len() implies scope_values_wf(
        #[trigger] out[i],
        source_len,
        out.len() as nat,
    ) by {
        if i < chain.len() {
            assert(out[i] == chain[i]);
            assert(scope_values_wf(chain[i], source_len, chain.len() as nat));
            assert forall|k: Seq<char>| out[i].map.contains_key(k) implies value_wf(
                #[trigger] out[i].map[k],
                source_len,
                out.len() as nat,
            ) by {
                assert(value_wf(chain[i].map[k], source_len, chain.len() as nat));
            }
        } else {
            assert(out[i] == pushed);
        }
    }
}

/// Replacing one frame with one whose parent is unchanged and whose values
/// are meaningful preserves the session invariant.
pub proof fn lemma_wf_after_frame_update(
    chain: Seq<ScopeView>,
    scope: int,
    updated: ScopeView,
    source_len: nat,
)
    requires
        chain_wf(chain),
        chain_values_wf(chain, source_len),
        0 <= scope < chain.len(),
        updated.parent == chain[scope].parent,
        scope_values_wf(updated, source_len, chain.len() as nat),
    ensures
        chain_wf(chain.update(scope, updated)),
        chain_values_wf(chain.update(scope, updated), source_len),
{
    let out = chain.update(scope, updated);
    assert forall|i: int|
        0 <= i < out.len() implies (match (#[trigger] out[i]).parent {
        Some(p) => p < i,
        None => true,
    }) by {
        if i != scope {
            assert(out[i] == chain[i]);
        }
        assert(match chain[i].parent {
            Some(p) => p < i,
            None => true,
        });
    }
    assert forall|i: int| 0 <= i < out.len() implies scope_values_wf(
        #[trigger] out[i],
        source_len,
        out.len() as nat,
    ) by {
        if i != scope {
            assert(out[i] == chain[i]);
            assert(scope_values_wf(chain[i], source_len, chain.len() as nat));
        }
    }
}

/// The value of a decimal numeral is no smaller than that of any prefix.
pub proof fn lemma_decimal_prefix(s: Seq<char>, k: int)
    requires
        0 <= k <= s.len(),
        is_decimal(s),
    ensures
        decimal_value(s) >= decimal_value(s.take(k)),
    decreases s.len() - k,
{
    if k < s.len() {
        assert(s.take(k + 1).drop_last() =~= s.take(k));
        assert(s.take(k + 1).last() == s[k]);
        assert('0' <= s[k] <= '9');
        assert(decimal_value(s.take(k + 1)) >= decimal_value(s.take(k)));
        lemma_decimal_prefix(s, k + 1);
    } else {
        assert(s.take(k) =~= s);
    }
}

/// A resolved value inherits meaningfulness from the state it was stored in.
pub proof fn lemma_resolve_value_wf(
    chain: Seq<ScopeView>,
    scope: int,
    name: Seq<char>,
    source_len: nat,
)
    requires
        chain_values_wf(chain, source_len),
    ensures
        (match resolve_value(chain, scope, name) {
            Some(v) => value_wf(v, source_len, chain.len() as nat),
            None => true,
        }),
    decreases scope,
{
    if 0 <= scope && scope < chain.len() {
        let frame = chain[scope];
        if frame.map.contains_key(name) {
        } else {
            match frame.parent {
                Some(p) => if (p as int) < scope {
                    lemma_resolve_value_wf(chain, p as int, name, source_len);
                },
                None => {},
            }
        }
    }
}

} // verus!
