use vstd::prelude::*;

use crate::assignment::AssignmentSyntax;
use crate::call::CallSyntax;
use crate::closure::ClosureSyntax;
use crate::error::ErrorView;
use crate::lexer::{descriptions_contiguous, Description};
use crate::literal::LiteralSyntax;
use crate::name::NameSyntax;
use crate::scope::ScopeView;
use crate::semantics::{
    invocation_frame, node_text, resolve_type, resolve_value, spec_apply, spec_bind, spec_eval,
};
use crate::syntax::{syntax_wf, Syntax};
use crate::token::{char_at, TERMINATOR};
use crate::types::Type;
use crate::value::ValueView;

verus! {

/// A tree whose spans fit a source keeps fitting any longer source.
pub proof fn lemma_syntax_wf_widen(s: Syntax, shorter: nat, longer: nat)
    requires
        syntax_wf(s, shorter),
        shorter <= longer,
    ensures
        syntax_wf(s, longer),
    decreases s,
{
    match s {
        Syntax::Name(NameSyntax(_)) => {},
        Syntax::Literal(LiteralSyntax(_)) => {},
        Syntax::Call(CallSyntax(left, right)) => {
            lemma_syntax_wf_widen(*left, shorter, longer);
            lemma_syntax_wf_widen(*right, shorter, longer);
        },
        Syntax::Closure(c) => {
            lemma_syntax_wf_widen(*c.expression, shorter, longer);
        },
        Syntax::Assignment(a) => {
            lemma_syntax_wf_widen(*a.expression, shorter, longer);
        },
        Syntax::TypeExpression(_) => {},
    }
}

/// In a contiguous tiling, spans of distinct tokens never overlap: the
/// positions advance by the full length of each span.
pub proof fn lemma_contiguous_monotone(ds: Seq<Description>, start: int, end: int, i1: int, i2: int)
    requires
        descriptions_contiguous(ds, start, end),
        0 <= i1 < i2 < ds.len(),
    ensures
        ds[i1].position + ds[i1].length <= ds[i2].position,
    decreases i2 - i1,
{
    if i1 + 1 < i2 {
        lemma_contiguous_monotone(ds, start, end, i1, i2 - 1);
    }
}

/// The spans of the committed tokens cover the scanned range without a gap:
/// every offset in it lies inside some span.
pub proof fn lemma_spans_cover(ds: Seq<Description>, start: int, end: int, offset: int)
    requires
        descriptions_contiguous(ds, start, end),
        start <= offset < end,
    ensures
        exists|i: int|
            0 <= i < ds.len() && (#[trigger] ds[i]).position <= offset < ds[i].position
                + ds[i].length,
    decreases ds.len(),
{
    let shorter = ds.drop_last();
    let mid = if ds.len() == 1 {
        start
    } else {
        ds.last().position as int
    };
    assert(descriptions_contiguous(shorter, start, mid));
    if offset >= ds.last().position {
        assert(ds[ds.len() - 1].position <= offset < ds[ds.len() - 1].position + ds[ds.len()
            - 1].length);
    } else {
        lemma_spans_cover(shorter, start, mid, offset);
        let i = choose|i: int|
            0 <= i < shorter.len() && (#[trigger] shorter[i]).position <= offset < shorter[i].position
                + shorter[i].length;
        assert(ds[i].position <= offset < ds[i].position + ds[i].length);
    }
}

/// The spans of the committed tokens never overlap: an offset lies inside
/// at most one span.
pub proof fn lemma_spans_disjoint(
    ds: Seq<Description>,
    start: int,
    end: int,
    i1: int,
    i2: int,
    offset: int,
)
    requires
        descriptions_contiguous(ds, start, end),
        0 <= i1 < ds.len(),
        0 <= i2 < ds.len(),
        ds[i1].position <= offset < ds[i1].position + ds[i1].length,
        ds[i2].position <= offset < ds[i2].position + ds[i2].length,
    ensures
        i1 == i2,
{
    if i1 < i2 {
        lemma_contiguous_monotone(ds, start, end, i1, i2);
    }
    if i2 < i1 {
        lemma_contiguous_monotone(ds, start, end, i2, i1);
    }
}

/// On a source free of embedded NUL characters, scanning stops exactly at
/// the end of the source, so the spans cover the whole scanned suffix.
pub proof fn lemma_scan_reaches_end(source: Seq<char>, start: int, end: int)
    requires
        0 <= start <= end <= source.len(),
        char_at(source, end) == TERMINATOR,
        forall|k: int| start <= k < source.len() ==> #[trigger] source[k] != TERMINATOR,
    ensures
        end == source.len(),
{
    if end < source.len() {
        assert(source[end] != TERMINATOR);
        assert(char_at(source, end) == source[end]);
    }
}

/// Binding never removes a declaration, never changes a declared type, and
/// never shrinks the scope chain.
pub proof fn lemma_bind_preserves_declarations(
    source: Seq<char>,
    chain: Seq<ScopeView>,
    errors: Seq<ErrorView>,
    syntax: Syntax,
    scope: int,
    frame: int,
    name: Seq<char>,
)
    requires
        0 <= frame < chain.len(),
        chain[frame].type_map.contains_key(name),
    ensures
        ({
            let o = spec_bind(source, chain, errors, syntax, scope);
            &&& o.chain.len() >= chain.len()
            &&& o.chain[frame].type_map.contains_key(name)
            &&& o.chain[frame].type_map[name] == chain[frame].type_map[name]
        }),
    decreases syntax,
{
    match syntax {
        Syntax::Name(_) => {},
        Syntax::Literal(_) => {},
        Syntax::TypeExpression(_) => {},
        Syntax::Call(CallSyntax(left, right)) => {
            lemma_bind_preserves_declarations(source, chain, errors, *left, scope, frame, name);
            let lo = spec_bind(source, chain, errors, *left, scope);
            lemma_bind_preserves_declarations(
                source,
                lo.chain,
                lo.errors,
                *right,
                scope,
                frame,
                name,
            );
        },
        Syntax::Closure(c) => {
            let param = match crate::semantics::resolve_type_definition(
                chain,
                scope,
                node_text(source, c.type_expression.name),
            ) {
                Some(t) => t,
                None => Type::Nothing,
            };
            let child = ScopeView {
                parent: Some(scope as usize),
                map: Map::<Seq<char>, ValueView>::empty(),
                type_map: Map::<Seq<char>, Type>::empty().insert(node_text(source, c.name), param),
                type_definition_map: Map::<Seq<char>, Type>::empty(),
            };
            lemma_bind_preserves_declarations(
                source,
                chain.push(child),
                errors,
                *c.expression,
                chain.len() as int,
                frame,
                name,
            );
        },
        Syntax::Assignment(a) => {
            lemma_bind_preserves_declarations(
                source,
                chain,
                errors,
                *a.expression,
                scope,
                frame,
                name,
            );
        },
    }
}

/// The binder never touches runtime value bindings: every frame keeps the
/// values it had, and the binding-time frames it allocates hold none. The
/// two passes share the chain but write disjoint namespaces.
pub proof fn lemma_bind_leaves_values_alone(
    source: Seq<char>,
    chain: Seq<ScopeView>,
    errors: Seq<ErrorView>,
    syntax: Syntax,
    scope: int,
)
    ensures
        ({
            let o = spec_bind(source, chain, errors, syntax, scope);
            &&& o.chain.len() >= chain.len()
            &&& forall|i: int| 0 <= i < chain.len() ==> (#[trigger] o.chain[i]).map == chain[i].map
            &&& forall|i: int|
                chain.len() <= i < o.chain.len() ==> (#[trigger] o.chain[i]).map == Map::<
                    Seq<char>,
                    ValueView,
                >::empty()
        }),
    decreases syntax,
{
    match syntax {
        Syntax::Name(_) => {},
        Syntax::Literal(_) => {},
        Syntax::TypeExpression(_) => {},
        Syntax::Call(CallSyntax(left, right)) => {
            lemma_bind_leaves_values_alone(source, chain, errors, *left, scope);
            let lo = spec_bind(source, chain, errors, *left, scope);
            lemma_bind_leaves_values_alone(source, lo.chain, lo.errors, *right, scope);
        },
        Syntax::Closure(c) => {
            let param = match crate::semantics::resolve_type_definition(
                chain,
                scope,
                node_text(source, c.type_expression.name),
            ) {
                Some(t) => t,
                None => Type::Nothing,
            };
            let child = ScopeView {
                parent: Some(scope as usize),
                map: Map::<Seq<char>, ValueView>::empty(),
                type_map: Map::<Seq<char>, Type>::empty().insert(node_text(source, c.name), param),
                type_definition_map: Map::<Seq<char>, Type>::empty(),
            };
            lemma_bind_leaves_values_alone(
                source,
                chain.push(child),
                errors,
                *c.expression,
                chain.len() as int,
            );
        },
        Syntax::Assignment(a) => {
            lemma_bind_leaves_values_alone(source, chain, errors, *a.expression, scope);
        },
    }
}

/// The evaluator never touches declared types or type definitions: every
/// frame keeps both, and the invocation frames it allocates declare none.
pub proof fn lemma_eval_leaves_types_alone(
    source: Seq<char>,
    chain: Seq<ScopeView>,
    syntax: Syntax,
    scope: int,
    fuel: nat,
)
    ensures
        ({
            let o = spec_eval(source, chain, syntax, scope, fuel);
            &&& o.chain.len() >= chain.len()
            &&& forall|i: int|
                0 <= i < chain.len() ==> (#[trigger] o.chain[i]).type_map == chain[i].type_map
                    && o.chain[i].type_definition_map == chain[i].type_definition_map
            &&& forall|i: int|
                chain.len() <= i < o.chain.len() ==> (#[trigger] o.chain[i]).type_map == Map::<
                    Seq<char>,
                    Type,
                >::empty() && o.chain[i].type_definition_map == Map::<Seq<char>, Type>::empty()
        }),
    decreases fuel, syntax,
{
    match syntax {
        Syntax::Name(_) => {},
        Syntax::Literal(_) => {},
        Syntax::TypeExpression(_) => {},
        Syntax::Closure(_) => {},
        Syntax::Call(CallSyntax(left, right)) => {
            lemma_eval_leaves_types_alone(source, chain, *left, scope, fuel);
            let lo = spec_eval(source, chain, *left, scope, fuel);
            match lo.result {
                Err(_) => {},
                Ok(callee) => {
                    lemma_eval_leaves_types_alone(source, lo.chain, *right, scope, fuel);
                    let ro = spec_eval(source, lo.chain, *right, scope, fuel);
                    match ro.result {
                        Err(_) => {},
                        Ok(arg) => match callee {
                            ValueView::Closure(c) => {
                                if fuel > 0 {
                                    lemma_eval_leaves_types_alone(
                                        source,
                                        ro.chain.push(invocation_frame(c, arg)),
                                        c.body,
                                        ro.chain.len() as int,
                                        (fuel - 1) as nat,
                                    );
                                }
                            },
                            _ => {},
                        },
                    }
                },
            }
        },
        Syntax::Assignment(a) => {
            lemma_eval_leaves_types_alone(source, chain, *a.expression, scope, fuel);
        },
    }
}

/// Re-declaring a name in a frame it is already declared in yields exactly
/// one Reassignment diagnostic beyond what the right-hand side raised, and
/// leaves the originally declared type untouched. The statement still types
/// as Nothing.
pub proof fn lemma_reassignment_diagnostic(
    source: Seq<char>,
    chain: Seq<ScopeView>,
    errors: Seq<ErrorView>,
    a: AssignmentSyntax,
    scope: int,
)
    requires
        0 <= scope < chain.len(),
        chain[scope].type_map.contains_key(node_text(source, a.name)),
    ensures
        ({
            let name = node_text(source, a.name);
            let eo = spec_bind(source, chain, errors, *a.expression, scope);
            let o = spec_bind(source, chain, errors, Syntax::Assignment(a), scope);
            &&& o.errors == eo.errors.push(
                ErrorView::Reassignment {
                    start: a.name.1.position as int,
                    end: a.name.1.position + a.name.1.length,
                    text: name,
                },
            )
            &&& o.chain == eo.chain
            &&& o.chain[scope].type_map[name] == chain[scope].type_map[name]
            &&& o.bound == Type::Nothing
        }),
{
    lemma_bind_preserves_declarations(
        source,
        chain,
        errors,
        *a.expression,
        scope,
        scope,
        node_text(source, a.name),
    );
}

/// A call whose callee binds to Closure(param, ret) and whose argument
/// binds to exactly param binds to ret, and the call itself adds no
/// diagnostic: operands that bind cleanly give a clean, well-typed call.
pub proof fn lemma_well_typed_call(
    source: Seq<char>,
    chain: Seq<ScopeView>,
    errors: Seq<ErrorView>,
    call: CallSyntax,
    scope: int,
    param: Type,
    ret: Type,
)
    requires
        ({
            let lo = spec_bind(source, chain, errors, *call.0, scope);
            let ro = spec_bind(source, lo.chain, lo.errors, *call.1, scope);
            &&& lo.bound == Type::Closure(Box::new(param), Box::new(ret))
            &&& ro.bound == param
        }),
    ensures
        ({
            let lo = spec_bind(source, chain, errors, *call.0, scope);
            let ro = spec_bind(source, lo.chain, lo.errors, *call.1, scope);
            let o = spec_bind(source, chain, errors, Syntax::Call(call), scope);
            &&& o.bound == ret
            &&& o.errors == ro.errors
            &&& o.chain == ro.chain
            &&& (ro.errors == errors ==> o.errors == errors)
        }),
{
}

/// A call whose argument's bound type differs from the parameter type still
/// binds to the closure's return type, with exactly one UnexpectedType
/// diagnostic added: checking continues past the mismatch.
pub proof fn lemma_mismatched_call(
    source: Seq<char>,
    chain: Seq<ScopeView>,
    errors: Seq<ErrorView>,
    call: CallSyntax,
    scope: int,
    param: Type,
    ret: Type,
)
    requires
        ({
            let lo = spec_bind(source, chain, errors, *call.0, scope);
            let ro = spec_bind(source, lo.chain, lo.errors, *call.1, scope);
            &&& lo.bound == Type::Closure(Box::new(param), Box::new(ret))
            &&& ro.bound != param
        }),
    ensures
        ({
            let lo = spec_bind(source, chain, errors, *call.0, scope);
            let ro = spec_bind(source, lo.chain, lo.errors, *call.1, scope);
            let o = spec_bind(source, chain, errors, Syntax::Call(call), scope);
            &&& o.bound == ret
            &&& o.chain == ro.chain
            &&& o.errors == ro.errors.push(
                ErrorView::UnexpectedType {
                    start: 0,
                    end: 0,
                    expected: param,
                    received: ro.bound,
                },
            )
        }),
{
}

/// A frame that binds a name resolves it locally: an inner binding shadows
/// any outer binding of the same name, both for values and for types.
pub proof fn lemma_shadowing(chain: Seq<ScopeView>, scope: int, name: Seq<char>)
    requires
        0 <= scope < chain.len(),
    ensures
        chain[scope].map.contains_key(name) ==> resolve_value(chain, scope, name) == Some(
            chain[scope].map[name],
        ),
        chain[scope].type_map.contains_key(name) ==> resolve_type(chain, scope, name) == Some(
            chain[scope].type_map[name],
        ),
{
}

/// Invoking a closure allocates one fresh frame binding exactly the
/// parameter to the argument, with the closure's defining scope as parent;
/// the body is evaluated there. In particular the parameter name resolves
/// to the argument of this very invocation, shadowing any outer binding.
pub proof fn lemma_invocation_fresh_frame(
    source: Seq<char>,
    chain: Seq<ScopeView>,
    c: crate::value::ClosureView,
    arg: ValueView,
    fuel: nat,
)
    requires
        fuel > 0,
    ensures
        spec_apply(source, chain, ValueView::Closure(c), arg, fuel) == spec_eval(
            source,
            chain.push(invocation_frame(c, arg)),
            c.body,
            chain.len() as int,
            (fuel - 1) as nat,
        ),
        invocation_frame(c, arg).map == Map::<Seq<char>, ValueView>::empty().insert(c.param, arg),
        invocation_frame(c, arg).parent == Some(c.scope),
        resolve_value(
            chain.push(invocation_frame(c, arg)),
            chain.len() as int,
            c.param,
        ) == Some(arg),
{
    let frame = invocation_frame(c, arg);
    assert(chain.push(frame)[chain.len() as int] == frame);
}

/// Calling one closure twice never lets the second invocation observe the
/// first invocation's parameter binding: each call is evaluated in its own
/// frame, holding nothing but its own argument, so the frames are isolated
/// except through shared outer scopes.
pub proof fn lemma_invocation_isolated(
    source: Seq<char>,
    chain: Seq<ScopeView>,
    c: crate::value::ClosureView,
    first_arg: ValueView,
    second_arg: ValueView,
    fuel: nat,
)
    requires
        fuel > 0,
    ensures
        ({
            let first = spec_apply(source, chain, ValueView::Closure(c), first_arg, fuel);
            let after_first = first.chain;
            let second_frame = invocation_frame(c, second_arg);
            &&& spec_apply(source, after_first, ValueView::Closure(c), second_arg, fuel)
                == spec_eval(
                source,
                after_first.push(second_frame),
                c.body,
                after_first.len() as int,
                (fuel - 1) as nat,
            )
            &&& second_frame.map == Map::<Seq<char>, ValueView>::empty().insert(
                c.param,
                second_arg,
            )
            &&& !second_frame.map.contains_key(c.param) || second_frame.map[c.param] == second_arg
            &&& resolve_value(
                after_first.push(second_frame),
                after_first.len() as int,
                c.param,
            ) == Some(second_arg)
        }),
{
    let first = spec_apply(source, chain, ValueView::Closure(c), first_arg, fuel);
    lemma_invocation_fresh_frame(source, first.chain, c, second_arg, fuel);
}

/// An identifier that resolves nowhere along the chain binds to Nothing
/// with exactly one UnknownName diagnostic.
pub proof fn lemma_unknown_name(
    source: Seq<char>,
    chain: Seq<ScopeView>,
    errors: Seq<ErrorView>,
    n: NameSyntax,
    scope: int,
)
    requires
        resolve_type(chain, scope, node_text(source, n.0)) is None,
    ensures
        ({
            let o = spec_bind(source, chain, errors, Syntax::Name(n), scope);
            &&& o.bound == Type::Nothing
            &&& o.chain == chain
            &&& o.errors == errors.push(
                ErrorView::UnknownName {
                    start: n.0.1.position as int,
                    end: n.0.1.position + n.0.1.length,
                    text: node_text(source, n.0),
                },
            )
        }),
{
}

} // verus!
