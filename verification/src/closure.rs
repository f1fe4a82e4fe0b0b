use vstd::prelude::*;

use crate::error::views_of;
use crate::parser::{spec_closure, Parser};
use crate::syntax::{node_in, syntax_wf, Branch, Leaf, Syntax};
use crate::token::Token;
use crate::type_expression::TypeExpressionSyntax;

verus! {

/// A single-parameter closure: `name : Type → expression`.
#[derive(Debug)]
pub struct ClosureSyntax {
    pub name: Leaf,
    pub type_expression: TypeExpressionSyntax,
    pub lambda: Leaf,
    pub expression: Branch,
}

impl Clone for ClosureSyntax {
    fn clone(&self) -> (r: ClosureSyntax)
        ensures
            r == *self,
        decreases self,
    {
        ClosureSyntax {
            name: self.name,
            type_expression: self.type_expression.clone(),
            lambda: self.lambda,
            expression: Box::new((*self.expression).clone()),
        }
    }
}

impl ClosureSyntax {
    /// A closure body, after its `name : Type` head has been consumed. The
    /// lambda is consumed with recovery, so a missing one only records an
    /// UnexpectedToken diagnostic.
    pub fn parse(
        name: Leaf,
        type_expression: TypeExpressionSyntax,
        parser: &mut Parser,
    ) -> (r: ClosureSyntax)
        requires
            old(parser).wf(),
        ensures
            final(parser).wf(),
            final(parser).same_nodes(old(parser)),
            old(parser).position <= final(parser).position,
            ({
                let o = spec_closure(
                    old(parser).nodes@,
                    views_of(old(parser).errors@),
                    old(parser).position as int,
                    name,
                    type_expression,
                );
                &&& r == o.closure
                &&& final(parser).position == o.pos
                &&& views_of(final(parser).errors@) == o.errors
            }),
            node_in(name, old(parser).src_len@) && node_in(
                type_expression.name,
                old(parser).src_len@,
            ) ==> syntax_wf(Syntax::Closure(r), old(parser).src_len@),
        decreases old(parser).nodes@.len() - old(parser).position, 9int,
    {
        ClosureSyntax {
            name,
            type_expression,
            lambda: parser.expect(Token::Lambda),
            expression: Box::new(Syntax::parse(parser)),
        }
    }

    /// Resolve the parameter's annotated type, allocate one child frame
    /// declaring only the parameter, and bind the body there; the result is
    /// the arrow from the parameter type to the body's type.
    pub fn bind(
        &self,
        interpreter: &mut crate::interpreter::Interpreter,
        scope: crate::scope::ScopeIndex,
    ) -> (t: crate::types::Type)
        requires
            old(interpreter).wf(),
            scope < old(interpreter)@.chain.len(),
            node_in(self.name, old(interpreter)@.source.len()),
            node_in(self.type_expression.name, old(interpreter)@.source.len()),
            syntax_wf(*self.expression, old(interpreter)@.source.len()),
        ensures
            final(interpreter).wf(),
            final(interpreter)@.source == old(interpreter)@.source,
            old(interpreter)@.chain.len() <= final(interpreter)@.chain.len(),
            ({
                let o = crate::semantics::spec_bind(
                    old(interpreter)@.source,
                    old(interpreter)@.chain,
                    old(interpreter)@.errors,
                    Syntax::Closure(ClosureSyntax {
                        name: self.name,
                        type_expression: self.type_expression,
                        lambda: self.lambda,
                        expression: self.expression,
                    }),
                    scope as int,
                );
                &&& final(interpreter)@.chain == o.chain
                &&& final(interpreter)@.errors == o.errors
                &&& t == o.bound
            }),
        decreases self,
    {
        let param = self.type_expression.bind(interpreter, scope);
        let mut child = crate::scope::Scope::new(scope);
        child.type_map.insert(interpreter.source(self.name), param.clone());

        let ghost before = interpreter@;
        let ghost chain_exec = interpreter.chain@;
        let ghost child_view = child@;
        interpreter.chain.push(child);
        proof {
            crate::interpreter::lemma_chain_views_push(chain_exec, interpreter.chain@.last());
            crate::semantics::lemma_wf_after_push(
                before.chain,
                child_view,
                before.source.len(),
            );
        }
        let index = interpreter.chain.len() - 1;
        let ret = interpreter.bind((*self.expression).clone(), index);
        crate::types::Type::Closure(Box::new(param), Box::new(ret))
    }

    /// Produce the runtime closure: the defining scope's index, the
    /// parameter's name, and the body, all captured immutably.
    pub fn eval(&self, interpreter: &crate::interpreter::Interpreter, scope: crate::scope::ScopeIndex) -> (r: crate::value::Value)
        requires
            node_in(self.name, interpreter@.source.len()),
            interpreter@.source.len() <= usize::MAX,
        ensures
            r@ == crate::value::ValueView::Closure(
                crate::value::ClosureView {
                    scope,
                    param: crate::semantics::node_text(interpreter@.source, self.name),
                    body: *self.expression,
                },
            ),
    {
        crate::value::Value::Closure(
            crate::value::ClosureValue {
                scope,
                param: interpreter.source(self.name),
                body: Box::new((*self.expression).clone()),
            },
        )
    }
}

} // verus!
