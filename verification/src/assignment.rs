use vstd::prelude::*;

use crate::error::views_of;
use crate::parser::{spec_assignment, spec_assignment_with_type, tok_at, Parser};
use crate::syntax::{node_in, syntax_wf, Branch, Leaf, Syntax};
use crate::token::Token;
use crate::type_expression::TypeExpressionSyntax;

verus! {

/// A single-use name binding: `name = expression`, optionally carrying a
/// `: Type` annotation between the name and the equals sign.
#[derive(Debug)]
pub struct AssignmentSyntax {
    pub name: Leaf,
    pub type_expression: Option<TypeExpressionSyntax>,
    pub equals: Leaf,
    pub expression: Branch,
}

impl Clone for AssignmentSyntax {
    fn clone(&self) -> (r: AssignmentSyntax)
        ensures
            r == *self,
        decreases self,
    {
        AssignmentSyntax {
            name: self.name,
            type_expression: match &self.type_expression {
                Some(te) => Some(te.clone()),
                None => None,
            },
            equals: self.equals,
            expression: Box::new((*self.expression).clone()),
        }
    }
}

impl AssignmentSyntax {
    /// A typed assignment, after its `name : Type` head has been consumed.
    pub fn parse_with_type(
        name: Leaf,
        type_expression: TypeExpressionSyntax,
        parser: &mut Parser,
    ) -> (r: AssignmentSyntax)
        requires
            old(parser).wf(),
        ensures
            final(parser).wf(),
            final(parser).same_nodes(old(parser)),
            old(parser).position <= final(parser).position,
            ({
                let o = spec_assignment_with_type(
                    old(parser).nodes@,
                    views_of(old(parser).errors@),
                    old(parser).position as int,
                    name,
                    type_expression,
                );
                &&& r == o.assignment
                &&& final(parser).position == o.pos
                &&& views_of(final(parser).errors@) == o.errors
            }),
            node_in(name, old(parser).src_len@) ==> syntax_wf(
                Syntax::Assignment(r),
                old(parser).src_len@,
            ),
        decreases old(parser).nodes@.len() - old(parser).position, 9int,
    {
        AssignmentSyntax {
            name,
            type_expression: Some(type_expression),
            equals: parser.expect(Token::Equals),
            expression: Box::new(Syntax::parse(parser)),
        }
    }

    /// An untyped assignment; the equals sign one token ahead selected this
    /// production, so `demand` cannot miss it.
    pub fn parse(parser: &mut Parser) -> (r: AssignmentSyntax)
        requires
            old(parser).wf(),
            tok_at(old(parser).nodes@, old(parser).position + 1) == Token::Equals,
        ensures
            final(parser).wf(),
            final(parser).same_nodes(old(parser)),
            old(parser).position <= final(parser).position,
            ({
                let o = spec_assignment(
                    old(parser).nodes@,
                    views_of(old(parser).errors@),
                    old(parser).position as int,
                );
                &&& r == o.assignment
                &&& final(parser).position == o.pos
                &&& views_of(final(parser).errors@) == o.errors
            }),
            syntax_wf(Syntax::Assignment(r), old(parser).src_len@),
        decreases old(parser).nodes@.len() - old(parser).position, 4int,
    {
        AssignmentSyntax {
            name: parser.expect(Token::Identifier),
            type_expression: None,
            equals: parser.demand(Token::Equals),
            expression: Box::new(Syntax::parse(parser)),
        }
    }

    /// Bind the right-hand side first; then declare the name in the current
    /// frame, or raise one Reassignment diagnostic and leave the original
    /// binding untouched when the name is already declared there. Shadowing
    /// an outer frame's binding stays permitted. Assignments type as
    /// Nothing.
    pub fn bind(
        &self,
        interpreter: &mut crate::interpreter::Interpreter,
        scope: crate::scope::ScopeIndex,
    ) -> (t: crate::types::Type)
        requires
            old(interpreter).wf(),
            scope < old(interpreter)@.chain.len(),
            syntax_wf(Syntax::Assignment(AssignmentSyntax {
                name: self.name,
                type_expression: self.type_expression,
                equals: self.equals,
                expression: self.expression,
            }), old(interpreter)@.source.len()),
        ensures
            final(interpreter).wf(),
            final(interpreter)@.source == old(interpreter)@.source,
            old(interpreter)@.chain.len() <= final(interpreter)@.chain.len(),
            ({
                let o = crate::semantics::spec_bind(
                    old(interpreter)@.source,
                    old(interpreter)@.chain,
                    old(interpreter)@.errors,
                    Syntax::Assignment(AssignmentSyntax {
                        name: self.name,
                        type_expression: self.type_expression,
                        equals: self.equals,
                        expression: self.expression,
                    }),
                    scope as int,
                );
                &&& final(interpreter)@.chain == o.chain
                &&& final(interpreter)@.errors == o.errors
                &&& t == o.bound
            }),
        decreases self,
    {
        let expression_type = interpreter.bind((*self.expression).clone(), scope);
        let ghost mid = interpreter@;

        let source = interpreter.source(self.name);
        let declared = interpreter.chain[scope].type_map.get(&source).is_some();
        if declared {
            let range = interpreter.range(self.name);
            interpreter.error(crate::error::Error::Reassignment(range, source));
        } else {
            interpreter.declare(scope, self.name, expression_type);
            proof {
                crate::semantics::lemma_wf_after_type_declare(
                    mid.chain,
                    scope as int,
                    interpreter@.chain[scope as int],
                    mid.source.len(),
                );
            }
        }

        crate::types::Type::Nothing
    }

    /// Evaluate the right-hand side, then bind the value under the name in
    /// the current frame, unconditionally overwriting any prior runtime
    /// binding there; the single-declaration rule is a binding-time check
    /// only. An assignment evaluates to Nothing.
    pub fn eval(
        &self,
        interpreter: &mut crate::interpreter::Interpreter,
        scope: crate::scope::ScopeIndex,
        fuel: u64,
    ) -> (r: Result<crate::value::Value, crate::value::Fatal>)
        requires
            old(interpreter).wf(),
            scope < old(interpreter)@.chain.len(),
            node_in(self.name, old(interpreter)@.source.len()),
            syntax_wf(*self.expression, old(interpreter)@.source.len()),
        ensures
            final(interpreter).wf(),
            final(interpreter)@.source == old(interpreter)@.source,
            final(interpreter)@.errors == old(interpreter)@.errors,
            old(interpreter)@.chain.len() <= final(interpreter)@.chain.len(),
            ({
                let o = crate::semantics::spec_eval(
                    old(interpreter)@.source,
                    old(interpreter)@.chain,
                    Syntax::Assignment(AssignmentSyntax {
                        name: self.name,
                        type_expression: self.type_expression,
                        equals: self.equals,
                        expression: self.expression,
                    }),
                    scope as int,
                    fuel as nat,
                );
                &&& final(interpreter)@.chain == o.chain
                &&& crate::interpreter::res_view(r) == o.result
            }),
            (r matches Ok(v) ==> crate::semantics::value_wf(
                v@,
                old(interpreter)@.source.len(),
                final(interpreter)@.chain.len() as nat,
            )),
        decreases fuel, self,
    {
        let name = interpreter.source(self.name);
        let value = match interpreter.eval_at((*self.expression).clone(), scope, fuel) {
            Ok(v) => v,
            Err(f) => {
                return Err(f);
            },
        };
        let ghost mid = interpreter@;
        let ghost chain_exec = interpreter.chain@;
        let ghost name_view = name@;
        let ghost value_view = value@;
        interpreter.chain[scope].map.insert(name, value);
        proof {
            crate::interpreter::lemma_chain_views_update(
                chain_exec,
                scope as int,
                interpreter.chain@[scope as int],
            );
            let updated = interpreter@.chain[scope as int];
            assert(updated.map == mid.chain[scope as int].map.insert(name_view, value_view));
            assert forall|k: Seq<char>| updated.map.contains_key(k) implies
                crate::semantics::value_wf(
                    #[trigger] updated.map[k],
                    mid.source.len(),
                    mid.chain.len() as nat,
                ) by {
                if k == name_view {
                    assert(updated.map[k] == value_view);
                } else {
                    assert(updated.map[k] == mid.chain[scope as int].map[k]);
                    assert(crate::semantics::scope_values_wf(
                        mid.chain[scope as int],
                        mid.source.len(),
                        mid.chain.len() as nat,
                    ));
                }
            }
            crate::semantics::lemma_wf_after_frame_update(
                mid.chain,
                scope as int,
                updated,
                mid.source.len(),
            );
        }
        Ok(crate::value::Value::Nothing)
    }
}

} // verus!
