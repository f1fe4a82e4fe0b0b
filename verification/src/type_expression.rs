use vstd::prelude::*;

use crate::parser::{spec_next, spec_type_expression, tok_at, Parser};
use crate::syntax::{node_in, Node};
use crate::token::Token;

verus! {

/// The `: Type` annotation of a closure head or a typed assignment.
#[derive(Debug)]
pub struct TypeExpressionSyntax {
    pub colon: Node,
    pub name: Node,
}

impl Clone for TypeExpressionSyntax {
    fn clone(&self) -> (r: TypeExpressionSyntax)
        ensures
            r == *self,
    {
        TypeExpressionSyntax { colon: self.colon, name: self.name }
    }
}

impl TypeExpressionSyntax {
    /// The colon is guaranteed by the dispatch that chose this production.
    pub fn parse(parser: &mut Parser) -> (r: TypeExpressionSyntax)
        requires
            old(parser).wf(),
            tok_at(old(parser).nodes@, old(parser).position as int) == Token::Colon,
        ensures
            final(parser).wf(),
            final(parser).same_nodes(old(parser)),
            old(parser).position <= final(parser).position,
            ({
                let o = spec_type_expression(
                    old(parser).nodes@,
                    crate::error::views_of(old(parser).errors@),
                    old(parser).position as int,
                );
                &&& r == o.te
                &&& final(parser).position == o.pos
                &&& crate::error::views_of(final(parser).errors@) == o.errors
            }),
            node_in(r.name, old(parser).src_len@),
            old(parser).position < final(parser).position,
    {
        TypeExpressionSyntax {
            colon: parser.demand(Token::Colon),
            name: parser.expect(Token::Identifier),
        }
    }

    /// Resolve the annotated type name in the type-definition namespace; an
    /// unknown type name silently resolves to Nothing.
    pub fn bind(&self, interpreter: &crate::interpreter::Interpreter, scope: crate::scope::ScopeIndex) -> (t: crate::types::Type)
        requires
            crate::semantics::chain_wf(interpreter@.chain),
            scope < interpreter@.chain.len(),
            node_in(self.name, interpreter@.source.len()),
            interpreter@.source.len() <= usize::MAX,
        ensures
            t == (match crate::semantics::resolve_type_definition(
                interpreter@.chain,
                scope as int,
                crate::semantics::node_text(interpreter@.source, self.name),
            ) {
                Some(t) => t,
                None => crate::types::Type::Nothing,
            }),
    {
        match interpreter.lookup_type_definition(scope, self.name) {
            Some(definition) => definition,
            None => crate::types::Type::Nothing,
        }
    }
}

} // verus!
