use vstd::prelude::*;

use crate::assignment::AssignmentSyntax;
use crate::call::CallSyntax;
use crate::closure::ClosureSyntax;
use crate::lexer::Description;
use crate::literal::LiteralSyntax;
use crate::name::NameSyntax;
use crate::parser::{spec_statement, spec_with_type, tok_at, Parser};
use crate::token::Token;
use crate::type_expression::TypeExpressionSyntax;

verus! {

/// One lexical unit: its kind and its span.
pub type Leaf = (Token, Description);

pub type Node = Leaf;

/// A subtree, owned outright by its parent.
pub type Branch = Box<Syntax>;

/// The five expression forms of the language, plus the parameter-type
/// annotation that only occurs inside a closure head.
#[derive(Debug)]
pub enum Syntax {
    Name(NameSyntax),
    Literal(LiteralSyntax),
    Call(CallSyntax),
    Closure(ClosureSyntax),
    Assignment(AssignmentSyntax),
    TypeExpression(TypeExpressionSyntax),
}

/// The node's span lies within a source of `len` characters.
pub open spec fn node_in(node: Leaf, len: nat) -> bool {
    node.1.position + node.1.length <= len
}

pub open spec fn literal_token(t: Token) -> bool {
    t == Token::Number || t == Token::String || t == Token::Boolean || t == Token::Nothing
}

/// Every span in the tree lies within a source of `len` characters, and
/// every literal leaf carries a literal token. The parser only produces such
/// trees, and the binder and the evaluator only accept them.
pub open spec fn syntax_wf(s: Syntax, len: nat) -> bool
    decreases s,
{
    match s {
        Syntax::Name(NameSyntax(node)) => node_in(node, len),
        Syntax::Literal(LiteralSyntax(node)) => node_in(node, len) && literal_token(node.0),
        Syntax::Call(CallSyntax(left, right)) => syntax_wf(*left, len) && syntax_wf(*right, len),
        Syntax::Closure(closure) => {
            &&& node_in(closure.name, len)
            &&& node_in(closure.type_expression.name, len)
            &&& syntax_wf(*closure.expression, len)
        },
        Syntax::Assignment(assignment) => {
            &&& node_in(assignment.name, len)
            &&& syntax_wf(*assignment.expression, len)
        },
        Syntax::TypeExpression(te) => node_in(te.name, len),
    }
}

impl Clone for Syntax {
    fn clone(&self) -> (r: Syntax)
        ensures
            r == *self,
        decreases self,
    {
        match self {
            Syntax::Name(name) => Syntax::Name(name.clone()),
            Syntax::Literal(literal) => Syntax::Literal(literal.clone()),
            Syntax::Call(call) => Syntax::Call(call.clone()),
            Syntax::Closure(closure) => Syntax::Closure(closure.clone()),
            Syntax::Assignment(assignment) => Syntax::Assignment(assignment.clone()),
            Syntax::TypeExpression(te) => Syntax::TypeExpression(te.clone()),
        }
    }
}

impl Syntax {
    /// A statement that begins `name : Type`: a typed assignment when an
    /// equals sign follows, otherwise a closure. A closure head whose lambda
    /// is missing is recovered like any other expected token.
    pub fn parse_with_type(parser: &mut Parser) -> (r: Syntax)
        requires
            old(parser).wf(),
            tok_at(old(parser).nodes@, old(parser).position + 1) == Token::Colon,
        ensures
            final(parser).wf(),
            final(parser).same_nodes(old(parser)),
            old(parser).position <= final(parser).position,
            ({
                let o = spec_with_type(
                    old(parser).nodes@,
                    crate::error::views_of(old(parser).errors@),
                    old(parser).position as int,
                );
                &&& r == o.syntax
                &&& final(parser).position == o.pos
                &&& crate::error::views_of(final(parser).errors@) == o.errors
            }),
            syntax_wf(r, old(parser).src_len@),
        decreases old(parser).nodes@.len() - old(parser).position, 4int,
    {
        let name = parser.expect(Token::Identifier);
        let type_expression = TypeExpressionSyntax::parse(parser);
        match parser.current() {
            Token::Equals => Syntax::Assignment(
                AssignmentSyntax::parse_with_type(name, type_expression, parser),
            ),
            _ => Syntax::Closure(ClosureSyntax::parse(name, type_expression, parser)),
        }
    }

    /// One statement, selected by peeking two tokens ahead: a colon there
    /// begins a typed form, an equals sign an assignment, anything else a
    /// call chain.
    pub fn parse(parser: &mut Parser) -> (r: Syntax)
        requires
            old(parser).wf(),
        ensures
            final(parser).wf(),
            final(parser).same_nodes(old(parser)),
            old(parser).position <= final(parser).position,
            ({
                let o = spec_statement(
                    old(parser).nodes@,
                    crate::error::views_of(old(parser).errors@),
                    old(parser).position as int,
                );
                &&& r == o.syntax
                &&& final(parser).position == o.pos
                &&& crate::error::views_of(final(parser).errors@) == o.errors
            }),
            syntax_wf(r, old(parser).src_len@),
        decreases old(parser).nodes@.len() - old(parser).position, 5int,
    {
        match parser.peek(1) {
            Token::Colon => Syntax::parse_with_type(parser),
            Token::Equals => Syntax::Assignment(AssignmentSyntax::parse(parser)),
            _ => CallSyntax::parse(parser),
        }
    }
}

} // verus!
