use vstd::prelude::*;

use crate::assignment::AssignmentSyntax;
use crate::call::CallSyntax;
use crate::closure::ClosureSyntax;
use crate::error::{views_of, Error, ErrorView};
use crate::lexer::{descriptions_contiguous, lemma_contiguous_bounds, Description, Lexer, LexState};
use crate::literal::LiteralSyntax;
use crate::name::NameSyntax;
use crate::syntax::{literal_token, node_in, syntax_wf, Node, Syntax};
use crate::token::{char_at, scan, tokenize, Token, TERMINATOR};
use crate::type_expression::TypeExpressionSyntax;

verus! {

/// The token at cursor `i`, or EndOfFile past the end.
pub open spec fn tok_at(nodes: Seq<Node>, i: int) -> Token {
    if 0 <= i && i < nodes.len() {
        nodes[i].0
    } else {
        Token::EndOfFile
    }
}

/// The synthetic node handed out past the end of the input: an EndOfFile
/// token with an empty span just after the last real one.
pub open spec fn eof_node(nodes: Seq<Node>) -> Node {
    if nodes.len() > 0 {
        (
            Token::EndOfFile,
            Description {
                position: (nodes.last().1.position + nodes.last().1.length) as usize,
                length: 0,
            },
        )
    } else {
        (Token::EndOfFile, Description { position: 0, length: 0 })
    }
}

/// Consuming one node: the node handed out and the new cursor, which stays
/// put once the end is reached.
pub open spec fn spec_next(nodes: Seq<Node>, pos: int) -> (Node, int) {
    if 0 <= pos && pos < nodes.len() {
        (nodes[pos], pos + 1)
    } else {
        (eof_node(nodes), pos)
    }
}

#[verifier::ext_equal]
pub ghost struct NodeOut {
    pub node: Node,
    pub errors: Seq<ErrorView>,
    pub pos: int,
}

/// The recovering consumption policy: on a mismatch, record an
/// UnexpectedToken diagnostic and hand back a synthetic node of the expected
/// kind over the mismatched span.
pub open spec fn spec_expect(
    nodes: Seq<Node>,
    errors: Seq<ErrorView>,
    pos: int,
    expected: Token,
) -> NodeOut {
    let (node, next) = spec_next(nodes, pos);
    if node.0 == expected {
        NodeOut { node, errors, pos: next }
    } else {
        NodeOut {
            node: (expected, node.1),
            errors: errors.push(
                ErrorView::UnexpectedToken {
                    start: node.1.position as int,
                    end: node.1.position + node.1.length,
                    expected,
                    received: node.0,
                },
            ),
            pos: next,
        }
    }
}

#[verifier::ext_equal]
pub ghost struct ParseOut {
    pub syntax: Syntax,
    pub errors: Seq<ErrorView>,
    pub pos: int,
}

#[verifier::ext_equal]
pub ghost struct TeOut {
    pub te: TypeExpressionSyntax,
    pub errors: Seq<ErrorView>,
    pub pos: int,
}

#[verifier::ext_equal]
pub ghost struct AsgOut {
    pub assignment: AssignmentSyntax,
    pub errors: Seq<ErrorView>,
    pub pos: int,
}

#[verifier::ext_equal]
pub ghost struct ClosOut {
    pub closure: ClosureSyntax,
    pub errors: Seq<ErrorView>,
    pub pos: int,
}

pub open spec fn spec_type_expression(nodes: Seq<Node>, errors: Seq<ErrorView>, pos: int) -> TeOut {
    let (colon, p1) = spec_next(nodes, pos);
    let name = spec_expect(nodes, errors, p1, Token::Identifier);
    TeOut {
        te: TypeExpressionSyntax { colon, name: name.node },
        errors: name.errors,
        pos: name.pos,
    }
}

pub open spec fn spec_primary(nodes: Seq<Node>, errors: Seq<ErrorView>, pos: int) -> ParseOut
    decreases nodes.len() - pos, 1int,
{
    if tok_at(nodes, pos) == Token::OpenParenthesis {
        let inner = spec_statement(nodes, errors, pos + 1);
        let close = spec_expect(nodes, inner.errors, inner.pos, Token::CloseParenthesis);
        ParseOut { syntax: inner.syntax, errors: close.errors, pos: close.pos }
    } else if literal_token(tok_at(nodes, pos)) {
        let (node, p1) = spec_next(nodes, pos);
        ParseOut { syntax: Syntax::Literal(LiteralSyntax(node)), errors, pos: p1 }
    } else {
        let name = spec_expect(nodes, errors, pos, Token::Identifier);
        ParseOut { syntax: Syntax::Name(NameSyntax(name.node)), errors: name.errors, pos: name.pos }
    }
}

/// The left-associative fold of juxtaposed primaries onto `left`.
pub open spec fn spec_call_loop(
    nodes: Seq<Node>,
    errors: Seq<ErrorView>,
    pos: int,
    left: Syntax,
) -> ParseOut
    decreases nodes.len() - pos, 2int,
{
    if tok_at(nodes, pos) != Token::EndOfFile && tok_at(nodes, pos) != Token::CloseParenthesis {
        let right = spec_primary(nodes, errors, pos);
        let joined = Syntax::Call(CallSyntax(Box::new(left), Box::new(right.syntax)));
        if pos < right.pos && right.pos <= nodes.len() {
            spec_call_loop(nodes, right.errors, right.pos, joined)
        } else {
            ParseOut { syntax: joined, errors: right.errors, pos: right.pos }
        }
    } else {
        ParseOut { syntax: left, errors, pos }
    }
}

pub open spec fn spec_call(nodes: Seq<Node>, errors: Seq<ErrorView>, pos: int) -> ParseOut
    decreases nodes.len() - pos, 3int,
{
    let first = spec_primary(nodes, errors, pos);
    if pos <= first.pos && first.pos <= nodes.len() {
        spec_call_loop(nodes, first.errors, first.pos, first.syntax)
    } else {
        first
    }
}

pub open spec fn spec_assignment(nodes: Seq<Node>, errors: Seq<ErrorView>, pos: int) -> AsgOut
    decreases nodes.len() - pos, 4int,
{
    let name = spec_expect(nodes, errors, pos, Token::Identifier);
    let (equals, p2) = spec_next(nodes, name.pos);
    if pos < p2 && p2 <= nodes.len() {
        let expression = spec_statement(nodes, name.errors, p2);
        AsgOut {
            assignment: AssignmentSyntax {
                name: name.node,
                type_expression: None,
                equals,
                expression: Box::new(expression.syntax),
            },
            errors: expression.errors,
            pos: expression.pos,
        }
    } else {
        AsgOut {
            assignment: AssignmentSyntax {
                name: name.node,
                type_expression: None,
                equals,
                expression: Box::new(Syntax::Name(NameSyntax(name.node))),
            },
            errors: name.errors,
            pos: name.pos,
        }
    }
}

pub open spec fn spec_assignment_with_type(
    nodes: Seq<Node>,
    errors: Seq<ErrorView>,
    pos: int,
    name: Node,
    te: TypeExpressionSyntax,
) -> AsgOut
    decreases nodes.len() - pos, 9int,
{
    let equals = spec_expect(nodes, errors, pos, Token::Equals);
    if pos <= equals.pos && equals.pos <= nodes.len() {
        let expression = spec_statement(nodes, equals.errors, equals.pos);
        AsgOut {
            assignment: AssignmentSyntax {
                name,
                type_expression: Some(te),
                equals: equals.node,
                expression: Box::new(expression.syntax),
            },
            errors: expression.errors,
            pos: expression.pos,
        }
    } else {
        AsgOut {
            assignment: AssignmentSyntax {
                name,
                type_expression: Some(te),
                equals: equals.node,
                expression: Box::new(Syntax::Name(NameSyntax(name))),
            },
            errors: equals.errors,
            pos: equals.pos,
        }
    }
}

pub open spec fn spec_closure(
    nodes: Seq<Node>,
    errors: Seq<ErrorView>,
    pos: int,
    name: Node,
    te: TypeExpressionSyntax,
) -> ClosOut
    decreases nodes.len() - pos, 9int,
{
    let lambda = spec_expect(nodes, errors, pos, Token::Lambda);
    if pos <= lambda.pos && lambda.pos <= nodes.len() {
        let expression = spec_statement(nodes, lambda.errors, lambda.pos);
        ClosOut {
            closure: ClosureSyntax {
                name,
                type_expression: te,
                lambda: lambda.node,
                expression: Box::new(expression.syntax),
            },
            errors: expression.errors,
            pos: expression.pos,
        }
    } else {
        ClosOut {
            closure: ClosureSyntax {
                name,
                type_expression: te,
                lambda: lambda.node,
                expression: Box::new(Syntax::Name(NameSyntax(name))),
            },
            errors: lambda.errors,
            pos: lambda.pos,
        }
    }
}

pub open spec fn spec_with_type(nodes: Seq<Node>, errors: Seq<ErrorView>, pos: int) -> ParseOut
    decreases nodes.len() - pos, 4int,
{
    let name = spec_expect(nodes, errors, pos, Token::Identifier);
    let te = spec_type_expression(nodes, name.errors, name.pos);
    if pos < te.pos && te.pos <= nodes.len() {
        if tok_at(nodes, te.pos) == Token::Equals {
            let a = spec_assignment_with_type(nodes, te.errors, te.pos, name.node, te.te);
            ParseOut { syntax: Syntax::Assignment(a.assignment), errors: a.errors, pos: a.pos }
        } else {
            let c = spec_closure(nodes, te.errors, te.pos, name.node, te.te);
            ParseOut { syntax: Syntax::Closure(c.closure), errors: c.errors, pos: c.pos }
        }
    } else {
        ParseOut { syntax: Syntax::Name(NameSyntax(name.node)), errors: name.errors, pos: name.pos }
    }
}

pub open spec fn spec_statement(nodes: Seq<Node>, errors: Seq<ErrorView>, pos: int) -> ParseOut
    decreases nodes.len() - pos, 5int,
{
    if tok_at(nodes, pos + 1) == Token::Colon {
        spec_with_type(nodes, errors, pos)
    } else if tok_at(nodes, pos + 1) == Token::Equals {
        let a = spec_assignment(nodes, errors, pos);
        ParseOut { syntax: Syntax::Assignment(a.assignment), errors: a.errors, pos: a.pos }
    } else {
        spec_call(nodes, errors, pos)
    }
}

/// The tokens of `tokens`, each paired with its span, with the spaces
/// dropped.
pub open spec fn filter_nodes(tokens: Seq<Token>, descs: Seq<Description>) -> Seq<Node>
    decreases tokens.len(),
{
    if tokens.len() == 0 || descs.len() == 0 {
        Seq::empty()
    } else {
        let rest = filter_nodes(tokens.drop_first(), descs.drop_first());
        if tokens.first() == Token::Space {
            rest
        } else {
            seq![(tokens.first(), descs.first())] + rest
        }
    }
}

/// The recursive-descent state: a cursor over the space-filtered token
/// sequence, and the syntax diagnostics gathered so far.
pub struct Parser {
    pub position: usize,
    pub nodes: Vec<Node>,
    pub errors: Vec<Error>,
    pub src_len: Ghost<nat>,
}

impl Parser {
    pub open spec fn wf(&self) -> bool {
        &&& self.position <= self.nodes@.len()
        &&& self.src_len@ <= usize::MAX
        &&& forall|i: int| 0 <= i < self.nodes@.len() ==> node_in(#[trigger] self.nodes@[i], self.src_len@)
    }

    pub open spec fn same_nodes(&self, other: &Parser) -> bool {
        &&& self.nodes@ == other.nodes@
        &&& self.src_len == other.src_len
    }

    /// Tokenize the source from `start` on and keep every non-space token.
    pub fn new(source: &str, start: usize) -> (r: Parser)
        requires
            start <= source@.len(),
        ensures
            r.wf(),
            r.position == 0,
            r.src_len@ == source@.len(),
            ({
                let lexed = scan(
                    source@,
                    LexState {
                        tokens: Seq::<Token>::empty(),
                        descs: Seq::<Description>::empty(),
                        errors: Seq::<ErrorView>::empty(),
                        pos: start as int,
                    },
                );
                &&& r.nodes@ == filter_nodes(lexed.tokens, lexed.descs)
                &&& views_of(r.errors@) == lexed.errors
            }),
    {
        let lexer = tokenize(source, start);
        proof {
            lemma_contiguous_bounds(
                lexer.description@,
                lexer.start as int,
                lexer.position as int,
            );
        }
        let ghost src_view = source@;
        proof {
            crate::lexer::lemma_vec_len_bound(&lexer.chars);
        }
        let tokens = lexer.tokens;
        let description = lexer.description;
        let errors = lexer.errors;
        let ghost all_tokens = tokens@;
        let ghost all_descs = description@;
        let mut nodes: Vec<Node> = Vec::new();
        let mut i: usize = 0;
        let n = tokens.len();
        proof {
            assert(all_tokens.skip(0) =~= all_tokens);
            assert(all_descs.skip(0) =~= all_descs);
            assert(Seq::<Node>::empty() + filter_nodes(all_tokens, all_descs) =~= filter_nodes(
                all_tokens,
                all_descs,
            ));
        }
        while i < n
            invariant
                i <= n,
                n == all_tokens.len(),
                n == all_descs.len(),
                tokens@ == all_tokens,
                description@ == all_descs,
                forall|k: int|
                    0 <= k < all_descs.len() ==> (#[trigger] all_descs[k]).position
                        + all_descs[k].length <= src_view.len(),
                filter_nodes(all_tokens, all_descs) == nodes@ + filter_nodes(
                    all_tokens.skip(i as int),
                    all_descs.skip(i as int),
                ),
                forall|k: int|
                    0 <= k < nodes@.len() ==> node_in(#[trigger] nodes@[k], src_view.len()),
                src_view.len() <= usize::MAX,
            decreases n - i,
        {
            proof {
                assert(all_tokens.skip(i as int).drop_first() =~= all_tokens.skip(i + 1));
                assert(all_descs.skip(i as int).drop_first() =~= all_descs.skip(i + 1));
                assert(all_tokens.skip(i as int).first() == all_tokens[i as int]);
            }
            if tokens[i] != Token::Space {
                nodes.push((tokens[i], description[i]));
                proof {
                    assert(nodes@.drop_last() + filter_nodes(
                        all_tokens.skip(i as int),
                        all_descs.skip(i as int),
                    ) =~= nodes@.drop_last() + (seq![(all_tokens[i as int], all_descs[i as int])]
                        + filter_nodes(all_tokens.skip(i + 1), all_descs.skip(i + 1))));
                    assert(nodes@.drop_last() + (seq![(all_tokens[i as int], all_descs[i as int])]
                        + filter_nodes(all_tokens.skip(i + 1), all_descs.skip(i + 1))) =~= nodes@
                        + filter_nodes(all_tokens.skip(i + 1), all_descs.skip(i + 1)));
                }
            }
            i += 1;
        }
        proof {
            assert(all_tokens.skip(n as int) =~= Seq::<Token>::empty());
            assert(all_descs.skip(n as int) =~= Seq::<Description>::empty());
            assert(nodes@ + filter_nodes(
                all_tokens.skip(n as int),
                all_descs.skip(n as int),
            ) =~= nodes@);
        }
        Parser { position: 0, nodes, errors, src_len: Ghost(src_view.len()) }
    }

    /// The token `ahead` places past the cursor, without consuming anything.
    pub fn peek(&self, ahead: usize) -> (r: Token)
        ensures
            r == tok_at(self.nodes@, self.position + ahead),
    {
        proof {
            crate::lexer::lemma_vec_len_bound(&self.nodes);
        }
        match self.position.checked_add(ahead) {
            Some(index) => {
                if index < self.nodes.len() {
                    self.nodes[index].0
                } else {
                    Token::EndOfFile
                }
            },
            None => Token::EndOfFile,
        }
    }

    /// Consume one node; past the end, hand out the synthetic EndOfFile node
    /// and stay put.
    pub fn next(&mut self) -> (r: Node)
        requires
            old(self).wf(),
        ensures
            final(self).wf(),
            final(self).same_nodes(old(self)),
            final(self).errors@ == old(self).errors@,
            r == spec_next(old(self).nodes@, old(self).position as int).0,
            final(self).position == spec_next(old(self).nodes@, old(self).position as int).1,
            old(self).position <= final(self).position,
    {
        if self.position < self.nodes.len() {
            self.position = self.position + 1;
            self.nodes[self.position - 1]
        } else if self.nodes.len() > 0 {
            let last = self.nodes[self.nodes.len() - 1];
            (
                Token::EndOfFile,
                Description { position: last.1.position + last.1.length, length: 0 },
            )
        } else {
            (Token::EndOfFile, Description { position: 0, length: 0 })
        }
    }

    /// Consume the next node, which should be of the expected kind; on a
    /// mismatch, record an UnexpectedToken diagnostic and hand back a
    /// synthetic node of the expected kind, so parsing can continue.
    pub fn expect(&mut self, expected: Token) -> (r: Node)
        requires
            old(self).wf(),
        ensures
            final(self).wf(),
            final(self).same_nodes(old(self)),
            ({
                let o = spec_expect(
                    old(self).nodes@,
                    views_of(old(self).errors@),
                    old(self).position as int,
                    expected,
                );
                &&& r == o.node
                &&& final(self).position == o.pos
                &&& views_of(final(self).errors@) == o.errors
            }),
            old(self).position <= final(self).position,
            r.0 == expected,
            node_in(r, old(self).src_len@),
    {
        proof {
            if old(self).nodes@.len() > 0 {
                assert(node_in(
                    old(self).nodes@[old(self).nodes@.len() - 1],
                    old(self).src_len@,
                ));
            }
        }
        let (token, description) = self.next();
        if token == expected {
            (token, description)
        } else {
            let error = Error::UnexpectedToken(
                description.position..description.position + description.length,
                expected,
                token,
            );
            self.errors.push(error);
            proof {
                crate::error::lemma_views_push(old(self).errors@, error);
            }
            (expected, description)
        }
    }

    /// Consume a token the grammar itself guarantees to stand here; the
    /// dispatch conditions make a mismatch impossible, which the caller has
    /// to establish.
    pub fn demand(&mut self, expected: Token) -> (r: Node)
        requires
            old(self).wf(),
            tok_at(old(self).nodes@, old(self).position as int) == expected,
        ensures
            final(self).wf(),
            final(self).same_nodes(old(self)),
            final(self).errors@ == old(self).errors@,
            r == spec_next(old(self).nodes@, old(self).position as int).0,
            final(self).position == spec_next(old(self).nodes@, old(self).position as int).1,
            old(self).position <= final(self).position,
            r.0 == expected,
    {
        let (token, description) = self.next();
        (token, description)
    }

    /// The token at the cursor, without consuming it.
    pub fn current(&self) -> (r: Token)
        requires
            self.wf(),
        ensures
            r == tok_at(self.nodes@, self.position as int),
    {
        if self.position < self.nodes.len() {
            self.nodes[self.position].0
        } else {
            Token::EndOfFile
        }
    }

    /// A left-associative chain of one or more primaries; `f x y` folds as
    /// `(f x) y`.
    pub fn primary(&mut self) -> (r: Syntax)
        requires
            old(self).wf(),
        ensures
            final(self).wf(),
            final(self).same_nodes(old(self)),
            old(self).position <= final(self).position,
            ({
                let o = spec_primary(
                    old(self).nodes@,
                    views_of(old(self).errors@),
                    old(self).position as int,
                );
                &&& r == o.syntax
                &&& final(self).position == o.pos
                &&& views_of(final(self).errors@) == o.errors
            }),
            syntax_wf(r, old(self).src_len@),
            tok_at(old(self).nodes@, old(self).position as int) != Token::EndOfFile
                ==> old(self).position < final(self).position,
        decreases old(self).nodes@.len() - old(self).position, 1int,
    {
        if self.current() == Token::OpenParenthesis {
            self.next();
            let expression = Syntax::parse(self);
            self.expect(Token::CloseParenthesis);
            return expression;
        }

        if self.current() == Token::Number || self.current() == Token::String || self.current()
            == Token::Boolean || self.current() == Token::Nothing {
            return Syntax::Literal(LiteralSyntax(self.next()));
        }

        Syntax::Name(NameSyntax(self.expect(Token::Identifier)))
    }

    /// One statement, parsed from the cursor on.
    pub fn parse(&mut self) -> (r: Syntax)
        requires
            old(self).wf(),
        ensures
            final(self).wf(),
            final(self).same_nodes(old(self)),
            old(self).position <= final(self).position,
            ({
                let o = spec_statement(
                    old(self).nodes@,
                    views_of(old(self).errors@),
                    old(self).position as int,
                );
                &&& r == o.syntax
                &&& final(self).position == o.pos
                &&& views_of(final(self).errors@) == o.errors
            }),
            syntax_wf(r, old(self).src_len@),
        decreases old(self).nodes@.len() - old(self).position, 6int,
    {
        Syntax::parse(self)
    }
}

/// Lex and parse one statement of `source`, starting at character `start`:
/// the syntax tree and every syntax diagnostic the lexer and the parser
/// raised, in order.
pub fn parse(source: &str, start: usize) -> (r: (Syntax, Vec<Error>))
    requires
        start <= source@.len(),
    ensures
        ({
            let lexed = scan(
                source@,
                LexState {
                    tokens: Seq::<Token>::empty(),
                    descs: Seq::<Description>::empty(),
                    errors: Seq::<ErrorView>::empty(),
                    pos: start as int,
                },
            );
            let nodes = filter_nodes(lexed.tokens, lexed.descs);
            let o = spec_statement(nodes, lexed.errors, 0);
            &&& r.0 == o.syntax
            &&& views_of(r.1@) == o.errors
        }),
        syntax_wf(r.0, source@.len()),
{
    let mut parser = Parser::new(source, start);
    let syntax = Syntax::parse(&mut parser);
    (syntax, parser.errors)
}

} // verus!
