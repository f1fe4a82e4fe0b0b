use vstd::prelude::*;

use crate::error::views_of;
use crate::parser::{spec_call, spec_call_loop, spec_primary, Parser};
use crate::syntax::{syntax_wf, Branch, Syntax};
use crate::token::Token;

verus! {

/// A left-associative application by juxtaposition: callee, then argument.
#[derive(Debug)]
pub struct CallSyntax(pub Branch, pub Branch);

impl Clone for CallSyntax {
    fn clone(&self) -> (r: CallSyntax)
        ensures
            r == *self,
        decreases self,
    {
        CallSyntax(Box::new((*self.0).clone()), Box::new((*self.1).clone()))
    }
}

impl CallSyntax {
    /// A chain of one or more primaries folded left-associatively: `f x y`
    /// parses as `(f x) y`.
    pub fn parse(parser: &mut Parser) -> (r: Syntax)
        requires
            old(parser).wf(),
        ensures
            final(parser).wf(),
            final(parser).same_nodes(old(parser)),
            old(parser).position <= final(parser).position,
            ({
                let o = spec_call(
                    old(parser).nodes@,
                    views_of(old(parser).errors@),
                    old(parser).position as int,
                );
                &&& r == o.syntax
                &&& final(parser).position == o.pos
                &&& views_of(final(parser).errors@) == o.errors
            }),
            syntax_wf(r, old(parser).src_len@),
        decreases old(parser).nodes@.len() - old(parser).position, 3int,
    {
        let mut left = parser.primary();
        let ghost target = spec_call(
            old(parser).nodes@,
            views_of(old(parser).errors@),
            old(parser).position as int,
        );
        proof {
            assert(target == spec_call_loop(
                parser.nodes@,
                views_of(parser.errors@),
                parser.position as int,
                left,
            ));
        }

        while parser.current() != Token::EndOfFile && parser.current() != Token::CloseParenthesis
            invariant
                parser.wf(),
                parser.same_nodes(old(parser)),
                old(parser).position <= parser.position,
                syntax_wf(left, parser.src_len@),
                target == spec_call_loop(
                    parser.nodes@,
                    views_of(parser.errors@),
                    parser.position as int,
                    left,
                ),
            decreases parser.nodes@.len() - parser.position,
        {
            let ghost before = *parser;
            let ghost left_before = left;
            let right = parser.primary();
            left = Syntax::Call(CallSyntax(Box::new(left), Box::new(right)));
            proof {
                assert(spec_call_loop(
                    before.nodes@,
                    views_of(before.errors@),
                    before.position as int,
                    left_before,
                ) == spec_call_loop(
                    parser.nodes@,
                    views_of(parser.errors@),
                    parser.position as int,
                    left,
                ));
            }
        }

        left
    }

    /// Bind both operands, left first. A non-closure callee is one BadCall
    /// diagnostic and types as Nothing; an argument that does not equal the
    /// parameter type is one UnexpectedType diagnostic, and checking still
    /// yields the closure's return type, so later statements stay typeable.
    pub fn bind(
        &self,
        interpreter: &mut crate::interpreter::Interpreter,
        scope: usize,
    ) -> (t: crate::types::Type)
        requires
            old(interpreter).wf(),
            scope < old(interpreter)@.chain.len(),
            syntax_wf(*self.0, old(interpreter)@.source.len()),
            syntax_wf(*self.1, old(interpreter)@.source.len()),
        ensures
            final(interpreter).wf(),
            final(interpreter)@.source == old(interpreter)@.source,
            old(interpreter)@.chain.len() <= final(interpreter)@.chain.len(),
            ({
                let o = crate::semantics::spec_bind(
                    old(interpreter)@.source,
                    old(interpreter)@.chain,
                    old(interpreter)@.errors,
                    Syntax::Call(CallSyntax(self.0, self.1)),
                    scope as int,
                );
                &&& final(interpreter)@.chain == o.chain
                &&& final(interpreter)@.errors == o.errors
                &&& t == o.bound
            }),
        decreases self,
    {
        let left = interpreter.bind((*self.0).clone(), scope);
        let right = interpreter.bind((*self.1).clone(), scope);

        if let crate::types::Type::Closure(param, ret) = left {
            if right != *param {
                interpreter.error(crate::error::Error::UnexpectedType(0..0, *param, right));
            }
            *ret
        } else {
            interpreter.error(crate::error::Error::BadCall(0..0));
            crate::types::Type::Nothing
        }
    }

    /// Evaluate the callee, then the argument, then dispatch on the callee's
    /// tag: a closure runs its body in a fresh frame hanging off its defining
    /// scope, a primitive steps by its rule, anything else is fatal.
    pub fn eval(
        &self,
        interpreter: &mut crate::interpreter::Interpreter,
        scope: usize,
        fuel: u64,
    ) -> (r: Result<crate::value::Value, crate::value::Fatal>)
        requires
            old(interpreter).wf(),
            scope < old(interpreter)@.chain.len(),
            syntax_wf(*self.0, old(interpreter)@.source.len()),
            syntax_wf(*self.1, old(interpreter)@.source.len()),
        ensures
            final(interpreter).wf(),
            final(interpreter)@.source == old(interpreter)@.source,
            final(interpreter)@.errors == old(interpreter)@.errors,
            old(interpreter)@.chain.len() <= final(interpreter)@.chain.len(),
            ({
                let o = crate::semantics::spec_eval(
                    old(interpreter)@.source,
                    old(interpreter)@.chain,
                    Syntax::Call(CallSyntax(self.0, self.1)),
                    scope as int,
                    fuel as nat,
                );
                &&& final(interpreter)@.chain == o.chain
                &&& crate::interpreter::res_view(r) == o.result
            }),
            (r matches Ok(v) ==> crate::semantics::value_wf(
                v@,
                old(interpreter)@.source.len(),
                final(interpreter)@.chain.len() as nat,
            )),
        decreases fuel, self,
    {
        let left = match interpreter.eval_at((*self.0).clone(), scope, fuel) {
            Ok(v) => v,
            Err(f) => {
                return Err(f);
            },
        };
        let right = match interpreter.eval_at((*self.1).clone(), scope, fuel) {
            Ok(v) => v,
            Err(f) => {
                return Err(f);
            },
        };
        match left {
            crate::value::Value::Closure(c) => {
                if fuel == 0 {
                    Err(crate::value::Fatal::Exhausted)
                } else {
                    let crate::value::ClosureValue { scope: defining, param, body } = c;
                    let ghost right_view = right@;
                    let mut frame = crate::scope::Scope::new(defining);
                    frame.map.insert(param, right);
                    let ghost mid = interpreter@;
                    let ghost chain_exec = interpreter.chain@;
                    let ghost frame_view = frame@;
                    interpreter.chain.push(frame);
                    proof {
                        crate::interpreter::lemma_chain_views_push(
                            chain_exec,
                            interpreter.chain@.last(),
                        );
                        assert forall|k: Seq<char>| frame_view.map.contains_key(k) implies
                            crate::semantics::value_wf(
                                #[trigger] frame_view.map[k],
                                mid.source.len(),
                                (mid.chain.len() + 1) as nat,
                            ) by {
                            assert(frame_view.map[k] == right_view);
                        }
                        crate::semantics::lemma_wf_after_push(
                            mid.chain,
                            frame_view,
                            mid.source.len(),
                        );
                    }
                    let index = interpreter.chain.len() - 1;
                    interpreter.eval_at(*body, index, fuel - 1)
                }
            },
            crate::value::Value::Primitive(p) => crate::interpreter::apply_builtin(p, right),
            _ => Err(crate::value::Fatal::NotCallable),
        }
    }
}

} // verus!
