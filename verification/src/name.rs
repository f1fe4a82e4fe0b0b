use vstd::prelude::*;

use crate::error::{Error, ErrorView};
use crate::interpreter::{Interpreter, InterpreterView};
use crate::scope::ScopeIndex;
use crate::semantics::{node_text, resolve_type, spec_bind};
use crate::syntax::{node_in, Leaf, Node, Syntax};
use crate::types::Type;

verus! {

/// A reference to a bound name, to be resolved along the scope chain.
#[derive(Debug)]
pub struct NameSyntax(pub Leaf);

impl Clone for NameSyntax {
    fn clone(&self) -> (r: NameSyntax)
        ensures
            r == *self,
    {
        NameSyntax(self.0)
    }
}

impl NameSyntax {
    pub fn node(&self) -> (r: Node)
        ensures
            r == self.0,
    {
        self.0
    }

    fn unknown_name_error(&self, interpreter: &mut Interpreter) -> (t: Type)
        requires
            node_in(self.0, old(interpreter)@.source.len()),
            old(interpreter)@.source.len() <= usize::MAX,
        ensures
            final(interpreter)@ == (InterpreterView {
                source: old(interpreter)@.source,
                chain: old(interpreter)@.chain,
                errors: old(interpreter)@.errors.push(
                    ErrorView::UnknownName {
                        start: self.0.1.position as int,
                        end: self.0.1.position + self.0.1.length,
                        text: node_text(old(interpreter)@.source, self.0),
                    },
                ),
            }),
            t == Type::Nothing,
    {
        let range = interpreter.range(self.0);
        let source = interpreter.source(self.0);
        interpreter.error(Error::UnknownName(range, source));
        Type::Nothing
    }

    /// Resolve the name's type along the scope chain; an unresolved name is
    /// one UnknownName diagnostic and types as Nothing.
    pub fn bind(&self, interpreter: &mut Interpreter, scope: ScopeIndex) -> (t: Type)
        requires
            old(interpreter).wf(),
            scope < old(interpreter)@.chain.len(),
            node_in(self.0, old(interpreter)@.source.len()),
        ensures
            final(interpreter).wf(),
            final(interpreter)@.source == old(interpreter)@.source,
            final(interpreter)@.chain == old(interpreter)@.chain,
            ({
                let o = spec_bind(
                    old(interpreter)@.source,
                    old(interpreter)@.chain,
                    old(interpreter)@.errors,
                    Syntax::Name(NameSyntax(self.0)),
                    scope as int,
                );
                &&& final(interpreter)@.errors == o.errors
                &&& t == o.bound
            }),
    {
        match interpreter.lookup(scope, self.0) {
            Some(t) => t,
            None => self.unknown_name_error(interpreter),
        }
    }

    /// Resolve the name's bound value along the scope chain. A successful
    /// bind guarantees the name resolves; a miss here is the fatal
    /// unresolved-name condition, not a diagnostic.
    pub fn eval(&self, interpreter: &crate::interpreter::Interpreter, scope: ScopeIndex) -> (r:
        Result<crate::value::Value, crate::value::Fatal>)
        requires
            crate::semantics::chain_wf(interpreter@.chain),
            scope < interpreter@.chain.len(),
            node_in(self.0, interpreter@.source.len()),
            interpreter@.source.len() <= usize::MAX,
        ensures
            crate::interpreter::res_view(r) == (match crate::semantics::resolve_value(
                interpreter@.chain,
                scope as int,
                node_text(interpreter@.source, self.0),
            ) {
                Some(v) => Result::<crate::value::ValueView, crate::value::Fatal>::Ok(v),
                None => Result::<crate::value::ValueView, crate::value::Fatal>::Err(
                    crate::value::Fatal::UnresolvedName,
                ),
            }),
    {
        match interpreter.get(scope, self.0) {
            Some(value) => Ok(value),
            None => Err(crate::value::Fatal::UnresolvedName),
        }
    }
}

} // verus!
