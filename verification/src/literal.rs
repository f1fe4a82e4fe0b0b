use vstd::prelude::*;

use crate::lexer::Description;
use crate::syntax::{Leaf, Node};
use crate::token::Token;

verus! {

/// A literal leaf: a number, string, boolean or none token together with
/// its span, decoded only at evaluation time.
#[derive(Debug)]
pub struct LiteralSyntax(pub Leaf);

impl Clone for LiteralSyntax {
    fn clone(&self) -> (r: LiteralSyntax)
        ensures
            r == *self,
    {
        LiteralSyntax(self.0)
    }
}

impl LiteralSyntax {
    pub fn token(&self) -> (r: &Token)
        ensures
            *r == self.0.0,
    {
        &self.0.0
    }

    pub fn description(&self) -> (r: &Description)
        ensures
            *r == self.0.1,
    {
        &self.0.1
    }

    pub fn node(&self) -> (r: &Node)
        ensures
            *r == self.0,
    {
        &self.0
    }

    /// A literal's type is fixed by its token kind alone.
    pub fn bind(&self) -> (t: crate::types::Type)
        requires
            crate::syntax::literal_token(self.0.0),
        ensures
            t == crate::semantics::literal_type(self.0.0),
    {
        match self.token() {
            Token::String => crate::types::Type::String,
            Token::Number => crate::types::Type::Number,
            Token::Boolean => crate::types::Type::Boolean,
            Token::Nothing => crate::types::Type::Nothing,
            _ => vstd::pervasive::unreached(),
        }
    }

    /// Decode the token's source text: a string unwraps its quotes, a
    /// number reads as an unsigned decimal or fails fatally, a boolean is
    /// its reserved spelling, none carries nothing.
    pub fn eval(&self, interpreter: &crate::interpreter::Interpreter) -> (r: Result<
        crate::value::Value,
        crate::value::Fatal,
    >)
        requires
            crate::syntax::node_in(self.0, interpreter@.source.len()),
            crate::syntax::literal_token(self.0.0),
            interpreter@.source.len() <= usize::MAX,
        ensures
            crate::interpreter::res_view(r) == crate::semantics::literal_value(
                interpreter@.source,
                self.0,
            ),
    {
        match self.token() {
            Token::String => Ok(
                crate::value::Value::String(crate::value::inner_string(interpreter.source(self.0))),
            ),
            Token::Number => match parse_number(&interpreter.source(self.0)) {
                Some(n) => Ok(crate::value::Value::Number(n)),
                None => Err(crate::value::Fatal::BadLiteral),
            },
            Token::Boolean => Ok(
                crate::value::Value::Boolean(
                    crate::token::text_is(&interpreter.source(self.0), "true"),
                ),
            ),
            Token::Nothing => Ok(crate::value::Value::Nothing),
            _ => vstd::pervasive::unreached(),
        }
    }
}

/// Read an unsigned decimal numeral, refusing any non-digit and any value
/// that does not fit the machine word.
fn parse_number(text: &String) -> (r: Option<usize>)
    ensures
        r == (if crate::semantics::is_decimal(text@) && crate::semantics::decimal_value(text@)
            <= usize::MAX {
            Some(crate::semantics::decimal_value(text@) as usize)
        } else {
            Option::<usize>::None
        }),
{
    let s = text.as_str();
    let n = s.unicode_len();
    if n == 0 {
        return None;
    }
    let mut value: usize = 0;
    let mut i: usize = 0;
    while i < n
        invariant
            0 < n,
            n == s@.len(),
            i <= n,
            s@ == text@,
            forall|k: int| 0 <= k < i ==> '0' <= #[trigger] s@[k] <= '9',
            value == crate::semantics::decimal_value(s@.take(i as int)),
    	decreases n - i,
    {
        let c = s.get_char(i);
        let code = c as u32;
        if code < 48 || code > 57 {
            proof {
                assert(!('0' <= s@[i as int] <= '9'));
            }
            return None;
        }
        let digit = (code - 48) as usize;
        proof {
            assert(s@.take(i + 1).drop_last() =~= s@.take(i as int));
            assert(s@.take(i + 1).last() == s@[i as int]);
        }
        let grown = match value.checked_mul(10) {
            Some(v) => v.checked_add(digit),
            None => None,
        };
        match grown {
            Some(v) => {
                value = v;
            },
            None => {
                proof {
                    if crate::semantics::is_decimal(s@) {
                        crate::semantics::lemma_decimal_prefix(s@, i + 1);
                    }
                }
                return None;
            },
        }
        i += 1;
    }
    proof {
        assert(s@.take(n as int) =~= s@);
    }
    Some(value)
}

} // verus!
