use vstd::prelude::*;

use crate::error::{views_of, Error, ErrorView};
use crate::token::{char_at, Token, TERMINATOR};
use vstd::string::{StrSliceExecFns, StringExecFns};

verus! {

/// The span of one token: a character offset into the session source and a
/// length, both counted in characters.
#[derive(Debug, Clone, Copy, PartialEq, Eq, Structural)]
pub struct Description {
    pub position: usize,
    pub length: usize,
}

/// The scanning state: the source, a cursor (`position`), the lookahead reach
/// of the recognizer currently trying its luck, and the committed output.
pub struct Lexer {
    pub source: String,
    pub chars: Vec<char>,
    pub start: usize,
    pub position: usize,
    pub description: Vec<Description>,
    pub tokens: Vec<Token>,
    pub reach: usize,
    pub flag: usize,
    pub errors: Vec<Error>,
}

/// The mathematical scanning state: committed tokens with their spans, the
/// diagnostics raised so far, and the cursor.
#[verifier::ext_equal]
pub ghost struct LexState {
    pub tokens: Seq<Token>,
    pub descs: Seq<Description>,
    pub errors: Seq<ErrorView>,
    pub pos: int,
}

/// The spans in `ds` are non-empty and tile the range from `start` to `end`
/// with no gap and no overlap.
pub open spec fn descriptions_contiguous(ds: Seq<Description>, start: int, end: int) -> bool {
    &&& forall|i: int| 0 <= i < ds.len() ==> (#[trigger] ds[i]).length > 0
    &&& forall|i: int|
        0 < i < ds.len() ==> (#[trigger] ds[i]).position == ds[i - 1].position + ds[i - 1].length
    &&& (ds.len() == 0 ==> start == end)
    &&& (ds.len() > 0 ==> ds[0].position == start && end == ds.last().position + ds.last().length)
}

/// In a contiguous tiling, every span lies between `start` and `end`.
pub proof fn lemma_contiguous_bounds(ds: Seq<Description>, start: int, end: int)
    requires
        descriptions_contiguous(ds, start, end),
    ensures
        forall|i: int|
            0 <= i < ds.len() ==> start <= (#[trigger] ds[i]).position && ds[i].position
                + ds[i].length <= end,
    decreases ds.len(),
{
    if ds.len() > 0 {
        let shorter = ds.drop_last();
        let mid = if ds.len() == 1 {
            start
        } else {
            ds.last().position as int
        };
        assert(descriptions_contiguous(shorter, start, mid));
        lemma_contiguous_bounds(shorter, start, mid);
        assert forall|i: int| 0 <= i < ds.len() implies start <= (#[trigger] ds[i]).position
            && ds[i].position + ds[i].length <= end by {
            if i < ds.len() - 1 {
                assert(ds[i] == shorter[i]);
            }
        }
    }
}

/// The length of a vector is bounded by the machine word.
pub proof fn lemma_vec_len_bound<T>(v: &Vec<T>)
    ensures
        v@.len() <= usize::MAX,
{
    assert(v.len() == v@.len());
}

impl Lexer {
    /// The committed part of the state, as the specification sees it.
    pub open spec fn st(&self) -> LexState {
        LexState {
            tokens: self.tokens@,
            descs: self.description@,
            errors: views_of(self.errors@),
            pos: self.position as int,
        }
    }

    /// The parts of the state that scanning never changes.
    pub open spec fn same_input(&self, other: &Lexer) -> bool {
        &&& self.source@ == other.source@
        &&& self.chars@ == other.chars@
        &&& self.start == other.start
    }

    pub open spec fn wf(&self) -> bool {
        &&& self.chars@ == self.source@
        &&& self.start <= self.position
        &&& self.position + self.reach <= self.chars@.len()
        &&& self.tokens@.len() == self.description@.len()
        &&& descriptions_contiguous(self.description@, self.start as int, self.position as int)
    }

    pub fn new(source: &str, start: usize) -> (r: Lexer)
        requires
            start <= source@.len(),
        ensures
            r.wf(),
            r.source@ == source@,
            r.chars@ == source@,
            r.start == start,
            r.position == start,
            r.reach == 0,
            r.flag == 0,
            r.st() == (LexState {
                tokens: Seq::<Token>::empty(),
                descs: Seq::<Description>::empty(),
                errors: Seq::<ErrorView>::empty(),
                pos: start as int,
            }),
    {
        let n = source.unicode_len();
        let mut chars: Vec<char> = Vec::new();
        let mut i: usize = 0;
        while i < n
            invariant
                i <= n,
                n == source@.len(),
                chars@ == source@.subrange(0, i as int),
            decreases n - i,
        {
            chars.push(source.get_char(i));
            proof {
                assert(chars@ =~= source@.subrange(0, i + 1));
            }
            i += 1;
        }
        proof {
            assert(chars@ =~= source@);
            assert(views_of(Seq::<Error>::empty()) =~= Seq::<ErrorView>::empty());
        }
        Lexer {
            source: String::from_str(source),
            chars,
            start,
            position: start,
            description: Vec::new(),
            tokens: Vec::new(),
            reach: 0,
            flag: 0,
            errors: Vec::new(),
        }
    }

    /// Commit one token: reset the lookahead, advance the cursor past the
    /// span, and record the token with its span.
    pub fn next(&mut self, token: Token, description: Description)
        requires
            old(self).wf(),
            description.position == old(self).position,
            description.length > 0,
            old(self).position + description.length <= old(self).chars@.len(),
        ensures
            final(self).wf(),
            final(self).same_input(old(self)),
            final(self).reach == 0,
            final(self).flag == old(self).flag,
            final(self).errors@ == old(self).errors@,
            final(self).tokens@ == old(self).tokens@.push(token),
            final(self).description@ == old(self).description@.push(description),
            final(self).position == old(self).position + description.length,
    {
        proof {
            lemma_vec_len_bound(&self.chars);
        }
        self.reach = 0;
        self.position = self.position + description.length;
        self.tokens.push(token);
        self.description.push(description);
    }

    /// A copy of the scanned characters.
    pub fn chars(&self) -> (r: Vec<char>)
        ensures
            r@ == self.chars@,
    {
        let mut out: Vec<char> = Vec::new();
        let mut i: usize = 0;
        let n = self.chars.len();
        while i < n
            invariant
                i <= n,
                n == self.chars@.len(),
                out@ == self.chars@.subrange(0, i as int),
            decreases n - i,
        {
            out.push(self.chars[i]);
            proof {
                assert(out@ =~= self.chars@.subrange(0, i + 1));
            }
            i += 1;
        }
        proof {
            assert(out@ =~= self.chars@);
        }
        out
    }

    pub fn push(&mut self, token: Token, length: usize)
        requires
            old(self).wf(),
            length > 0,
            old(self).position + length <= old(self).chars@.len(),
        ensures
            final(self).wf(),
            final(self).same_input(old(self)),
            final(self).reach == 0,
            final(self).flag == old(self).flag,
            final(self).errors@ == old(self).errors@,
            final(self).tokens@ == old(self).tokens@.push(token),
            final(self).description@ == old(self).description@.push(
                Description { position: old(self).position, length },
            ),
            final(self).position == old(self).position + length,
    {
        let description = Description { position: self.position, length };
        self.next(token, description);
    }

    /// Extend the lookahead by one character.
    pub fn step(&mut self)
        requires
            old(self).position + old(self).reach < old(self).chars@.len(),
        ensures
            final(self).reach == old(self).reach + 1,
            final(self).same_input(old(self)),
            final(self).position == old(self).position,
            final(self).flag == old(self).flag,
            final(self).tokens@ == old(self).tokens@,
            final(self).description@ == old(self).description@,
            final(self).errors@ == old(self).errors@,
    {
        proof {
            lemma_vec_len_bound(&self.chars);
        }
        self.reach = self.reach + 1;
    }

    /// Commit the current lookahead as one token, if there is any.
    pub fn add(&mut self, token: Token)
        requires
            old(self).wf(),
        ensures
            final(self).wf(),
            final(self).same_input(old(self)),
            final(self).flag == old(self).flag,
            final(self).errors@ == old(self).errors@,
            old(self).reach > 0 ==> {
                &&& final(self).reach == 0
                &&& final(self).tokens@ == old(self).tokens@.push(token)
                &&& final(self).description@ == old(self).description@.push(
                    Description { position: old(self).position, length: old(self).reach },
                )
                &&& final(self).position == old(self).position + old(self).reach
            },
            old(self).reach == 0 ==> *final(self) == *old(self),
    {
        if self.reach > 0 {
            let reach = self.reach;
            self.push(token, reach);
        }
    }

    /// The character at the cursor plus the lookahead, or the terminator once
    /// the end of the input is reached.
    pub fn current(&self) -> (r: char)
        requires
            self.position + self.reach <= self.chars@.len(),
        ensures
            r == char_at(self.chars@, self.position + self.reach),
    {
        proof {
            lemma_vec_len_bound(&self.chars);
        }
        let index = self.position + self.reach;
        if index < self.chars.len() {
            self.chars[index]
        } else {
            TERMINATOR
        }
    }

    /// The text the lookahead currently covers.
    pub fn span(&self) -> (r: String)
        requires
            self.position + self.reach <= self.chars@.len(),
            self.chars@ == self.source@,
        ensures
            r@ == self.chars@.subrange(self.position as int, self.position + self.reach),
    {
        proof {
            lemma_vec_len_bound(&self.chars);
        }
        let s = self.source.as_str().substring_char(self.position, self.position + self.reach);
        String::from_str(s)
    }

    /// Remember where this scanning round began, so that `check` can tell
    /// whether any recognizer committed.
    pub fn flag(&mut self)
        ensures
            final(self).flag == old(self).position,
            final(self).same_input(old(self)),
            final(self).position == old(self).position,
            final(self).reach == old(self).reach,
            final(self).tokens@ == old(self).tokens@,
            final(self).description@ == old(self).description@,
            final(self).errors@ == old(self).errors@,
    {
        self.flag = self.position
    }

    /// If no recognizer committed since `flag`, force progress: consume one
    /// character as an Unknown token and record an UnknownToken diagnostic.
    pub fn check(&mut self)
        requires
            old(self).wf(),
            old(self).reach == 0,
            old(self).flag == old(self).position ==> old(self).position < old(self).chars@.len(),
        ensures
            final(self).wf(),
            final(self).same_input(old(self)),
            final(self).reach == 0,
            final(self).flag == 0,
            old(self).flag == old(self).position ==> {
                &&& final(self).tokens@ == old(self).tokens@.push(Token::Unknown)
                &&& final(self).description@ == old(self).description@.push(
                    Description { position: old(self).position, length: 1 },
                )
                &&& final(self).position == old(self).position + 1
                &&& views_of(final(self).errors@) == views_of(old(self).errors@).push(
                    ErrorView::UnknownToken {
                        start: old(self).position as int,
                        end: old(self).position + 1,
                        text: old(self).chars@.subrange(
                            old(self).position as int,
                            old(self).position + 1,
                        ),
                    },
                )
            },
            old(self).flag != old(self).position ==> {
                &&& final(self).tokens@ == old(self).tokens@
                &&& final(self).description@ == old(self).description@
                &&& final(self).position == old(self).position
                &&& final(self).errors@ == old(self).errors@
            },
    {
        if self.flag == self.position {
            proof {
                lemma_vec_len_bound(&self.chars);
            }
            let text = self.source.as_str().substring_char(self.position, self.position + 1);
            let error = Error::UnknownToken(
                self.position..self.position + 1,
                String::from_str(text),
            );
            self.errors.push(error);
            proof {
                assert(views_of(self.errors@) =~= views_of(old(self).errors@).push(
                    ErrorView::UnknownToken {
                        start: old(self).position as int,
                        end: old(self).position + 1,
                        text: old(self).chars@.subrange(
                            old(self).position as int,
                            old(self).position + 1,
                        ),
                    },
                ));
            }
            Token::unknown(self);
        }

        self.flag = 0
    }

    /// One scanning round: remember the cursor, run every recognizer, and
    /// force progress if none of them committed.
    pub fn next_token(&mut self)
        requires
            old(self).wf(),
            old(self).reach == 0,
            char_at(old(self).chars@, old(self).position as int) != TERMINATOR,
        ensures
            final(self).wf(),
            final(self).same_input(old(self)),
            final(self).reach == 0,
            final(self).flag == 0,
            final(self).st() == crate::token::scan_step(old(self).chars@, old(self).st()),
            old(self).position < final(self).position,
    {
        self.flag();
        crate::token::register_tokens(self);
        let ghost passed = self.st();
        self.check();
        proof {
            if passed.pos == old(self).position as int {
                assert(self.st() =~= crate::token::scan_step(old(self).chars@, old(self).st()));
            } else {
                assert(self.st() =~= crate::token::scan_step(old(self).chars@, old(self).st()));
            }
        }
    }
}

} // verus!
