use vstd::prelude::*;

use crate::error::ErrorView;
use crate::lexer::{Description, Lexer, LexState};
use vstd::string::StringExecFns;

verus! {

/// The lexer commits to exactly one of these kinds for every committed span.
#[derive(Debug, Clone, Copy, PartialEq, Eq, Structural)]
pub enum Token {
    Identifier,
    Space,
    Number,
    String,
    Boolean,
    Lambda,
    Equals,
    Unknown,
    OpenParenthesis,
    CloseParenthesis,
    Colon,
    EndOfFile,
    Nothing,
}

/// Scanning stops at the end of the input, which `current` reports as this
/// character; an embedded NUL therefore also ends the scan.
pub const TERMINATOR: char = '\u{0}';

pub const NEWLINE: char = '\n';

pub const DOUBLE_QUOTE: char = '"';

pub const LAMBDA: char = '\u{2192}';

pub const EQUALS: char = '=';

pub const OPEN_PARENTHESIS: char = '(';

pub const CLOSE_PARENTHESIS: char = ')';

pub const COLON: char = ':';

pub uninterp spec fn unicode_alphabetic(c: char) -> bool;

pub uninterp spec fn unicode_numeric(c: char) -> bool;

pub uninterp spec fn unicode_whitespace(c: char) -> bool;

/// Whether the lexer treats `c` as alphabetic. The terminator is excluded so
/// that a maximal run never crosses the end of the scanned input.
pub open spec fn char_alphabetic(c: char) -> bool {
    c != TERMINATOR && unicode_alphabetic(c)
}

pub open spec fn char_numeric(c: char) -> bool {
    c != TERMINATOR && unicode_numeric(c)
}

pub open spec fn char_whitespace(c: char) -> bool {
    c != TERMINATOR && unicode_whitespace(c)
}

pub open spec fn char_alphanumeric(c: char) -> bool {
    char_alphabetic(c) || char_numeric(c)
}

/// Relies on char::is_alphabetic: whether the character has the Unicode
/// `Alphabetic` property, which the NUL character does not have.
pub assume_specification[ char::is_alphabetic ](c: char) -> (r: bool)
    ensures
        r == (c != TERMINATOR && unicode_alphabetic(c)),
;

/// Relies on char::is_numeric: whether the character has a Unicode numeric
/// general category, which the NUL character does not have.
pub assume_specification[ char::is_numeric ](c: char) -> (r: bool)
    ensures
        r == (c != TERMINATOR && unicode_numeric(c)),
;

/// Relies on char::is_whitespace: whether the character has the Unicode
/// `White_Space` property, which the NUL character does not have.
pub assume_specification[ char::is_whitespace ](c: char) -> (r: bool)
    ensures
        r == (c != TERMINATOR && unicode_whitespace(c)),
;

/// Relies on char::is_alphanumeric, documented as true exactly when
/// is_alphabetic or is_numeric is.
pub assume_specification[ char::is_alphanumeric ](c: char) -> (r: bool)
    ensures
        r == char_alphanumeric(c),
;

/// The rendering of a token kind in diagnostics.
pub open spec fn token_text(t: Token) -> Seq<char> {
    match t {
        Token::Identifier => "Identifier"@,
        Token::Space => "Space"@,
        Token::Number => "Number"@,
        Token::String => "String"@,
        Token::Boolean => "Boolean"@,
        Token::Lambda => "Lambda"@,
        Token::Equals => "Equals"@,
        Token::Unknown => "Unknown"@,
        Token::OpenParenthesis => "OpenParenthesis"@,
        Token::CloseParenthesis => "CloseParenthesis"@,
        Token::Colon => "Colon"@,
        Token::EndOfFile => "EndOfFile"@,
        Token::Nothing => "None"@,
    }
}

impl Token {
    /// The token kind's rendering for diagnostics.
    pub fn text(&self) -> (r: &'static str)
        ensures
            r@ == token_text(*self),
    {
        match self {
            Token::Identifier => "Identifier",
            Token::Space => "Space",
            Token::Number => "Number",
            Token::String => "String",
            Token::Boolean => "Boolean",
            Token::Lambda => "Lambda",
            Token::Equals => "Equals",
            Token::Unknown => "Unknown",
            Token::OpenParenthesis => "OpenParenthesis",
            Token::CloseParenthesis => "CloseParenthesis",
            Token::Colon => "Colon",
            Token::EndOfFile => "EndOfFile",
            Token::Nothing => "None",
        }
    }
}

/// The reserved literal spellings, which the identifier rule never emits.
pub open spec fn is_reserved(s: Seq<char>) -> bool {
    s == "true"@ || s == "false"@ || s == "none"@
}

/// The character at index `i`, or the terminator outside the bounds.
pub open spec fn char_at(s: Seq<char>, i: int) -> char {
    if 0 <= i && i < s.len() {
        s[i]
    } else {
        TERMINATOR
    }
}

/// The length of the maximal run of alphanumeric characters from `i` on.
pub open spec fn run_alnum(s: Seq<char>, i: int) -> nat
    decreases s.len() - i,
{
    if 0 <= i && i < s.len() && char_alphanumeric(s[i]) {
        (1 + run_alnum(s, i + 1)) as nat
    } else {
        0
    }
}

pub open spec fn run_alpha(s: Seq<char>, i: int) -> nat
    decreases s.len() - i,
{
    if 0 <= i && i < s.len() && char_alphabetic(s[i]) {
        (1 + run_alpha(s, i + 1)) as nat
    } else {
        0
    }
}

pub open spec fn run_space(s: Seq<char>, i: int) -> nat
    decreases s.len() - i,
{
    if 0 <= i && i < s.len() && char_whitespace(s[i]) {
        (1 + run_space(s, i + 1)) as nat
    } else {
        0
    }
}

pub open spec fn run_numeric(s: Seq<char>, i: int) -> nat
    decreases s.len() - i,
{
    if 0 <= i && i < s.len() && char_numeric(s[i]) {
        (1 + run_numeric(s, i + 1)) as nat
    } else {
        0
    }
}

/// A character that keeps a string literal's body going: anything but the
/// closing quote, the terminator, or a newline.
pub open spec fn string_body_char(c: char) -> bool {
    c != DOUBLE_QUOTE && c != TERMINATOR && c != NEWLINE
}

pub open spec fn run_string_body(s: Seq<char>, i: int) -> nat
    decreases s.len() - i,
{
    if 0 <= i && i < s.len() && string_body_char(s[i]) {
        (1 + run_string_body(s, i + 1)) as nat
    } else {
        0
    }
}

pub proof fn lemma_run_alnum_exact(s: Seq<char>, i: int, n: nat)
    requires
        0 <= i,
        i + n <= s.len(),
        forall|k: int| i <= k < i + n ==> char_alphanumeric(#[trigger] s[k]),
        !char_alphanumeric(char_at(s, i + n)),
    ensures
        run_alnum(s, i) == n,
    decreases n,
{
    if n > 0 {
        lemma_run_alnum_exact(s, i + 1, (n - 1) as nat);
    }
}

pub proof fn lemma_run_alpha_exact(s: Seq<char>, i: int, n: nat)
    requires
        0 <= i,
        i + n <= s.len(),
        forall|k: int| i <= k < i + n ==> char_alphabetic(#[trigger] s[k]),
        !char_alphabetic(char_at(s, i + n)),
    ensures
        run_alpha(s, i) == n,
    decreases n,
{
    if n > 0 {
        lemma_run_alpha_exact(s, i + 1, (n - 1) as nat);
    }
}

pub proof fn lemma_run_space_exact(s: Seq<char>, i: int, n: nat)
    requires
        0 <= i,
        i + n <= s.len(),
        forall|k: int| i <= k < i + n ==> char_whitespace(#[trigger] s[k]),
        !char_whitespace(char_at(s, i + n)),
    ensures
        run_space(s, i) == n,
    decreases n,
{
    if n > 0 {
        lemma_run_space_exact(s, i + 1, (n - 1) as nat);
    }
}

pub proof fn lemma_run_numeric_exact(s: Seq<char>, i: int, n: nat)
    requires
        0 <= i,
        i + n <= s.len(),
        forall|k: int| i <= k < i + n ==> char_numeric(#[trigger] s[k]),
        !char_numeric(char_at(s, i + n)),
    ensures
        run_numeric(s, i) == n,
    decreases n,
{
    if n > 0 {
        lemma_run_numeric_exact(s, i + 1, (n - 1) as nat);
    }
}

pub proof fn lemma_run_string_body_exact(s: Seq<char>, i: int, n: nat)
    requires
        0 <= i,
        i + n <= s.len(),
        forall|k: int| i <= k < i + n ==> string_body_char(#[trigger] s[k]),
        !string_body_char(char_at(s, i + n)),
    ensures
        run_string_body(s, i) == n,
    decreases n,
{
    if n > 0 {
        lemma_run_string_body_exact(s, i + 1, (n - 1) as nat);
    }
}

/// The reach the identifier rule scans to: a maximal alphanumeric run, but
/// only when the first character is alphabetic.
pub open spec fn ident_reach(s: Seq<char>, i: int) -> nat {
    if char_alphabetic(char_at(s, i)) {
        run_alnum(s, i)
    } else {
        0
    }
}

/// The reach the string rule scans to: the opening quote, the body, and the
/// closing quote when one is present before a newline or the end.
pub open spec fn string_reach(s: Seq<char>, i: int) -> nat {
    if char_at(s, i) == DOUBLE_QUOTE {
        let body = run_string_body(s, i + 1);
        if char_at(s, i + 1 + body) == DOUBLE_QUOTE {
            (body + 2) as nat
        } else {
            (body + 1) as nat
        }
    } else {
        0
    }
}

/// Commit one token of length `reach` at the cursor of `st`.
pub open spec fn commit_step(st: LexState, token: Token, reach: nat) -> LexState {
    LexState {
        tokens: st.tokens.push(token),
        descs: st.descs.push(
            Description { position: st.pos as usize, length: reach as usize },
        ),
        errors: st.errors,
        pos: st.pos + reach,
    }
}

pub open spec fn step_identifier(s: Seq<char>, st: LexState) -> LexState {
    let reach = ident_reach(s, st.pos);
    if reach > 0 && !is_reserved(s.subrange(st.pos, st.pos + reach)) {
        commit_step(st, Token::Identifier, reach)
    } else {
        st
    }
}

pub open spec fn step_space(s: Seq<char>, st: LexState) -> LexState {
    let reach = run_space(s, st.pos);
    if reach > 0 {
        commit_step(st, Token::Space, reach)
    } else {
        st
    }
}

pub open spec fn step_number(s: Seq<char>, st: LexState) -> LexState {
    let reach = run_numeric(s, st.pos);
    if reach > 0 {
        commit_step(st, Token::Number, reach)
    } else {
        st
    }
}

pub open spec fn step_string(s: Seq<char>, st: LexState) -> LexState {
    let reach = string_reach(s, st.pos);
    if reach > 0 {
        commit_step(st, Token::String, reach)
    } else {
        st
    }
}

pub open spec fn step_boolean(s: Seq<char>, st: LexState) -> LexState {
    let reach = run_alpha(s, st.pos);
    let text = s.subrange(st.pos, st.pos + reach);
    if reach > 0 && (text == "true"@ || text == "false"@) {
        commit_step(st, Token::Boolean, reach)
    } else {
        st
    }
}

pub open spec fn step_none(s: Seq<char>, st: LexState) -> LexState {
    let reach = run_alpha(s, st.pos);
    let text = s.subrange(st.pos, st.pos + reach);
    if reach > 0 && text == "none"@ {
        commit_step(st, Token::Nothing, reach)
    } else {
        st
    }
}

pub open spec fn step_symbol(s: Seq<char>, st: LexState, symbol: char, token: Token) -> LexState {
    if char_at(s, st.pos) == symbol {
        commit_step(st, token, 1)
    } else {
        st
    }
}

/// One round of every recognizer, in registration order, each trying its
/// luck at wherever the previous ones left the cursor.
pub open spec fn scan_pass(s: Seq<char>, st: LexState) -> LexState {
    let st1 = step_identifier(s, st);
    let st2 = step_space(s, st1);
    let st3 = step_number(s, st2);
    let st4 = step_string(s, st3);
    let st5 = step_boolean(s, st4);
    let st6 = step_symbol(s, st5, LAMBDA, Token::Lambda);
    let st7 = step_symbol(s, st6, OPEN_PARENTHESIS, Token::OpenParenthesis);
    let st8 = step_symbol(s, st7, CLOSE_PARENTHESIS, Token::CloseParenthesis);
    let st9 = step_symbol(s, st8, COLON, Token::Colon);
    let st10 = step_symbol(s, st9, EQUALS, Token::Equals);
    step_none(s, st10)
}

/// One round of recognizers followed by the forced-progress rule: if none of
/// them moved the cursor, one Unknown token and one UnknownToken diagnostic.
pub open spec fn scan_step(s: Seq<char>, st: LexState) -> LexState {
    let st1 = scan_pass(s, st);
    if st1.pos == st.pos {
        let flagged = LexState {
            tokens: st1.tokens,
            descs: st1.descs,
            errors: st1.errors.push(
                ErrorView::UnknownToken {
                    start: st.pos,
                    end: st.pos + 1,
                    text: s.subrange(st.pos, st.pos + 1),
                },
            ),
            pos: st1.pos,
        };
        commit_step(flagged, Token::Unknown, 1)
    } else {
        st1
    }
}

/// Scanning rounds repeated until the terminator is reached.
pub open spec fn scan(s: Seq<char>, st: LexState) -> LexState
    decreases s.len() - st.pos,
{
    if char_at(s, st.pos) == TERMINATOR {
        st
    } else {
        let st1 = scan_step(s, st);
        if st.pos < st1.pos && st1.pos <= s.len() {
            scan(s, st1)
        } else {
            st
        }
    }
}

/// Whether `s` reads exactly as the literal `text`.
pub(crate) fn text_is(s: &String, text: &str) -> (r: bool)
    ensures
        r == (s@ == text@),
{
    s.eq(&String::from_str(text))
}

impl Token {
    pub fn identifier(lexer: &mut Lexer)
        requires
            old(lexer).wf(),
            old(lexer).reach == 0,
        ensures
            final(lexer).wf(),
            final(lexer).same_input(old(lexer)),
            final(lexer).flag == old(lexer).flag,
            final(lexer).st() == step_identifier(old(lexer).chars@, old(lexer).st()),
    {
        let ghost s = lexer.chars@;
        let ghost pos = lexer.position as int;
        if lexer.current().is_alphabetic() {
            while lexer.current().is_alphanumeric()
                invariant
                    lexer.wf(),
                    lexer.same_input(old(lexer)),
                    lexer.flag == old(lexer).flag,
                    lexer.position == old(lexer).position,
                    lexer.tokens@ == old(lexer).tokens@,
                    lexer.description@ == old(lexer).description@,
                    lexer.errors@ == old(lexer).errors@,
                    s == lexer.chars@,
                    pos == lexer.position as int,
                    forall|k: int|
                        pos <= k < pos + lexer.reach ==> char_alphanumeric(#[trigger] s[k]),
                decreases s.len() - lexer.position - lexer.reach,
            {
                lexer.step()
            }
            proof {
                lemma_run_alnum_exact(s, pos, lexer.reach as nat);
                assert(lexer.reach == ident_reach(s, pos));
            }
        }

        if !text_is(&lexer.span(), "true") && !text_is(&lexer.span(), "false") && !text_is(
            &lexer.span(),
            "none",
        ) {
            lexer.add(Token::Identifier);
            proof {
                assert(lexer.st() =~= step_identifier(s, old(lexer).st()));
            }
        } else {
            proof {
                assert(lexer.st() =~= step_identifier(s, old(lexer).st()));
            }
        }
    }

    pub fn space(lexer: &mut Lexer)
        requires
            old(lexer).wf(),
            old(lexer).reach == 0,
        ensures
            final(lexer).wf(),
            final(lexer).same_input(old(lexer)),
            final(lexer).flag == old(lexer).flag,
            final(lexer).st() == step_space(old(lexer).chars@, old(lexer).st()),
    {
        let ghost s = lexer.chars@;
        let ghost pos = lexer.position as int;
        while lexer.current().is_whitespace()
            invariant
                lexer.wf(),
                lexer.same_input(old(lexer)),
                lexer.flag == old(lexer).flag,
                lexer.position == old(lexer).position,
                lexer.tokens@ == old(lexer).tokens@,
                lexer.description@ == old(lexer).description@,
                lexer.errors@ == old(lexer).errors@,
                s == lexer.chars@,
                pos == lexer.position as int,
                forall|k: int| pos <= k < pos + lexer.reach ==> char_whitespace(#[trigger] s[k]),
            decreases s.len() - lexer.position - lexer.reach,
        {
            lexer.step()
        }
        proof {
            lemma_run_space_exact(s, pos, lexer.reach as nat);
        }
        lexer.add(Token::Space);
        proof {
            assert(lexer.st() =~= step_space(s, old(lexer).st()));
        }
    }

    pub fn number(lexer: &mut Lexer)
        requires
            old(lexer).wf(),
            old(lexer).reach == 0,
        ensures
            final(lexer).wf(),
            final(lexer).same_input(old(lexer)),
            final(lexer).flag == old(lexer).flag,
            final(lexer).st() == step_number(old(lexer).chars@, old(lexer).st()),
    {
        let ghost s = lexer.chars@;
        let ghost pos = lexer.position as int;
        while lexer.current().is_numeric()
            invariant
                lexer.wf(),
                lexer.same_input(old(lexer)),
                lexer.flag == old(lexer).flag,
                lexer.position == old(lexer).position,
                lexer.tokens@ == old(lexer).tokens@,
                lexer.description@ == old(lexer).description@,
                lexer.errors@ == old(lexer).errors@,
                s == lexer.chars@,
                pos == lexer.position as int,
                forall|k: int| pos <= k < pos + lexer.reach ==> char_numeric(#[trigger] s[k]),
            decreases s.len() - lexer.position - lexer.reach,
        {
            lexer.step()
        }
        proof {
            lemma_run_numeric_exact(s, pos, lexer.reach as nat);
        }
        lexer.add(Token::Number);
        proof {
            assert(lexer.st() =~= step_number(s, old(lexer).st()));
        }
    }

    pub fn string(lexer: &mut Lexer)
        requires
            old(lexer).wf(),
            old(lexer).reach == 0,
        ensures
            final(lexer).wf(),
            final(lexer).same_input(old(lexer)),
            final(lexer).flag == old(lexer).flag,
            final(lexer).st() == step_string(old(lexer).chars@, old(lexer).st()),
    {
        let ghost s = lexer.chars@;
        let ghost pos = lexer.position as int;
        if lexer.current() == DOUBLE_QUOTE {
            lexer.step();
            while lexer.current() != DOUBLE_QUOTE && lexer.current() != TERMINATOR
                && lexer.current() != NEWLINE
                invariant
                    lexer.wf(),
                    lexer.same_input(old(lexer)),
                    lexer.flag == old(lexer).flag,
                    lexer.position == old(lexer).position,
                    lexer.tokens@ == old(lexer).tokens@,
                    lexer.description@ == old(lexer).description@,
                    lexer.errors@ == old(lexer).errors@,
                    s == lexer.chars@,
                    pos == lexer.position as int,
                    lexer.reach >= 1,
                    forall|k: int|
                        pos + 1 <= k < pos + lexer.reach ==> string_body_char(#[trigger] s[k]),
                decreases s.len() - lexer.position - lexer.reach,
            {
                lexer.step()
            }
            proof {
                lemma_run_string_body_exact(s, pos + 1, (lexer.reach - 1) as nat);
                assert(run_string_body(s, pos + 1) == lexer.reach - 1);
            }
        }
        if lexer.current() == DOUBLE_QUOTE {
            lexer.step()
        }
        lexer.add(Token::String);
        proof {
            assert(lexer.st() =~= step_string(s, old(lexer).st()));
        }
    }

    pub fn boolean(lexer: &mut Lexer)
        requires
            old(lexer).wf(),
            old(lexer).reach == 0,
        ensures
            final(lexer).wf(),
            final(lexer).same_input(old(lexer)),
            final(lexer).flag == old(lexer).flag,
            final(lexer).st() == step_boolean(old(lexer).chars@, old(lexer).st()),
    {
        let ghost s = lexer.chars@;
        let ghost pos = lexer.position as int;
        while lexer.current().is_alphabetic()
            invariant
                lexer.wf(),
                lexer.same_input(old(lexer)),
                lexer.flag == old(lexer).flag,
                lexer.position == old(lexer).position,
                lexer.tokens@ == old(lexer).tokens@,
                lexer.description@ == old(lexer).description@,
                lexer.errors@ == old(lexer).errors@,
                s == lexer.chars@,
                pos == lexer.position as int,
                forall|k: int| pos <= k < pos + lexer.reach ==> char_alphabetic(#[trigger] s[k]),
            decreases s.len() - lexer.position - lexer.reach,
        {
            lexer.step()
        }
        proof {
            lemma_run_alpha_exact(s, pos, lexer.reach as nat);
        }

        if text_is(&lexer.span(), "true") || text_is(&lexer.span(), "false") {
            lexer.add(Token::Boolean)
        }
        proof {
            assert(lexer.st() =~= step_boolean(s, old(lexer).st()));
        }
    }

    pub fn none(lexer: &mut Lexer)
        requires
            old(lexer).wf(),
            old(lexer).reach == 0,
        ensures
            final(lexer).wf(),
            final(lexer).same_input(old(lexer)),
            final(lexer).flag == old(lexer).flag,
            final(lexer).st() == step_none(old(lexer).chars@, old(lexer).st()),
    {
        let ghost s = lexer.chars@;
        let ghost pos = lexer.position as int;
        while lexer.current().is_alphabetic()
            invariant
                lexer.wf(),
                lexer.same_input(old(lexer)),
                lexer.flag == old(lexer).flag,
                lexer.position == old(lexer).position,
                lexer.tokens@ == old(lexer).tokens@,
                lexer.description@ == old(lexer).description@,
                lexer.errors@ == old(lexer).errors@,
                s == lexer.chars@,
                pos == lexer.position as int,
                forall|k: int| pos <= k < pos + lexer.reach ==> char_alphabetic(#[trigger] s[k]),
            decreases s.len() - lexer.position - lexer.reach,
        {
            lexer.step()
        }
        proof {
            lemma_run_alpha_exact(s, pos, lexer.reach as nat);
        }

        if text_is(&lexer.span(), "none") {
            lexer.add(Token::Nothing)
        }
        proof {
            assert(lexer.st() =~= step_none(s, old(lexer).st()));
        }
    }

    pub fn lambda(lexer: &mut Lexer)
        requires
            old(lexer).wf(),
            old(lexer).reach == 0,
        ensures
            final(lexer).wf(),
            final(lexer).same_input(old(lexer)),
            final(lexer).flag == old(lexer).flag,
            final(lexer).st() == step_symbol(
                old(lexer).chars@,
                old(lexer).st(),
                LAMBDA,
                Token::Lambda,
            ),
    {
        if lexer.current() == LAMBDA {
            lexer.step()
        }

        lexer.add(Token::Lambda);
        proof {
            assert(lexer.st() =~= step_symbol(
                old(lexer).chars@,
                old(lexer).st(),
                LAMBDA,
                Token::Lambda,
            ));
        }
    }

    pub fn equals(lexer: &mut Lexer)
        requires
            old(lexer).wf(),
            old(lexer).reach == 0,
        ensures
            final(lexer).wf(),
            final(lexer).same_input(old(lexer)),
            final(lexer).flag == old(lexer).flag,
            final(lexer).st() == step_symbol(
                old(lexer).chars@,
                old(lexer).st(),
                EQUALS,
                Token::Equals,
            ),
    {
        if lexer.current() == EQUALS {
            lexer.step()
        }

        lexer.add(Token::Equals);
        proof {
            assert(lexer.st() =~= step_symbol(
                old(lexer).chars@,
                old(lexer).st(),
                EQUALS,
                Token::Equals,
            ));
        }
    }

    pub fn open_parenthesis(lexer: &mut Lexer)
        requires
            old(lexer).wf(),
            old(lexer).reach == 0,
        ensures
            final(lexer).wf(),
            final(lexer).same_input(old(lexer)),
            final(lexer).flag == old(lexer).flag,
            final(lexer).st() == step_symbol(
                old(lexer).chars@,
                old(lexer).st(),
                OPEN_PARENTHESIS,
                Token::OpenParenthesis,
            ),
    {
        if lexer.current() == OPEN_PARENTHESIS {
            lexer.step()
        }

        lexer.add(Token::OpenParenthesis);
        proof {
            assert(lexer.st() =~= step_symbol(
                old(lexer).chars@,
                old(lexer).st(),
                OPEN_PARENTHESIS,
                Token::OpenParenthesis,
            ));
        }
    }

    pub fn close_parenthesis(lexer: &mut Lexer)
        requires
            old(lexer).wf(),
            old(lexer).reach == 0,
        ensures
            final(lexer).wf(),
            final(lexer).same_input(old(lexer)),
            final(lexer).flag == old(lexer).flag,
            final(lexer).st() == step_symbol(
                old(lexer).chars@,
                old(lexer).st(),
                CLOSE_PARENTHESIS,
                Token::CloseParenthesis,
            ),
    {
        if lexer.current() == CLOSE_PARENTHESIS {
            lexer.step()
        }

        lexer.add(Token::CloseParenthesis);
        proof {
            assert(lexer.st() =~= step_symbol(
                old(lexer).chars@,
                old(lexer).st(),
                CLOSE_PARENTHESIS,
                Token::CloseParenthesis,
            ));
        }
    }

    pub fn colon(lexer: &mut Lexer)
        requires
            old(lexer).wf(),
            old(lexer).reach == 0,
        ensures
            final(lexer).wf(),
            final(lexer).same_input(old(lexer)),
            final(lexer).flag == old(lexer).flag,
            final(lexer).st() == step_symbol(
                old(lexer).chars@,
                old(lexer).st(),
                COLON,
                Token::Colon,
            ),
    {
        if lexer.current() == COLON {
            lexer.step()
        }

        lexer.add(Token::Colon);
        proof {
            assert(lexer.st() =~= step_symbol(
                old(lexer).chars@,
                old(lexer).st(),
                COLON,
                Token::Colon,
            ));
        }
    }

    /// The forced-progress rule: consume exactly one character as Unknown.
    pub fn unknown(lexer: &mut crate::lexer::Lexer)
        requires
            old(lexer).wf(),
            old(lexer).reach == 0,
            old(lexer).position < old(lexer).chars@.len(),
        ensures
            final(lexer).wf(),
            final(lexer).same_input(old(lexer)),
            final(lexer).reach == 0,
            final(lexer).flag == old(lexer).flag,
            final(lexer).errors@ == old(lexer).errors@,
            final(lexer).tokens@ == old(lexer).tokens@.push(Token::Unknown),
            final(lexer).description@ == old(lexer).description@.push(
                crate::lexer::Description { position: old(lexer).position, length: 1 },
            ),
            final(lexer).position == old(lexer).position + 1,
    {
        lexer.step();
        lexer.add(Token::Unknown);
    }
}

/// Let every recognizer try its luck, in registration order, each starting
/// with a clean lookahead.
pub fn register_tokens(lexer: &mut Lexer)
    requires
        old(lexer).wf(),
        old(lexer).reach == 0,
    ensures
        final(lexer).wf(),
        final(lexer).same_input(old(lexer)),
        final(lexer).flag == old(lexer).flag,
        final(lexer).reach == 0,
        final(lexer).st() == scan_pass(old(lexer).chars@, old(lexer).st()),
{
    Token::identifier(lexer);
    lexer.reach = 0;
    Token::space(lexer);
    lexer.reach = 0;
    Token::number(lexer);
    lexer.reach = 0;
    Token::string(lexer);
    lexer.reach = 0;
    Token::boolean(lexer);
    lexer.reach = 0;
    Token::lambda(lexer);
    lexer.reach = 0;
    Token::open_parenthesis(lexer);
    lexer.reach = 0;
    Token::close_parenthesis(lexer);
    lexer.reach = 0;
    Token::colon(lexer);
    lexer.reach = 0;
    Token::equals(lexer);
    lexer.reach = 0;
    Token::none(lexer);
    lexer.reach = 0;
}

/// Build the lexer and scan the whole source from `start` until the
/// terminator: the end of the input or an embedded NUL, whichever is first.
/// The committed spans tile the scanned range exactly.
pub fn tokenize(source: &str, start: usize) -> (r: Lexer)
    requires
        start <= source@.len(),
    ensures
        r.wf(),
        r.source@ == source@,
        r.chars@ == source@,
        r.start == start,
        r.reach == 0,
        r.st() == scan(
            source@,
            LexState {
                tokens: Seq::<Token>::empty(),
                descs: Seq::<Description>::empty(),
                errors: Seq::<ErrorView>::empty(),
                pos: start as int,
            },
        ),
        char_at(source@, r.position as int) == TERMINATOR,
{
    let mut lexer = Lexer::new(source, start);
    let ghost st0 = lexer.st();
    while lexer.current() != TERMINATOR
        invariant
            lexer.wf(),
            lexer.reach == 0,
            lexer.source@ == source@,
            lexer.chars@ == source@,
            lexer.start == start,
            scan(source@, lexer.st()) == scan(source@, st0),
        decreases source@.len() - lexer.position,
    {
        let ghost before = lexer.st();
        lexer.next_token();
        proof {
            assert(scan(source@, before) == scan(source@, lexer.st()));
        }
    }
    lexer
}

} // verus!
