use vstd::prelude::*;
use vstd::string::StringExecFns;

use crate::token::Token;
use crate::types::Type;
use core::ops::Range;

verus! {

/// A structured, non-aborting report of a syntax or type problem, tied to a
/// half-open byte range of the session source.
#[derive(Debug)]
pub enum Error {
    UnknownToken(Range<usize>, String),
    UnknownName(Range<usize>, String),
    UnexpectedType(Range<usize>, Type, Type),
    Reassignment(Range<usize>, String),
    UnexpectedToken(Range<usize>, Token, Token),
    BadCall(Range<usize>),
    MismatchedTypeAssignment(Range<usize>, String, Type, Type),
}

#[derive(Debug, Clone, Copy, PartialEq, Eq, Structural)]
pub enum Category {
    Syntax,
    Type,
}

/// The mathematical content of a diagnostic: the range as integers, names as
/// character sequences, and the types involved.
pub ghost enum ErrorView {
    UnknownToken { start: int, end: int, text: Seq<char> },
    UnknownName { start: int, end: int, text: Seq<char> },
    UnexpectedType { start: int, end: int, expected: Type, received: Type },
    Reassignment { start: int, end: int, text: Seq<char> },
    UnexpectedToken { start: int, end: int, expected: Token, received: Token },
    BadCall { start: int, end: int },
    MismatchedTypeAssignment { start: int, end: int, text: Seq<char>, expression: Type, name: Type },
}

impl View for Error {
    type V = ErrorView;

    open spec fn view(&self) -> ErrorView {
        match self {
            Error::UnknownToken(range, text) => ErrorView::UnknownToken {
                start: range.start as int,
                end: range.end as int,
                text: text@,
            },
            Error::UnknownName(range, text) => ErrorView::UnknownName {
                start: range.start as int,
                end: range.end as int,
                text: text@,
            },
            Error::UnexpectedType(range, expected, received) => ErrorView::UnexpectedType {
                start: range.start as int,
                end: range.end as int,
                expected: *expected,
                received: *received,
            },
            Error::Reassignment(range, text) => ErrorView::Reassignment {
                start: range.start as int,
                end: range.end as int,
                text: text@,
            },
            Error::UnexpectedToken(range, expected, received) => ErrorView::UnexpectedToken {
                start: range.start as int,
                end: range.end as int,
                expected: *expected,
                received: *received,
            },
            Error::BadCall(range) => ErrorView::BadCall {
                start: range.start as int,
                end: range.end as int,
            },
            Error::MismatchedTypeAssignment(range, text, expression, name) => {
                ErrorView::MismatchedTypeAssignment {
                    start: range.start as int,
                    end: range.end as int,
                    text: text@,
                    expression: *expression,
                    name: *name,
                }
            },
        }
    }
}

/// The message each diagnostic renders to, over the names and types it
/// carries.
pub open spec fn message_text(e: ErrorView) -> Seq<char> {
    match e {
        ErrorView::UnknownName { text, .. } => "Unknown name \""@ + text + "\""@,
        ErrorView::UnexpectedType { expected, received, .. } => "Unexpected type "@
            + crate::types::type_text(received) + ", expected a "@ + crate::types::type_text(
            expected,
        ),
        ErrorView::Reassignment { text, .. } => "Cannot reassign name \""@ + text + "\""@,
        ErrorView::UnknownToken { text, .. } => "Unknown token "@ + text,
        ErrorView::UnexpectedToken { expected, received, .. } => "Unexpected token "@
            + crate::token::token_text(received) + ", expected "@ + crate::token::token_text(
            expected,
        ),
        ErrorView::BadCall { .. } => "Cannot call a non-closure value"@,
        ErrorView::MismatchedTypeAssignment { text, expression, name, .. } => {
            "Tried to assign expression of type "@ + crate::types::type_text(expression)
                + " to name \""@ + text + "\", which is of type "@ + crate::types::type_text(name)
        },
    }
}

/// The views of a sequence of diagnostics, in order.
pub open spec fn views_of(es: Seq<Error>) -> Seq<ErrorView> {
    es.map_values(|e: Error| e@)
}

pub proof fn lemma_views_push(es: Seq<Error>, e: Error)
    ensures
        views_of(es.push(e)) == views_of(es).push(e@),
{
    assert(views_of(es.push(e)) =~= views_of(es).push(e@));
}

impl Clone for Error {
    fn clone(&self) -> (r: Error)
        ensures
            r@ == self@,
    {
        match self {
            Error::UnknownToken(range, text) => Error::UnknownToken(
                range.start..range.end,
                text.clone(),
            ),
            Error::UnknownName(range, text) => Error::UnknownName(
                range.start..range.end,
                text.clone(),
            ),
            Error::UnexpectedType(range, expected, received) => Error::UnexpectedType(
                range.start..range.end,
                expected.clone(),
                received.clone(),
            ),
            Error::Reassignment(range, text) => Error::Reassignment(
                range.start..range.end,
                text.clone(),
            ),
            Error::UnexpectedToken(range, expected, received) => Error::UnexpectedToken(
                range.start..range.end,
                *expected,
                *received,
            ),
            Error::BadCall(range) => Error::BadCall(range.start..range.end),
            Error::MismatchedTypeAssignment(range, text, expression, name) => {
                Error::MismatchedTypeAssignment(
                    range.start..range.end,
                    text.clone(),
                    expression.clone(),
                    name.clone(),
                )
            },
        }
    }
}

impl Error {
    /// Every diagnostic belongs to the pass that raised it: the lexer and
    /// parser raise syntax errors, the binder raises type errors.
    pub fn category(&self) -> (r: Category)
        ensures
            r == (match self@ {
                ErrorView::UnknownToken { .. } => Category::Syntax,
                ErrorView::UnexpectedToken { .. } => Category::Syntax,
                _ => Category::Type,
            }),
    {
        match self {
            Error::UnknownToken(..) => Category::Syntax,
            Error::UnexpectedToken(..) => Category::Syntax,
            _ => Category::Type,
        }
    }

    /// The diagnostic's human-readable message, without the range.
    pub fn message(&self) -> (r: String)
        ensures
            r@ == message_text(self@),
    {
        match self {
            Error::UnknownName(_, name) => {
                let mut out = String::from_str("Unknown name \"");
                out.append(name.as_str());
                out.append("\"");
                out
            },
            Error::UnexpectedType(_, expected, received) => {
                let mut out = String::from_str("Unexpected type ");
                let received_text = received.text();
                out.append(received_text.as_str());
                out.append(", expected a ");
                let expected_text = expected.text();
                out.append(expected_text.as_str());
                out
            },
            Error::Reassignment(_, name) => {
                let mut out = String::from_str("Cannot reassign name \"");
                out.append(name.as_str());
                out.append("\"");
                out
            },
            Error::UnknownToken(_, text) => {
                let mut out = String::from_str("Unknown token ");
                out.append(text.as_str());
                out
            },
            Error::UnexpectedToken(_, expected, received) => {
                let mut out = String::from_str("Unexpected token ");
                out.append(received.text());
                out.append(", expected ");
                out.append(expected.text());
                out
            },
            Error::BadCall(_) => String::from_str(
                "Cannot call a non-closure value",
            ),
            Error::MismatchedTypeAssignment(_, name, expression, declared) => {
                let mut out = String::from_str(
                    "Tried to assign expression of type ",
                );
                let expression_text = expression.text();
                out.append(expression_text.as_str());
                out.append(" to name \"");
                out.append(name.as_str());
                out.append("\", which is of type ");
                let declared_text = declared.text();
                out.append(declared_text.as_str());
                out
            },
        }
    }

    /// The half-open source range the diagnostic points at.
    pub fn span(&self) -> (r: (usize, usize))
        ensures
            (match self@ {
                ErrorView::UnknownToken { start, end, .. } => r.0 == start && r.1 == end,
                ErrorView::UnknownName { start, end, .. } => r.0 == start && r.1 == end,
                ErrorView::UnexpectedType { start, end, .. } => r.0 == start && r.1 == end,
                ErrorView::Reassignment { start, end, .. } => r.0 == start && r.1 == end,
                ErrorView::UnexpectedToken { start, end, .. } => r.0 == start && r.1 == end,
                ErrorView::BadCall { start, end } => r.0 == start && r.1 == end,
                ErrorView::MismatchedTypeAssignment { start, end, .. } => r.0 == start && r.1 == end,
            }),
    {
        match self {
            Error::UnknownToken(range, _) => (range.start, range.end),
            Error::UnknownName(range, _) => (range.start, range.end),
            Error::UnexpectedType(range, _, _) => (range.start, range.end),
            Error::Reassignment(range, _) => (range.start, range.end),
            Error::UnexpectedToken(range, _, _) => (range.start, range.end),
            Error::BadCall(range) => (range.start, range.end),
            Error::MismatchedTypeAssignment(range, _, _, _) => (range.start, range.end),
        }
    }
}

} // verus!
