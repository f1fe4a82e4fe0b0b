use minilang::error::Error;
use minilang::parser::parse;
use minilang::syntax::Syntax;
use minilang::token::Token;

#[test]
fn parses_an_assignment() {
    let (syntax, errors) = parse("x = 5", 0);
    assert!(errors.is_empty());
    match syntax {
        Syntax::Assignment(a) => {
            assert_eq!(a.name.0, Token::Identifier);
            assert!(a.type_expression.is_none());
            assert!(matches!(*a.expression, Syntax::Literal(_)));
        },
        other => panic!("expected an assignment, got {:?}", other),
    }
}

#[test]
fn calls_fold_left_associatively() {
    let (syntax, errors) = parse("f x y", 0);
    assert!(errors.is_empty());
    match syntax {
        Syntax::Call(outer) => {
            match *outer.0 {
                Syntax::Call(inner) => {
                    assert!(matches!(*inner.0, Syntax::Name(_)));
                    assert!(matches!(*inner.1, Syntax::Name(_)));
                },
                other => panic!("expected an inner call, got {:?}", other),
            }
            assert!(matches!(*outer.1, Syntax::Name(_)));
        },
        other => panic!("expected a call, got {:?}", other),
    }
}

#[test]
fn parses_a_closure_head() {
    let (syntax, errors) = parse("x : Number \u{2192} x", 0);
    assert!(errors.is_empty());
    match syntax {
        Syntax::Closure(c) => {
            assert_eq!(c.name.0, Token::Identifier);
            assert_eq!(c.lambda.0, Token::Lambda);
            assert!(matches!(*c.expression, Syntax::Name(_)));
        },
        other => panic!("expected a closure, got {:?}", other),
    }
}

#[test]
fn parses_a_typed_assignment() {
    let (syntax, errors) = parse("x : Number = 5", 0);
    assert!(errors.is_empty());
    match syntax {
        Syntax::Assignment(a) => {
            assert!(a.type_expression.is_some());
            assert!(matches!(*a.expression, Syntax::Literal(_)));
        },
        other => panic!("expected a typed assignment, got {:?}", other),
    }
}

#[test]
fn parenthesized_expressions_group() {
    let (syntax, errors) = parse("f (g x)", 0);
    assert!(errors.is_empty());
    match syntax {
        Syntax::Call(outer) => {
            assert!(matches!(*outer.0, Syntax::Name(_)));
            assert!(matches!(*outer.1, Syntax::Call(_)));
        },
        other => panic!("expected a call, got {:?}", other),
    }
}

#[test]
fn missing_close_parenthesis_recovers_with_a_diagnostic() {
    let (syntax, errors) = parse("(x", 0);
    assert!(matches!(syntax, Syntax::Name(_)));
    assert_eq!(errors.len(), 1);
    assert!(matches!(
        &errors[0],
        Error::UnexpectedToken(_, Token::CloseParenthesis, Token::EndOfFile)
    ));
}

#[test]
fn missing_lambda_recovers_with_a_diagnostic() {
    // recovery consumes the mismatched token, so the body then runs out of
    // input and a second diagnostic follows
    let (syntax, errors) = parse("x : Number 5", 0);
    assert!(matches!(syntax, Syntax::Closure(_)));
    assert_eq!(errors.len(), 2);
    assert!(matches!(&errors[0], Error::UnexpectedToken(_, Token::Lambda, Token::Number)));
    assert!(matches!(&errors[1], Error::UnexpectedToken(_, Token::Identifier, Token::EndOfFile)));
}

#[test]
fn unknown_token_diagnostics_reach_the_parse_result() {
    // the lexer's diagnostic comes first; the parser then stumbles over the
    // Unknown token where a primary was expected
    let (_, errors) = parse("x = @", 0);
    assert_eq!(errors.len(), 2);
    assert!(matches!(&errors[0], Error::UnknownToken(..)));
    assert!(matches!(&errors[1], Error::UnexpectedToken(_, Token::Identifier, Token::Unknown)));
}

#[test]
fn literals_parse_as_literal_leaves() {
    for (source, token) in [
        ("5", Token::Number),
        ("\"s\"", Token::String),
        ("true", Token::Boolean),
        ("none", Token::Nothing),
    ] {
        let (syntax, errors) = parse(source, 0);
        assert!(errors.is_empty());
        match syntax {
            Syntax::Literal(leaf) => assert_eq!(leaf.0.0, token),
            other => panic!("expected a literal for {:?}, got {:?}", source, other),
        }
    }
}
