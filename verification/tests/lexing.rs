use minilang::lexer::{Description, Lexer};
use minilang::token::{tokenize, Token};

fn spans(lexer: &Lexer) -> Vec<(usize, usize)> {
    lexer.description.iter().map(|d| (d.position, d.length)).collect()
}

#[test]
fn tokenizes_an_assignment() {
    let lexer = tokenize("x = 5", 0);
    assert_eq!(
        lexer.tokens,
        vec![Token::Identifier, Token::Space, Token::Equals, Token::Space, Token::Number]
    );
    assert_eq!(spans(&lexer), vec![(0, 1), (1, 1), (2, 1), (3, 1), (4, 1)]);
    assert!(lexer.errors.is_empty());
}

#[test]
fn spans_tile_the_source_contiguously() {
    for source in ["x = 5", "f = x : Number \u{2192} x", "a@b \"str\" 12 true none ()"] {
        let lexer = tokenize(source, 0);
        let mut expected = 0usize;
        for d in &lexer.description {
            assert_eq!(d.position, expected, "gap or overlap in {:?}", source);
            assert!(d.length > 0);
            expected = d.position + d.length;
        }
        assert_eq!(expected, source.chars().count(), "spans do not cover {:?}", source);
    }
}

#[test]
fn scanning_stops_at_an_embedded_nul() {
    let lexer = tokenize("a\u{0}b", 0);
    assert_eq!(lexer.tokens, vec![Token::Identifier]);
    assert_eq!(lexer.position, 1);
}

#[test]
fn scanning_starts_at_the_given_offset() {
    let lexer = tokenize("x = 1y = 2", 5);
    assert_eq!(
        lexer.tokens,
        vec![Token::Identifier, Token::Space, Token::Equals, Token::Space, Token::Number]
    );
    assert_eq!(spans(&lexer)[0], (5, 1));
}

#[test]
fn unknown_character_is_one_token_and_one_diagnostic() {
    let lexer = tokenize("@", 0);
    assert_eq!(lexer.tokens, vec![Token::Unknown]);
    assert_eq!(lexer.errors.len(), 1);
    assert!(matches!(
        &lexer.errors[0],
        minilang::error::Error::UnknownToken(range, text) if range.start == 0 && range.end == 1 && text == "@"
    ));
}

#[test]
fn keywords_are_not_identifiers() {
    assert_eq!(tokenize("true", 0).tokens, vec![Token::Boolean]);
    assert_eq!(tokenize("false", 0).tokens, vec![Token::Boolean]);
    assert_eq!(tokenize("none", 0).tokens, vec![Token::Nothing]);
    assert_eq!(tokenize("truex", 0).tokens, vec![Token::Identifier]);
    assert_eq!(tokenize("abc123", 0).tokens, vec![Token::Identifier]);
}

#[test]
fn string_literals_run_to_the_closing_quote() {
    let closed = tokenize("\"ab\"", 0);
    assert_eq!(closed.tokens, vec![Token::String]);
    assert_eq!(spans(&closed), vec![(0, 4)]);
}

#[test]
fn unterminated_string_closes_at_the_end_without_diagnostic() {
    let open = tokenize("\"ab", 0);
    assert_eq!(open.tokens, vec![Token::String]);
    assert_eq!(spans(&open), vec![(0, 3)]);
    assert!(open.errors.is_empty());
}

#[test]
fn string_stops_at_a_newline() {
    let lexer = tokenize("\"ab\ncd", 0);
    assert_eq!(lexer.tokens[0], Token::String);
    assert_eq!(lexer.description[0], Description { position: 0, length: 3 });
}

#[test]
fn symbols_lex_one_character_each() {
    let lexer = tokenize("(:)=\u{2192}", 0);
    assert_eq!(
        lexer.tokens,
        vec![
            Token::OpenParenthesis,
            Token::Colon,
            Token::CloseParenthesis,
            Token::Equals,
            Token::Lambda
        ]
    );
}

#[test]
fn numbers_lex_as_maximal_digit_runs() {
    let lexer = tokenize("123abc", 0);
    assert_eq!(lexer.tokens, vec![Token::Number, Token::Identifier]);
    assert_eq!(spans(&lexer), vec![(0, 3), (3, 3)]);
}

#[test]
fn empty_source_lexes_to_nothing() {
    let lexer = tokenize("", 0);
    assert!(lexer.tokens.is_empty());
    assert!(lexer.description.is_empty());
    assert!(lexer.errors.is_empty());
    assert_eq!(lexer.position, 0);
}
