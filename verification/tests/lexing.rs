use loki::lexer::{lex, LexError, Token};

#[test]
fn lex_function_binding() {
    let tokens = lex("a :: fn ( ) { return 1 + 2 ; }").unwrap();
    assert_eq!(
        tokens,
        vec![
            Token::Ident("a".to_string()),
            Token::ColonColon,
            Token::Fn,
            Token::ParenOpen,
            Token::ParenClose,
            Token::BraceOpen,
            Token::Return,
            Token::NumberLiteral(1),
            Token::Plus,
            Token::NumberLiteral(2),
            Token::Semicolon,
            Token::BraceClose,
        ]
    );
}

#[test]
fn lex_keywords_and_idents() {
    let tokens = lex("fn return let if while struct foo _a1b2").unwrap();
    assert_eq!(
        tokens,
        vec![
            Token::Fn,
            Token::Return,
            Token::Let,
            Token::If,
            Token::While,
            Token::Struct,
            Token::Ident("foo".to_string()),
            Token::Ident("_a1b2".to_string()),
        ]
    );
}

#[test]
fn lex_two_character_tokens() {
    let tokens = lex(":: -> == = : < >").unwrap();
    assert_eq!(
        tokens,
        vec![
            Token::ColonColon,
            Token::Arrow,
            Token::EqualsEquals,
            Token::Equals,
            Token::Colon,
            Token::AngleBracketOpen,
            Token::AngleBracketClose,
        ]
    );
}

#[test]
fn lex_punctuation() {
    let tokens = lex("; , . + - * ( ) { }").unwrap();
    assert_eq!(
        tokens,
        vec![
            Token::Semicolon,
            Token::Comma,
            Token::Period,
            Token::Plus,
            Token::Hyphen,
            Token::Star,
            Token::ParenOpen,
            Token::ParenClose,
            Token::BraceOpen,
            Token::BraceClose,
        ]
    );
}

#[test]
fn lex_skips_line_comments() {
    let tokens = lex("a // the rest of this line vanishes ;;;\nb").unwrap();
    assert_eq!(
        tokens,
        vec![Token::Ident("a".to_string()), Token::Ident("b".to_string())]
    );
}

#[test]
fn lex_comment_at_end_of_input() {
    let tokens = lex("a // no newline after this").unwrap();
    assert_eq!(tokens, vec![Token::Ident("a".to_string())]);
}

#[test]
fn lex_string_literal() {
    let tokens = lex("s :: \"hello world\" ;").unwrap();
    assert_eq!(
        tokens,
        vec![
            Token::Ident("s".to_string()),
            Token::ColonColon,
            Token::StringLiteral("hello world".to_string()),
            Token::Semicolon,
        ]
    );
}

#[test]
fn lex_adjacent_tokens_without_spaces() {
    let tokens = lex("f(x+1).y").unwrap();
    assert_eq!(
        tokens,
        vec![
            Token::Ident("f".to_string()),
            Token::ParenOpen,
            Token::Ident("x".to_string()),
            Token::Plus,
            Token::NumberLiteral(1),
            Token::ParenClose,
            Token::Period,
            Token::Ident("y".to_string()),
        ]
    );
}

#[test]
fn lex_number_at_i64_limit() {
    let tokens = lex("9223372036854775807").unwrap();
    assert_eq!(tokens, vec![Token::NumberLiteral(i64::MAX)]);
}

#[test]
fn lex_number_above_i64_limit_fails() {
    let err = lex("9223372036854775808").unwrap_err();
    assert_eq!(err, LexError::NumberOutOfRange { pos: 0 });
}

#[test]
fn lex_unexpected_character_fails() {
    let err = lex("a ? b").unwrap_err();
    assert_eq!(err, LexError::UnexpectedChar { c: '?', pos: 2 });
}

#[test]
fn lex_lone_slash_fails() {
    let err = lex("a / b").unwrap_err();
    assert_eq!(err, LexError::UnexpectedChar { c: '/', pos: 2 });
}

#[test]
fn lex_unterminated_string_fails() {
    let err = lex("\"abc").unwrap_err();
    assert_eq!(err, LexError::UnterminatedString { pos: 0 });
}

#[test]
fn lex_empty_input() {
    assert_eq!(lex("").unwrap(), Vec::<Token>::new());
    assert_eq!(lex(" \t\n").unwrap(), Vec::<Token>::new());
}

#[test]
fn token_ident_accessor() {
    assert_eq!(
        Token::Ident("x".to_string()).ident(),
        Some("x".to_string())
    );
    assert_eq!(Token::Semicolon.ident(), None);
    assert_eq!(Token::NumberLiteral(3).ident(), None);
}
