use rusp::lexer::{lex, tokenize, StaticCharStream, Token, TokenErrorKind};

#[test]
fn tokenize_simple_call() {
    let tokens = tokenize("(+ 1 2)").unwrap();
    assert_eq!(
        tokens,
        vec![
            Token::OpenParen,
            Token::Id("+".to_string()),
            Token::IntLiteral(1),
            Token::IntLiteral(2),
            Token::CloseParen,
        ]
    );
}

#[test]
fn stream_yields_tokens_of_simple_call() {
    let mut stream = lex("(+ 1 2)");
    let mut seen = Vec::new();
    while let Some(t) = stream.advance().unwrap() {
        seen.push(t);
    }
    assert_eq!(
        seen,
        vec![
            Token::OpenParen,
            Token::Id("+".to_string()),
            Token::IntLiteral(1),
            Token::IntLiteral(2),
            Token::CloseParen,
        ]
    );
}

#[test]
fn peek_does_not_advance() {
    let mut stream = lex("(foo)");
    assert_eq!(stream.peek().unwrap(), Some(Token::OpenParen));
    assert_eq!(stream.peek().unwrap(), Some(Token::OpenParen));
    assert_eq!(stream.advance().unwrap(), Some(Token::OpenParen));
    assert_eq!(stream.peek().unwrap(), Some(Token::Id("foo".to_string())));
    assert_eq!(stream.advance().unwrap(), Some(Token::Id("foo".to_string())));
    assert_eq!(stream.advance().unwrap(), Some(Token::CloseParen));
    assert_eq!(stream.advance().unwrap(), None);
    assert_eq!(stream.peek().unwrap(), None);
}

#[test]
fn advance_without_peek_reads_tokens() {
    let mut stream = lex("  42");
    assert_eq!(stream.advance().unwrap(), Some(Token::IntLiteral(42)));
    assert_eq!(stream.advance().unwrap(), None);
}

#[test]
fn empty_text_has_no_tokens() {
    assert_eq!(tokenize("").unwrap(), Vec::<Token>::new());
    assert_eq!(tokenize(" \t\n ").unwrap(), Vec::<Token>::new());
}

#[test]
fn whitespace_of_all_kinds_separates_tokens() {
    let tokens = tokenize("a\tb\nc\r\nd").unwrap();
    assert_eq!(
        tokens,
        vec![
            Token::Id("a".to_string()),
            Token::Id("b".to_string()),
            Token::Id("c".to_string()),
            Token::Id("d".to_string()),
        ]
    );
}

#[test]
fn string_literal_keeps_raw_text() {
    let tokens = tokenize("(write \"hello (world) \\n\")").unwrap();
    assert_eq!(
        tokens,
        vec![
            Token::OpenParen,
            Token::Id("write".to_string()),
            Token::StringLiteral("hello (world) \\n".to_string()),
            Token::CloseParen,
        ]
    );
}

#[test]
fn empty_string_literal() {
    assert_eq!(tokenize("\"\"").unwrap(), vec![Token::StringLiteral(String::new())]);
}

#[test]
fn unterminated_string_is_an_error() {
    let err = tokenize("(write \"abc)").unwrap_err();
    assert_eq!(err.kind, TokenErrorKind::UnterminatedString);
}

#[test]
fn integer_overflow_is_an_error() {
    let err = tokenize("9223372036854775808").unwrap_err();
    assert_eq!(err.kind, TokenErrorKind::IntegerOverflow);
}

#[test]
fn largest_integer_is_accepted() {
    assert_eq!(
        tokenize("9223372036854775807").unwrap(),
        vec![Token::IntLiteral(i64::MAX)]
    );
}

#[test]
fn identifiers_may_hold_digits_after_the_first_character() {
    assert_eq!(
        tokenize("x1 <= a-b").unwrap(),
        vec![
            Token::Id("x1".to_string()),
            Token::Id("<=".to_string()),
            Token::Id("a-b".to_string()),
        ]
    );
}

#[test]
fn digits_then_letters_split_into_two_tokens() {
    assert_eq!(
        tokenize("12abc").unwrap(),
        vec![Token::IntLiteral(12), Token::Id("abc".to_string())]
    );
}

#[test]
fn unicode_identifier_is_kept_whole() {
    assert_eq!(
        tokenize("(λ été)").unwrap(),
        vec![
            Token::OpenParen,
            Token::Id("λ".to_string()),
            Token::Id("été".to_string()),
            Token::CloseParen,
        ]
    );
}

#[test]
fn char_stream_reads_characters_in_order() {
    let mut cs = StaticCharStream::new("ab");
    assert_eq!(cs.peek(), Some('a'));
    assert_eq!(cs.advance(), Some('a'));
    assert_eq!(cs.advance(), Some('b'));
    assert_eq!(cs.advance(), None);
    assert_eq!(cs.peek(), None);
}

#[test]
fn unicode_white_space_separates_tokens() {
    assert_eq!(
        tokenize("a\u{00A0}b\u{3000}c\u{2028}d").unwrap(),
        vec![
            Token::Id("a".to_string()),
            Token::Id("b".to_string()),
            Token::Id("c".to_string()),
            Token::Id("d".to_string()),
        ]
    );
}
