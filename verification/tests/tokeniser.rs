use calculator::tokeniser::{LexError, Token, TokenKind, Tokeniser};

#[test]
fn tokenise_simple_expression() {
    let mut tokeniser = Tokeniser::new(String::from("1 + 2.5"));
    assert_eq!(
        tokeniser.next_token(),
        Ok(Token { kind: TokenKind::IntLiteral, value: Some(String::from("1")), pos: 0 })
    );
    assert_eq!(tokeniser.next_token(), Ok(Token { kind: TokenKind::Add, value: None, pos: 2 }));
    assert_eq!(
        tokeniser.next_token(),
        Ok(Token { kind: TokenKind::FloatLiteral, value: Some(String::from("2.5")), pos: 4 })
    );
    assert_eq!(tokeniser.next_token(), Ok(Token { kind: TokenKind::EOF, value: None, pos: 7 }));
    // Once the end is reached, every further call returns EOF again.
    assert_eq!(tokeniser.next_token(), Ok(Token { kind: TokenKind::EOF, value: None, pos: 7 }));
}

#[test]
fn tokenise_all_single_char_tokens() {
    let mut tokeniser = Tokeniser::new(String::from("+-*/()"));
    let kinds = [
        TokenKind::Add,
        TokenKind::Sub,
        TokenKind::Mult,
        TokenKind::Div,
        TokenKind::LParen,
        TokenKind::RParen,
    ];
    for (i, kind) in kinds.into_iter().enumerate() {
        assert_eq!(tokeniser.next_token(), Ok(Token { kind, value: None, pos: i }));
    }
    assert_eq!(tokeniser.next_token(), Ok(Token { kind: TokenKind::EOF, value: None, pos: 6 }));
}

#[test]
fn tokenise_skips_whitespace() {
    let mut tokeniser = Tokeniser::new(String::from("  \t42"));
    assert_eq!(
        tokeniser.next_token(),
        Ok(Token { kind: TokenKind::IntLiteral, value: Some(String::from("42")), pos: 3 })
    );
}

#[test]
fn tokenise_empty_source_gives_eof() {
    let mut tokeniser = Tokeniser::new(String::new());
    assert_eq!(tokeniser.next_token(), Ok(Token { kind: TokenKind::EOF, value: None, pos: 0 }));
}

#[test]
fn tokenise_malformed_decimal() {
    let mut tokeniser = Tokeniser::new(String::from("3."));
    assert_eq!(
        tokeniser.next_token(),
        Err(LexError::UnfinishedFloat { literal: String::from("3."), pos: 2 })
    );
}

#[test]
fn tokenise_decimal_point_then_non_digit() {
    let mut tokeniser = Tokeniser::new(String::from("12.x"));
    assert_eq!(
        tokeniser.next_token(),
        Err(LexError::UnfinishedFloat { literal: String::from("12."), pos: 3 })
    );
}

#[test]
fn tokenise_unrecognised_char() {
    let mut tokeniser = Tokeniser::new(String::from("&"));
    assert_eq!(tokeniser.next_token(), Err(LexError::UnrecognisedChar { ch: '&', pos: 0 }));
}

#[test]
fn token_empty_is_placeholder() {
    let token = Token::empty();
    assert_eq!(token, Token { kind: TokenKind::Empty, value: None, pos: 0 });
}
