use exprlang::{lex, parse, Ast, BinOp, BinOpKind, Error, LexError, Loc, ParseError, Token, UniOp};

fn create_tokens() -> Vec<Token> {
    vec![
        Token::number(1, Loc(0, 1)),
        Token::plus(Loc(2, 3)),
        Token::number(2, Loc(4, 5)),
        Token::asterisk(Loc(6, 7)),
        Token::number(3, Loc(8, 9)),
        Token::minus(Loc(10, 11)),
        Token::minus(Loc(12, 13)),
        Token::number(10, Loc(14, 16)),
    ]
}

#[test]
fn test_lexer() {
    assert_eq!(lex("1 + 2 * 3 - - 10"), Ok(create_tokens()));
}

#[test]
fn test_parser() {
    let ast = parse(create_tokens());
    assert_eq!(
        ast,
        Ok(Ast::bin_op(
            BinOp::sub(Loc(10, 11)),
            Ast::bin_op(
                BinOp::add(Loc(2, 3)),
                Ast::num(1, Loc(0, 1)),
                Ast::bin_op(
                    BinOp::new(BinOpKind::Multi, Loc(6, 7)),
                    Ast::num(2, Loc(4, 5)),
                    Ast::num(3, Loc(8, 9)),
                    Loc(4, 9)
                ),
                Loc(0, 9),
            ),
            Ast::uni_op(
                UniOp::minus(Loc(12, 13)),
                Ast::num(10, Loc(14, 16)),
                Loc(12, 16)
            ),
            Loc(0, 16)
        ))
    );
}

#[test]
fn test_parse_error_redundant() {
    assert_eq!(
        "(+ 1 3)".parse::<Ast>(),
        Err(Error::Parser(ParseError::RedundantExpression(
            Token::number(3, Loc(5, 6))
        )))
    );
}

#[test]
fn test_parse_error_unclosed_open_paren() {
    assert_eq!(
        "1 + (2 - 3".parse::<Ast>(),
        Err(Error::Parser(ParseError::UnclosedOpenParen(Token::lparen(
            Loc(4, 5)
        ))))
    );
}

#[test]
fn test_parse_error_not_expression() {
    assert_eq!(
        "1 + 2 - * 3".parse::<Ast>(),
        Err(Error::Parser(ParseError::NotExpression(Token::asterisk(
            Loc(8, 9)
        ))))
    );
}

#[test]
fn test_parse_error_eof() {
    assert_eq!("1 +".parse::<Ast>(), Err(Error::Parser(ParseError::Eof)));
}

#[test]
fn test_parse_error_invalid_char() {
    assert_eq!(
        "aiueo".parse::<Ast>(),
        Err(Error::Lexer(LexError::invalid_char('a', Loc(0, 1))))
    );
}
