use exprlang::{
    caret_line, lex, parse, parse_source, Ast, Error, Interpreter, InterpreterError,
    InterpreterErrorKind, LexError, LexErrorKind, Loc, ParseError, RpnCompiler, Token,
};

fn eval_source(src: &str) -> Result<i64, InterpreterError> {
    let ast = parse_source(src).unwrap();
    Interpreter.eval(&ast)
}

fn compile_source(src: &str) -> String {
    let ast = parse_source(src).unwrap();
    RpnCompiler.compile(&ast)
}

#[test]
fn subtraction_is_left_associative() {
    assert_eq!(eval_source("8 - 3 - 2"), Ok(3));
    assert_eq!(eval_source("16 / 4 / 2"), Ok(2));
}

#[test]
fn multiplication_binds_tighter() {
    assert_eq!(eval_source("1 + 2 * 3"), Ok(7));
    assert_eq!(eval_source("(1 + 2) * 3"), Ok(9));
}

#[test]
fn division_by_zero_spans_the_division_node() {
    assert_eq!(
        eval_source("4 / 0"),
        Err(InterpreterError::new(InterpreterErrorKind::DivisionByZero, Loc(0, 5)))
    );
    assert_eq!(
        eval_source("1 + (8 / (2 - 2))"),
        Err(InterpreterError::new(InterpreterErrorKind::DivisionByZero, Loc(5, 15)))
    );
}

#[test]
fn division_truncates_toward_zero() {
    assert_eq!(eval_source("7 / 2"), Ok(3));
    assert_eq!(eval_source("-7 / 2"), Ok(-3));
    assert_eq!(eval_source("7 / -2"), Ok(-3));
    assert_eq!(eval_source("-7 / -2"), Ok(3));
}

#[test]
fn arithmetic_wraps_without_failing() {
    assert_eq!(eval_source("9223372036854775807 + 1"), Ok(i64::MIN));
    assert_eq!(eval_source("18446744073709551615"), Ok(-1));
    assert_eq!(eval_source("-9223372036854775808 / -1"), Ok(i64::MIN));
    assert_eq!(eval_source("4294967296 * 4294967296"), Ok(0));
    assert_eq!(eval_source("0 - 5 * 3 + -2"), Ok(-17));
}

#[test]
fn unary_plus_keeps_its_operand() {
    assert_eq!(eval_source("+5"), Ok(5));
    assert_eq!(eval_source("-(2 + 3)"), Ok(-5));
}

#[test]
fn compile_emits_postfix_text() {
    assert_eq!(compile_source("1 + 2 * 3 - - 10"), "1 2 3 * + -10 -");
    assert_eq!(compile_source("(1 + 2) * 3"), "1 2 + 3 *");
    assert_eq!(compile_source("0"), "0");
    assert_eq!(compile_source("+1234567890 / 7"), "+1234567890 7 /");
}

#[test]
fn compile_is_repeatable() {
    let ast = parse_source("8 - 3 - 2 * (4 / -1)").unwrap();
    let mut compiler = RpnCompiler;
    let first = compiler.compile(&ast);
    let second = compiler.compile(&ast);
    assert_eq!(first, second);
    assert_eq!(first, "8 3 - 2 4 -1 / * -");
}

#[test]
fn lexer_skips_every_kind_of_whitespace() {
    assert_eq!(
        lex(" \t12\n)"),
        Ok(vec![Token::number(12, Loc(2, 4)), Token::rparen(Loc(5, 6))])
    );
    assert_eq!(lex(""), Ok(vec![]));
}

#[test]
fn lexer_reports_literal_overflow() {
    assert_eq!(
        lex("1 + 18446744073709551616"),
        Err(LexError::literal_overflow(Loc(4, 24)))
    );
    assert_eq!(
        lex("18446744073709551615"),
        Ok(vec![Token::number(u64::MAX, Loc(0, 20))])
    );
    assert_eq!(lex("007"), Ok(vec![Token::number(7, Loc(0, 3))]));
}

#[test]
fn lexer_rejects_unknown_bytes() {
    assert_eq!(lex("1 % 2"), Err(LexError::invalid_char('%', Loc(2, 3))));
    assert_eq!(
        lex("1 % 2").unwrap_err().value,
        LexErrorKind::InvalidChar('%')
    );
}

#[test]
fn parser_errors_on_tokens() {
    assert_eq!(parse(vec![]), Err(ParseError::Eof));
    assert_eq!(
        parse(vec![Token::rparen(Loc(0, 1))]),
        Err(ParseError::NotExpression(Token::rparen(Loc(0, 1))))
    );
    assert_eq!(
        parse(vec![Token::number(1, Loc(0, 1)), Token::number(2, Loc(2, 3))]),
        Err(ParseError::RedundantExpression(Token::number(2, Loc(2, 3))))
    );
    assert_eq!(
        "(1 2)".parse::<Ast>(),
        Err(Error::Parser(ParseError::RedundantExpression(Token::number(
            2,
            Loc(3, 4)
        ))))
    );
}

#[test]
fn unary_binds_to_a_single_atom() {
    assert_eq!(
        "--1".parse::<Ast>(),
        Err(Error::Parser(ParseError::NotExpression(Token::minus(Loc(1, 2)))))
    );
}

#[test]
fn diagnostic_spans_stay_in_the_source() {
    let cases = ["1 +", "(+ 1 3)", "1 + (2 - 3", "1 + 2 - * 3", "aiueo", "", "99999999999999999999"];
    for src in cases {
        let err = parse_source(src).unwrap_err();
        let loc = err.diagnostic_loc(src);
        if err == Error::Parser(ParseError::Eof) {
            assert_eq!(loc, Loc(src.len(), src.len() + 1));
        } else {
            assert!(loc.0 <= loc.1 && loc.1 <= src.len());
        }
    }
    assert_eq!(parse_source("1 +").unwrap_err().diagnostic_loc("1 +"), Loc(3, 4));
    assert_eq!(parse_source("(+ 1 3)").unwrap_err().diagnostic_loc("(+ 1 3)"), Loc(5, 7));
    assert_eq!(parse_source("aiueo").unwrap_err().diagnostic_loc("aiueo"), Loc(0, 1));
}

#[test]
fn caret_line_marks_the_span() {
    assert_eq!(caret_line(&Loc(2, 5)), "  ^^^");
    assert_eq!(caret_line(&Loc(0, 1)), "^");
    assert_eq!(caret_line(&Loc(3, 3)), "   ");
}

#[test]
fn merge_covers_both_spans() {
    assert_eq!(Loc(4, 9).merge(&Loc(0, 1)), Loc(0, 9));
    assert_eq!(Loc(2, 3).merge(&Loc(5, 7)), Loc(2, 7));
}
