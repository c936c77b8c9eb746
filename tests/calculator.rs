use exprlang::{RpnCalculator, RpnCalculatorError};

fn calc(input: &str) -> Result<i32, RpnCalculatorError> {
    RpnCalculator::new(false).eval(input)
}

#[test]
fn test_one_operand() {
    assert_eq!(calc("5").unwrap(), 5);
    assert_eq!(calc("50").unwrap(), 50);
    assert_eq!(calc("-50").unwrap(), -50);
}

#[test]
fn test_two_operand() {
    assert_eq!(calc("2 3 +").unwrap(), 5);
    assert_eq!(calc("2 3 *").unwrap(), 6);
    assert_eq!(calc("2 3 -").unwrap(), -1);
    assert_eq!(calc("2 3 /").unwrap(), 0);
    assert_eq!(calc("2 3 %").unwrap(), 2);
}

#[test]
fn test_error() {
    assert!(calc("").is_err());
    assert!(calc("1 1 1 +").is_err());
    assert!(calc("+ 1 1").is_err());
    assert!(calc("1 1 ^").is_err());
}

#[test]
fn calculator_error_positions() {
    assert_eq!(calc(""), Err(RpnCalculatorError::InvalidSyntax(-1)));
    assert_eq!(calc("1 1 1 +"), Err(RpnCalculatorError::InvalidSyntax(-1)));
    assert_eq!(calc("+ 1 1"), Err(RpnCalculatorError::InvalidSyntax(1)));
    assert_eq!(calc("1 1 ^"), Err(RpnCalculatorError::InvalidSyntax(3)));
    assert_eq!(calc("4 0 /"), Err(RpnCalculatorError::InvalidSyntax(3)));
    assert_eq!(calc("4 0 %"), Err(RpnCalculatorError::InvalidSyntax(3)));
}

#[test]
fn calculator_reads_words_like_i32() {
    assert_eq!(calc("+7"), Ok(7));
    assert_eq!(calc(" \t1\n2  +  "), Ok(3));
    assert_eq!(calc("-2147483648"), Ok(i32::MIN));
    assert_eq!(calc("2147483648"), Err(RpnCalculatorError::InvalidSyntax(1)));
    assert_eq!(calc("1 2 3 * +"), Ok(7));
}

#[test]
fn calculator_wraps_and_truncates() {
    assert_eq!(calc("2147483647 1 +"), Ok(i32::MIN));
    assert_eq!(calc("-2147483648 -1 /"), Ok(i32::MIN));
    assert_eq!(calc("-2147483648 -1 %"), Ok(0));
    assert_eq!(calc("-7 2 /"), Ok(-3));
    assert_eq!(calc("-7 2 %"), Ok(-1));
    assert_eq!(calc("7 -2 %"), Ok(1));
}

#[test]
fn calculator_takes_words_directly() {
    let calc = RpnCalculator::new(true);
    assert_eq!(calc.eval_inner(&vec!["6", "3", "/"]), Ok(2));
    assert_eq!(calc.eval_inner(&vec!["6", "+"]), Err(RpnCalculatorError::InvalidSyntax(2)));
}
