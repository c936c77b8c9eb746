use vstd::prelude::*;

use crate::interpreter::{abs, trunc_quot};

verus! {

/// A stand-alone postfix calculator over whitespace-separated words, with
/// no spans and no syntax tree: numbers are pushed on a stack and each
/// operator replaces the top two values by its result.
///
/// Arithmetic is on `i32` and wraps around; a division or remainder by zero
/// is reported as invalid syntax at the operator.
pub struct RpnCalculator(pub bool);

#[derive(Debug, Clone, Copy, PartialEq, Eq, Hash)]
pub enum RpnCalculatorError {
    /// The 1-based position of the offending word, or `-1` when the words
    /// did not leave exactly one value.
    InvalidSyntax(i32),
}

/// The words of `s`, split at runs of Unicode whitespace.
pub uninterp spec fn whitespace_words(s: Seq<char>) -> Seq<Seq<char>>;

/// Relies on `str::split_whitespace`: the words of the text in order, with
/// the whitespace between them dropped.
#[verifier::external_body]
fn split_words(formula: &str) -> (r: Vec<&str>)
    ensures
        words_view(r@) == whitespace_words(formula@),
{
    formula.split_whitespace().collect()
}

/// The text of each word.
pub open spec fn words_view(ws: Seq<&str>) -> Seq<Seq<char>> {
    Seq::new(ws.len(), |i: int| ws[i]@)
}

pub open spec fn is_ascii_digit(c: char) -> bool {
    '0' <= c <= '9'
}

/// The value of a sequence of decimal digits, most significant first.
pub open spec fn decimal_value(d: Seq<char>) -> nat
    decreases d.len(),
{
    if d.len() == 0 {
        0
    } else {
        decimal_value(d.drop_last()) * 10 + (d.last() as int - '0' as int) as nat
    }
}

/// How `i32` reads a word: an optional `+` or `-`, then one or more ASCII
/// digits, whose signed value must fit in 32 bits.
pub open spec fn i32_of(w: Seq<char>) -> Option<i32> {
    let negative = w.len() > 0 && w[0] == '-';
    let digits = if w.len() > 0 && (w[0] == '-' || w[0] == '+') {
        w.drop_first()
    } else {
        w
    };
    let v = if negative {
        -decimal_value(digits)
    } else {
        decimal_value(digits) as int
    };
    if digits.len() > 0 && (forall|i: int| 0 <= i < digits.len() ==> is_ascii_digit(#[trigger] digits[i]))
        && i32::MIN <= v <= i32::MAX {
        Some(v as i32)
    } else {
        None
    }
}

/// Relies on `i32::from_str`, documented to take an optional `+` or `-`
/// followed by digits only, and to fail on anything else or on overflow.
#[verifier::external_body]
fn parse_i32(w: &str) -> (r: Option<i32>)
    ensures
        r == i32_of(w@),
{
    w.parse::<i32>().ok()
}

/// The operator a word names, if it is one of `+ - * / %`.
pub open spec fn op_of(w: Seq<char>) -> Option<char> {
    if w.len() == 1 && (w[0] == '+' || w[0] == '-' || w[0] == '*' || w[0] == '/' || w[0] == '%') {
        Some(w[0])
    } else {
        None
    }
}

/// The remainder of `a` by `b` that goes with the truncated quotient: it
/// takes the sign of `a`.
pub open spec fn trunc_rem(a: int, b: int) -> int {
    let r = abs(a) % abs(b);
    if a < 0 {
        -r
    } else {
        r
    }
}

/// `x op y`, wrapping around; `None` for a division or remainder by zero.
pub open spec fn apply_op(op: char, x: i32, y: i32) -> Option<i32> {
    if op == '+' {
        Some(vstd::wrapping::i32_specs::wrapping_add(x, y))
    } else if op == '-' {
        Some(vstd::wrapping::i32_specs::wrapping_sub(x, y))
    } else if op == '*' {
        Some(vstd::wrapping::i32_specs::wrapping_mul(x, y))
    } else if y == 0 {
        None
    } else if op == '/' {
        let q = trunc_quot(x as int, y as int);
        Some(
            if q > i32::MAX {
                i32::MIN
            } else {
                q as i32
            },
        )
    } else {
        Some(trunc_rem(x as int, y as int) as i32)
    }
}

/// The 1-based position of word `i`, saturated at `i32::MAX`.
pub open spec fn position(i: int) -> i32 {
    if i + 1 > i32::MAX {
        i32::MAX
    } else {
        (i + 1) as i32
    }
}

/// The stack left after running the words from `i` on, starting from `stack`.
pub open spec fn run_from(words: Seq<Seq<char>>, i: int, stack: Seq<i32>) -> Result<
    Seq<i32>,
    RpnCalculatorError,
>
    decreases words.len() - i,
{
    if i < 0 || i >= words.len() {
        Ok(stack)
    } else {
        match i32_of(words[i]) {
            Some(x) => run_from(words, i + 1, stack.push(x)),
            None => if stack.len() < 2 {
                Err(RpnCalculatorError::InvalidSyntax(position(i)))
            } else {
                let y = stack[stack.len() - 1];
                let x = stack[stack.len() - 2];
                match op_of(words[i]) {
                    Some(op) => match apply_op(op, x, y) {
                        Some(v) => run_from(words, i + 1, stack.drop_last().drop_last().push(v)),
                        None => Err(RpnCalculatorError::InvalidSyntax(position(i))),
                    },
                    None => Err(RpnCalculatorError::InvalidSyntax(position(i))),
                }
            },
        }
    }
}

/// The value of a postfix formula given as its words: the one value left on
/// the stack.
pub open spec fn calc_spec(words: Seq<Seq<char>>) -> Result<i32, RpnCalculatorError> {
    match run_from(words, 0, seq![]) {
        Ok(stack) => if stack.len() == 1 {
            Ok(stack[0])
        } else {
            Err(RpnCalculatorError::InvalidSyntax(-1i32))
        },
        Err(e) => Err(e),
    }
}

fn op_char(w: &str) -> (r: Option<char>)
    ensures
        r == op_of(w@),
{
    if w.unicode_len() != 1 {
        return None;
    }
    let c = w.get_char(0);
    if c == '+' || c == '-' || c == '*' || c == '/' || c == '%' {
        Some(c)
    } else {
        None
    }
}

fn apply(op: char, x: i32, y: i32) -> (r: Option<i32>)
    requires
        op_of(seq![op]) is Some,
    ensures
        r == apply_op(op, x, y),
{
    if op == '+' {
        Some(x.wrapping_add(y))
    } else if op == '-' {
        Some(x.wrapping_sub(y))
    } else if op == '*' {
        Some(x.wrapping_mul(y))
    } else if y == 0 {
        None
    } else {
        proof {
            let a = abs(x as int);
            let d = abs(y as int);
            assert(0 <= a / d <= a && 0 <= a % d < d) by (nonlinear_arith)
                requires
                    a >= 0,
                    d >= 1,
            ;
        }
        if op == '/' {
            match x.checked_div(y) {
                Some(q) => Some(q),
                None => Some(i32::MIN),
            }
        } else {
            match x.checked_rem(y) {
                Some(m) => Some(m),
                None => Some(0),
            }
        }
    }
}

fn position_of(i: usize) -> (r: i32)
    ensures
        r == position(i as int),
{
    if i >= 2147483647 {
        i32::MAX
    } else {
        (i + 1) as i32
    }
}

impl RpnCalculator {
    /// A calculator; `verbose` is kept for callers that trace evaluation.
    pub fn new(verbose: bool) -> (r: Self)
        ensures
            r.0 == verbose,
    {
        Self(verbose)
    }

    /// Evaluates a postfix formula of whitespace-separated words.
    pub fn eval(&self, formula: &str) -> (r: Result<i32, RpnCalculatorError>)
        ensures
            r == calc_spec(whitespace_words(formula@)),
    {
        let tokens = split_words(formula);
        self.eval_inner(&tokens)
    }

    /// Evaluates a postfix formula given as its words.
    pub fn eval_inner(&self, tokens: &Vec<&str>) -> (r: Result<i32, RpnCalculatorError>)
        ensures
            r == calc_spec(words_view(tokens@)),
    {
        let ghost words = words_view(tokens@);
        let mut stack: Vec<i32> = Vec::new();
        let mut i: usize = 0;
        while i < tokens.len()
            invariant
                words == words_view(tokens@),
                i <= tokens@.len(),
                run_from(words, 0, seq![]) == run_from(words, i as int, stack@),
            decreases tokens@.len() - i,
        {
            let token: &str = tokens[i];
            assert(words[i as int] == token@);
            match parse_i32(token) {
                Some(x) => {
                    stack.push(x);
                },
                None => {
                    if stack.len() < 2 {
                        return Err(RpnCalculatorError::InvalidSyntax(position_of(i)));
                    }
                    let ghost before = stack@;
                    let y = match stack.pop() {
                        Some(v) => v,
                        None => return Err(RpnCalculatorError::InvalidSyntax(position_of(i))),
                    };
                    let x = match stack.pop() {
                        Some(v) => v,
                        None => return Err(RpnCalculatorError::InvalidSyntax(position_of(i))),
                    };
                    let op = match op_char(token) {
                        Some(op) => op,
                        None => return Err(RpnCalculatorError::InvalidSyntax(position_of(i))),
                    };
                    assert(seq![op] =~= token@);
                    let v = match apply(op, x, y) {
                        Some(v) => v,
                        None => return Err(RpnCalculatorError::InvalidSyntax(position_of(i))),
                    };
                    assert(stack@ =~= before.drop_last().drop_last());
                    stack.push(v);
                },
            }
            i += 1;
        }
        if stack.len() == 1 {
            Ok(stack[0])
        } else {
            Err(RpnCalculatorError::InvalidSyntax(-1))
        }
    }
}

} // verus!
